use pact_engine::bodies::{JsonPlanBuilder, PlainTextBuilder, should_apply_to_map_entries};
use pact_engine::context::PlanMatchingContext;
use pact_engine::docpath::{DocPath, PathToken};
use pact_engine::rules::{MatchingRule, RuleList, MatchingRuleCategory};

fn plan_text(content: &str, context: &PlanMatchingContext) -> String {
  let builder = JsonPlanBuilder::new();
  let node = builder.build_plan(content.as_bytes(), context).unwrap();
  let mut buffer = String::new();
  node.pretty_form(&mut buffer, 0);
  buffer
}

fn field_path(names: &[&str]) -> DocPath {
  let mut tokens = vec![PathToken::Root];
  for n in names {
    tokens.push(PathToken::Field(n.to_string()));
  }
  DocPath { tokens }
}

fn body_context(path: DocPath, rule: MatchingRule) -> PlanMatchingContext {
  let mut context = PlanMatchingContext::new();
  let mut category = MatchingRuleCategory::empty("body");
  category.add_rules(path, RuleList { rules: vec![rule] });
  context.matching_rules = category;
  context
}

fn scalar_plan(json: &str) -> String {
  format!(r#"%tee (
  %json:parse (
    $.body
  ),
  :$ (
    %match:equality (
      json:{},
      %apply (),
      NULL
    )
  )
)"#, json)
}

#[test]
fn json_plan_builder_with_null() {
  assert_eq!(scalar_plan("null"), plan_text("null", &PlanMatchingContext::new()));
}

#[test]
fn json_plan_builder_with_boolean() {
  assert_eq!(scalar_plan("true"), plan_text("true", &PlanMatchingContext::new()));
}

#[test]
fn json_plan_builder_with_string() {
  assert_eq!(scalar_plan("\"I am a string!\""), plan_text("\"I am a string!\"", &PlanMatchingContext::new()));
}

#[test]
fn json_plan_builder_with_int() {
  assert_eq!(scalar_plan("1000"), plan_text("1000", &PlanMatchingContext::new()));
}

#[test]
fn json_plan_builder_with_float() {
  assert_eq!(scalar_plan("1000.3"), plan_text("1000.3", &PlanMatchingContext::new()));
}

#[test]
fn json_plan_builder_with_empty_array() {
  assert_eq!(r#"%tee (
  %json:parse (
    $.body
  ),
  :$ (
    %json:expect:empty (
      'ARRAY',
      ~>$
    )
  )
)"#, plan_text("[]", &PlanMatchingContext::new()));
}

#[test]
fn json_plan_builder_with_array() {
  assert_eq!(r#"%tee (
  %json:parse (
    $.body
  ),
  :$ (
    %json:match:length (
      'ARRAY',
      UINT(3),
      ~>$
    ),
    :$[0] (
      %if (
        %check:exists (
          ~>$[0]
        ),
        %match:equality (
          json:100,
          ~>$[0],
          NULL
        )
      )
    ),
    :$[1] (
      %if (
        %check:exists (
          ~>$[1]
        ),
        %match:equality (
          json:200,
          ~>$[1],
          NULL
        )
      )
    ),
    :$[2] (
      %if (
        %check:exists (
          ~>$[2]
        ),
        %match:equality (
          json:300,
          ~>$[2],
          NULL
        )
      )
    )
  )
)"#, plan_text("[100,200,300]", &PlanMatchingContext::new()));
}

#[test]
fn json_plan_builder_with_empty_object() {
  assert_eq!(r#"%tee (
  %json:parse (
    $.body
  ),
  :$ (
    %json:expect:empty (
      'OBJECT',
      ~>$
    )
  )
)"#, plan_text("{}", &PlanMatchingContext::new()));
}

#[test]
fn json_plan_builder_with_object() {
  assert_eq!(r#"%tee (
  %json:parse (
    $.body
  ),
  :$ (
    %json:expect:entries (
      'OBJECT',
      ['a', 'b', 'c'],
      ~>$
    ),
    %expect:only-entries (
      ['a', 'b', 'c'],
      ~>$
    ),
    :$.a (
      %match:equality (
        json:100,
        ~>$.a,
        NULL
      )
    ),
    :$.b (
      %match:equality (
        json:200,
        ~>$.b,
        NULL
      )
    ),
    :$.c (
      %match:equality (
        json:300,
        ~>$.c,
        NULL
      )
    )
  )
)"#, plan_text(r#"{"a":100,"b":200,"c":300}"#, &PlanMatchingContext::new()));
}

#[test]
fn json_plan_builder_with_object_with_matching_rule() {
  let context = body_context(field_path(&["a"]), MatchingRule::Regex("^[0-9]+$".to_string()));
  assert_eq!(r#"%tee (
  %json:parse (
    $.body
  ),
  :$ (
    %json:expect:entries (
      'OBJECT',
      ['a', 'b', 'c'],
      ~>$
    ),
    %expect:only-entries (
      ['a', 'b', 'c'],
      ~>$
    ),
    :$.a (
      #{'a must match the regular expression /^[0-9]+$/'},
      %match:regex (
        json:100,
        ~>$.a,
        json:{"regex":"^[0-9]+$"}
      )
    ),
    :$.b (
      %match:equality (
        json:200,
        ~>$.b,
        NULL
      )
    ),
    :$.c (
      %match:equality (
        json:300,
        ~>$.c,
        NULL
      )
    )
  )
)"#, plan_text(r#"{"a":100,"b":200,"c":300}"#, &context));
}

#[test]
fn json_plan_builder_with_array_and_type_matcher() {
  let mut context = body_context(field_path(&["item"]), MatchingRule::MinType(2));
  let mut star = field_path(&["item"]);
  star.tokens.push(PathToken::StarIndex);
  star.tokens.push(PathToken::Field("a".to_string()));
  context.matching_rules.add_rules(star, RuleList { rules: vec![MatchingRule::Type] });
  assert_eq!(r#"%tee (
  %json:parse (
    $.body
  ),
  :$ (
    %json:expect:entries (
      'OBJECT',
      ['item'],
      ~>$
    ),
    %expect:only-entries (
      ['item'],
      ~>$
    ),
    :$.item (
      #{'item must match by type and have at least 2 items'},
      %match:min-type (
        json:[{"a":100},{"a":200},{"a":300}],
        ~>$.item,
        json:{"min":2}
      ),
      %for-each (
        ~>$.item,
        :$.item[*] (
          %json:expect:entries (
            'OBJECT',
            ['a'],
            ~>$.item[*]
          ),
          %expect:only-entries (
            ['a'],
            ~>$.item[*]
          ),
          :$.item[*].a (
            #{'a must match by type'},
            %match:type (
              json:100,
              ~>$.item[*].a,
              json:{}
            )
          )
        )
      )
    )
  )
)"#, plan_text(r#"{"item":[{"a":100},{"a":200},{"a":300}]}"#, &context));
}

#[test]
fn json_plan_builder_rejects_content_that_is_not_json() {
  let builder = JsonPlanBuilder::new();
  let result = builder.build_plan(b"{", &PlanMatchingContext::new());
  assert_eq!(result.unwrap_err(), "EOF while parsing an object at line 1 column 1");
}

#[test]
fn json_plan_builder_namespace_is_json() {
  assert_eq!(JsonPlanBuilder::new().namespace(), Some("json".to_string()));
  assert_eq!(PlainTextBuilder::new().namespace(), None);
}

#[test]
fn plain_text_builder_compares_the_body_as_text() {
  let builder = PlainTextBuilder::new();
  let node = builder.build_plan(b"Some nice bit of text", &PlanMatchingContext::new()).unwrap();
  let mut buffer = String::new();
  node.pretty_form(&mut buffer, 0);
  assert_eq!(r#"%match:equality (
  'Some nice bit of text',
  %convert:UTF8 (
    $.body
  ),
  NULL
)"#, buffer);
}

#[test]
fn map_entry_rules_are_recognised() {
  assert!(should_apply_to_map_entries(&RuleList { rules: vec![MatchingRule::Type, MatchingRule::Values] }));
  assert!(should_apply_to_map_entries(&RuleList { rules: vec![MatchingRule::EachKey] }));
  assert!(should_apply_to_map_entries(&RuleList { rules: vec![MatchingRule::EachValue] }));
  assert!(!should_apply_to_map_entries(&RuleList { rules: vec![MatchingRule::Type, MatchingRule::Regex("x".to_string())] }));
  assert!(!should_apply_to_map_entries(&RuleList { rules: vec![] }));
}
