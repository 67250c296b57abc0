use pact_engine::docpath::{DocPath, PathToken};
use pact_engine::form_urlencoded::{convert_json_value_to_query_params, process_form_urlencoded_json, FormUrlEncodedHandler};
use pact_engine::generators::{Generator, GeneratorCategory, GeneratorTestMode, Generators};
use pact_engine::json::JsonValue;
use pact_engine::request::OptionalBody;
use pact_engine::rules::{MatchingRule, MatchingRuleCategory, RuleList};

fn params(items: &[(&str, &str)]) -> Vec<(String, String)> {
  items.iter().map(|(k, v)| (k.to_string(), v.to_string())).collect()
}

fn abc() -> Vec<(String, String)> {
  params(&[("a", "100"), ("b", "B"), ("c", "C")])
}

fn path(tokens: Vec<PathToken>) -> DocPath {
  let mut all = vec![PathToken::Root];
  all.extend(tokens);
  DocPath { tokens: all }
}

fn field(name: &str) -> PathToken {
  PathToken::Field(name.to_string())
}

fn apply(params: Vec<(String, String)>, key: &DocPath, generator: Generator) -> Vec<(String, String)> {
  let mut handler = FormUrlEncodedHandler { params };
  handler.apply_key(key, &generator, &vec![]);
  handler.params
}

#[test]
fn applies_the_generator_to_a_valid_param() {
  let result = apply(abc(), &path(vec![field("b")]), Generator::RandomInt(0, 10));
  assert_ne!("B", result[1].1);
}

#[test]
fn does_not_apply_the_generator_to_invalid_param() {
  let result = apply(abc(), &path(vec![field("d")]), Generator::RandomInt(0, 10));
  assert_eq!(abc(), result);
}

#[test]
fn applies_the_generator_to_a_list_item() {
  let list = params(&[("a", "100"), ("b", "B1"), ("b", "B2"), ("c", "C")]);
  let result = apply(list, &path(vec![field("b"), PathToken::Index(1)]), Generator::RandomInt(0, 10));
  assert_ne!("B2", result[2].1);
  assert_eq!("B1", result[1].1);
}

#[test]
fn does_not_apply_the_generator_when_index_is_not_in_list() {
  let result = apply(abc(), &path(vec![field("b"), PathToken::Index(3)]), Generator::RandomInt(0, 10));
  assert_eq!(abc(), result);
}

#[test]
fn does_not_apply_the_generator_when_not_a_list() {
  let result = apply(abc(), &path(vec![field("a"), PathToken::Index(0)]), Generator::RandomInt(0, 10));
  assert_ne!("100", result[0].1);
}

#[test]
fn applies_the_generator_to_the_root() {
  let result = apply(abc(), &DocPath::root(), Generator::RandomInt(0, 10));
  assert_eq!(abc(), result);
}

#[test]
fn does_not_apply_the_generator_to_long_path() {
  let key = path(vec![field("a"), PathToken::Index(1), field("b"), field("2")]);
  let result = apply(abc(), &key, Generator::RandomInt(0, 10));
  assert_eq!(abc(), result);
}

#[test]
fn applies_the_generator_to_all_map_entries() {
  let result = apply(abc(), &path(vec![PathToken::Star]), Generator::RandomInt(0, 10));
  assert_eq!(abc(), result);
}

#[test]
fn applies_the_generator_to_all_list_items() {
  let result = apply(abc(), &path(vec![PathToken::StarIndex]), Generator::RandomInt(0, 10));
  assert_eq!(abc(), result);
}

#[test]
fn applies_the_generator_to_long_path_with_wildcard() {
  let key = path(vec![PathToken::Star, PathToken::Index(1), field("b"), PathToken::StarIndex]);
  let result = apply(abc(), &key, Generator::RandomInt(3, 10));
  assert_eq!(abc(), result);
}

#[test]
fn process_body_encodes_the_params() {
  let mut handler = FormUrlEncodedHandler { params: params(&[("a", "1 2"), ("b", "&")]) };
  let body = handler.process_body(&vec![], &GeneratorTestMode::Consumer, &vec![]).unwrap();
  match body {
    OptionalBody::Present(bytes, ct) => {
      assert_eq!(b"a=1+2&b=%26".to_vec(), bytes);
      assert_eq!(Some("application/x-www-form-urlencoded".to_string()), ct);
    }
    other => panic!("unexpected body {:?}", other),
  }
}

#[test]
fn process_body_skips_generators_of_the_other_mode() {
  let mut handler = FormUrlEncodedHandler { params: abc() };
  let generators = vec![(path(vec![field("a")]), Generator::ProviderStateGenerator("x".to_string(), None))];
  let body = handler.process_body(&generators, &GeneratorTestMode::Consumer, &vec![]).unwrap();
  assert_eq!(abc(), handler.params);
  match body {
    OptionalBody::Present(bytes, _) => assert_eq!(b"a=100&b=B&c=C".to_vec(), bytes),
    other => panic!("unexpected body {:?}", other),
  }
}

#[test]
fn json_objects_become_query_params() {
  let value = JsonValue::Object(vec![
    ("a".to_string(), JsonValue::Str("x".to_string())),
    ("b".to_string(), JsonValue::Array(vec![JsonValue::Number("1".to_string()), JsonValue::Bool(true)])),
    ("c".to_string(), JsonValue::Null),
  ]);
  let mut rules = MatchingRuleCategory::empty("body");
  let mut generators = Generators::new();
  let result = convert_json_value_to_query_params(&value, &mut rules, &mut generators);
  assert_eq!(params(&[("a", "x"), ("b", "1")]), result);
}

#[test]
fn unsupported_values_drop_their_rules_and_generators() {
  let value = JsonValue::Object(vec![
    ("n".to_string(), JsonValue::Number("123".to_string())),
    ("b".to_string(), JsonValue::Bool(true)),
  ]);
  let mut rules = MatchingRuleCategory::empty("body");
  rules.add_rules(path(vec![field("n")]), RuleList { rules: vec![MatchingRule::Number] });
  rules.add_rules(path(vec![field("b")]), RuleList { rules: vec![MatchingRule::Boolean] });
  let mut generators = Generators::new();
  generators.add_generator_with_subcategory(&GeneratorCategory::BODY, "$.n", Generator::RandomInt(0, 10));
  generators.add_generator_with_subcategory(&GeneratorCategory::BODY, "$.b", Generator::RandomBoolean);
  let result = convert_json_value_to_query_params(&value, &mut rules, &mut generators);
  assert_eq!(params(&[("n", "123")]), result);
  assert_eq!(1, rules.rules.len());
  assert_eq!("$.n", rules.rules[0].0.to_text());
  assert_eq!(1, generators.categories[0].1.len());
  assert_eq!("$.n", generators.categories[0].1[0].0);
}

#[test]
fn json_values_other_than_objects_give_no_query_params() {
  let mut rules = MatchingRuleCategory::empty("body");
  let mut generators = Generators::new();
  let result = convert_json_value_to_query_params(&JsonValue::Str("x".to_string()), &mut rules, &mut generators);
  assert!(result.is_empty());
}

#[test]
fn process_body_applies_the_generators_that_fit_the_mode() {
  let mut handler = FormUrlEncodedHandler { params: abc() };
  let generators = vec![
    (path(vec![field("a")]), Generator::RandomInt(5, 5)),
    (path(vec![field("c")]), Generator::RandomBoolean),
    (path(vec![field("c")]), Generator::RandomInt(7, 7)),
  ];
  let body = handler.process_body(&generators, &GeneratorTestMode::Consumer, &vec![]).unwrap();
  assert_eq!(params(&[("a", "5"), ("b", "B"), ("c", "7")]), handler.params);
  match body {
    OptionalBody::Present(bytes, _) => assert_eq!(b"a=5&b=B&c=7".to_vec(), bytes),
    other => panic!("unexpected body {:?}", other),
  }
}

#[test]
fn form_bodies_are_made_from_json_text() {
  let mut rules = MatchingRuleCategory::empty("body");
  rules.add_rules(path(vec![field("a")]), RuleList { rules: vec![MatchingRule::Number] });
  rules.add_rules(path(vec![field("c")]), RuleList { rules: vec![MatchingRule::Boolean] });
  let mut generators = Generators::new();
  generators.add_generator_with_subcategory(&GeneratorCategory::BODY, "$.c", Generator::RandomBoolean);
  let body = process_form_urlencoded_json(r#"{"a": 1, "b": ["x y", 2], "c": true}"#, &mut rules, &mut generators);
  assert_eq!(Ok("a=1&b=x+y&b=2".to_string()), body);
  assert_eq!(1, rules.rules.len());
  assert_eq!("$.a", rules.rules[0].0.to_text());
  assert!(generators.categories.iter().all(|(_, entries)| entries.is_empty()));

  let mut rules = MatchingRuleCategory::empty("body");
  let mut generators = Generators::new();
  let err = process_form_urlencoded_json("{", &mut rules, &mut generators).unwrap_err();
  assert!(err.starts_with("EOF while parsing an object"), "{}", err);
}
