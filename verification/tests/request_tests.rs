use pact_engine::context::{PlanMatchingContext, ValueResolver};
use pact_engine::docpath::DocPath;
use pact_engine::plan::ExecutionPlan;
use pact_engine::request::{
  build_request_plan, execute_request_plan, setup_header_plan, setup_query_plan, short_description, HttpRequest, HttpRequestValueResolver,
  OptionalBody,
};
use pact_engine::rules::{MatchingRule, MatchingRuleCategory, RuleList};

fn request(method: &str, path: &str) -> HttpRequest {
  HttpRequest {
    method: method.to_string(),
    path: path.to_string(),
    query: None,
    headers: None,
    body: OptionalBody::Missing,
  }
}

const NO_QUERY_PLAN: &str = r#"    :"query parameters" (
      %expect:empty (
        $.query,
        %join (
          'Expected no query parameters but got ',
          $.query
        )
      )
    )"#;

const NO_QUERY_EXECUTED: &str = r#"    :"query parameters" (
      %expect:empty (
        $.query => {},
        %join (
          'Expected no query parameters but got ',
          $.query
        )
      ) => BOOL(true)
    )"#;

#[test]
fn simple_match_request_test() {
  let mut actual = request("put", "/test");
  actual.body = OptionalBody::Present(b"Some nice bit of text".to_vec(), Some("text/plain".to_string()));
  let mut expected = request("POST", "/test");
  expected.body = OptionalBody::Present(b"Some nice bit of text".to_vec(), Some("text/plain".to_string()));
  let mut context = PlanMatchingContext::new();
  let plan = build_request_plan(&expected, &context).unwrap();

  assert_eq!(format!(r#"(
  :request (
    :method (
      %match:equality (
        'POST',
        %upper-case (
          $.method
        ),
        NULL
      )
    ),
    :path (
      %match:equality (
        '/test',
        $.path,
        NULL
      )
    ),
{},
    :body (
      %if (
        %match:equality (
          'text/plain',
          $.content-type,
          NULL
        ),
        %match:equality (
          'Some nice bit of text',
          %convert:UTF8 (
            $.body
          ),
          NULL
        )
      )
    )
  )
)
"#, NO_QUERY_PLAN), plan.pretty_form());

  let executed_plan = execute_request_plan(&plan, &actual, &mut context).unwrap();
  assert_eq!(format!(r#"(
  :request (
    :method (
      %match:equality (
        'POST' => 'POST',
        %upper-case (
          $.method => 'put'
        ) => 'PUT',
        NULL => NULL
      ) => ERROR(Expected 'PUT' to be equal to 'POST')
    ),
    :path (
      %match:equality (
        '/test' => '/test',
        $.path => '/test',
        NULL => NULL
      ) => BOOL(true)
    ),
{},
    :body (
      %if (
        %match:equality (
          'text/plain' => 'text/plain',
          $.content-type => 'text/plain',
          NULL => NULL
        ) => BOOL(true),
        %match:equality (
          'Some nice bit of text' => 'Some nice bit of text',
          %convert:UTF8 (
            $.body => BYTES(21, U29tZSBuaWNlIGJpdCBvZiB0ZXh0)
          ) => 'Some nice bit of text',
          NULL => NULL
        ) => BOOL(true)
      ) => BOOL(true)
    )
  )
)
"#, NO_QUERY_EXECUTED), executed_plan.pretty_form());
}

fn path_regex_context() -> PlanMatchingContext {
  let mut context = PlanMatchingContext::new();
  let mut category = MatchingRuleCategory::empty("path");
  category.add_rules(DocPath { tokens: vec![] }, RuleList { rules: vec![MatchingRule::Regex("\\/test[0-9]+".to_string())] });
  context.request_rules = vec![category];
  context
}

#[test]
fn match_path_with_matching_rule() {
  let expected = request("get", "/test");
  let mut context = path_regex_context();
  let plan = build_request_plan(&expected, &context).unwrap();

  assert_eq!(format!(r#"(
  :request (
    :method (
      %match:equality (
        'GET',
        %upper-case (
          $.method
        ),
        NULL
      )
    ),
    :path (
      %match:regex (
        '/test',
        $.path,
        json:{{"regex":"\\/test[0-9]+"}}
      )
    ),
{}
  )
)
"#, NO_QUERY_PLAN), plan.pretty_form());

  let executed_plan = execute_request_plan(&plan, &request("get", "/test12345"), &mut context).unwrap();
  assert_eq!(format!(r#"(
  :request (
    :method (
      %match:equality (
        'GET' => 'GET',
        %upper-case (
          $.method => 'get'
        ) => 'GET',
        NULL => NULL
      ) => BOOL(true)
    ),
    :path (
      %match:regex (
        '/test' => '/test',
        $.path => '/test12345',
        json:{{"regex":"\\/test[0-9]+"}} => json:{{"regex":"\\/test[0-9]+"}}
      ) => BOOL(true)
    ),
{}
  )
)
"#, NO_QUERY_EXECUTED), executed_plan.pretty_form());

  let executed_plan = execute_request_plan(&plan, &request("get", "/test12345X"), &mut context).unwrap();
  assert_eq!(format!(r#"(
  :request (
    :method (
      %match:equality (
        'GET' => 'GET',
        %upper-case (
          $.method => 'get'
        ) => 'GET',
        NULL => NULL
      ) => BOOL(true)
    ),
    :path (
      %match:regex (
        '/test' => '/test',
        $.path => '/test12345X',
        json:{{"regex":"\\/test[0-9]+"}} => json:{{"regex":"\\/test[0-9]+"}}
      ) => ERROR(Expected '/test12345X' to match '\/test[0-9]+')
    ),
{}
  )
)
"#, NO_QUERY_EXECUTED), executed_plan.pretty_form());
}

#[test]
fn match_query_with_no_query_strings() {
  let expected = request("GET", "/");
  let mut context = PlanMatchingContext::new();
  let mut plan = ExecutionPlan::new("query-test");

  plan.add(setup_query_plan(&expected, &context.for_query()).unwrap());
  assert_eq!(r#"(
  :query-test (
    :"query parameters" (
      %expect:empty (
        $.query,
        %join (
          'Expected no query parameters but got ',
          $.query
        )
      )
    )
  )
)
"#, plan.pretty_form());

  let actual = request("GET", "/");
  let executed_plan = execute_request_plan(&plan, &actual, &mut context).unwrap();
  assert_eq!(r#"(
  :query-test (
    :"query parameters" (
      %expect:empty (
        $.query => {},
        %join (
          'Expected no query parameters but got ',
          $.query
        )
      ) => BOOL(true)
    )
  )
)
"#, executed_plan.pretty_form());

  let mut actual = request("GET", "/");
  actual.query = Some(vec![("a".to_string(), vec!["b".to_string()])]);
  let executed_plan = execute_request_plan(&plan, &actual, &mut context).unwrap();
  assert_eq!(r#"(
  :query-test (
    :"query parameters" (
      %expect:empty (
        $.query => {'a': 'b'},
        %join (
          'Expected no query parameters but got ' => 'Expected no query parameters but got ',
          $.query => {'a': 'b'}
        ) => "Expected no query parameters but got {'a': 'b'}"
      ) => ERROR(Expected no query parameters but got {'a': 'b'})
    )
  )
)
"#, executed_plan.pretty_form());
}

#[test]
fn short_description_upper_cases_the_method() {
  assert_eq!("GET /path/to", short_description(&request("get", "/path/to")));
  assert_eq!("POST /", short_description(&request("Post", "/")));
}

#[test]
fn value_at_rejects_unknown_paths() {
  let req = request("get", "/a");
  let mut path = DocPath::root();
  path.push_field("cookies");
  assert_eq!(Err("'$.cookies' is not valid for a HTTP request".to_string()), req.value_at(&path).map(|v| v.str_form()));
  let mut path = DocPath::root();
  path.push_field("path");
  assert_eq!(Ok("'/a'".to_string()), req.value_at(&path).map(|v| v.str_form()));
}

#[test]
fn content_type_comes_from_the_body_then_the_headers() {
  let mut req = request("get", "/");
  assert_eq!(None, req.content_type());
  req.headers = Some(vec![("Content-Type".to_string(), vec!["text/html".to_string()])]);
  assert_eq!(Some("text/html".to_string()), req.content_type());
  req.body = OptionalBody::Present(vec![1], Some("application/xml".to_string()));
  assert_eq!(Some("application/xml".to_string()), req.content_type());
}

#[test]
fn the_request_resolver_reads_the_request() {
  let resolver = HttpRequestValueResolver { request: request("get", "/a") };
  let context = PlanMatchingContext::new();
  let mut path = DocPath::root();
  path.push_field("method");
  assert_eq!(Ok("'get'".to_string()), resolver.resolve(&path, &context).map(|v| v.str_form()));
  let mut path = DocPath::root();
  path.push_field("other");
  assert_eq!(Err("'$.other' is not valid for a HTTP request".to_string()), resolver.resolve(&path, &context).map(|v| v.str_form()));
}

#[test]
fn match_headers_where_there_are_none() {
  let expected = request("GET", "/");
  let mut context = PlanMatchingContext::new();
  let mut plan = ExecutionPlan::new("header-test");

  plan.add(setup_header_plan(&expected, &context.for_query()).unwrap());
  assert_eq!(r#"(
  :header-test ()
)
"#, plan.pretty_form());

  let actual = request("GET", "/");
  let executed_plan = execute_request_plan(&plan, &actual, &mut context).unwrap();
  assert_eq!(r#"(
  :header-test ()
)
"#, executed_plan.pretty_form());

  let mut actual = request("GET", "/");
  actual.headers = Some(vec![("HEADER_X".to_string(), vec!["A".to_string()])]);
  let executed_plan = execute_request_plan(&plan, &actual, &mut context).unwrap();
  assert_eq!(r#"(
  :header-test ()
)
"#, executed_plan.pretty_form());
}
