use pact_engine::generators::{
  generate_decimal, generate_hexadecimal, generate_value_from_context, generators_from_json, generators_to_json,
  apply_generators, DataType, Generator, GeneratorCategory, GeneratorTestMode, Generators, PactSpecification,
};
use pact_engine::datetime::to_chrono_format;
use pact_engine::json::JsonValue;
use regex::Regex;

fn to_serde(v: &JsonValue) -> serde_json::Value {
  match v {
    JsonValue::Null => serde_json::Value::Null,
    JsonValue::Bool(b) => serde_json::Value::Bool(*b),
    JsonValue::Number(n) => serde_json::from_str(n).unwrap(),
    JsonValue::Str(s) => serde_json::Value::String(s.clone()),
    JsonValue::Array(items) => serde_json::Value::Array(items.iter().map(to_serde).collect()),
    JsonValue::Object(entries) => {
      let mut m = serde_json::Map::new();
      for (k, v) in entries {
        m.insert(k.clone(), to_serde(v));
      }
      serde_json::Value::Object(m)
    }
  }
}

fn from_serde(v: &serde_json::Value) -> JsonValue {
  match v {
    serde_json::Value::Null => JsonValue::Null,
    serde_json::Value::Bool(b) => JsonValue::Bool(*b),
    serde_json::Value::Number(n) => JsonValue::Number(n.to_string()),
    serde_json::Value::String(s) => JsonValue::Str(s.clone()),
    serde_json::Value::Array(items) => JsonValue::Array(items.iter().map(from_serde).collect()),
    serde_json::Value::Object(m) => JsonValue::Object(m.iter().map(|(k, v)| (k.clone(), from_serde(v))).collect()),
  }
}

fn js(text: &str) -> serde_json::Value {
  serde_json::from_str(text).unwrap()
}

fn map_of(json: &str) -> Vec<(String, JsonValue)> {
  match from_serde(&serde_json::from_str(json).unwrap()) {
    JsonValue::Object(m) => m,
    _ => panic!("not an object"),
  }
}

fn from_map(gen_type: &str, json: &str) -> Option<String> {
  Generator::from_map(gen_type, &map_of(json)).map(|g| format!("{:?}", g))
}

fn some(g: Generator) -> Option<String> {
  Some(format!("{:?}", g))
}

fn no_context() -> Vec<(String, JsonValue)> {
  vec![]
}

fn assert_matches(re: &str, value: &str) {
  assert!(Regex::new(re).unwrap().is_match(value), "'{}' does not match '{}'", value, re);
}

#[test]
fn rules_are_empty_when_there_are_no_categories() {
  assert!(Generators::new().is_empty());
}

#[test]
fn rules_are_empty_when_there_are_only_empty_categories() {
  let generators = Generators {
    categories: vec![
      (GeneratorCategory::BODY, vec![]),
      (GeneratorCategory::HEADER, vec![]),
      (GeneratorCategory::QUERY, vec![]),
    ],
  };
  assert!(generators.is_empty());
}

#[test]
fn rules_are_not_empty_when_there_is_a_nonempty_category() {
  let generators = Generators {
    categories: vec![
      (GeneratorCategory::BODY, vec![]),
      (GeneratorCategory::HEADER, vec![]),
      (GeneratorCategory::QUERY, vec![("a".to_string(), Generator::RandomInt(1, 10))]),
    ],
  };
  assert!(!generators.is_empty());
  assert!(generators.is_not_empty());
}

#[test]
fn matchers_from_json_test() {
  assert!(generators_from_json(&JsonValue::Null).categories.is_empty());
}

#[test]
fn generator_from_json_test() {
  assert_eq!(None, from_map("", "{}"));
  assert_eq!(None, from_map("Invalid", "{}"));
  assert_eq!(None, from_map("uuid", "{}"));
  assert_eq!(some(Generator::Uuid), from_map("Uuid", "{}"));
  assert_eq!(some(Generator::RandomBoolean), from_map("RandomBoolean", "{}"));
}

#[test]
fn randomint_generator_from_json_test() {
  assert_eq!(some(Generator::RandomInt(0, 10)), from_map("RandomInt", "{}"));
  assert_eq!(some(Generator::RandomInt(5, 10)), from_map("RandomInt", r#"{ "min": 5 }"#));
  assert_eq!(some(Generator::RandomInt(0, 5)), from_map("RandomInt", r#"{ "max": 5 }"#));
  assert_eq!(some(Generator::RandomInt(5, 6)), from_map("RandomInt", r#"{ "min": 5, "max": 6 }"#));
  assert_eq!(some(Generator::RandomInt(0, 1234567890)), from_map("RandomInt", r#"{ "min": 0, "max": 1234567890 }"#));
}

#[test]
fn random_decimal_generator_from_json_test() {
  assert_eq!(some(Generator::RandomDecimal(10)), from_map("RandomDecimal", "{}"));
  assert_eq!(some(Generator::RandomDecimal(10)), from_map("RandomDecimal", r#"{ "min": 5 }"#));
  assert_eq!(some(Generator::RandomDecimal(5)), from_map("RandomDecimal", r#"{ "digits": 5 }"#));
}

#[test]
fn random_hexadecimal_generator_from_json_test() {
  assert_eq!(some(Generator::RandomHexadecimal(10)), from_map("RandomHexadecimal", "{}"));
  assert_eq!(some(Generator::RandomHexadecimal(10)), from_map("RandomHexadecimal", r#"{ "min": 5 }"#));
  assert_eq!(some(Generator::RandomHexadecimal(5)), from_map("RandomHexadecimal", r#"{ "digits": 5 }"#));
}

#[test]
fn random_string_generator_from_json_test() {
  assert_eq!(some(Generator::RandomString(10)), from_map("RandomString", "{}"));
  assert_eq!(some(Generator::RandomString(10)), from_map("RandomString", r#"{ "min": 5 }"#));
  assert_eq!(some(Generator::RandomString(5)), from_map("RandomString", r#"{ "size": 5 }"#));
}

#[test]
fn regex_generator_from_json_test() {
  assert_eq!(None, from_map("Regex", "{}"));
  assert_eq!(None, from_map("Regex", r#"{ "min": 5 }"#));
  assert_eq!(some(Generator::Regex("\\d+".to_string())), from_map("Regex", r#"{ "regex": "\\d+" }"#));
  assert_eq!(some(Generator::Regex("5".to_string())), from_map("Regex", r#"{ "regex": 5 }"#));
}

#[test]
fn date_generator_from_json_test() {
  assert_eq!(some(Generator::Date(None)), from_map("Date", "{}"));
  assert_eq!(some(Generator::Date(None)), from_map("Date", r#"{ "min": 5 }"#));
  assert_eq!(some(Generator::Date(Some("yyyy-MM-dd".to_string()))), from_map("Date", r#"{ "format": "yyyy-MM-dd" }"#));
  assert_eq!(some(Generator::Date(Some("5".to_string()))), from_map("Date", r#"{ "format": 5 }"#));
}

#[test]
fn time_generator_from_json_test() {
  assert_eq!(some(Generator::Time(None)), from_map("Time", "{}"));
  assert_eq!(some(Generator::Time(None)), from_map("Time", r#"{ "min": 5 }"#));
  assert_eq!(some(Generator::Time(Some("yyyy-MM-dd".to_string()))), from_map("Time", r#"{ "format": "yyyy-MM-dd" }"#));
  assert_eq!(some(Generator::Time(Some("5".to_string()))), from_map("Time", r#"{ "format": 5 }"#));
}

#[test]
fn datetime_generator_from_json_test() {
  assert_eq!(some(Generator::DateTime(None)), from_map("DateTime", "{}"));
  assert_eq!(some(Generator::DateTime(None)), from_map("DateTime", r#"{ "min": 5 }"#));
  assert_eq!(some(Generator::DateTime(Some("yyyy-MM-dd".to_string()))), from_map("DateTime", r#"{ "format": "yyyy-MM-dd" }"#));
  assert_eq!(some(Generator::DateTime(Some("5".to_string()))), from_map("DateTime", r#"{ "format": 5 }"#));
}

#[test]
fn provider_state_generator_from_json_test() {
  assert_eq!(None, from_map("ProviderState", "{}"));
  assert_eq!(some(Generator::ProviderStateGenerator("5".to_string(), None)), from_map("ProviderState", r#"{ "expression": "5" }"#));
  assert_eq!(some(Generator::ProviderStateGenerator("5".to_string(), Some(DataType::INTEGER))),
    from_map("ProviderState", r#"{ "expression": "5", "dataType": "INTEGER" }"#));
}

fn gen_json(g: Generator) -> serde_json::Value {
  to_serde(&g.to_json().unwrap())
}

#[test]
fn generator_to_json_test() {
  assert_eq!(js(r#"{"type": "RandomInt", "min": 5, "max": 15}"#), gen_json(Generator::RandomInt(5, 15)));
  assert_eq!(js(r#"{"type": "Uuid"}"#), gen_json(Generator::Uuid));
  assert_eq!(js(r#"{"type": "RandomDecimal", "digits": 5}"#), gen_json(Generator::RandomDecimal(5)));
  assert_eq!(js(r#"{"type": "RandomHexadecimal", "digits": 5}"#), gen_json(Generator::RandomHexadecimal(5)));
  assert_eq!(js(r#"{"type": "RandomString", "size": 5}"#), gen_json(Generator::RandomString(5)));
  assert_eq!(js(r#"{"type": "Regex", "regex": "\\d+"}"#), gen_json(Generator::Regex("\\d+".to_string())));
  assert_eq!(js(r#"{"type": "RandomBoolean"}"#), gen_json(Generator::RandomBoolean));
  assert_eq!(js(r#"{"type": "Date", "format": "yyyyMMdd"}"#), gen_json(Generator::Date(Some("yyyyMMdd".to_string()))));
  assert_eq!(js(r#"{"type": "Date"}"#), gen_json(Generator::Date(None)));
  assert_eq!(js(r#"{"type": "Time", "format": "yyyyMMdd"}"#), gen_json(Generator::Time(Some("yyyyMMdd".to_string()))));
  assert_eq!(js(r#"{"type": "Time"}"#), gen_json(Generator::Time(None)));
  assert_eq!(js(r#"{"type": "DateTime", "format": "yyyyMMdd"}"#), gen_json(Generator::DateTime(Some("yyyyMMdd".to_string()))));
  assert_eq!(js(r#"{"type": "DateTime"}"#), gen_json(Generator::DateTime(None)));
  assert_eq!(js(r#"{"type": "ProviderState", "expression": "$a", "dataType": "INTEGER"}"#),
    gen_json(Generator::ProviderStateGenerator("$a".to_string(), Some(DataType::INTEGER))));
  assert_eq!(js(r#"{"type": "ProviderState", "expression": "$a"}"#),
    gen_json(Generator::ProviderStateGenerator("$a".to_string(), None)));
  assert_eq!(js(r#"{"type": "MockServerURL", "example": "http://localhost:1234/path", "regex": "(.*)/path"}"#),
    gen_json(Generator::MockServerURL("http://localhost:1234/path".to_string(), "(.*)/path".to_string())));
}

#[test]
fn generators_to_json_test() {
  let mut generators = Generators::new();
  generators.add_generator(&GeneratorCategory::STATUS, Generator::RandomInt(200, 299));
  generators.add_generator(&GeneratorCategory::PATH, Generator::Regex("\\d+".to_string()));
  generators.add_generator(&GeneratorCategory::METHOD, Generator::RandomInt(200, 299));
  generators.add_generator_with_subcategory(&GeneratorCategory::BODY, "$.1", Generator::RandomDecimal(4));
  generators.add_generator_with_subcategory(&GeneratorCategory::BODY, "$.2", Generator::RandomDecimal(4));
  generators.add_generator_with_subcategory(&GeneratorCategory::HEADER, "A", Generator::RandomDecimal(4));
  generators.add_generator_with_subcategory(&GeneratorCategory::HEADER, "B", Generator::RandomDecimal(4));
  generators.add_generator_with_subcategory(&GeneratorCategory::QUERY, "a", Generator::RandomDecimal(4));
  generators.add_generator_with_subcategory(&GeneratorCategory::QUERY, "b", Generator::RandomDecimal(4));
  let json = to_serde(&generators.to_json());
  assert_eq!(js(r#"{
    "body": {
      "$.1": {"digits": 4, "type": "RandomDecimal"},
      "$.2": {"digits": 4, "type": "RandomDecimal"}
    },
    "header": {
      "A": {"digits": 4, "type": "RandomDecimal"},
      "B": {"digits": 4, "type": "RandomDecimal"}
    },
    "method": {"max": 299, "min": 200, "type": "RandomInt"},
    "path": {"regex": "\\d+", "type": "Regex"},
    "query": {
      "a": {"digits": 4, "type": "RandomDecimal"},
      "b": {"digits": 4, "type": "RandomDecimal"}
    },
    "status": {"max": 299, "min": 200, "type": "RandomInt"}
  }"#), json);
}

#[test]
fn generate_decimal_test() {
  assert_matches(r"^\d{1,3}\.\d{1,3}$", &generate_decimal(4));
  assert_matches(r"^[0-9A-F]{4}$", &generate_hexadecimal(4));
}

#[test]
fn generate_int_with_max_int_test() {
  let generated = Generator::RandomInt(0, i32::MAX).generate_string(&no_context()).unwrap();
  assert_matches(r"^\d+$", &generated);
}

#[test]
fn date_generator_test() {
  let generated = Generator::Date(None).generate_string(&no_context()).unwrap();
  assert_matches(r"^\d{4}-\d{2}-\d{2}$", &generated);

  let generated2 = Generator::Date(Some("yyyy-MM-ddZ".to_string())).generate_string(&no_context()).unwrap();
  assert_matches(r"^\d{4}-\d{2}-\d{2}[-+]\d{4}$", &generated2);
}

#[test]
fn time_generator_test() {
  let generated = Generator::Time(None).generate_string(&no_context()).unwrap();
  assert_matches(r"^\d{2}:\d{2}:\d{2}$", &generated);

  let generated2 = Generator::Time(Some("HH:mm:ssZ".to_string())).generate_string(&no_context()).unwrap();
  assert_matches(r"^\d{2}:\d{2}:\d{2}[-+]\d+$", &generated2);
}

#[test]
fn datetime_generator_test() {
  let generated = Generator::DateTime(None).generate_string(&no_context()).unwrap();
  assert_matches(r"^\d{4}-\d{2}-\d{2}T\d{2}:\d{2}:\d{2}\.\d{3}[-+]\d+$", &generated);

  let generated2 = Generator::DateTime(Some("yyyy-MM-dd HH:mm:ssZ".to_string())).generate_string(&no_context()).unwrap();
  assert_matches(r"^\d{4}-\d{2}-\d{2} \d{2}:\d{2}:\d{2}[-+]\d+$", &generated2);
}

#[test]
fn date_patterns_become_chrono_formats() {
  assert_eq!(Ok("%Y-%m-%dT%H:%M:%S.%3f%z".to_string()), to_chrono_format("yyyy-MM-dd'T'HH:mm:ss.SSSZ"));
  assert_eq!(Ok("%y/%-m/%-d %I%p".to_string()), to_chrono_format("yy/M/d hha"));
  assert_eq!(Ok("%H o'clock, 100%%".to_string()), to_chrono_format("HH 'o''clock', 100%"));
  assert_eq!(Ok("%a %d %b %Y".to_string()), to_chrono_format("EEE dd MMM yyyy"));
  assert_eq!(Err("pattern letter 'Q' is not supported".to_string()), to_chrono_format("yyyy-QQ"));
  assert_eq!(Err("quoted text is not closed".to_string()), to_chrono_format("yyyy 'at"));
}

#[test]
fn invalid_date_patterns_are_reported() {
  assert_eq!(Err("DateTime format yyyy-QQ is not valid - pattern letter 'Q' is not supported".to_string()),
    Generator::DateTime(Some("yyyy-QQ".to_string())).generate_string(&no_context()));
}

#[test]
fn regex_generator_test() {
  let generated = Generator::Regex(r"\d{4}\w{1,4}".to_string()).generate_string(&no_context()).unwrap();
  assert_matches(r"^\d{4}\w{1,4}$", &generated);

  let generated = Generator::Regex(r"\d{1,2}/\d{1,2}".to_string()).generate_string(&no_context()).unwrap();
  assert_matches(r"^\d{1,2}/\d{1,2}$", &generated);

  let generated = Generator::Regex(r"^\d{1,2}/\d{1,2}$".to_string()).generate_string(&no_context()).unwrap();
  assert_matches(r"^\d{1,2}/\d{1,2}$", &generated);
}

#[test]
fn uuid_generator_test() {
  let generated = Generator::Uuid.generate_string(&no_context()).unwrap();
  assert_matches(r"^[a-fA-F0-9]{8}-[a-fA-F0-9]{4}-[a-fA-F0-9]{4}-[a-fA-F0-9]{4}-[a-fA-F0-9]{12}$", &generated);
}

#[test]
fn random_decimal_generator_test() {
  for _ in 1..10 {
    let generated = Generator::RandomDecimal(10).generate_string(&no_context()).unwrap();
    assert_eq!(11, generated.len());
    assert_matches(r"^\d+\.\d+$", &generated);
    let mut chars = generated.chars();
    let first_char = chars.next().unwrap();
    let second_char = chars.next().unwrap();
    assert!(first_char != '0' || (first_char == '0' && second_char == '.'));
  }
}

#[test]
fn handle_edge_case_when_digits_is_1() {
  let generated = Generator::RandomDecimal(1).generate_string(&no_context()).unwrap();
  assert_matches(r"^\d$", &generated);
}

#[test]
fn handle_edge_case_when_digits_is_2() {
  let generated = Generator::RandomDecimal(2).generate_string(&no_context()).unwrap();
  assert_matches(r"^\d\.\d$", &generated);
}

#[test]
fn mock_server_url_generator_test() {
  let generator = Generator::MockServerURL("http://localhost:1234/path".to_string(), ".*(/path)$".to_string());
  let context = vec![("mockServer".to_string(), from_serde(&js(r#"{
    "url": "http://192.168.2.1:2345/p",
    "port": 2345
  }"#)))];
  assert_eq!(Ok("http://192.168.2.1:2345/p/path".to_string()), generator.generate_string(&context));
  assert!(generator.generate_string(&no_context()).is_err());
}

#[test]
fn generators_round_trip_through_json() {
  let mut generators = Generators::new();
  generators.add_generator(&GeneratorCategory::STATUS, Generator::RandomInt(200, 299));
  generators.add_generator_with_subcategory(&GeneratorCategory::BODY, "$.a", Generator::Uuid);
  let pact = JsonValue::Object(vec![("generators".to_string(), generators.to_json())]);
  let loaded = generators_from_json(&pact);
  assert_eq!(format!("{:?}", generators), format!("{:?}", loaded));
}

#[test]
fn generators_to_json_is_null_before_version_three() {
  let mut generators = Generators::new();
  generators.add_generator(&GeneratorCategory::STATUS, Generator::RandomInt(200, 299));
  assert_eq!(serde_json::Value::Null, to_serde(&generators_to_json(&generators, &PactSpecification::V2)));
  assert_eq!(js(r#"{"status": {"max": 299, "min": 200, "type": "RandomInt"}}"#),
    to_serde(&generators_to_json(&generators, &PactSpecification::V3)));
}

#[test]
fn adding_a_generator_replaces_the_one_under_the_same_key() {
  let mut generators = Generators::new();
  generators.add_generator_with_subcategory(&GeneratorCategory::HEADER, "A", Generator::Uuid);
  generators.add_generator_with_subcategory(&GeneratorCategory::HEADER, "A", Generator::RandomBoolean);
  assert_eq!(1, generators.categories.len());
  assert_eq!(1, generators.categories[0].1.len());
  assert_eq!("RandomBoolean", format!("{:?}", generators.categories[0].1[0].1));
}

#[test]
fn category_names_are_read_in_any_case() {
  assert_eq!(Ok(GeneratorCategory::BODY), GeneratorCategory::from_str("Body"));
  assert_eq!(Err("'cookie' is not a valid GeneratorCategory".to_string()), GeneratorCategory::from_str("cookie"));
  assert_eq!("header", GeneratorCategory::HEADER.name());
}

#[test]
fn provider_state_generator_test() {
  let context = vec![("a".to_string(), JsonValue::Number("1234".to_string()))];
  let generator = Generator::ProviderStateGenerator("${a}".to_string(), Some(DataType::INTEGER));
  assert_eq!(Ok(1234u16), generator.generate_u16(0, &context));
}

#[test]
fn provider_state_expressions_are_replaced_from_the_context() {
  let context = vec![
    ("id".to_string(), JsonValue::Number("10".to_string())),
    ("name".to_string(), JsonValue::Str("Fred".to_string())),
  ];
  assert_eq!(Ok("/users/10/Fred".to_string()), generate_value_from_context("/users/${id}/${name}", &context));
  assert_eq!(Err("Value 'other' was not found in the provided context".to_string()),
    generate_value_from_context("/users/${other}", &context));
  assert_eq!(Err("expression is missing its closing brace".to_string()), generate_value_from_context("/users/${id", &context));

  let generator = Generator::ProviderStateGenerator("${id}".to_string(), None);
  let generated = generator.generate_json(&JsonValue::Number("1".to_string()), &context).unwrap();
  assert_eq!(serde_json::Value::from(10), to_serde(&generated));
  let generator = Generator::ProviderStateGenerator("id ${id}".to_string(), None);
  let generated = generator.generate_json(&JsonValue::Number("1".to_string()), &context).unwrap();
  assert_eq!(serde_json::Value::from("id 10"), to_serde(&generated));
}

#[test]
fn context_values_are_found_by_key() {
  let context = vec![("a".to_string(), JsonValue::Number("1234".to_string()))];
  assert_eq!(Ok("1234".to_string()), generate_value_from_context("a", &context));
  assert_eq!(Err("Value 'b' was not found in the provided context".to_string()), generate_value_from_context("b", &context));
}

#[test]
fn only_generators_for_the_mode_are_applied() {
  let generators = vec![
    ("a".to_string(), Generator::Uuid),
    ("b".to_string(), Generator::ProviderStateGenerator("x".to_string(), None)),
    ("c".to_string(), Generator::MockServerURL("http://a/b".to_string(), ".*(/b)".to_string())),
  ];
  let consumer: Vec<String> = apply_generators(&GeneratorTestMode::Consumer, &generators).into_iter().map(|(k, _)| k).collect();
  let provider: Vec<String> = apply_generators(&GeneratorTestMode::Provider, &generators).into_iter().map(|(k, _)| k).collect();
  assert_eq!(vec!["a".to_string(), "c".to_string()], consumer);
  assert_eq!(vec!["a".to_string(), "b".to_string()], provider);
}

#[test]
fn random_ints_stay_in_range() {
  for _ in 0..20 {
    let generated: i64 = Generator::RandomInt(5, 7).generate_string(&no_context()).unwrap().parse().unwrap();
    assert!((5..=7).contains(&generated));
  }
}

#[test]
fn generators_are_not_empty_after_an_add() {
  let mut generators = Generators {
    categories: vec![(GeneratorCategory::BODY, vec![])],
  };
  assert!(generators.is_empty());
  generators.add_generator_with_subcategory(&GeneratorCategory::BODY, "$.x", Generator::Uuid);
  assert!(!generators.is_empty());
}

#[test]
fn data_types_read_back_from_their_names() {
  for d in [DataType::STRING, DataType::INTEGER, DataType::DECIMAL, DataType::FLOAT, DataType::RAW, DataType::BOOLEAN] {
    assert_eq!(d, DataType::from_json(&JsonValue::Str(d.name().to_string())));
  }
  assert_eq!(DataType::RAW, DataType::from_json(&JsonValue::Number("1".to_string())));
}

#[test]
fn generators_without_numbers_read_back_from_their_json() {
  let all = vec![
    Generator::Uuid,
    Generator::RandomBoolean,
    Generator::Regex("\\d+".to_string()),
    Generator::Date(Some("yyyy".to_string())),
    Generator::Time(None),
    Generator::DateTime(Some("HH".to_string())),
    Generator::ProviderStateGenerator("${a}".to_string(), Some(DataType::DECIMAL)),
    Generator::ProviderStateGenerator("b".to_string(), None),
    Generator::MockServerURL("http://x/y".to_string(), ".*(/y)".to_string()),
  ];
  for g in all {
    let json = g.to_json().unwrap();
    let (gen_type, map) = match &json {
      JsonValue::Object(entries) => {
        let t = entries.iter().find(|(k, _)| k == "type").map(|(_, v)| v).unwrap();
        match t {
          JsonValue::Str(t) => (t.clone(), entries),
          _ => panic!("type is not a string"),
        }
      }
      _ => panic!("not an object"),
    };
    assert_eq!(Some(format!("{:?}", g)), Generator::from_map(&gen_type, map).map(|r| format!("{:?}", r)));
  }
}

#[test]
fn mock_server_url_replaces_only_the_first_match_and_keeps_the_rest() {
  let context = vec![("mockServer".to_string(), from_serde(&js(r#"{"url": "http://h:1"}"#)))];
  let generator = Generator::MockServerURL("http://a/x?q=http://a/y".to_string(), "http://a(/\\w)".to_string());
  assert_eq!(Ok("http://h:1/x?q=http://a/y".to_string()), generator.generate_string(&context));
  let generator = Generator::MockServerURL("no url here".to_string(), "http://a(/\\w)".to_string());
  assert_eq!(Ok("no url here".to_string()), generator.generate_string(&context));
  let generator = Generator::MockServerURL("http://a/x".to_string(), "http://a".to_string());
  assert_eq!(Ok("http://h:1/x".to_string()), generator.generate_string(&context));
  let generator = Generator::MockServerURL("http://a/x".to_string(), "(".to_string());
  assert!(generator.generate_string(&context).unwrap_err().starts_with("MockServerURL: Failed to generate value: "));
}

#[test]
fn generators_with_numbers_read_back_from_their_json() {
  let cases = vec![
    (Generator::RandomInt(-5, 15), Generator::RandomInt(-5, 15)),
    (Generator::RandomInt(i32::MIN, i32::MAX), Generator::RandomInt(i32::MIN, i32::MAX)),
    (Generator::RandomDecimal(7), Generator::RandomDecimal(7)),
    (Generator::RandomHexadecimal(65535), Generator::RandomHexadecimal(65535)),
    (Generator::RandomString(0), Generator::RandomString(0)),
  ];
  for (g, expected) in cases {
    let map = match g.to_json().unwrap() {
      JsonValue::Object(m) => m,
      _ => panic!("not an object"),
    };
    let gen_type = map.iter().find_map(|(k, v)| match v {
      JsonValue::Str(s) if k == "type" => Some(s.clone()),
      _ => None,
    }).unwrap();
    assert_eq!(Some(expected), Generator::from_map(&gen_type, &map));
  }
}

#[test]
fn a_list_of_strings_gets_one_generated_string() {
  let generated = Generator::RandomInt(3, 3).generate_string_list(&vec!["x".to_string(), "y".to_string()], &no_context()).unwrap();
  assert_eq!(vec!["3".to_string()], generated);
  assert!(Generator::ProviderStateGenerator("a".to_string(), None).generate_string_list(&vec![], &no_context()).is_err());
}

#[test]
fn u16_values_come_from_random_ints_and_the_provider_state() {
  let v = Generator::RandomInt(3, 5).generate_u16(0, &no_context()).unwrap();
  assert!((3..=5).contains(&v));
  assert_eq!(Err("Could not generate a u16 value from 7 using Regex(\"\\\\d\")".to_string()),
    Generator::Regex("\\d".to_string()).generate_u16(7, &no_context()));
  let context = vec![("a".to_string(), JsonValue::Str("big".to_string()))];
  assert!(Generator::ProviderStateGenerator("a".to_string(), None).generate_u16(0, &context).is_err());
  assert_eq!("Date(None)", Generator::Date(None).debug_form());
  assert_eq!("RandomInt(-1, 2)", Generator::RandomInt(-1, 2).debug_form());
  assert_eq!("ProviderStateGenerator(\"x\", Some(INTEGER))",
    Generator::ProviderStateGenerator("x".to_string(), Some(DataType::INTEGER)).debug_form());
}

#[test]
fn random_decimals_in_json_numbers_are_written_as_floats() {
  let one = Generator::RandomDecimal(1).generate_json(&JsonValue::Number("1".to_string()), &no_context()).unwrap();
  match one {
    JsonValue::Number(t) => assert_matches(r"^\d\.0$", &t),
    other => panic!("unexpected {:?}", other),
  }
  let err = Generator::RandomDecimal(0).generate_json(&JsonValue::Number("1".to_string()), &no_context()).unwrap_err();
  assert_eq!("Could not generate a random decimal from 1 - cannot parse float from empty string", err);
}

#[test]
fn mock_server_details_that_are_not_an_object_are_reported() {
  let context = vec![("mockServer".to_string(), JsonValue::Str("x".to_string()))];
  let generator = Generator::MockServerURL("http://a/b".to_string(), ".*(/b)".to_string());
  assert_eq!(Err("MockServerURL: can not generate a value as the mock server details in the test context is not an Object".to_string()),
    generator.generate_json(&JsonValue::Str("x".to_string()), &context).map(|_| ()));
  assert_eq!(Err("MockServerURL: can not generate a value as there is no mock server details in the test context".to_string()),
    generator.generate_string(&context));
}
