use pact_engine::json::JsonValue;
use pact_engine::plugins::{setup_plugin_config, InteractionPart, PluginData, PluginInteractionConfig};

fn from_serde(v: &serde_json::Value) -> JsonValue {
  match v {
    serde_json::Value::Null => JsonValue::Null,
    serde_json::Value::Bool(b) => JsonValue::Bool(*b),
    serde_json::Value::Number(n) => JsonValue::Number(n.to_string()),
    serde_json::Value::String(s) => JsonValue::Str(s.clone()),
    serde_json::Value::Array(items) => JsonValue::Array(items.iter().map(from_serde).collect()),
    serde_json::Value::Object(m) => JsonValue::Object(m.iter().map(|(k, v)| (k.clone(), from_serde(v))).collect()),
  }
}

fn to_serde(v: &JsonValue) -> serde_json::Value {
  match v {
    JsonValue::Null => serde_json::Value::Null,
    JsonValue::Bool(b) => serde_json::Value::Bool(*b),
    JsonValue::Number(n) => serde_json::from_str(n).unwrap(),
    JsonValue::Str(s) => serde_json::Value::String(s.clone()),
    JsonValue::Array(items) => serde_json::Value::Array(items.iter().map(to_serde).collect()),
    JsonValue::Object(entries) => entries_json(entries),
  }
}

fn entries_json(entries: &[(String, JsonValue)]) -> serde_json::Value {
  let mut m = serde_json::Map::new();
  for (k, v) in entries {
    m.insert(k.clone(), to_serde(v));
  }
  serde_json::Value::Object(m)
}

fn entries(json: &str) -> Vec<(String, JsonValue)> {
  match from_serde(&serde_json::from_str(json).unwrap()) {
    JsonValue::Object(m) => m,
    _ => panic!("not an object"),
  }
}

fn plugin(name: &str, version: &str, configuration: &str) -> PluginData {
  PluginData { name: name.to_string(), version: version.to_string(), configuration: entries(configuration) }
}

fn result_json(result: &[(String, PluginInteractionConfig)]) -> serde_json::Value {
  let mut m = serde_json::Map::new();
  for (name, config) in result {
    let mut c = serde_json::Map::new();
    c.insert("pact_configuration".to_string(), entries_json(&config.pact_configuration));
    c.insert("interaction_configuration".to_string(), entries_json(&config.interaction_configuration));
    m.insert(name.clone(), serde_json::Value::Object(c));
  }
  serde_json::Value::Object(m)
}

fn expected(json: &str) -> serde_json::Value {
  serde_json::from_str(json).unwrap()
}

#[test]
fn setup_plugin_config_extracts_plugin_data_from_the_pact_object_for_the_interaction() {
  let plugins = vec![plugin("plugin1", "1", r#"{"a": 100}"#), plugin("plugin2", "2", r#"{"b": 200}"#)];
  let interaction1 = Some(vec![("plugin1".to_string(), entries(r#"{"ia": 1000}"#))]);
  let interaction2 = Some(vec![("plugin2".to_string(), entries(r#"{"ib": 2000}"#))]);

  let result = setup_plugin_config(&plugins, &interaction1, InteractionPart::NoPart);
  assert_eq!(expected(r#"{
    "plugin1": {"pact_configuration": {"a": 100}, "interaction_configuration": {"ia": 1000}},
    "plugin2": {"pact_configuration": {"b": 200}, "interaction_configuration": {}}
  }"#), result_json(&result));

  let result = setup_plugin_config(&plugins, &interaction2, InteractionPart::NoPart);
  assert_eq!(expected(r#"{
    "plugin1": {"pact_configuration": {"a": 100}, "interaction_configuration": {}},
    "plugin2": {"pact_configuration": {"b": 200}, "interaction_configuration": {"ib": 2000}}
  }"#), result_json(&result));

  let result = setup_plugin_config(&plugins, &interaction1, InteractionPart::Request);
  assert_eq!(expected(r#"{
    "plugin1": {"pact_configuration": {"a": 100}, "interaction_configuration": {"ia": 1000}},
    "plugin2": {"pact_configuration": {"b": 200}, "interaction_configuration": {}}
  }"#), result_json(&result));
}

fn interaction_with_parts() -> Option<Vec<(String, Vec<(String, JsonValue)>)>> {
  Some(vec![("plugin1".to_string(), entries(r#"{
    "ia": 1000,
    "request": {"req": "req_value"},
    "response": {"res": "res_value"}
  }"#))])
}

#[test]
fn setup_plugin_config_extracts_plugin_data_from_the_request_part_for_the_interaction() {
  let plugins = vec![plugin("plugin1", "1", r#"{"a": 100}"#)];
  let interaction = interaction_with_parts();

  let result = setup_plugin_config(&plugins, &interaction, InteractionPart::NoPart);
  assert_eq!(expected(r#"{
    "plugin1": {"pact_configuration": {"a": 100}, "interaction_configuration": {
      "ia": 1000, "request": {"req": "req_value"}, "response": {"res": "res_value"}
    }}
  }"#), result_json(&result));

  let result = setup_plugin_config(&plugins, &interaction, InteractionPart::Request);
  assert_eq!(expected(r#"{
    "plugin1": {"pact_configuration": {"a": 100}, "interaction_configuration": {"req": "req_value"}}
  }"#), result_json(&result));
}

#[test]
fn setup_plugin_config_extracts_plugin_data_from_the_response_part_for_the_interaction() {
  let plugins = vec![plugin("plugin1", "1", r#"{"a": 100}"#)];
  let interaction = interaction_with_parts();

  let result = setup_plugin_config(&plugins, &interaction, InteractionPart::NoPart);
  assert_eq!(expected(r#"{
    "plugin1": {"pact_configuration": {"a": 100}, "interaction_configuration": {
      "ia": 1000, "request": {"req": "req_value"}, "response": {"res": "res_value"}
    }}
  }"#), result_json(&result));

  let result = setup_plugin_config(&plugins, &interaction, InteractionPart::Response);
  assert_eq!(expected(r#"{
    "plugin1": {"pact_configuration": {"a": 100}, "interaction_configuration": {"res": "res_value"}}
  }"#), result_json(&result));
}

#[test]
fn interactions_that_are_not_v4_give_plugins_no_interaction_configuration() {
  let plugins = vec![plugin("plugin1", "1", r#"{"a": 100}"#)];
  let result = setup_plugin_config(&plugins, &None, InteractionPart::Request);
  assert_eq!(expected(r#"{
    "plugin1": {"pact_configuration": {"a": 100}, "interaction_configuration": {}}
  }"#), result_json(&result));
}

#[test]
fn a_part_that_is_not_an_object_gives_no_entries() {
  let plugins = vec![plugin("plugin1", "1", "{}")];
  let interaction = Some(vec![("plugin1".to_string(), entries(r#"{"request": 5, "x": 1}"#))]);
  let result = setup_plugin_config(&plugins, &interaction, InteractionPart::Request);
  assert_eq!(expected(r#"{"plugin1": {"pact_configuration": {}, "interaction_configuration": {}}}"#), result_json(&result));
  let result = setup_plugin_config(&plugins, &interaction, InteractionPart::Response);
  assert_eq!(expected(r#"{"plugin1": {"pact_configuration": {}, "interaction_configuration": {"request": 5, "x": 1}}}"#), result_json(&result));
}

#[test]
fn a_later_plugin_of_the_same_name_replaces_an_earlier_one() {
  let plugins = vec![plugin("p", "1", r#"{"a": 1}"#), plugin("q", "1", "{}"), plugin("p", "2", r#"{"a": 2}"#)];
  let result = setup_plugin_config(&plugins, &None, InteractionPart::NoPart);
  assert_eq!(2, result.len());
  assert_eq!("p", result[0].0);
  assert_eq!(expected(r#"{"a": 2}"#), entries_json(&result[0].1.pact_configuration));
}
