use pact_engine::base64::base64_encode;
use pact_engine::bodies::JsonPlanBuilder;
use pact_engine::context::{PlanMatchingContext, ValueResolver};
use pact_engine::docpath::DocPath;
use pact_engine::exec::walk_tree;
use pact_engine::logging::LogBuffers;
use pact_engine::plan::{ExecutionPlan, ExecutionPlanNode, PlanNodeType};
use pact_engine::result::NodeResult;
use pact_engine::value::NodeValue;

struct BodyResolver {
  bytes: Vec<u8>,
}

impl ValueResolver for BodyResolver {
  fn resolve(&self, _path: &DocPath, _context: &PlanMatchingContext) -> Result<NodeValue, String> {
    Ok(NodeValue::BARRAY(self.bytes.clone()))
  }
}

fn text(r: &NodeResult) -> String {
  r.to_text()
}

fn null() -> NodeResult {
  NodeResult::VALUE(NodeValue::NULL)
}

fn err() -> NodeResult {
  NodeResult::ERROR(String::new())
}

#[test]
fn node_value_str_form_escapes_strings() {
  let cases = [
    ("", "''"),
    ("simple", "'simple'"),
    ("simple sentence", "'simple sentence'"),
    ("\"quoted sentence\"", "'\"quoted sentence\"'"),
    ("'quoted sentence'", "\"'quoted sentence'\""),
    ("new\nline", "\"new\\nline\""),
  ];
  for (input, expected) in cases {
    assert_eq!(expected, NodeValue::STRING(input.to_string()).str_form());
  }
}

#[test]
fn node_result_or() {
  let failed = "ERROR(One or more children failed)";
  let cases: Vec<(NodeResult, Option<NodeResult>, &str)> = vec![
    (NodeResult::OK, None, "OK"),
    (null(), None, "NULL"),
    (err(), None, "ERROR()"),
    (NodeResult::OK, Some(NodeResult::OK), "OK"),
    (NodeResult::OK, Some(null()), "NULL"),
    (NodeResult::OK, Some(err()), failed),
    (null(), Some(NodeResult::OK), "NULL"),
    (null(), Some(null()), "NULL"),
    (null(), Some(err()), failed),
    (err(), Some(NodeResult::OK), failed),
    (err(), Some(null()), failed),
    (err(), Some(err()), failed),
  ];
  for (a, b, expected) in cases {
    assert_eq!(expected, text(&a.or(&b)));
  }
}

#[test]
fn node_values_have_string_forms() {
  assert_eq!("NULL", NodeValue::NULL.str_form());
  assert_eq!("BOOL(true)", NodeValue::BOOL(true).str_form());
  assert_eq!("UINT(3)", NodeValue::UINT(3).str_form());
  assert_eq!("BYTES(4, bnVsbA==)", NodeValue::BARRAY(b"null".to_vec()).str_form());
  assert_eq!("['a', 'b c']", NodeValue::SLIST(vec!["a".to_string(), "b c".to_string()]).str_form());
  assert_eq!("{'a': 'b', 'c': ['d', 'e'], 'f': []}", NodeValue::MMAP(vec![
    ("a".to_string(), vec!["b".to_string()]),
    ("c".to_string(), vec!["d".to_string(), "e".to_string()]),
    ("f".to_string(), vec![]),
  ]).str_form());
  assert_eq!("json:1", NodeValue::NAMESPACED("json".to_string(), "1".to_string()).str_form());
}

#[test]
fn results_are_truthy_unless_errors_or_false_values() {
  assert!(NodeResult::OK.is_truthy());
  assert!(NodeResult::VALUE(NodeValue::BOOL(true)).is_truthy());
  assert!(!NodeResult::VALUE(NodeValue::BOOL(false)).is_truthy());
  assert!(!err().is_truthy());
}

#[test]
fn empty_containers_are_not_added_to_a_plan() {
  let mut plan = ExecutionPlan::new("test");
  plan.add(ExecutionPlanNode::container("empty"));
  assert_eq!("(\n  :test ()\n)\n", plan.pretty_form());
  plan.add(ExecutionPlanNode::container("child").with(ExecutionPlanNode::value_node(NodeValue::NULL)));
  assert_eq!("(\n  :test (\n    :child (\n      NULL\n    )\n  )\n)\n", plan.pretty_form());
}

#[test]
fn the_context_stack_is_last_in_first_out() {
  let mut context = PlanMatchingContext::new();
  assert!(context.stack_value().is_none());
  context.push_result(Some(NodeResult::VALUE(NodeValue::UINT(1))));
  context.push_result(Some(NodeResult::VALUE(NodeValue::UINT(2))));
  assert_eq!("UINT(2)", text(&context.stack_value().unwrap()));
  assert_eq!("UINT(2)", text(&context.pop_result().unwrap()));
  context.update_result(Some(NodeResult::OK));
  assert_eq!("OK", text(&context.pop_result().unwrap()));
  assert!(context.pop_result().is_none());
}

fn run_json_plan(expected: &str, actual: &str) -> String {
  let builder = JsonPlanBuilder::new();
  let mut context = PlanMatchingContext::new();
  let node = builder.build_plan(expected.as_bytes(), &context).unwrap();
  let resolver = BodyResolver { bytes: actual.as_bytes().to_vec() };
  let path = vec!["$".to_string()];
  let result = walk_tree(&path, &node, &resolver, &mut context).unwrap();
  let mut buffer = String::new();
  result.pretty_form(&mut buffer, 2);
  buffer
}

#[test]
fn walking_a_json_plan_parses_and_compares_the_body() {
  let result = run_json_plan("null", "null");
  assert!(result.contains("%json:parse (\n      $.body => BYTES(4, bnVsbA==)\n    ) => json:null"), "{}", result);
  assert!(result.contains("%apply () => json:null,\n        NULL => NULL\n      ) => BOOL(true)"), "{}", result);

  let result = run_json_plan("null", "true");
  assert!(result.contains("ERROR(Expected true (Boolean) to be equal to null (Null))"), "{}", result);

  let result = run_json_plan("[]", "false");
  assert!(result.contains("ERROR(Was expecting a JSON Array but got a Boolean)"), "{}", result);

  let result = run_json_plan("[]", "[true]");
  assert!(result.contains("ERROR(Expected JSON Array ([true]) to be empty)"), "{}", result);

  let result = run_json_plan("[1,2,3]", "[true]");
  assert!(result.contains("ERROR(Was expecting a length of 3, but actual length is 1)"), "{}", result);
  assert!(result.contains("ERROR(Expected true (Boolean) to be equal to 1 (Integer))"), "{}", result);
}

#[test]
fn walking_a_json_plan_reports_a_body_that_does_not_parse() {
  let result = run_json_plan("null", "{");
  assert!(result.contains("ERROR(json parse error - EOF while parsing an object at line 1 column 1)"), "{}", result);
}

#[test]
fn log_buffers_keep_what_was_written_until_fetched() {
  let mut buffers = LogBuffers::new();
  buffers.write_to_log_buffer("a", b"one ");
  buffers.write_to_log_buffer("b", b"other");
  buffers.write_to_log_buffer("a", b"two");
  assert_eq!(b"one two".to_vec(), buffers.fetch_buffer_contents("a"));
  assert_eq!(Vec::<u8>::new(), buffers.fetch_buffer_contents("a"));
  assert_eq!(b"other".to_vec(), buffers.fetch_buffer_contents("b"));
  assert_eq!(Vec::<u8>::new(), buffers.fetch_buffer_contents("c"));
}

#[test]
fn the_last_field_of_a_joined_path_is_the_joined_name() {
  let path = DocPath::root().join("a").join_index(2).join("b");
  assert_eq!(Some("b".to_string()), path.last_field());
  assert_eq!("$.a[2].b", path.to_text());
  assert_eq!(Some("a".to_string()), DocPath::root().join("a").join_index(1).last_field());
  assert_eq!(None, DocPath::root().last_field());
}

fn walk_json(expected: &str, actual: &str) -> (ExecutionPlanNode, PlanMatchingContext) {
  let builder = JsonPlanBuilder::new();
  let mut context = PlanMatchingContext::new();
  let node = builder.build_plan(expected.as_bytes(), &context).unwrap();
  let resolver = BodyResolver { bytes: actual.as_bytes().to_vec() };
  let path = vec!["$".to_string()];
  let result = walk_tree(&path, &node, &resolver, &mut context).unwrap();
  (result, context)
}

#[test]
fn a_false_body_against_true_makes_the_container_and_the_tee_false() {
  let (result, context) = walk_json("true", "false");
  assert_eq!(Some("BOOL(false)".to_string()), result.result.as_ref().map(text));
  assert_eq!(Some("json:false".to_string()), result.children[0].result.as_ref().map(text));
  assert_eq!(Some("BOOL(false)".to_string()), result.children[1].result.as_ref().map(text));
  assert_eq!(Some("ERROR(Expected false (Boolean) to be equal to true (Boolean))".to_string()),
    result.children[1].children[0].result.as_ref().map(text));
  assert!(context.value_stack.is_empty());

  let (result, context) = walk_json("true", "true");
  assert_eq!(Some("BOOL(true)".to_string()), result.result.as_ref().map(text));
  assert_eq!(Some("BOOL(true)".to_string()), result.children[1].result.as_ref().map(text));
  assert!(context.value_stack.is_empty());
}

#[test]
fn a_tee_stops_at_the_error_of_its_first_child() {
  let (result, context) = walk_json("null", "{");
  assert_eq!(Some("ERROR(json parse error - EOF while parsing an object at line 1 column 1)".to_string()),
    result.result.as_ref().map(text));
  assert_eq!(result.result.as_ref().map(text), result.children[0].result.as_ref().map(text));
  assert!(result.children[1].result.is_none());
  assert!(result.children[1].children[0].result.is_none());
  assert!(context.value_stack.is_empty());
}

#[test]
fn a_pipeline_gives_the_result_of_its_last_child() {
  let mut pipeline = ExecutionPlanNode { node_type: PlanNodeType::PIPELINE, result: None, children: vec![] };
  pipeline.add(ExecutionPlanNode::value_node(NodeValue::STRING("a".to_string())));
  pipeline.add(ExecutionPlanNode::value_node(NodeValue::UINT(2)));
  let mut context = PlanMatchingContext::new();
  let resolver = BodyResolver { bytes: vec![] };
  let result = walk_tree(&vec![], &pipeline, &resolver, &mut context).unwrap();
  assert_eq!(Some("UINT(2)".to_string()), result.result.as_ref().map(text));
  assert!(context.value_stack.is_empty());

  let empty = ExecutionPlanNode { node_type: PlanNodeType::PIPELINE, result: None, children: vec![] };
  let result = walk_tree(&vec![], &empty, &resolver, &mut context).unwrap();
  assert_eq!(Some("ERROR(Value from stack is empty)".to_string()), result.result.as_ref().map(text));
  assert!(context.value_stack.is_empty());
}

#[test]
fn checking_entries_leaves_the_stack_as_it_was() {
  let mut node = ExecutionPlanNode::action("expect:only-entries");
  node.add(ExecutionPlanNode::value_node(NodeValue::SLIST(vec!["a".to_string()])));
  node.add(ExecutionPlanNode::value_node(NodeValue::MMAP(vec![
    ("a".to_string(), vec!["b".to_string()]),
    ("b".to_string(), vec!["c".to_string()]),
  ])));
  let mut context = PlanMatchingContext::new();
  context.push_result(Some(NodeResult::OK));
  let resolver = BodyResolver { bytes: vec![] };
  let result = walk_tree(&vec![], &node, &resolver, &mut context).unwrap();
  assert_eq!(Some("ERROR(The following unexpected entries were received: ['b'])".to_string()),
    result.result.as_ref().map(text));
  assert_eq!(1, context.value_stack.len());

  let mut unknown = ExecutionPlanNode::action("no-such-action");
  unknown.add(ExecutionPlanNode::action("push"));
  let result = walk_tree(&vec![], &unknown, &resolver, &mut context).unwrap();
  assert_eq!(Some("ERROR('no-such-action' is not a valid action)".to_string()), result.result.as_ref().map(text));
  assert_eq!(1, context.value_stack.len());
}

fn walk_action(action: &str, args: Vec<NodeValue>) -> String {
  let mut node = ExecutionPlanNode::action(action);
  for arg in args {
    node.add(ExecutionPlanNode::value_node(arg));
  }
  let mut context = PlanMatchingContext::new();
  let resolver = BodyResolver { bytes: vec![] };
  let result = walk_tree(&vec![], &node, &resolver, &mut context).unwrap();
  result.result.as_ref().map(text).unwrap_or_default()
}

#[test]
fn value_errors_write_the_debug_form_of_what_they_got() {
  assert_eq!("ERROR(Was expecting a JSON Object, but got Array [Number(1)])", walk_action("json:expect:entries", vec![
    NodeValue::STRING("ARRAY".to_string()),
    NodeValue::SLIST(vec!["a".to_string()]),
    NodeValue::NAMESPACED("json".to_string(), "[1]".to_string()),
  ]));
  assert_eq!("ERROR(Was expecting a JSON value, but got STRING(\"a\"))", walk_action("json:expect:empty", vec![
    NodeValue::STRING("ARRAY".to_string()),
    NodeValue::STRING("a".to_string()),
  ]));
  assert_eq!("ERROR('expect:entries' can't be used with a BOOL(true) node)", walk_action("expect:entries", vec![
    NodeValue::SLIST(vec!["a".to_string()]),
    NodeValue::BOOL(true),
  ]));
  let mut list = NodeValue::NULL.debug_form();
  list.push_str(&NodeValue::LIST(vec![NodeValue::UINT(1), NodeValue::BARRAY(vec![1, 2])]).debug_form());
  assert_eq!("NULLLIST([UINT(1), BARRAY([1, 2])])", list);
  assert_eq!("MMAP({\"a\": [\"b\", \"c\"]})",
    NodeValue::MMAP(vec![("a".to_string(), vec!["b".to_string(), "c".to_string()])]).debug_form());
}

#[test]
fn the_message_of_an_entries_check_sees_the_names_that_differ() {
  let mut node = ExecutionPlanNode::action("expect:entries");
  node.add(ExecutionPlanNode::value_node(NodeValue::SLIST(vec!["a".to_string(), "b".to_string()])));
  node.add(ExecutionPlanNode::value_node(NodeValue::MMAP(vec![("b".to_string(), vec!["x".to_string()])])));
  node.add(ExecutionPlanNode::resolve_current_value(DocPath::root()));
  let mut context = PlanMatchingContext::new();
  context.push_result(Some(NodeResult::VALUE(NodeValue::UINT(7))));
  let resolver = BodyResolver { bytes: vec![] };
  let result = walk_tree(&vec![], &node, &resolver, &mut context).unwrap();
  assert_eq!(Some("['a']".to_string()), result.children[2].result.as_ref().map(text));
  assert_eq!(1, context.value_stack.len());
  assert_eq!(Some("UINT(7)".to_string()), context.pop_result().as_ref().map(text));
}

#[test]
fn a_pipeline_gives_its_last_result_even_when_a_child_pushes() {
  let mut pipeline = ExecutionPlanNode { node_type: PlanNodeType::PIPELINE, result: None, children: vec![] };
  pipeline.add(ExecutionPlanNode::value_node(NodeValue::STRING("a".to_string())));
  pipeline.add(ExecutionPlanNode::action("push"));
  pipeline.add(ExecutionPlanNode::value_node(NodeValue::UINT(2)));
  let mut context = PlanMatchingContext::new();
  let resolver = BodyResolver { bytes: vec![] };
  let result = walk_tree(&vec![], &pipeline, &resolver, &mut context).unwrap();
  assert_eq!(Some("UINT(2)".to_string()), result.result.as_ref().map(text));
  assert_eq!(1, context.value_stack.len());
}

#[test]
fn bytes_are_written_in_standard_base64() {
  for (input, expected) in [("", ""), ("f", "Zg=="), ("fo", "Zm8="), ("foo", "Zm9v"), ("foob", "Zm9vYg=="),
    ("fooba", "Zm9vYmE="), ("foobar", "Zm9vYmFy")] {
    assert_eq!(expected, base64_encode(input.as_bytes()));
  }
  assert_eq!("/+8=", base64_encode(&[0xff, 0xef]));
}

#[test]
fn pushes_and_pops_inside_a_plan_change_the_stack() {
  let resolver = BodyResolver { bytes: vec![] };
  let mut tee = ExecutionPlanNode::action("tee");
  tee.add(ExecutionPlanNode::value_node(NodeValue::STRING("a".to_string())));
  tee.add(ExecutionPlanNode::action("push"));
  let mut context = PlanMatchingContext::new();
  let result = walk_tree(&vec![], &tee, &resolver, &mut context).unwrap();
  assert_eq!(Some("BOOL(true)".to_string()), result.result.as_ref().map(text));
  assert_eq!(1, context.value_stack.len());
  assert_eq!(Some("'a'".to_string()), context.pop_result().as_ref().map(text));

  let mut container = ExecutionPlanNode::container("c");
  container.add(ExecutionPlanNode::action("pop"));
  let mut context = PlanMatchingContext::new();
  context.push_result(Some(NodeResult::OK));
  context.push_result(Some(NodeResult::VALUE(NodeValue::UINT(1))));
  walk_tree(&vec![], &container, &resolver, &mut context).unwrap();
  assert_eq!(1, context.value_stack.len());
}
