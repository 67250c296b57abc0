use pact_engine::mock_server::{display_errors, mock_server_description, pact_output_dir, pact_overwrite, pact_write_outcome, shutdown_action, MatchOutcome, ShutdownAction};
use pact_engine::request::{HttpRequest, OptionalBody};

fn request(method: &str, path: &str) -> HttpRequest {
  HttpRequest {
    method: method.to_string(),
    path: path.to_string(),
    query: None,
    headers: None,
    body: OptionalBody::Missing,
  }
}

#[test]
fn the_report_lists_each_failed_request() {
  let outcomes = vec![
    MatchOutcome::RequestMatch,
    MatchOutcome::RequestMismatch("HTTP Request ( method: GET, path: /a )".to_string(),
      vec!["Expected 'b' but got 'c'".to_string(), "Missing header".to_string()]),
    MatchOutcome::RequestNotFound(request("post", "/b"), "HttpRequest {\n    method: \"post\",\n}".to_string()),
    MatchOutcome::MissingRequest(request("get", "/c"), "HttpRequest {\r\n    path: \"/c\",\n}\n".to_string()),
  ];
  let report = display_errors(Some(12), "Consumer/Provider", &outcomes);
  assert_eq!([
    " ---------- \n",
    "Mock server Consumer/Provider failed verification:\n",
    "\n  - request HTTP Request ( method: GET, path: /a ):\n\n",
    "    - Expected 'b' but got 'c'\n",
    "    - Missing header\n",
    "\n  - received unexpected request POST /b:\n\n",
    "      HttpRequest {\n",
    "          method: \"post\",\n",
    "      }\n",
    "\n  - request GET /c expected, but never occurred:\n\n",
    "      HttpRequest {\n",
    "          path: \"/c\",\n",
    "      }\n",
    " ---------- \n"].join(""), report);
}

#[test]
fn the_rule_is_78_wide_without_a_terminal() {
  let report = display_errors(None, "a/b", &vec![]);
  let rule = "-".repeat(78);
  assert_eq!(format!(" {} \nMock server a/b failed verification:\n {} \n", rule, rule), report);
  assert_eq!("  \nMock server a/b failed verification:\n  \n", display_errors(Some(2), "a/b", &vec![]));
}

#[test]
fn pact_files_go_to_the_given_directory_then_the_environment_then_the_default() {
  assert_eq!("out", pact_output_dir(&Some("out".to_string()), &Some("env".to_string())));
  assert_eq!("env", pact_output_dir(&Some(String::new()), &Some("env".to_string())));
  assert_eq!("target/pacts", pact_output_dir(&None, &None));
  assert!(pact_overwrite(&Some("true".to_string()), false));
  assert!(!pact_overwrite(&Some("yes".to_string()), true));
  assert!(pact_overwrite(&None, true));
  assert_eq!("c/p", mock_server_description("c", "p"));
}

#[test]
fn a_mock_server_without_mismatches_writes_its_pact() {
  match shutdown_action(None, "c/p", &vec![], &Some(String::new()), &Some("out".to_string()), &Some("true".to_string()), false) {
    ShutdownAction::WritePact { output_dir, overwrite } => {
      assert_eq!("out", output_dir);
      assert!(overwrite);
    },
    other => panic!("unexpected {:?}", other),
  }
  match shutdown_action(Some(12), "c/p", &vec![MatchOutcome::RequestMatch], &None, &None, &None, false) {
    ShutdownAction::Fail(report) => assert!(report.contains("Mock server c/p failed verification"), "{}", report),
    other => panic!("unexpected {:?}", other),
  }
  assert_eq!(Err("error writing pact: disk full".to_string()), pact_write_outcome(Err("disk full".to_string())));
  assert_eq!(Ok(()), pact_write_outcome(Ok(())));
}
