use pact_engine::cli::{
  configure_provider, custom_headers, interaction_filter, log_level, log_style, pact_source, publish_options,
  verification_exit, verification_options, BrokerSelectors, CliArgs, FilterInfo, HttpAuth, LogStyle, PactSource,
};

fn args() -> CliArgs {
  CliArgs {
    hostname: None,
    port: None,
    base_path: None,
    transport: None,
    transports: vec![],
    provider_name: None,
    files: vec![],
    dirs: vec![],
    urls: vec![],
    broker_url: None,
    webhook_callback_url: None,
    user: None,
    password: None,
    token: None,
    consumer_version_selectors: None,
    consumer_version_tags: None,
    enable_pending: false,
    include_wip_pacts_since: None,
    provider_tags: vec![],
    provider_branch: None,
    filter_description: None,
    filter_state: None,
    filter_no_state: false,
    custom_headers: vec![],
    disable_ssl_verification: false,
    request_timeout: None,
    ignore_no_pacts_error: false,
    publish: false,
    provider_version: None,
    build_url: None,
    no_colour: false,
    loglevel: None,
    pretty_log: false,
    full_log: false,
    compact_log: false,
  }
}

fn some(s: &str) -> Option<String> {
  Some(s.to_string())
}

#[test]
fn parse_provider_args_defaults() {
  let mut a = args();
  a.files = vec!["test".to_string()];
  let provider = configure_provider(&a);
  assert_eq!("localhost", provider.host);
  assert_eq!(None, provider.port);
  assert_eq!("provider", provider.name);
  assert_eq!("", provider.path);
  assert_eq!("http", provider.protocol);
}

#[test]
fn parse_provider_args() {
  let mut a = args();
  a.files = vec!["test".to_string()];
  a.hostname = some("test.com");
  a.port = Some(1234);
  a.provider_name = some("test");
  a.transport = some("https");
  a.base_path = some("/base/path");
  let provider = configure_provider(&a);
  assert_eq!("test.com", provider.host);
  assert_eq!(Some(1234), provider.port);
  assert_eq!("test", provider.name);
  assert_eq!("/base/path", provider.path);
  assert_eq!("https", provider.protocol);
}

#[test]
fn parse_provider_args_with_old_alias() {
  let mut a = args();
  a.files = vec!["test".to_string()];
  a.transport = some("https");
  let provider = configure_provider(&a);
  assert_eq!("https", provider.protocol);
}

#[test]
fn transports_keep_their_ports_and_paths() {
  let mut a = args();
  a.transports = vec![("http".to_string(), 8080, None), ("message".to_string(), 8081, some("/msgs"))];
  let provider = configure_provider(&a);
  assert_eq!(2, provider.transports.len());
  assert_eq!("message", provider.transports[1].transport);
  assert_eq!(Some(8081), provider.transports[1].port);
  assert_eq!(some("/msgs"), provider.transports[1].path);
}

#[test]
fn sources_come_in_the_order_files_dirs_urls_broker() {
  let mut a = args();
  a.files = vec!["a.json".to_string()];
  a.dirs = vec!["pacts".to_string()];
  a.urls = vec!["http://x/pact".to_string()];
  a.broker_url = some("http://broker");
  a.provider_name = some("p");
  a.token = some("t");
  let sources = pact_source(&a);
  assert_eq!(4, sources.len());
  assert!(matches!(&sources[0], PactSource::File(f) if f == "a.json"));
  assert!(matches!(&sources[1], PactSource::Dir(d) if d == "pacts"));
  assert!(matches!(&sources[2], PactSource::URL(u, Some(HttpAuth::Token(t))) if u == "http://x/pact" && t == "t"));
  assert!(matches!(&sources[3], PactSource::BrokerUrl(n, b, Some(HttpAuth::Token(_))) if n == "p" && b == "http://broker"));
}

#[test]
fn a_user_is_preferred_to_a_token() {
  let mut a = args();
  a.urls = vec!["http://x/pact".to_string()];
  a.user = some("u");
  a.password = some("pw");
  a.token = some("t");
  let sources = pact_source(&a);
  assert!(matches!(&sources[0], PactSource::URL(_, Some(HttpAuth::User(u, Some(p)))) if u == "u" && p == "pw"));
}

#[test]
fn selectors_ask_for_a_dynamic_broker_source() {
  let mut a = args();
  a.broker_url = some("http://broker");
  a.consumer_version_tags = Some(vec!["main".to_string()]);
  a.enable_pending = true;
  a.provider_branch = some("dev");
  let sources = pact_source(&a);
  assert_eq!(1, sources.len());
  match &sources[0] {
    PactSource::BrokerWithDynamicConfiguration { provider_name, broker_url, enable_pending, provider_branch, selectors, auth, .. } => {
      assert_eq!("", provider_name);
      assert_eq!("http://broker", broker_url);
      assert!(*enable_pending);
      assert_eq!(&some("dev"), provider_branch);
      assert!(matches!(selectors, BrokerSelectors::Tags(t) if t == &vec!["main".to_string()]));
      assert!(auth.is_none());
    }
    other => panic!("unexpected source {:?}", other),
  }
}

#[test]
fn a_webhook_callback_verifies_just_that_pact() {
  let mut a = args();
  a.files = vec!["ignored.json".to_string()];
  a.broker_url = some("http://broker");
  a.webhook_callback_url = some("http://broker/pacts/1");
  let sources = pact_source(&a);
  assert_eq!(1, sources.len());
  assert!(matches!(&sources[0], PactSource::WebhookCallbackUrl { pact_url, broker_url, auth: None }
    if pact_url == "http://broker/pacts/1" && broker_url == "http://broker"));
}

#[test]
fn filters_combine_description_and_state() {
  let mut a = args();
  assert!(matches!(interaction_filter(&a), FilterInfo::NoFilter));
  a.filter_no_state = true;
  assert!(matches!(interaction_filter(&a), FilterInfo::State(s) if s.is_empty()));
  a.filter_description = some("desc");
  assert!(matches!(interaction_filter(&a), FilterInfo::DescriptionAndState(d, s) if d == "desc" && s.is_empty()));
  a.filter_no_state = false;
  assert!(matches!(interaction_filter(&a), FilterInfo::Description(d) if d == "desc"));
  a.filter_state = some("state");
  assert!(matches!(interaction_filter(&a), FilterInfo::DescriptionAndState(d, s) if d == "desc" && s == "state"));
  a.filter_description = None;
  assert!(matches!(interaction_filter(&a), FilterInfo::State(s) if s == "state"));
}

#[test]
fn custom_headers_split_at_the_first_equals() {
  let headers = vec!["A=1".to_string(), "B=x=y".to_string(), "C=".to_string()];
  let parsed = custom_headers(&headers).unwrap();
  assert_eq!(vec![("A".to_string(), "1".to_string()), ("B".to_string(), "x=y".to_string()), ("C".to_string(), String::new())], parsed);
  assert_eq!(Err(3), custom_headers(&vec!["A=1".to_string(), "nope".to_string()]));
}

#[test]
fn verification_options_have_defaults() {
  let mut a = args();
  let options = verification_options(&a).unwrap();
  assert_eq!(5000, options.request_timeout);
  assert!(options.coloured_output);
  assert!(options.no_pacts_is_error);
  a.custom_headers = vec!["bad".to_string()];
  assert!(matches!(verification_options(&a), Err(3)));
}

#[test]
fn publishing_is_only_set_up_when_asked_for() {
  let mut a = args();
  a.provider_version = some("1.0");
  assert!(publish_options(&a).is_none());
  a.publish = true;
  a.provider_tags = vec!["t1".to_string(), "t2".to_string()];
  let options = publish_options(&a).unwrap();
  assert_eq!(some("1.0"), options.provider_version);
  assert_eq!(vec!["t1".to_string(), "t2".to_string()], options.provider_tags);
}

#[test]
fn logging_defaults_to_warn_in_full_lines() {
  let mut a = args();
  assert_eq!("warn", log_level(&a));
  assert_eq!(LogStyle::Full, log_style(&a));
  a.compact_log = true;
  assert_eq!(LogStyle::Compact, log_style(&a));
  a.pretty_log = true;
  assert_eq!(LogStyle::Pretty, log_style(&a));
}

#[test]
fn exit_codes_follow_the_outcome() {
  assert_eq!(Ok(()), verification_exit(true, true, true));
  assert_eq!(Err(1), verification_exit(true, false, true));
  assert_eq!(Err(2), verification_exit(false, false, true));
  assert_eq!(Err(2), verification_exit(true, true, false));
}
