//! What the command line of the provider verifier decides: the provider to verify, where the
//! pacts come from, which interactions are verified, the custom headers, the publishing and
//! the logging, and the exit code.

use vstd::prelude::*;
use crate::text::str_eq;

verus! {

/// The values the command line holds, as the argument parser reads them (an option that
/// was not given is `None`, or an empty list).
#[derive(Debug)]
pub struct CliArgs {
    /// `--hostname`
    pub hostname: Option<String>,
    /// `--port`
    pub port: Option<u16>,
    /// `--base-path`
    pub base_path: Option<String>,
    /// `--transport` (or its older alias `--scheme`)
    pub transport: Option<String>,
    /// `--transports`: each transport with its port and base path
    pub transports: Vec<(String, u16, Option<String>)>,
    /// `--provider-name`
    pub provider_name: Option<String>,
    /// `--file`
    pub files: Vec<String>,
    /// `--dir`
    pub dirs: Vec<String>,
    /// `--url`
    pub urls: Vec<String>,
    /// `--broker-url`
    pub broker_url: Option<String>,
    /// `--webhook-callback-url`
    pub webhook_callback_url: Option<String>,
    /// `--user`
    pub user: Option<String>,
    /// `--password`
    pub password: Option<String>,
    /// `--token`
    pub token: Option<String>,
    /// `--consumer-version-selectors`, when given
    pub consumer_version_selectors: Option<Vec<String>>,
    /// `--consumer-version-tags`, when given
    pub consumer_version_tags: Option<Vec<String>>,
    /// `--enable-pending`
    pub enable_pending: bool,
    /// `--include-wip-pacts-since`
    pub include_wip_pacts_since: Option<String>,
    /// `--provider-tags`
    pub provider_tags: Vec<String>,
    /// `--provider-branch`
    pub provider_branch: Option<String>,
    /// `--filter-description`
    pub filter_description: Option<String>,
    /// `--filter-state`
    pub filter_state: Option<String>,
    /// `--filter-no-state`
    pub filter_no_state: bool,
    /// `--header`: each `KEY=VALUE`
    pub custom_headers: Vec<String>,
    /// `--disable-ssl-verification`
    pub disable_ssl_verification: bool,
    /// `--request-timeout`, in milliseconds
    pub request_timeout: Option<u64>,
    /// `--ignore-no-pacts-error`
    pub ignore_no_pacts_error: bool,
    /// `--publish`
    pub publish: bool,
    /// `--provider-version`
    pub provider_version: Option<String>,
    /// `--build-url`
    pub build_url: Option<String>,
    /// `--no-colour`
    pub no_colour: bool,
    /// `--loglevel`
    pub loglevel: Option<String>,
    /// `--pretty-log`
    pub pretty_log: bool,
    /// `--full-log`
    pub full_log: bool,
    /// `--compact-log`
    pub compact_log: bool,
}

/// A transport the provider can be reached with.
#[derive(Debug)]
pub struct ProviderTransport {
    /// Protocol transport (`http`, `https`, `grpc`, ..)
    pub transport: String,
    /// Port
    pub port: Option<u16>,
    /// Base path
    pub path: Option<String>,
    /// Scheme, when it differs from the transport
    pub scheme: Option<String>,
}

/// The provider to verify.
#[derive(Debug)]
pub struct ProviderInfo {
    /// Name of the provider
    pub name: String,
    /// Host name
    pub host: String,
    /// Port, when it is not the protocol's default
    pub port: Option<u16>,
    /// Base path added to every request
    pub path: String,
    /// Protocol transport
    pub protocol: String,
    /// Further transports, each with its port
    pub transports: Vec<ProviderTransport>,
}

/// Credentials for fetching pacts.
#[derive(Debug)]
pub enum HttpAuth {
    /// User name, with an optional password
    User(String, Option<String>),
    /// Bearer token
    Token(String),
}

/// How the pacts to verify are selected from a pact broker.
#[derive(Debug)]
pub enum BrokerSelectors {
    /// Consumer version selectors, each written as JSON
    Json(Vec<String>),
    /// Consumer version tags
    Tags(Vec<String>),
}

/// Where pacts come from.
#[derive(Debug)]
pub enum PactSource {
    /// A pact file
    File(String),
    /// A directory of pact files
    Dir(String),
    /// A pact at a URL, with the credentials to fetch it
    URL(String, Option<HttpAuth>),
    /// The pacts of a provider in a pact broker: provider name, broker URL, credentials
    BrokerUrl(String, String, Option<HttpAuth>),
    /// The pacts of a provider in a pact broker, selected by consumer version
    BrokerWithDynamicConfiguration {
        /// Provider name
        provider_name: String,
        /// Broker URL
        broker_url: String,
        /// Whether pending pacts are verified
        enable_pending: bool,
        /// The date from which work in progress pacts are included
        include_wip_pacts_since: Option<String>,
        /// Provider tags
        provider_tags: Vec<String>,
        /// Provider branch
        provider_branch: Option<String>,
        /// The consumer version selection
        selectors: BrokerSelectors,
        /// Credentials
        auth: Option<HttpAuth>,
    },
    /// One pact, at the URL a broker's webhook called back with
    WebhookCallbackUrl {
        /// URL of the pact
        pact_url: String,
        /// Broker URL
        broker_url: String,
        /// Credentials
        auth: Option<HttpAuth>,
    },
}

/// Which interactions are verified.
#[derive(Debug)]
pub enum FilterInfo {
    /// All of them
    NoFilter,
    /// Those whose description matches
    Description(String),
    /// Those whose provider state matches (the empty text: those without one)
    State(String),
    /// Those whose description and provider state match
    DescriptionAndState(String, String),
}

/// What is published back to the pact broker.
#[derive(Debug)]
pub struct PublishOptions {
    /// Provider version
    pub provider_version: Option<String>,
    /// URL of the build
    pub build_url: Option<String>,
    /// Provider tags
    pub provider_tags: Vec<String>,
    /// Provider branch
    pub provider_branch: Option<String>,
}

/// How log events are written.
#[derive(Debug, Clone, Copy, PartialEq, Eq, Structural)]
pub enum LogStyle {
    /// Multi-line, for human readers
    Pretty,
    /// One line per event, with its span context
    Full,
    /// Short lines
    Compact,
}

/// The models of optional and listed texts.
pub open spec fn opt_view(o: Option<String>) -> Option<Seq<char>> {
    match o {
        Some(s) => Some(s@),
        None => None,
    }
}

/// The model of credentials.
pub enum Auth {
    User(Seq<char>, Option<Seq<char>>),
    Token(Seq<char>),
}

/// The model of credentials, if any.
pub open spec fn auth_view(a: Option<HttpAuth>) -> Option<Auth> {
    match a {
        Some(HttpAuth::User(u, p)) => Some(Auth::User(u@, opt_view(p))),
        Some(HttpAuth::Token(t)) => Some(Auth::Token(t@)),
        None => None,
    }
}

/// The credentials the command line gives: a user (with the password, if any), else a
/// token, else none.
pub open spec fn cli_auth(user: Option<Seq<char>>, password: Option<Seq<char>>, token: Option<Seq<char>>) -> Option<Auth> {
    match user {
        Some(u) => Some(Auth::User(u, password)),
        None => match token {
            Some(t) => Some(Auth::Token(t)),
            None => None,
        },
    }
}

fn copy_opt(o: &Option<String>) -> (r: Option<String>)
    ensures
        opt_view(r) == opt_view(*o),
{
    match o {
        Some(s) => Some(s.clone()),
        None => None,
    }
}

fn copy_strings(v: &Vec<String>) -> (r: Vec<String>)
    ensures
        r@.len() == v@.len(),
        forall|i: int| 0 <= i < v.len() ==> #[trigger] r@[i]@ == v@[i]@,
{
    let mut out: Vec<String> = Vec::new();
    let mut i: usize = 0;
    while i < v.len()
        invariant
            i <= v.len(),
            out.len() == i,
            forall|j: int| 0 <= j < i ==> #[trigger] out@[j]@ == v@[j]@,
        decreases v.len() - i,
    {
        out.push(v[i].clone());
        i = i + 1;
    }
    out
}

/// The credentials the command line gives; see [`cli_auth`].
fn auth_of(args: &CliArgs) -> (r: Option<HttpAuth>)
    ensures
        auth_view(r) == cli_auth(opt_view(args.user), opt_view(args.password), opt_view(args.token)),
{
    match &args.user {
        Some(u) => Some(HttpAuth::User(u.clone(), copy_opt(&args.password))),
        None => match &args.token {
            Some(t) => Some(HttpAuth::Token(t.clone())),
            None => None,
        },
    }
}

/// The provider the command line describes: the host (`localhost` by default), the port, the
/// base path (empty by default), the transport (`http` by default), the name (`provider` by
/// default) and the further transports.
pub fn configure_provider(args: &CliArgs) -> (r: ProviderInfo)
    ensures
        r.host@ == match args.hostname { Some(h) => h@, None => "localhost"@ },
        r.port == args.port,
        r.path@ == match args.base_path { Some(p) => p@, None => Seq::<char>::empty() },
        r.protocol@ == match args.transport { Some(t) => t@, None => "http"@ },
        r.name@ == match args.provider_name { Some(n) => n@, None => "provider"@ },
        r.transports.len() == args.transports.len(),
        forall|i: int| 0 <= i < args.transports.len() ==> {
            &&& (#[trigger] r.transports@[i]).transport@ == args.transports@[i].0@
            &&& r.transports@[i].port == Some(args.transports@[i].1)
            &&& opt_view(r.transports@[i].path) == opt_view(args.transports@[i].2)
            &&& r.transports@[i].scheme is None
        },
{
    proof {
        reveal_strlit("localhost");
        reveal_strlit("http");
        reveal_strlit("provider");
    }
    let mut transports: Vec<ProviderTransport> = Vec::new();
    let mut i: usize = 0;
    while i < args.transports.len()
        invariant
            i <= args.transports.len(),
            transports.len() == i,
            forall|j: int| 0 <= j < i ==> {
                &&& (#[trigger] transports@[j]).transport@ == args.transports@[j].0@
                &&& transports@[j].port == Some(args.transports@[j].1)
                &&& opt_view(transports@[j].path) == opt_view(args.transports@[j].2)
                &&& transports@[j].scheme is None
            },
        decreases args.transports.len() - i,
    {
        let t = &args.transports[i];
        transports.push(ProviderTransport { transport: t.0.clone(), port: Some(t.1), path: copy_opt(&t.2), scheme: None });
        i = i + 1;
    }
    ProviderInfo {
        host: match &args.hostname { Some(h) => h.clone(), None => String::from_str("localhost") },
        port: args.port,
        path: match &args.base_path { Some(p) => p.clone(), None => String::new() },
        protocol: match &args.transport { Some(t) => t.clone(), None => String::from_str("http") },
        name: match &args.provider_name { Some(n) => n.clone(), None => String::from_str("provider") },
        transports,
    }
}

/// Which interactions the command line selects: by description and state when a description
/// filter is given with a state filter (or with `--filter-no-state`, as the empty state),
/// else by description, else by state, else (with `--filter-no-state`) those without a
/// state, else all.
pub open spec fn filter_of(desc: Option<Seq<char>>, state: Option<Seq<char>>, no_state: bool) -> (Seq<char>, Seq<char>, nat) {
    match desc {
        Some(d) => if state is Some || no_state {
            (d, match state { Some(s) => s, None => Seq::empty() }, 3)
        } else {
            (d, Seq::empty(), 1)
        },
        None => match state {
            Some(s) => (Seq::empty(), s, 2),
            None => if no_state { (Seq::empty(), Seq::empty(), 2) } else { (Seq::empty(), Seq::empty(), 0) },
        },
    }
}

/// The model of a filter: its description, its state, and which of the four it is.
pub open spec fn filter_view(f: FilterInfo) -> (Seq<char>, Seq<char>, nat) {
    match f {
        FilterInfo::NoFilter => (Seq::empty(), Seq::empty(), 0),
        FilterInfo::Description(d) => (d@, Seq::empty(), 1),
        FilterInfo::State(s) => (Seq::empty(), s@, 2),
        FilterInfo::DescriptionAndState(d, s) => (d@, s@, 3),
    }
}

/// The interactions the command line selects; see [`filter_of`].
pub fn interaction_filter(args: &CliArgs) -> (r: FilterInfo)
    ensures
        filter_view(r) == filter_of(opt_view(args.filter_description), opt_view(args.filter_state), args.filter_no_state),
{
    match &args.filter_description {
        Some(d) => if args.filter_state.is_some() || args.filter_no_state {
            match &args.filter_state {
                Some(s) => FilterInfo::DescriptionAndState(d.clone(), s.clone()),
                None => FilterInfo::DescriptionAndState(d.clone(), String::new()),
            }
        } else {
            FilterInfo::Description(d.clone())
        },
        None => match &args.filter_state {
            Some(s) => FilterInfo::State(s.clone()),
            None => if args.filter_no_state { FilterInfo::State(String::new()) } else { FilterInfo::NoFilter },
        },
    }
}

/// The model of a pact source: which kind it is, its main text (file, directory, URL or
/// provider name), its broker URL, and its credentials.
pub open spec fn source_view(s: PactSource) -> (nat, Seq<char>, Seq<char>, Option<Auth>) {
    match s {
        PactSource::File(f) => (0, f@, Seq::empty(), None),
        PactSource::Dir(d) => (1, d@, Seq::empty(), None),
        PactSource::URL(u, a) => (2, u@, Seq::empty(), auth_view(a)),
        PactSource::BrokerUrl(n, b, a) => (3, n@, b@, auth_view(a)),
        PactSource::BrokerWithDynamicConfiguration { provider_name, broker_url, auth, .. } => (4, provider_name@, broker_url@, auth_view(auth)),
        PactSource::WebhookCallbackUrl { pact_url, broker_url, auth } => (5, pact_url@, broker_url@, auth_view(auth)),
    }
}

/// The pact sources the command line gives: with a webhook callback URL, that one pact;
/// else the files, then the directories, then the URLs (each with the credentials), then
/// the broker (with the provider name, empty by default), selecting by consumer version when
/// selectors or tags are given.
pub open spec fn sources_of(files: Seq<Seq<char>>, dirs: Seq<Seq<char>>, urls: Seq<Seq<char>>, broker: Option<Seq<char>>,
    webhook: Option<Seq<char>>, name: Option<Seq<char>>, auth: Option<Auth>, dynamic: bool) -> Seq<(nat, Seq<char>, Seq<char>, Option<Auth>)> {
    match webhook {
        Some(w) => seq![(5nat, w, broker.unwrap(), auth)],
        None => {
            let n = match name { Some(n) => n, None => Seq::empty() };
            files.map_values(|f: Seq<char>| (0nat, f, Seq::<char>::empty(), None::<Auth>))
                + dirs.map_values(|d: Seq<char>| (1nat, d, Seq::<char>::empty(), None::<Auth>))
                + urls.map_values(|u: Seq<char>| (2nat, u, Seq::<char>::empty(), auth))
                + match broker {
                    Some(b) => seq![(if dynamic { 4nat } else { 3nat }, n, b, auth)],
                    None => Seq::empty(),
                }
        },
    }
}

/// The texts of some strings.
pub open spec fn texts(v: Seq<String>) -> Seq<Seq<char>> {
    v.map_values(|s: String| s@)
}

/// The pact sources the command line gives; see [`sources_of`]. A webhook callback URL
/// needs the broker URL (the argument parser asks for it).
pub fn pact_source(args: &CliArgs) -> (r: Vec<PactSource>)
    requires
        args.webhook_callback_url is Some ==> args.broker_url is Some,
    ensures
        r@.map_values(|s: PactSource| source_view(s)) == sources_of(texts(args.files@), texts(args.dirs@), texts(args.urls@),
            opt_view(args.broker_url), opt_view(args.webhook_callback_url), opt_view(args.provider_name),
            cli_auth(opt_view(args.user), opt_view(args.password), opt_view(args.token)),
            args.consumer_version_selectors is Some || args.consumer_version_tags is Some),
        forall|i: int| 0 <= i < r.len() ==> match #[trigger] r@[i] {
            PactSource::BrokerWithDynamicConfiguration { enable_pending, include_wip_pacts_since, provider_tags, provider_branch, selectors, .. } => {
                &&& enable_pending == args.enable_pending
                &&& opt_view(include_wip_pacts_since) == opt_view(args.include_wip_pacts_since)
                &&& texts(provider_tags@) == texts(args.provider_tags@)
                &&& opt_view(provider_branch) == opt_view(args.provider_branch)
                &&& match selectors {
                    BrokerSelectors::Json(s) => args.consumer_version_selectors matches Some(c) && texts(s@) == texts(c@),
                    BrokerSelectors::Tags(t) => args.consumer_version_selectors is None
                        && (args.consumer_version_tags matches Some(c) && texts(t@) == texts(c@)),
                }
            },
            _ => true,
        },
{
    let ghost auth = cli_auth(opt_view(args.user), opt_view(args.password), opt_view(args.token));
    let ghost dynamic = args.consumer_version_selectors is Some || args.consumer_version_tags is Some;
    let mut sources: Vec<PactSource> = Vec::new();
    match &args.webhook_callback_url {
        Some(w) => {
            let broker = match &args.broker_url { Some(b) => b.clone(), None => String::new() };
            sources.push(PactSource::WebhookCallbackUrl { pact_url: w.clone(), broker_url: broker, auth: auth_of(args) });
            proof {
                assert(sources@.map_values(|s: PactSource| source_view(s)) =~= sources_of(texts(args.files@), texts(args.dirs@),
                    texts(args.urls@), opt_view(args.broker_url), opt_view(args.webhook_callback_url), opt_view(args.provider_name), auth, dynamic));
            }
            return sources;
        },
        None => {},
    }
    let ghost fs = texts(args.files@).map_values(|f: Seq<char>| (0nat, f, Seq::<char>::empty(), None::<Auth>));
    let ghost ds = texts(args.dirs@).map_values(|d: Seq<char>| (1nat, d, Seq::<char>::empty(), None::<Auth>));
    let ghost us = texts(args.urls@).map_values(|u: Seq<char>| (2nat, u, Seq::<char>::empty(), auth));
    let mut i: usize = 0;
    while i < args.files.len()
        invariant
            i <= args.files.len(),
            fs == texts(args.files@).map_values(|f: Seq<char>| (0nat, f, Seq::<char>::empty(), None::<Auth>)),
            sources@.map_values(|s: PactSource| source_view(s)) == fs.subrange(0, i as int),
            forall|j: int| 0 <= j < sources.len() ==> !(#[trigger] sources@[j] is BrokerWithDynamicConfiguration),
        decreases args.files.len() - i,
    {
        let ghost before = sources@.map_values(|s: PactSource| source_view(s));
        let x = args.files[i].clone();
        proof { assert(fs[i as int] == source_view(PactSource::File(x))); }
        sources.push(PactSource::File(x));
        proof {
            assert(sources@.map_values(|s: PactSource| source_view(s)) =~= before.push(fs[i as int]));
            assert(fs.subrange(0, i + 1) =~= fs.subrange(0, i as int).push(fs[i as int]));
        }
        i = i + 1;
    }
    assert(fs.subrange(0, args.files.len() as int) =~= fs);
    let mut i: usize = 0;
    while i < args.dirs.len()
        invariant
            i <= args.dirs.len(),
            ds == texts(args.dirs@).map_values(|d: Seq<char>| (1nat, d, Seq::<char>::empty(), None::<Auth>)),
            sources@.map_values(|s: PactSource| source_view(s)) == fs + ds.subrange(0, i as int),
            forall|j: int| 0 <= j < sources.len() ==> !(#[trigger] sources@[j] is BrokerWithDynamicConfiguration),
        decreases args.dirs.len() - i,
    {
        let ghost before = sources@.map_values(|s: PactSource| source_view(s));
        let x = args.dirs[i].clone();
        proof { assert(ds[i as int] == source_view(PactSource::Dir(x))); }
        sources.push(PactSource::Dir(x));
        proof {
            assert(sources@.map_values(|s: PactSource| source_view(s)) =~= before.push(ds[i as int]));
            assert(fs + ds.subrange(0, i + 1) =~= (fs + ds.subrange(0, i as int)).push(ds[i as int]));
        }
        i = i + 1;
    }
    assert(ds.subrange(0, args.dirs.len() as int) =~= ds);
    let mut i: usize = 0;
    while i < args.urls.len()
        invariant
            i <= args.urls.len(),
            auth == cli_auth(opt_view(args.user), opt_view(args.password), opt_view(args.token)),
            us == texts(args.urls@).map_values(|u: Seq<char>| (2nat, u, Seq::<char>::empty(), auth)),
            sources@.map_values(|s: PactSource| source_view(s)) == fs + ds + us.subrange(0, i as int),
            forall|j: int| 0 <= j < sources.len() ==> !(#[trigger] sources@[j] is BrokerWithDynamicConfiguration),
        decreases args.urls.len() - i,
    {
        let ghost before = sources@.map_values(|s: PactSource| source_view(s));
        let x = PactSource::URL(args.urls[i].clone(), auth_of(args));
        proof { assert(us[i as int] == source_view(x)); }
        sources.push(x);
        proof {
            assert(sources@.map_values(|s: PactSource| source_view(s)) =~= before.push(us[i as int]));
            assert(fs + ds + us.subrange(0, i + 1) =~= (fs + ds + us.subrange(0, i as int)).push(us[i as int]));
        }
        i = i + 1;
    }
    assert(us.subrange(0, args.urls.len() as int) =~= us);
    let ghost before = sources@;
    match &args.broker_url {
        Some(b) => {
            let name = match &args.provider_name { Some(n) => n.clone(), None => String::new() };
            let source = match (&args.consumer_version_selectors, &args.consumer_version_tags) {
                (None, None) => PactSource::BrokerUrl(name, b.clone(), auth_of(args)),
                _ => PactSource::BrokerWithDynamicConfiguration {
                    provider_name: name,
                    broker_url: b.clone(),
                    enable_pending: args.enable_pending,
                    include_wip_pacts_since: copy_opt(&args.include_wip_pacts_since),
                    provider_tags: copy_strings(&args.provider_tags),
                    provider_branch: copy_opt(&args.provider_branch),
                    selectors: match &args.consumer_version_selectors {
                        Some(s) => BrokerSelectors::Json(copy_strings(s)),
                        None => match &args.consumer_version_tags {
                            Some(t) => BrokerSelectors::Tags(copy_strings(t)),
                            None => BrokerSelectors::Tags(Vec::new()),
                        },
                    },
                    auth: auth_of(args),
                },
            };
            sources.push(source);
            proof {
                assert(sources@.map_values(|s: PactSource| source_view(s)) =~= sources_of(texts(args.files@), texts(args.dirs@),
                    texts(args.urls@), opt_view(args.broker_url), opt_view(args.webhook_callback_url), opt_view(args.provider_name), auth, dynamic));
                assert forall|j: int| 0 <= j < before.len() implies sources@[j] == before[j] by {}
            }
        },
        None => {
            proof {
                assert(sources@.map_values(|s: PactSource| source_view(s)) =~= sources_of(texts(args.files@), texts(args.dirs@),
                    texts(args.urls@), opt_view(args.broker_url), opt_view(args.webhook_callback_url), opt_view(args.provider_name), auth, dynamic));
            }
        },
    }
    sources
}

/// Whether a text has an `=`.
pub open spec fn has_equals(t: Seq<char>) -> bool
    decreases t.len(),
{
    t.len() > 0 && (t[0] == '=' || has_equals(t.drop_first()))
}

/// The part of a text before its first `=` (all of it when there is none).
pub open spec fn before_equals(t: Seq<char>) -> Seq<char>
    decreases t.len(),
{
    if t.len() == 0 || t[0] == '=' { Seq::empty() } else { seq![t[0]] + before_equals(t.drop_first()) }
}

/// The part of a text after its first `=` (nothing when there is none).
pub open spec fn after_equals(t: Seq<char>) -> Seq<char>
    decreases t.len(),
{
    if t.len() == 0 { Seq::empty() } else if t[0] == '=' { t.drop_first() } else { after_equals(t.drop_first()) }
}

proof fn lemma_split_at(t: Seq<char>, k: int)
    requires
        0 <= k <= t.len(),
        forall|j: int| 0 <= j < k ==> t[j] != '=',
        k < t.len() ==> t[k] == '=',
    ensures
        has_equals(t) == (k < t.len()),
        before_equals(t) == t.subrange(0, k),
        k < t.len() ==> after_equals(t) == t.subrange(k + 1, t.len() as int),
    decreases k,
{
    if k > 0 {
        assert forall|j: int| 0 <= j < k - 1 implies t.drop_first()[j] != '=' by {
            assert(t.drop_first()[j] == t[j + 1]);
        }
        if k < t.len() {
            assert(t.drop_first()[k - 1] == t[k]);
        }
        lemma_split_at(t.drop_first(), k - 1);
        assert(seq![t[0]] + t.drop_first().subrange(0, k - 1) =~= t.subrange(0, k));
        if k < t.len() {
            assert(t.drop_first().subrange(k, t.len() - 1) =~= t.subrange(k + 1, t.len() as int));
        }
    } else {
        assert(t.subrange(0, 0) =~= Seq::<char>::empty());
        if t.len() > 0 {
            assert(t.drop_first() =~= t.subrange(1, t.len() as int));
        }
    }
}

/// The custom headers the command line gives: each `KEY=VALUE` split at its first `=`, or
/// the exit code `3` when one has no `=`.
pub fn custom_headers(headers: &Vec<String>) -> (r: Result<Vec<(String, String)>, i32>)
    ensures
        match r {
            Ok(kv) => kv.len() == headers.len() && forall|i: int| 0 <= i < headers.len() ==>
                has_equals((#[trigger] headers@[i])@) && kv@[i].0@ == before_equals(headers@[i]@) && kv@[i].1@ == after_equals(headers@[i]@),
            Err(code) => code == 3 && exists|i: int| 0 <= i < headers.len() && !has_equals((#[trigger] headers@[i])@),
        },
{
    let mut out: Vec<(String, String)> = Vec::new();
    let mut i: usize = 0;
    while i < headers.len()
        invariant
            i <= headers.len(),
            out.len() == i,
            forall|m: int| 0 <= m < i ==> has_equals((#[trigger] headers@[m])@)
                && out@[m].0@ == before_equals(headers@[m]@) && out@[m].1@ == after_equals(headers@[m]@),
        decreases headers.len() - i,
    {
        let cs = crate::text::chars_of(headers[i].as_str());
        let mut k: usize = 0;
        while k < cs.len() && cs[k] != '='
            invariant
                k <= cs.len(),
                forall|j: int| 0 <= j < k ==> cs@[j] != '=',
            decreases cs.len() - k,
        {
            k = k + 1;
        }
        proof { lemma_split_at(cs@, k as int); }
        if k == cs.len() {
            assert(!has_equals(headers@[i as int]@));
            return Err(3);
        }
        let mut key: Vec<char> = Vec::new();
        let mut value: Vec<char> = Vec::new();
        let mut j: usize = 0;
        while j < cs.len()
            invariant
                k < cs.len(),
                j <= cs.len(),
                key@ == cs@.subrange(0, if j < k { j as int } else { k as int }),
                value@ == if j <= k { Seq::<char>::empty() } else { cs@.subrange(k + 1, j as int) },
            decreases cs.len() - j,
        {
            if j < k {
                key.push(cs[j]);
                assert(key@ =~= cs@.subrange(0, j + 1));
            } else if j > k {
                value.push(cs[j]);
                assert(value@ =~= cs@.subrange(k + 1, j + 1));
            }
            j = j + 1;
        }
        out.push((crate::text::string_of(&key), crate::text::string_of(&value)));
        i = i + 1;
    }
    Ok(out)
}

/// The publishing the command line asks for: with `--publish`, the provider version, the
/// build URL, the provider tags and the provider branch; else none.
pub fn publish_options(args: &CliArgs) -> (r: Option<PublishOptions>)
    ensures
        args.publish <==> r is Some,
        r matches Some(p) ==> {
            &&& opt_view(p.provider_version) == opt_view(args.provider_version)
            &&& opt_view(p.build_url) == opt_view(args.build_url)
            &&& texts(p.provider_tags@) == texts(args.provider_tags@)
            &&& opt_view(p.provider_branch) == opt_view(args.provider_branch)
        },
{
    if args.publish {
        let tags = copy_strings(&args.provider_tags);
        assert(texts(tags@) =~= texts(args.provider_tags@));
        Some(PublishOptions {
            provider_version: copy_opt(&args.provider_version),
            build_url: copy_opt(&args.build_url),
            provider_tags: tags,
            provider_branch: copy_opt(&args.provider_branch),
        })
    } else {
        None
    }
}

/// The request timeout, in milliseconds: the one given, else five seconds.
pub fn request_timeout(args: &CliArgs) -> (r: u64)
    ensures
        r == match args.request_timeout { Some(t) => t, None => 5000 },
{
    match args.request_timeout {
        Some(t) => t,
        None => 5000,
    }
}

/// The log level: the one given, else `warn`.
pub fn log_level(args: &CliArgs) -> (r: String)
    ensures
        r@ == match args.loglevel { Some(l) => l@, None => "warn"@ },
{
    match &args.loglevel {
        Some(l) => l.clone(),
        None => String::from_str("warn"),
    }
}

/// Whether a log level turns logging off: `none`.
pub fn is_log_off(level: &str) -> (r: bool)
    ensures
        r == (level@ == "none"@),
{
    str_eq(level, "none")
}

/// How log events are written: pretty, else full, else compact, as asked for; else full.
pub fn log_style(args: &CliArgs) -> (r: LogStyle)
    ensures
        r == if args.pretty_log { LogStyle::Pretty } else if args.full_log { LogStyle::Full }
            else if args.compact_log { LogStyle::Compact } else { LogStyle::Full },
{
    if args.pretty_log {
        LogStyle::Pretty
    } else if args.full_log {
        LogStyle::Full
    } else if args.compact_log {
        LogStyle::Compact
    } else {
        LogStyle::Full
    }
}

/// Whether the output is coloured: unless `--no-colour`.
pub fn coloured_output(args: &CliArgs) -> (r: bool)
    ensures
        r == !args.no_colour,
{
    !args.no_colour
}

/// The options of a verification run.
#[derive(Debug)]
pub struct VerificationOptions {
    /// Whether SSL certificates are not checked
    pub disable_ssl_verification: bool,
    /// Timeout of each request, in milliseconds
    pub request_timeout: u64,
    /// Headers added to each request
    pub custom_headers: Vec<(String, String)>,
    /// Whether the output is coloured
    pub coloured_output: bool,
    /// Whether finding no pacts is an error
    pub no_pacts_is_error: bool,
}

/// The options of the verification run the command line asks for, or the exit code `3`
/// when a custom header is not `KEY=VALUE`.
pub fn verification_options(args: &CliArgs) -> (r: Result<VerificationOptions, i32>)
    ensures
        match r {
            Ok(o) => {
                &&& o.disable_ssl_verification == args.disable_ssl_verification
                &&& o.request_timeout == match args.request_timeout { Some(t) => t, None => 5000 }
                &&& o.coloured_output == !args.no_colour
                &&& o.no_pacts_is_error == !args.ignore_no_pacts_error
                &&& o.custom_headers.len() == args.custom_headers.len()
                &&& forall|i: int| 0 <= i < args.custom_headers.len() ==>
                    (#[trigger] o.custom_headers@[i]).0@ == before_equals(args.custom_headers@[i]@)
                        && o.custom_headers@[i].1@ == after_equals(args.custom_headers@[i]@)
            },
            Err(code) => code == 3 && exists|i: int| 0 <= i < args.custom_headers.len() && !has_equals((#[trigger] args.custom_headers@[i])@),
        },
{
    match custom_headers(&args.custom_headers) {
        Ok(headers) => Ok(VerificationOptions {
            disable_ssl_verification: args.disable_ssl_verification,
            request_timeout: request_timeout(args),
            custom_headers: headers,
            coloured_output: coloured_output(args),
            no_pacts_is_error: !args.ignore_no_pacts_error,
        }),
        Err(code) => Err(code),
    }
}

/// The exit status of a verification: success when it ran and all passed, `1` when some
/// failed, `2` when it could not run or its report could not be written.
pub fn verification_exit(ran: bool, passed: bool, report_written: bool) -> (r: Result<(), i32>)
    ensures
        r == if !ran || !report_written { Err::<(), i32>(2) } else if passed { Ok::<(), i32>(()) } else { Err::<(), i32>(1) },
{
    if !ran || !report_written {
        Err(2)
    } else if passed {
        Ok(())
    } else {
        Err(1)
    }
}

} // verus!
