//! HTTP requests: their model, the values a plan reads from them, and the plan that
//! compares an actual request with the expected one.

use vstd::prelude::*;
use crate::text::{push_char, push_str, str_eq, starts_with, chars_of, string_views};
use crate::json::{Json, serde_json_read};
use crate::docpath::{DocPath, PathToken, Step, path_text};
use crate::value::{NodeValue, NodeVal, mmap_view};
use crate::result::{NodeResult, NodeRes};
use crate::plan::{ExecutionPlanNode, ExecutionPlan, PlanNode, PlanKind, node_is_empty};
use crate::rules::{Rule, Category, rule_defined, rules_at, RuleList, MatchingRule};
use crate::context::{PlanMatchingContext, ValueResolver, stack_view, stack_top, category_rules, categories_view};
use crate::bodies::{plan_node, leaf, equality_node, rule_node_for, json_body_plan, text_body_plan,
    PlainTextBuilder, JsonPlanBuilder, action2, string_node, equality_node_of, rule_node_for_of};
use crate::exec::{walk_tree, plan_ok, walk_shape, keeps_stack, reads, plan_fresh, stack_after};
use crate::outside::{to_upper, to_lower, unicode_upper, unicode_lower};

verus! {

/// The body of a request.
#[derive(Debug)]
pub enum OptionalBody {
    /// The request has no body
    Missing,
    /// The body is empty
    Empty,
    /// The body is a JSON null
    Null,
    /// The body has content, and maybe a content type
    Present(Vec<u8>, Option<String>),
}

/// The model of a body.
pub enum Body {
    Missing,
    Empty,
    Null,
    Present(Seq<u8>, Option<Seq<char>>),
}

impl View for OptionalBody {
    type V = Body;

    open spec fn view(&self) -> Body {
        match *self {
            OptionalBody::Missing => Body::Missing,
            OptionalBody::Empty => Body::Empty,
            OptionalBody::Null => Body::Null,
            OptionalBody::Present(b, ct) => Body::Present(b@, match ct { Some(c) => Some(c@), None => None }),
        }
    }
}

/// An HTTP request.
#[derive(Debug)]
pub struct HttpRequest {
    /// Request method
    pub method: String,
    /// Request path
    pub path: String,
    /// Query parameters, each name with its values
    pub query: Option<Vec<(String, Vec<String>)>>,
    /// Headers, each name with its values
    pub headers: Option<Vec<(String, Vec<String>)>>,
    /// Request body
    pub body: OptionalBody,
}

/// The model of a request.
pub struct Req {
    pub method: Seq<char>,
    pub path: Seq<char>,
    pub query: Option<Seq<(Seq<char>, Seq<Seq<char>>)>>,
    pub headers: Option<Seq<(Seq<char>, Seq<Seq<char>>)>>,
    pub body: Body,
}

/// The model of optional name/values entries.
pub open spec fn opt_mmap_view(m: Option<Vec<(String, Vec<String>)>>) -> Option<Seq<(Seq<char>, Seq<Seq<char>>)>> {
    match m {
        Some(v) => Some(mmap_view(v@)),
        None => None,
    }
}

impl View for HttpRequest {
    type V = Req;

    open spec fn view(&self) -> Req {
        Req {
            method: self.method@,
            path: self.path@,
            query: opt_mmap_view(self.query),
            headers: opt_mmap_view(self.headers),
            body: self.body@,
        }
    }
}

/// The first value of the first header whose name, in lower case, is the given name.
pub open spec fn first_header(entries: Seq<(Seq<char>, Seq<Seq<char>>)>, name: Seq<char>) -> Option<Seq<char>>
    decreases entries.len(),
{
    if entries.len() == 0 {
        None
    } else if unicode_lower(entries[0].0) == name && entries[0].1.len() > 0 {
        Some(entries[0].1[0])
    } else {
        first_header(entries.drop_first(), name)
    }
}

/// The content type of a request: that of its body, else its `Content-Type` header.
pub open spec fn content_type(r: Req) -> Option<Seq<char>> {
    match r.body {
        Body::Present(_, Some(ct)) => Some(ct),
        _ => match r.headers {
            Some(h) => first_header(h, "content-type"@),
            None => None,
        },
    }
}

/// The entries of an optional map, none when it is absent.
pub open spec fn entries_or_empty(m: Option<Seq<(Seq<char>, Seq<Seq<char>>)>>) -> Seq<(Seq<char>, Seq<Seq<char>>)> {
    match m {
        Some(e) => e,
        None => Seq::empty(),
    }
}

/// The value of the body: its bytes, NULL when it is missing or null.
pub open spec fn body_value(b: Body) -> NodeVal {
    match b {
        Body::Present(bytes, _) => NodeVal::BARRAY(bytes),
        Body::Empty => NodeVal::BARRAY(Seq::empty()),
        _ => NodeVal::NULL,
    }
}

/// The value a plan reads from a request at a path: `$.method`, `$.path`, `$.query`,
/// `$.headers`, `$.body` or `$.content-type`.
pub open spec fn request_value(r: Req, p: Seq<Step>) -> Result<NodeVal, Seq<char>> {
    let t = path_text(p);
    if t == "$.method"@ {
        Ok(NodeVal::STRING(r.method))
    } else if t == "$.path"@ {
        Ok(NodeVal::STRING(r.path))
    } else if t == "$.query"@ {
        Ok(NodeVal::MMAP(entries_or_empty(r.query)))
    } else if t == "$.headers"@ {
        Ok(NodeVal::MMAP(entries_or_empty(r.headers)))
    } else if t == "$.body"@ {
        Ok(body_value(r.body))
    } else if t == "$.content-type"@ {
        Ok(match content_type(r) {
            Some(c) => NodeVal::STRING(c),
            None => NodeVal::NULL,
        })
    } else {
        Err(seq!['\''] + t + "' is not valid for a HTTP request"@)
    }
}

/// `METHOD path`, with the method in upper case.
pub open spec fn short_text(r: Req) -> Seq<char> {
    unicode_upper(r.method) + seq![' '] + r.path
}

fn copy_mmap(m: &Vec<(String, Vec<String>)>) -> (r: Vec<(String, Vec<String>)>)
    ensures
        mmap_view(r@) == mmap_view(m@),
{
    let mut out: Vec<(String, Vec<String>)> = Vec::new();
    let mut i: usize = 0;
    while i < m.len()
        invariant
            i <= m.len(),
            out.len() == i,
            forall|j: int| 0 <= j < i ==> #[trigger] out@[j].0@ == m@[j].0@ && string_views(out@[j].1@) == string_views(m@[j].1@),
        decreases m.len() - i,
    {
        let ghost prev = out@;
        out.push((m[i].0.clone(), crate::value::copy_strings(&m[i].1)));
        assert forall|j: int| 0 <= j < i + 1 implies #[trigger] out@[j].0@ == m@[j].0@
            && string_views(out@[j].1@) == string_views(m@[j].1@) by {
            if j < i {
                assert(out@[j] == prev[j]);
            }
        }
        i = i + 1;
    }
    assert(mmap_view(out@) =~= mmap_view(m@));
    out
}

fn mmap_or_empty(m: &Option<Vec<(String, Vec<String>)>>) -> (r: NodeValue)
    ensures
        r@ == NodeVal::MMAP(entries_or_empty(opt_mmap_view(*m))),
{
    match m {
        Some(v) => NodeValue::MMAP(copy_mmap(v)),
        None => {
            let e: Vec<(String, Vec<String>)> = Vec::new();
            assert(mmap_view(e@) =~= Seq::<(Seq<char>, Seq<Seq<char>>)>::empty());
            NodeValue::MMAP(e)
        },
    }
}

fn first_header_of(entries: &Vec<(String, Vec<String>)>, name: &str) -> (r: Option<String>)
    ensures
        match r {
            Some(v) => first_header(mmap_view(entries@), name@) == Some(v@),
            None => first_header(mmap_view(entries@), name@) is None,
        },
{
    let ghost all = mmap_view(entries@);
    let mut i: usize = 0;
    assert(all.subrange(0, all.len() as int) =~= all);
    while i < entries.len()
        invariant
            i <= entries.len(),
            all == mmap_view(entries@),
            first_header(all, name@) == first_header(all.subrange(i as int, all.len() as int), name@),
        decreases entries.len() - i,
    {
        proof {
            assert(all.subrange(i as int, all.len() as int).drop_first() =~= all.subrange(i + 1, all.len() as int));
        }
        let lower = to_lower(entries[i].0.as_str());
        if str_eq(lower.as_str(), name) && entries[i].1.len() > 0 {
            return Some(entries[i].1[0].clone());
        }
        i = i + 1;
    }
    None
}

impl HttpRequest {
    /// The content type of the request: that of its body, else its `Content-Type` header.
    pub fn content_type(&self) -> (r: Option<String>)
        ensures
            match r {
                Some(c) => content_type(self@) == Some(c@),
                None => content_type(self@) is None,
            },
    {
        proof { reveal_strlit("content-type"); }
        match &self.body {
            OptionalBody::Present(_, Some(ct)) => Some(ct.clone()),
            _ => match &self.headers {
                Some(h) => first_header_of(h, "content-type"),
                None => None,
            },
        }
    }

    /// The value a plan reads from the request at a path; see [`request_value`].
    pub fn value_at(&self, path: &DocPath) -> (r: Result<NodeValue, String>)
        ensures
            match (r, request_value(self@, path@)) {
                (Ok(a), Ok(b)) => a@ == b,
                (Err(a), Err(b)) => a@ == b,
                _ => false,
            },
    {
        proof {
            reveal_strlit("$.method");
            reveal_strlit("$.path");
            reveal_strlit("$.query");
            reveal_strlit("$.headers");
            reveal_strlit("$.body");
            reveal_strlit("$.content-type");
            reveal_strlit("' is not valid for a HTTP request");
        }
        let t = path.to_text();
        let p = t.as_str();
        if str_eq(p, "$.method") {
            Ok(NodeValue::STRING(self.method.clone()))
        } else if str_eq(p, "$.path") {
            Ok(NodeValue::STRING(self.path.clone()))
        } else if str_eq(p, "$.query") {
            Ok(mmap_or_empty(&self.query))
        } else if str_eq(p, "$.headers") {
            Ok(mmap_or_empty(&self.headers))
        } else if str_eq(p, "$.body") {
            Ok(match &self.body {
                OptionalBody::Present(b, _) => NodeValue::BARRAY(b.clone()),
                OptionalBody::Empty => {
                    let e: Vec<u8> = Vec::new();
                    assert(e@ =~= Seq::<u8>::empty());
                    NodeValue::BARRAY(e)
                },
                _ => NodeValue::NULL,
            })
        } else if str_eq(p, "$.content-type") {
            Ok(match self.content_type() {
                Some(c) => NodeValue::STRING(c),
                None => NodeValue::NULL,
            })
        } else {
            let mut m = String::new();
            push_char(&mut m, '\'');
            push_str(&mut m, p);
            push_str(&mut m, "' is not valid for a HTTP request");
            assert(m@ =~= seq!['\''] + t@ + "' is not valid for a HTTP request"@);
            Err(m)
        }
    }
}

/// A short description of a request: `METHOD path`, with the method in upper case.
pub fn short_description(request: &HttpRequest) -> (r: String)
    ensures
        r@ == short_text(request@),
{
    let mut s = to_upper(request.method.as_str());
    push_char(&mut s, ' ');
    push_str(&mut s, request.path.as_str());
    assert(s@ =~= short_text(request@));
    s
}

/// Resolves the paths of a plan against an actual HTTP request.
#[derive(Debug)]
pub struct HttpRequestValueResolver {
    /// The actual request
    pub request: HttpRequest,
}

impl ValueResolver for HttpRequestValueResolver {
    /// The value the request holds at the path; see [`request_value`].
    fn resolve(&self, path: &DocPath, context: &PlanMatchingContext) -> (r: Result<NodeValue, String>)
        ensures
            match (r, request_value(self.request@, path@)) {
                (Ok(a), Ok(b)) => a@ == b,
                (Err(a), Err(b)) => a@ == b,
                _ => false,
            },
    {
        self.request.value_at(path)
    }
}

/// `$.name`.
pub open spec fn root_field(name: Seq<char>) -> Seq<Step> {
    seq![Step::Root, Step::Field(name)]
}

/// A node that resolves a path against the request.
pub open spec fn resolve(p: Seq<Step>) -> PlanNode {
    leaf(PlanKind::RESOLVE(p))
}

/// The plan for the method: the actual method, in upper case, equals the expected one, in
/// upper case.
pub open spec fn method_plan(e: Req) -> PlanNode {
    plan_node(PlanKind::CONTAINER("method"@), seq![
        equality_node(NodeVal::STRING(unicode_upper(e.method)),
            plan_node(PlanKind::ACTION("upper-case"@), seq![resolve(root_field("method"@))])),
    ])
}

/// The plan for the path: the rules of the `path` category at the empty path, when there
/// are any, else equality.
pub open spec fn path_plan(e: Req, m: Category) -> PlanNode {
    let expected = NodeVal::STRING(e.path);
    let actual = resolve(root_field("path"@));
    let rules = rules_at(m, Seq::empty());
    plan_node(PlanKind::CONTAINER("path"@), if rule_defined(m, Seq::empty()) {
        if rules.len() == 1 {
            seq![rule_node_for(rules[0], expected, actual)]
        } else {
            rules.map_values(|r: Rule| rule_node_for(r, expected, actual))
        }
    } else {
        seq![equality_node(expected, actual)]
    })
}

/// The plan for the query parameters when none are expected.
pub open spec fn query_plan() -> PlanNode {
    plan_node(PlanKind::CONTAINER("query parameters"@), seq![
        plan_node(PlanKind::ACTION("expect:empty"@), seq![
            resolve(root_field("query"@)),
            plan_node(PlanKind::ACTION("join"@), seq![
                leaf(PlanKind::VALUE(NodeVal::STRING("Expected no query parameters but got "@))),
                resolve(root_field("query"@)),
            ]),
        ]),
    ])
}

/// The plan for the headers when none are expected: nothing to check.
pub open spec fn header_plan() -> PlanNode {
    plan_node(PlanKind::CONTAINER("headers"@), Seq::empty())
}

/// The part of a content type before its parameters.
pub open spec fn media_type(ct: Seq<char>) -> Seq<char>
    decreases ct.len(),
{
    if ct.len() == 0 || ct[0] == ';' {
        Seq::empty()
    } else {
        seq![ct[0]] + media_type(ct.drop_first())
    }
}

/// Whether a content type is JSON: `application/json`, or `application/...+json`.
pub open spec fn is_json_type(ct: Seq<char>) -> bool {
    let m = media_type(ct);
    m == "application/json"@ || (m.len() >= 17 && m.subrange(0, 12) == "application/"@ && m.subrange(m.len() - 5, m.len() as int) == "+json"@)
}

/// The content type that a body is expected to have: the request's, else `text/plain`.
pub open spec fn expected_content_type(e: Req) -> Seq<char> {
    match content_type(e) {
        Some(c) => c,
        None => "text/plain"@,
    }
}

/// The plan for the body: when there is one, its content type is checked and, when it
/// matches, the body is compared by the JSON or the plain text builder.
pub open spec fn body_plan(e: Req, m: Category, allow: bool) -> Result<PlanNode, Seq<char>> {
    match e.body {
        Body::Present(content, _) => {
            let ct = expected_content_type(e);
            let check = equality_node(NodeVal::STRING(ct), resolve(root_field("content-type"@)));
            let body = if is_json_type(ct) {
                match serde_json_read(content) {
                    Ok(j) => Ok(json_body_plan(m, allow, j)),
                    Err(err) => Err(err),
                }
            } else {
                Ok(text_body_plan(content))
            };
            match body {
                Ok(b) => Ok(plan_node(PlanKind::CONTAINER("body"@), seq![plan_node(PlanKind::ACTION("if"@), seq![check, b])])),
                Err(err) => Err(err),
            }
        },
        _ => Ok(plan_node(PlanKind::CONTAINER("body"@), Seq::empty())),
    }
}

/// A node added to the children of a root, unless it is a leaf.
pub open spec fn plan_add(root: PlanNode, n: PlanNode) -> PlanNode {
    if node_is_empty(n) { root } else { PlanNode { children: root.children.push(n), ..root } }
}

/// The rules of a category among the rules of the request.
pub open spec fn category_of(cats: Seq<Category>, name: Seq<char>) -> Category {
    Category { name, rules: category_rules(cats, name) }
}

/// The plan that compares a request with the expected one, or the error of its body.
pub open spec fn request_plan(e: Req, cats: Seq<Category>, allow: bool) -> Result<PlanNode, Seq<char>> {
    match body_plan(e, category_of(cats, "body"@), allow) {
        Err(err) => Err(err),
        Ok(b) => {
            let root = plan_node(PlanKind::CONTAINER("request"@), Seq::empty());
            let r1 = plan_add(root, method_plan(e));
            let r2 = plan_add(r1, path_plan(e, category_of(cats, "path"@)));
            let r3 = plan_add(r2, query_plan());
            let r4 = plan_add(r3, header_plan());
            Ok(plan_add(r4, b))
        },
    }
}

/// Whether the plan for a request can be built: no query parameters or headers are
/// expected, and the body is either missing or present.
pub open spec fn plannable(e: Req) -> bool {
    &&& (e.query matches Some(q) ==> q.len() == 0)
    &&& (e.headers matches Some(h) ==> h.len() == 0)
    &&& !(e.body is Empty) && !(e.body is Null)
}

/// `$.name` as a path.
fn root_field_path(name: &str) -> (p: DocPath)
    ensures
        p@ == root_field(name@),
{
    let mut p = DocPath::root();
    p.push_field(name);
    p
}

/// The plan for the method; see [`method_plan`].
pub fn setup_method_plan(expected: &HttpRequest, context: &PlanMatchingContext) -> (r: Result<ExecutionPlanNode, String>)
    ensures
        r matches Ok(n) && n@ == method_plan(expected@),
{
    proof {
        reveal_strlit("method");
        reveal_strlit("upper-case");
    }
    let mut method_container = ExecutionPlanNode::container("method");
    let mut upper = ExecutionPlanNode::action("upper-case");
    upper.add(ExecutionPlanNode::resolve_value(root_field_path("method")));
    assert(upper@.children =~= seq![resolve(root_field("method"@))]);
    let match_method = equality_node_of(NodeValue::STRING(to_upper(expected.method.as_str())), upper);
    method_container.add(match_method);
    assert(method_container@.children =~= method_plan(expected@).children);
    Ok(method_container)
}

/// The plan for the path; see [`path_plan`].
pub fn setup_path_plan(expected: &HttpRequest, context: &PlanMatchingContext) -> (r: Result<ExecutionPlanNode, String>)
    ensures
        r matches Ok(n) && n@ == path_plan(expected@, context.matching_rules@),
{
    proof { reveal_strlit("path"); }
    let mut plan_node = ExecutionPlanNode::container("path");
    let empty = DocPath::empty();
    let expected_value = NodeValue::STRING(expected.path.clone());
    if context.matcher_is_defined(&empty) {
        let rules = context.select_best_matcher(&empty);
        let mut i: usize = 0;
        while i < rules.rules.len()
            invariant
                i <= rules.rules.len(),
                plan_node@.kind == PlanKind::CONTAINER("path"@),
                plan_node@.result is None,
                plan_node@.children =~= rules@.subrange(0, i as int).map_values(
                    |r: Rule| rule_node_for(r, expected_value@, resolve(root_field("path"@)))),
            decreases rules.rules.len() - i,
        {
            let n = rule_node_for_of(&rules.rules[i], &expected_value, ExecutionPlanNode::resolve_value(root_field_path("path")));
            plan_node.add(n);
            i = i + 1;
        }
        assert(rules@.subrange(0, rules@.len() as int) =~= rules@);
        proof {
            if rules@.len() == 1 {
                assert(plan_node@.children =~= seq![rule_node_for(rules@[0], expected_value@, resolve(root_field("path"@)))]);
            }
        }
    } else {
        let n = equality_node_of(expected_value, ExecutionPlanNode::resolve_value(root_field_path("path")));
        plan_node.add(n);
        assert(plan_node@.children =~= path_plan(expected@, context.matching_rules@).children);
    }
    Ok(plan_node)
}

/// The plan for the query parameters; see [`query_plan`]. Only a request that expects no
/// query parameters can be planned.
pub fn setup_query_plan(expected: &HttpRequest, context: &PlanMatchingContext) -> (r: Result<ExecutionPlanNode, String>)
    requires
        expected@.query matches Some(q) ==> q.len() == 0,
    ensures
        r matches Ok(n) && n@ == query_plan(),
{
    proof {
        reveal_strlit("query parameters");
        reveal_strlit("expect:empty");
        reveal_strlit("join");
        reveal_strlit("query");
        reveal_strlit("Expected no query parameters but got ");
    }
    let mut plan_node = ExecutionPlanNode::container("query parameters");
    let join = action2("join", string_node("Expected no query parameters but got "),
        ExecutionPlanNode::resolve_value(root_field_path("query")));
    let expect = action2("expect:empty", ExecutionPlanNode::resolve_value(root_field_path("query")), join);
    plan_node.add(expect);
    assert(plan_node@.children =~= query_plan().children);
    Ok(plan_node)
}

/// The plan for the headers; see [`header_plan`]. Only a request that expects no headers
/// can be planned.
pub fn setup_header_plan(expected: &HttpRequest, context: &PlanMatchingContext) -> (r: Result<ExecutionPlanNode, String>)
    requires
        expected@.headers matches Some(h) ==> h.len() == 0,
    ensures
        r matches Ok(n) && n@ == header_plan(),
{
    proof { reveal_strlit("headers"); }
    Ok(ExecutionPlanNode::container("headers"))
}

/// The part of a content type before its parameters; see [`media_type`].
fn media_type_of(ct: &str) -> (r: Vec<char>)
    ensures
        r@ == media_type(ct@),
{
    let cs = chars_of(ct);
    let mut out: Vec<char> = Vec::new();
    let mut i: usize = 0;
    assert(cs@.subrange(0, cs.len() as int) =~= cs@);
    assert(out@ + media_type(cs@) =~= media_type(cs@));
    while i < cs.len() && cs[i] != ';'
        invariant
            cs@ == ct@,
            i <= cs.len(),
            media_type(ct@) == out@ + media_type(cs@.subrange(i as int, cs.len() as int)),
        decreases cs.len() - i,
    {
        proof {
            let rest = cs@.subrange(i as int, cs.len() as int);
            assert(rest.drop_first() =~= cs@.subrange(i + 1, cs.len() as int));
            assert(out@.push(cs@[i as int]) =~= out@ + seq![rest[0]]);
        }
        out.push(cs[i]);
        i = i + 1;
    }
    proof {
        let rest = cs@.subrange(i as int, cs.len() as int);
        assert(media_type(rest) =~= Seq::<char>::empty());
        assert(out@ + Seq::<char>::empty() =~= out@);
    }
    out
}

/// Whether a content type is JSON; see [`is_json_type`].
pub fn is_json_content_type(ct: &str) -> (r: bool)
    ensures
        r == is_json_type(ct@),
{
    proof {
        reveal_strlit("application/json");
        reveal_strlit("application/");
        reveal_strlit("+json");
    }
    let m = crate::text::string_of(&media_type_of(ct));
    if str_eq(m.as_str(), "application/json") {
        return true;
    }
    let cs = chars_of(m.as_str());
    let n = cs.len();
    if n < 17 {
        return false;
    }
    let prefix = "application/";
    let pcs = chars_of(prefix);
    let mut i: usize = 0;
    while i < 12
        invariant
            n == cs.len(),
            n >= 17,
            cs@ == m@,
            m@ == media_type(ct@),
            m@ != "application/json"@,
            pcs@ == "application/"@,
            pcs.len() == 12,
            i <= 12,
            forall|j: int| 0 <= j < i ==> cs@[j] == pcs@[j],
        decreases 12 - i,
    {
        if cs[i] != pcs[i] {
            assert(cs@.subrange(0, 12) != "application/"@) by {
                if cs@.subrange(0, 12) == "application/"@ {
                    assert(cs@.subrange(0, 12)[i as int] == "application/"@[i as int]);
                }
            }
            return false;
        }
        i = i + 1;
    }
    assert(cs@.subrange(0, 12) =~= "application/"@);
    let suffix = chars_of("+json");
    let mut k: usize = 0;
    while k < 5
        invariant
            n == cs.len(),
            n >= 17,
            cs@ == m@,
            m@ == media_type(ct@),
            m@ != "application/json"@,
            suffix@ == "+json"@,
            suffix.len() == 5,
            k <= 5,
            cs@.subrange(0, 12) == "application/"@,
            forall|j: int| 0 <= j < k ==> cs@[n - 5 + j] == suffix@[j],
        decreases 5 - k,
    {
        if cs[n - 5 + k] != suffix[k] {
            assert(cs@.subrange(n - 5, n as int) != "+json"@) by {
                if cs@.subrange(n - 5, n as int) == "+json"@ {
                    assert(cs@.subrange(n - 5, n as int)[k as int] == "+json"@[k as int]);
                }
            }
            return false;
        }
        k = k + 1;
    }
    assert(cs@.subrange(n - 5, n as int) =~= "+json"@);
    true
}

/// The plan for the body; see [`body_plan`]. A body that is empty or null cannot be
/// planned.
pub fn setup_body_plan(expected: &HttpRequest, context: &PlanMatchingContext) -> (r: Result<ExecutionPlanNode, String>)
    requires
        !(expected@.body is Empty) && !(expected@.body is Null),
    ensures
        match (r, body_plan(expected@, context.matching_rules@, context.allow_unexpected_entries)) {
            (Ok(n), Ok(p)) => n@ == p,
            (Err(a), Err(b)) => a@ == b,
            _ => false,
        },
{
    proof {
        reveal_strlit("body");
        reveal_strlit("if");
        reveal_strlit("content-type");
        reveal_strlit("text/plain");
    }
    let mut plan_node = ExecutionPlanNode::container("body");
    match &expected.body {
        OptionalBody::Present(content, _) => {
            let content_type = match expected.content_type() {
                Some(c) => c,
                None => String::from_str("text/plain"),
            };
            let json = is_json_content_type(content_type.as_str());
            let check = equality_node_of(NodeValue::STRING(content_type),
                ExecutionPlanNode::resolve_value(root_field_path("content-type")));
            let body = if json {
                let builder = JsonPlanBuilder::new();
                builder.build_plan(content.as_slice(), context)
            } else {
                let builder = PlainTextBuilder::new();
                builder.build_plan(content.as_slice(), context)
            };
            let body = match body {
                Ok(b) => b,
                Err(e) => return Err(e),
            };
            let content_type_check_node = action2("if", check, body);
            plan_node.add(content_type_check_node);
            assert(plan_node@.children =~= seq![content_type_check_node@]);
            Ok(plan_node)
        },
        _ => Ok(plan_node),
    }
}

/// Constructs the plan that compares an actual HTTP request with the expected one. Only a
/// request that expects no query parameters or headers, and whose body is missing or
/// present, can be planned.
pub fn build_request_plan(expected: &HttpRequest, context: &PlanMatchingContext) -> (r: Result<ExecutionPlan, String>)
    requires
        plannable(expected@),
    ensures
        match (r, request_plan(expected@, categories_view(context.request_rules@), context.allow_unexpected_entries)) {
            (Ok(p), Ok(q)) => p.plan_root@ == q,
            (Err(a), Err(b)) => a@ == b,
            _ => false,
        },
{
    proof { reveal_strlit("request"); }
    let mut plan = ExecutionPlan::new("request");
    let method = setup_method_plan(expected, &context.for_method());
    let path = setup_path_plan(expected, &context.for_path());
    let query = setup_query_plan(expected, &context.for_query());
    let headers = setup_header_plan(expected, &context.for_headers());
    let body = setup_body_plan(expected, &context.for_body());
    match (method, path, query, headers, body) {
        (Ok(m), Ok(p), Ok(q), Ok(h), Ok(b)) => {
            plan.add(m);
            plan.add(p);
            plan.add(q);
            plan.add(h);
            plan.add(b);
            Ok(plan)
        },
        (_, _, _, _, Err(e)) => Err(e),
        _ => Err(String::new()),
    }
}

impl HttpRequest {
    /// A copy of this request.
    pub fn copy(&self) -> (r: HttpRequest)
        ensures
            r@ == self@,
    {
        HttpRequest {
            method: self.method.clone(),
            path: self.path.clone(),
            query: match &self.query {
                Some(q) => Some(copy_mmap(q)),
                None => None,
            },
            headers: match &self.headers {
                Some(h) => Some(copy_mmap(h)),
                None => None,
            },
            body: match &self.body {
                OptionalBody::Missing => OptionalBody::Missing,
                OptionalBody::Empty => OptionalBody::Empty,
                OptionalBody::Null => OptionalBody::Null,
                OptionalBody::Present(b, ct) => OptionalBody::Present(b.clone(), match ct {
                    Some(c) => Some(c.clone()),
                    None => None,
                }),
            },
        }
    }
}

/// Executes the request plan against the actual request.
pub fn execute_request_plan(plan: &ExecutionPlan, actual: &HttpRequest, context: &mut PlanMatchingContext) -> (r: Result<ExecutionPlan, String>)
    ensures
        plan_ok(plan.plan_root@) ==> r is Ok,
        r matches Ok(p) ==> walk_shape(plan.plan_root@, p.plan_root@),
        keeps_stack(plan.plan_root@) ==> (r matches Ok(p)
            && reads(plan.plan_root@, p.plan_root@, stack_top(stack_view(old(context).value_stack@)))),
        keeps_stack(plan.plan_root@) ==> stack_view(final(context).value_stack@) == stack_view(old(context).value_stack@),
        plan_ok(plan.plan_root@) && plan_fresh(plan.plan_root@) ==> (r matches Ok(p)
            && stack_view(final(context).value_stack@) == stack_after(plan.plan_root@, p.plan_root@, stack_view(old(context).value_stack@))),
{
    let value_resolver = HttpRequestValueResolver { request: actual.copy() };
    let path: Vec<String> = Vec::new();
    let executed_tree = walk_tree(&path, &plan.plan_root, &value_resolver, context)?;
    Ok(ExecutionPlan { plan_root: executed_tree })
}

} // verus!
