//! Building the plans that compare bodies: plain text, and JSON documents node by node.

use vstd::prelude::*;
use crate::text::{push_str, push_char, push_decimal, str_eq, decimal, joined};
use crate::json::{JsonValue, Json, json_text, serde_json_text, read_json, serde_json_read, json_views,
    lemma_json_views, entry_views, lemma_entry_views};
use crate::docpath::{DocPath, Step, path_text, last_field_name};
use crate::value::{NodeValue, NodeVal};
use crate::plan::{ExecutionPlanNode, PlanNode, PlanKind, plan_views, lemma_plan_views};
use crate::rules::{MatchingRule, RuleList, Rule, Category, rule_defined, rules_at};
use crate::context::PlanMatchingContext;
use crate::outside::utf8_lossy;

verus! {

/// A node of a plan that has not been executed, with the given children.
pub open spec fn plan_node(kind: PlanKind, children: Seq<PlanNode>) -> PlanNode {
    PlanNode { kind, result: None, children }
}

/// A leaf of a plan that has not been executed.
pub open spec fn leaf(kind: PlanKind) -> PlanNode {
    plan_node(kind, Seq::empty())
}

/// `~>path`: the value at the path inside the current value.
pub open spec fn current(path: Seq<Step>) -> PlanNode {
    leaf(PlanKind::RESOLVE_CURRENT(path))
}

/// `json:<text>`: a JSON value as a namespaced value holding its text.
pub open spec fn json_ns(j: Json) -> NodeVal {
    NodeVal::NAMESPACED("json"@, serde_json_text(j))
}

/// `%match:equality(expected, actual, NULL)`.
pub open spec fn equality_node(expected: NodeVal, actual: PlanNode) -> PlanNode {
    plan_node(PlanKind::ACTION("match:equality"@), seq![leaf(PlanKind::VALUE(expected)), actual, leaf(PlanKind::VALUE(NodeVal::NULL))])
}

/// The name of the matcher that a rule applies.
pub open spec fn rule_name(r: Rule) -> Seq<char> {
    match r {
        Rule::Equality => "equality"@,
        Rule::Regex(_) => "regex"@,
        Rule::Type => "type"@,
        Rule::MinType(_) => "min-type"@,
        Rule::MaxType(_) => "max-type"@,
        Rule::MinMaxType(_, _) => "min-max-type"@,
        Rule::Number => "number"@,
        Rule::Integer => "integer"@,
        Rule::Decimal => "decimal"@,
        Rule::Null => "null"@,
        Rule::Boolean => "boolean"@,
        Rule::NotEmpty => "not-empty"@,
        Rule::Semver => "semver"@,
        Rule::Values => "values"@,
        Rule::EachKey => "each-key"@,
        Rule::EachValue => "each-value"@,
    }
}

/// The parameters of a rule, as a JSON object.
pub open spec fn rule_params(r: Rule) -> Json {
    match r {
        Rule::Regex(re) => Json::Object(seq![("regex"@, Json::Str(re))]),
        Rule::MinType(n) => Json::Object(seq![("min"@, Json::Number(decimal(n)))]),
        Rule::MaxType(n) => Json::Object(seq![("max"@, Json::Number(decimal(n)))]),
        Rule::MinMaxType(a, b) => Json::Object(seq![("max"@, Json::Number(decimal(b))), ("min"@, Json::Number(decimal(a)))]),
        _ => Json::Object(Seq::empty()),
    }
}

/// `%match:<rule>(expected, actual, json:<parameters>)`: one rule applied to a value.
pub open spec fn rule_node_for(r: Rule, expected: NodeVal, actual: PlanNode) -> PlanNode {
    plan_node(PlanKind::ACTION("match:"@ + rule_name(r)), seq![leaf(PlanKind::VALUE(expected)), actual,
        leaf(PlanKind::VALUE(NodeVal::JSON(rule_params(r))))])
}

/// `%match:<rule>(expected, ~>path, json:<parameters>)`: one rule applied at a path.
pub open spec fn rule_node(r: Rule, expected: NodeVal, path: Seq<Step>) -> PlanNode {
    rule_node_for(r, expected, current(path))
}

/// The rules at a path applied to the expected value: the node of the one rule, or a
/// container (labelled with the path) of the nodes of several.
pub open spec fn rules_node(rules: Seq<Rule>, expected: NodeVal, path: Seq<Step>) -> PlanNode {
    if rules.len() == 1 {
        rule_node(rules[0], expected, path)
    } else {
        plan_node(PlanKind::CONTAINER(path_text(path)), rules.map_values(|r: Rule| rule_node(r, expected, path)))
    }
}

/// What a rule asks of a value, in words (of a collection, its items are counted).
pub open spec fn rule_description(r: Rule, collection: bool) -> Seq<char> {
    let items = if collection { " items"@ } else { Seq::empty() };
    match r {
        Rule::Equality => "must be equal to the expected value"@,
        Rule::Regex(re) => "must match the regular expression /"@ + re + "/"@,
        Rule::Type => "must match by type"@,
        Rule::MinType(n) => "must match by type and have at least "@ + decimal(n) + items,
        Rule::MaxType(n) => "must match by type and have at most "@ + decimal(n) + items,
        Rule::MinMaxType(a, b) => "must match by type and have at least "@ + decimal(a) + " and at most "@ + decimal(b) + items,
        Rule::Number => "must be a number"@,
        Rule::Integer => "must be an integer"@,
        Rule::Decimal => "must be a decimal number"@,
        Rule::Null => "must be null"@,
        Rule::Boolean => "must be a boolean"@,
        Rule::NotEmpty => "must not be empty"@,
        Rule::Semver => "must be a semantic version"@,
        Rule::Values => "must have values that match"@,
        Rule::EachKey => "must have keys that each match"@,
        Rule::EachValue => "must have values that each match"@,
    }
}

/// What the rules ask of a value, in words, joined with `and`.
pub open spec fn rules_description(rules: Seq<Rule>, collection: bool) -> Seq<char> {
    joined(" and "@, rules.map_values(|r: Rule| rule_description(r, collection)))
}

/// `#{'label description'}`: the annotation of the rules at a path.
pub open spec fn rules_annotation(label: Seq<char>, rules: Seq<Rule>, collection: bool) -> PlanNode {
    leaf(PlanKind::ANNOTATION(label + seq![' '] + rules_description(rules, collection)))
}

/// The name of the last field of a path, or nothing.
pub open spec fn last_field_or_empty(path: Seq<Step>) -> Seq<char> {
    match last_field_name(path) {
        Some(n) => n,
        None => Seq::empty(),
    }
}

/// Whether the rules apply to the entries of a map (`values`, `each-key`, `each-value`).
pub open spec fn applies_to_map_entries(rules: Seq<Rule>) -> bool {
    exists|i: int| 0 <= i < rules.len() && (#[trigger] rules[i] is Values || rules[i] is EachKey || rules[i] is EachValue)
}

/// Whether a JSON value is an array or an object.
pub open spec fn compound(j: Json) -> bool {
    j is Array || j is Object
}

/// `%if(%check:exists(~>path), check)`: the check of an array item that is not an array or
/// object, made only when the item exists.
pub open spec fn presence_check(m: Category, j: Json, path: Seq<Step>, label: Seq<char>) -> PlanNode {
    let exists = plan_node(PlanKind::ACTION("check:exists"@), seq![current(path)]);
    plan_node(PlanKind::ACTION("if"@), if rule_defined(m, path) {
        seq![exists, rules_annotation(label, rules_at(m, path), false), rules_node(rules_at(m, path), NodeVal::JSON(j), path)]
    } else {
        seq![exists, equality_node(json_ns(j), current(path))]
    })
}

/// The container of an array item: the nodes of an array or object, else its presence check.
pub open spec fn item_container(m: Category, allow: bool, j: Json, path: Seq<Step>, label: Seq<char>) -> PlanNode
    decreases j, 4nat,
{
    plan_node(PlanKind::CONTAINER(path_text(path)),
        if compound(j) { body_nodes(m, allow, j, path) } else { seq![presence_check(m, j, path, label)] })
}

/// `[n]`: the label of an array item.
pub open spec fn index_label(n: nat) -> Seq<char> {
    seq!['['] + decimal(n) + seq![']']
}

/// The nodes added for the first `k` items of an array that has no matcher: a container for
/// each item that is not itself an array or object.
pub open spec fn array_item_nodes(m: Category, allow: bool, items: Seq<Json>, path: Seq<Step>, k: nat) -> Seq<PlanNode>
    decreases items, k,
{
    if k == 0 || k > items.len() {
        Seq::empty()
    } else {
        let rest = array_item_nodes(m, allow, items, path, (k - 1) as nat);
        let item = items[k - 1];
        if compound(item) {
            rest
        } else {
            rest.push(item_container(m, allow, item, path.push(Step::Index((k - 1) as nat)), index_label((k - 1) as nat)))
        }
    }
}

/// The container of an object entry: the nodes of an array or object, else the check of the
/// value.
pub open spec fn entry_container(m: Category, allow: bool, key: Seq<char>, j: Json, path: Seq<Step>) -> PlanNode
    decreases j, 4nat,
{
    let item_path = path.push(Step::Field(key));
    plan_node(PlanKind::CONTAINER(path_text(item_path)),
        if compound(j) {
            body_nodes(m, allow, j, item_path)
        } else if rule_defined(m, item_path) {
            seq![rules_annotation(key, rules_at(m, item_path), false), rules_node(rules_at(m, item_path), NodeVal::JSON(j), item_path)]
        } else {
            seq![equality_node(json_ns(j), current(item_path))]
        })
}

/// The containers of the first `k` entries of an object.
pub open spec fn entry_nodes(m: Category, allow: bool, entries: Seq<(Seq<char>, Json)>, path: Seq<Step>, k: nat) -> Seq<PlanNode>
    decreases entries, k,
{
    if k == 0 || k > entries.len() {
        Seq::empty()
    } else {
        entry_nodes(m, allow, entries, path, (k - 1) as nat).push(
            entry_container(m, allow, entries[k - 1].0, entries[k - 1].1, path))
    }
}

/// The keys of some object entries.
pub open spec fn keys_of(entries: Seq<(Seq<char>, Json)>) -> Seq<Seq<char>> {
    entries.map_values(|e: (Seq<char>, Json)| e.0)
}

/// The nodes that check an object before its entries.
pub open spec fn object_head(m: Category, allow: bool, j: Json, entries: Seq<(Seq<char>, Json)>, path: Seq<Step>) -> Seq<PlanNode> {
    let rules = rules_at(m, path);
    let object = leaf(PlanKind::VALUE(NodeVal::STRING("OBJECT"@)));
    let keys = leaf(PlanKind::VALUE(NodeVal::SLIST(keys_of(entries))));
    if rules.len() > 0 && applies_to_map_entries(rules) {
        seq![leaf(PlanKind::ANNOTATION(rules_description(rules, true))), rules_node(rules, NodeVal::JSON(j), path)]
    } else if entries.len() == 0 {
        seq![plan_node(PlanKind::ACTION("json:expect:empty"@), seq![object, current(path)])]
    } else {
        seq![plan_node(PlanKind::ACTION("json:expect:entries"@), seq![object, keys, current(path)]),
            if !allow {
                plan_node(PlanKind::ACTION("expect:only-entries"@), seq![keys, current(path)])
            } else {
                plan_node(PlanKind::ACTION("json:expect:not-empty"@), seq![object, current(path)])
            }]
    }
}

/// The nodes that check an expected JSON value at a path, added to the node of the path.
pub open spec fn body_nodes(m: Category, allow: bool, j: Json, path: Seq<Step>) -> Seq<PlanNode>
    decreases j, 3nat,
{
    match j {
        Json::Array(items) => {
            let array = leaf(PlanKind::VALUE(NodeVal::STRING("ARRAY"@)));
            if rule_defined(m, path) {
                let head = seq![rules_annotation(last_field_or_empty(path), rules_at(m, path), true),
                    rules_node(rules_at(m, path), NodeVal::JSON(j), path)];
                if items.len() > 0 {
                    let item_path = path.push(Step::StarIndex);
                    head.push(plan_node(PlanKind::ACTION("for-each"@), seq![current(path),
                        item_container(m, allow, items[0], item_path, "[*]"@)]))
                } else {
                    head
                }
            } else if items.len() == 0 {
                seq![plan_node(PlanKind::ACTION("json:expect:empty"@), seq![array, current(path)])]
            } else {
                seq![plan_node(PlanKind::ACTION("json:match:length"@), seq![array,
                    leaf(PlanKind::VALUE(NodeVal::UINT(items.len() as u64))), current(path)])]
                    + array_item_nodes(m, allow, items, path, items.len())
            }
        },
        Json::Object(entries) => object_head(m, allow, j, entries, path) + entry_nodes(m, allow, entries, path, entries.len()),
        _ => if rule_defined(m, path) {
            seq![rules_annotation(last_field_or_empty(path), rules_at(m, path), false),
                rules_node(rules_at(m, path), NodeVal::JSON(j), path)]
        } else {
            seq![equality_node(json_ns(j), leaf(PlanKind::ACTION("apply"@)))]
        },
    }
}

/// The name of the matcher that a rule applies; see [`rule_name`].
fn rule_name_of(r: &MatchingRule) -> (s: &'static str)
    ensures
        s@ == rule_name(r@),
{
    proof {
        reveal_strlit("equality");
        reveal_strlit("regex");
        reveal_strlit("type");
        reveal_strlit("min-type");
        reveal_strlit("max-type");
        reveal_strlit("min-max-type");
        reveal_strlit("number");
        reveal_strlit("integer");
        reveal_strlit("decimal");
        reveal_strlit("null");
        reveal_strlit("boolean");
        reveal_strlit("not-empty");
        reveal_strlit("semver");
        reveal_strlit("values");
        reveal_strlit("each-key");
        reveal_strlit("each-value");
    }
    match r {
        MatchingRule::Equality => "equality",
        MatchingRule::Regex(_) => "regex",
        MatchingRule::Type => "type",
        MatchingRule::MinType(_) => "min-type",
        MatchingRule::MaxType(_) => "max-type",
        MatchingRule::MinMaxType(_, _) => "min-max-type",
        MatchingRule::Number => "number",
        MatchingRule::Integer => "integer",
        MatchingRule::Decimal => "decimal",
        MatchingRule::Null => "null",
        MatchingRule::Boolean => "boolean",
        MatchingRule::NotEmpty => "not-empty",
        MatchingRule::Semver => "semver",
        MatchingRule::Values => "values",
        MatchingRule::EachKey => "each-key",
        MatchingRule::EachValue => "each-value",
    }
}

/// A JSON number holding a count.
fn number_of(n: usize) -> (j: JsonValue)
    ensures
        j@ == Json::Number(decimal(n as nat)),
{
    JsonValue::Number(crate::text::u64_to_string(n as u64))
}

/// A JSON object with one entry.
fn object1(key: &str, v: JsonValue) -> (j: JsonValue)
    ensures
        j@ == Json::Object(seq![(key@, v@)]),
{
    let mut entries: Vec<(String, JsonValue)> = Vec::new();
    entries.push((key.to_string(), v));
    proof { lemma_entry_views(entries@); }
    let j = JsonValue::Object(entries);
    assert(entry_views(entries@) =~= seq![(key@, entries@[0].1@)]);
    j
}

/// The parameters of a rule; see [`rule_params`].
fn rule_params_of(r: &MatchingRule) -> (j: JsonValue)
    ensures
        j@ == rule_params(r@),
{
    proof {
        reveal_strlit("regex");
        reveal_strlit("min");
        reveal_strlit("max");
    }
    match r {
        MatchingRule::Regex(re) => object1("regex", JsonValue::Str(re.clone())),
        MatchingRule::MinType(n) => object1("min", number_of(*n)),
        MatchingRule::MaxType(n) => object1("max", number_of(*n)),
        MatchingRule::MinMaxType(a, b) => {
            let mut entries: Vec<(String, JsonValue)> = Vec::new();
            entries.push(("max".to_string(), number_of(*b)));
            entries.push(("min".to_string(), number_of(*a)));
            proof { lemma_entry_views(entries@); }
            let j = JsonValue::Object(entries);
            assert(entry_views(entries@) =~= seq![("max"@, Json::Number(decimal(*b as nat))), ("min"@, Json::Number(decimal(*a as nat)))]);
            j
        },
        _ => {
            let entries: Vec<(String, JsonValue)> = Vec::new();
            proof { lemma_entry_views(entries@); }
            let j = JsonValue::Object(entries);
            assert(entry_views(entries@) =~= Seq::<(Seq<char>, Json)>::empty());
            j
        },
    }
}

/// The node of one rule applied to a value; see [`rule_node_for`].
pub(crate) fn rule_node_for_of(r: &MatchingRule, expected: &NodeValue, actual: ExecutionPlanNode) -> (n: ExecutionPlanNode)
    ensures
        n@ == rule_node_for(r@, expected@, actual@),
{
    proof { reveal_strlit("match:"); }
    let mut name = String::from_str("match:");
    push_str(&mut name, rule_name_of(r));
    let ghost a = actual@;
    let mut n = ExecutionPlanNode::action(name.as_str());
    n.add(ExecutionPlanNode::value_node(expected.copy()));
    n.add(actual);
    n.add(ExecutionPlanNode::value_node(NodeValue::JSON(rule_params_of(r))));
    assert(n@.children =~= rule_node_for(r@, expected@, a).children);
    n
}

/// The node of one rule applied at a path; see [`rule_node`].
fn rule_node_of(r: &MatchingRule, expected: &NodeValue, path: &DocPath) -> (n: ExecutionPlanNode)
    ensures
        n@ == rule_node(r@, expected@, path@),
{
    rule_node_for_of(r, expected, ExecutionPlanNode::resolve_current_value(path.copy()))
}

/// The node of the rules at a path; see [`rules_node`].
fn rules_node_of(rules: &RuleList, expected: &NodeValue, path: &DocPath) -> (n: ExecutionPlanNode)
    ensures
        n@ == rules_node(rules@, expected@, path@),
{
    if rules.rules.len() == 1 {
        return rule_node_of(&rules.rules[0], expected, path);
    }
    let label = path.to_text();
    let mut n = ExecutionPlanNode::container(label.as_str());
    let mut i: usize = 0;
    while i < rules.rules.len()
        invariant
            i <= rules.rules.len(),
            n@.kind == PlanKind::CONTAINER(path_text(path@)),
            n@.result is None,
            n@.children =~= rules@.subrange(0, i as int).map_values(|r: Rule| rule_node(r, expected@, path@)),
        decreases rules.rules.len() - i,
    {
        let c = rule_node_of(&rules.rules[i], expected, path);
        n.add(c);
        i = i + 1;
    }
    assert(rules@.subrange(0, rules@.len() as int) =~= rules@);
    n
}

/// Whether any of the rules applies to the entries of a map (`values`, `each-key`,
/// `each-value`).
pub fn should_apply_to_map_entries(rules: &RuleList) -> (r: bool)
    ensures
        r == applies_to_map_entries(rules@),
{
    let mut i: usize = 0;
    while i < rules.rules.len()
        invariant
            i <= rules.rules.len(),
            forall|j: int| 0 <= j < i ==> !(rules@[j] is Values || rules@[j] is EachKey || rules@[j] is EachValue),
        decreases rules.rules.len() - i,
    {
        match &rules.rules[i] {
            MatchingRule::Values | MatchingRule::EachKey | MatchingRule::EachValue => {
                assert(rules@[i as int] is Values || rules@[i as int] is EachKey || rules@[i as int] is EachValue);
                return true;
            },
            _ => {},
        }
        i = i + 1;
    }
    false
}

/// `%match:equality(expected, actual, NULL)`.
pub(crate) fn equality_node_of(expected: NodeValue, actual: ExecutionPlanNode) -> (n: ExecutionPlanNode)
    ensures
        n@ == equality_node(expected@, actual@),
{
    proof { reveal_strlit("match:equality"); }
    let mut n = ExecutionPlanNode::action("match:equality");
    n.add(ExecutionPlanNode::value_node(expected));
    n.add(actual);
    n.add(ExecutionPlanNode::value_node(NodeValue::NULL));
    assert(n@.children =~= equality_node(expected@, actual@).children);
    n
}

/// A JSON value as a namespaced value; see [`json_ns`].
fn json_ns_of(j: &JsonValue) -> (v: NodeValue)
    ensures
        v@ == json_ns(j@),
{
    proof { reveal_strlit("json"); }
    NodeValue::NAMESPACED(String::from_str("json"), json_text(j))
}

/// Appends what a rule asks of a value; see [`rule_description`].
fn push_rule_description(buf: &mut String, r: &MatchingRule, collection: bool)
    ensures
        final(buf)@ == old(buf)@ + rule_description(r@, collection),
{
    proof {
        reveal_strlit(" items");
        reveal_strlit("must be equal to the expected value");
        reveal_strlit("must match the regular expression /");
        reveal_strlit("/");
        reveal_strlit("must match by type");
        reveal_strlit("must match by type and have at least ");
        reveal_strlit("must match by type and have at most ");
        reveal_strlit(" and at most ");
        reveal_strlit("must be a number");
        reveal_strlit("must be an integer");
        reveal_strlit("must be a decimal number");
        reveal_strlit("must be null");
        reveal_strlit("must be a boolean");
        reveal_strlit("must not be empty");
        reveal_strlit("must be a semantic version");
        reveal_strlit("must have values that match");
        reveal_strlit("must have keys that each match");
        reveal_strlit("must have values that each match");
    }
    let items = if collection { " items" } else { "" };
    proof { reveal_strlit(""); }
    match r {
        MatchingRule::Equality => push_str(buf, "must be equal to the expected value"),
        MatchingRule::Regex(re) => {
            push_str(buf, "must match the regular expression /");
            push_str(buf, re.as_str());
            push_str(buf, "/");
        },
        MatchingRule::Type => push_str(buf, "must match by type"),
        MatchingRule::MinType(n) => {
            push_str(buf, "must match by type and have at least ");
            push_decimal(buf, *n as u64);
            push_str(buf, items);
        },
        MatchingRule::MaxType(n) => {
            push_str(buf, "must match by type and have at most ");
            push_decimal(buf, *n as u64);
            push_str(buf, items);
        },
        MatchingRule::MinMaxType(a, b) => {
            push_str(buf, "must match by type and have at least ");
            push_decimal(buf, *a as u64);
            push_str(buf, " and at most ");
            push_decimal(buf, *b as u64);
            push_str(buf, items);
        },
        MatchingRule::Number => push_str(buf, "must be a number"),
        MatchingRule::Integer => push_str(buf, "must be an integer"),
        MatchingRule::Decimal => push_str(buf, "must be a decimal number"),
        MatchingRule::Null => push_str(buf, "must be null"),
        MatchingRule::Boolean => push_str(buf, "must be a boolean"),
        MatchingRule::NotEmpty => push_str(buf, "must not be empty"),
        MatchingRule::Semver => push_str(buf, "must be a semantic version"),
        MatchingRule::Values => push_str(buf, "must have values that match"),
        MatchingRule::EachKey => push_str(buf, "must have keys that each match"),
        MatchingRule::EachValue => push_str(buf, "must have values that each match"),
    }
    assert(items@ =~= if collection { " items"@ } else { Seq::<char>::empty() });
    assert(buf@ =~= old(buf)@ + rule_description(r@, collection));
}

/// Appends what the rules ask of a value; see [`rules_description`].
fn push_rules_description(buf: &mut String, rules: &RuleList, collection: bool)
    ensures
        final(buf)@ == old(buf)@ + rules_description(rules@, collection),
{
    proof { reveal_strlit(" and "); }
    let ghost texts = rules@.map_values(|r: Rule| rule_description(r, collection));
    let mut i: usize = 0;
    while i < rules.rules.len()
        invariant
            i <= rules.rules.len(),
            texts == rules@.map_values(|r: Rule| rule_description(r, collection)),
            buf@ == old(buf)@ + joined(" and "@, texts.subrange(0, i as int)),
        decreases rules.rules.len() - i,
    {
        proof {
            crate::text::lemma_joined_push(" and "@, texts.subrange(0, i as int), texts[i as int]);
            assert(texts.subrange(0, i + 1) =~= texts.subrange(0, i as int).push(texts[i as int]));
        }
        if i > 0 {
            push_str(buf, " and ");
        }
        push_rule_description(buf, &rules.rules[i], collection);
        i = i + 1;
    }
    assert(texts.subrange(0, rules.rules.len() as int) =~= texts);
}

/// The annotation of the rules at a path; see [`rules_annotation`].
fn rules_annotation_of(label: &str, rules: &RuleList, collection: bool) -> (n: ExecutionPlanNode)
    ensures
        n@ == rules_annotation(label@, rules@, collection),
{
    let mut text = label.to_string();
    push_char(&mut text, ' ');
    push_rules_description(&mut text, rules, collection);
    assert(text@ =~= label@ + seq![' '] + rules_description(rules@, collection));
    ExecutionPlanNode::annotation(text.as_str())
}

/// The name of the last field of a path, or nothing.
fn last_field_or_empty_of(path: &DocPath) -> (r: String)
    ensures
        r@ == last_field_or_empty(path@),
{
    match path.last_field() {
        Some(n) => n,
        None => String::new(),
    }
}

/// The presence check of an array item; see [`presence_check`].
fn presence_check_of(context: &PlanMatchingContext, j: &JsonValue, path: &DocPath, label: &str) -> (n: ExecutionPlanNode)
    ensures
        n@ == presence_check(context.matching_rules@, j@, path@, label@),
{
    proof {
        reveal_strlit("if");
        reveal_strlit("check:exists");
    }
    let mut check = ExecutionPlanNode::action("check:exists");
    check.add(ExecutionPlanNode::resolve_current_value(path.copy()));
    let mut n = ExecutionPlanNode::action("if");
    n.add(check);
    if context.matcher_is_defined(path) {
        let rules = context.select_best_matcher(path);
        n.add(rules_annotation_of(label, &rules, false));
        n.add(rules_node_of(&rules, &NodeValue::JSON(j.copy()), path));
    } else {
        n.add(equality_node_of(json_ns_of(j), ExecutionPlanNode::resolve_current_value(path.copy())));
    }
    assert(n@.children =~= presence_check(context.matching_rules@, j@, path@, label@).children);
    n
}

/// Whether a JSON value is an array or an object.
fn is_compound(j: &JsonValue) -> (r: bool)
    ensures
        r == compound(j@),
{
    match j {
        JsonValue::Array(_) => true,
        JsonValue::Object(_) => true,
        _ => false,
    }
}

/// An action node with two children.
pub(crate) fn action2(name: &str, a: ExecutionPlanNode, b: ExecutionPlanNode) -> (r: ExecutionPlanNode)
    ensures
        r@ == plan_node(PlanKind::ACTION(name@), seq![a@, b@]),
{
    let mut n = ExecutionPlanNode::action(name);
    n.add(a);
    n.add(b);
    assert(n@.children =~= seq![a@, b@]);
    n
}

/// An action node with three children.
pub(crate) fn action3(name: &str, a: ExecutionPlanNode, b: ExecutionPlanNode, c: ExecutionPlanNode) -> (r: ExecutionPlanNode)
    ensures
        r@ == plan_node(PlanKind::ACTION(name@), seq![a@, b@, c@]),
{
    let mut n = ExecutionPlanNode::action(name);
    n.add(a);
    n.add(b);
    n.add(c);
    assert(n@.children =~= seq![a@, b@, c@]);
    n
}

/// A string value node.
pub(crate) fn string_node(s: &str) -> (r: ExecutionPlanNode)
    ensures
        r@ == leaf(PlanKind::VALUE(NodeVal::STRING(s@))),
{
    ExecutionPlanNode::value_node(NodeValue::STRING(s.to_string()))
}

/// Plan builder for plain text bodies: the body, read as UTF-8, must equal the expected text.
#[derive(Debug)]
pub struct PlainTextBuilder;

impl PlainTextBuilder {
    /// Create a new instance.
    pub fn new() -> (r: Self)
        ensures
            r == PlainTextBuilder,
    {
        PlainTextBuilder
    }

    /// This builder names no namespace for its values.
    pub fn namespace(&self) -> (r: Option<String>)
        ensures
            r is None,
    {
        None
    }

    /// Builds the plan that compares a plain text body with the expected content.
    pub fn build_plan(&self, content: &[u8], context: &PlanMatchingContext) -> (r: Result<ExecutionPlanNode, String>)
        ensures
            r matches Ok(n) && n@ == text_body_plan(content@),
    {
        let text = crate::outside::from_utf8_lossy(content);
        let body = DocPath::body_path();
        proof {
            reveal_strlit("match:equality");
            reveal_strlit("convert:UTF8");
        }
        let mut node = ExecutionPlanNode::action("match:equality");
        let mut child_node = ExecutionPlanNode::action("convert:UTF8");
        child_node.add(ExecutionPlanNode::resolve_value(body));
        node.add(ExecutionPlanNode::value_node(NodeValue::STRING(text)));
        node.add(child_node);
        node.add(ExecutionPlanNode::value_node(NodeValue::NULL));
        assert(node@.children =~= text_body_plan(content@).children);
        Ok(node)
    }
}

/// `$.body`.
pub open spec fn body_path() -> Seq<Step> {
    seq![Step::Root, Step::Field("body"@)]
}

/// The plan for a plain text body: `%match:equality('text', %convert:UTF8($.body), NULL)`.
pub open spec fn text_body_plan(content: Seq<u8>) -> PlanNode {
    plan_node(PlanKind::ACTION("match:equality"@), seq![
        leaf(PlanKind::VALUE(NodeVal::STRING(utf8_lossy(content)))),
        plan_node(PlanKind::ACTION("convert:UTF8"@), seq![leaf(PlanKind::RESOLVE(body_path()))]),
        leaf(PlanKind::VALUE(NodeVal::NULL)),
    ])
}

impl DocPath {
    /// The path `$.body`.
    pub fn body_path() -> (r: DocPath)
        ensures
            r@ == body_path(),
    {
        proof { reveal_strlit("body"); }
        let mut p = DocPath::root();
        p.push_field("body");
        p
    }
}

/// Plan builder for JSON bodies.
#[derive(Debug)]
pub struct JsonPlanBuilder;

/// The plan for a JSON body: the body is parsed and put on the stack, and the expected
/// document is checked against it from the root.
pub open spec fn json_body_plan(m: Category, allow: bool, expected: Json) -> PlanNode {
    plan_node(PlanKind::ACTION("tee"@), seq![
        plan_node(PlanKind::ACTION("json:parse"@), seq![leaf(PlanKind::RESOLVE(body_path()))]),
        plan_node(PlanKind::CONTAINER("$"@), body_nodes(m, allow, expected, seq![Step::Root])),
    ])
}

impl JsonPlanBuilder {
    /// Create a new instance.
    pub fn new() -> (r: Self)
        ensures
            r == JsonPlanBuilder,
    {
        JsonPlanBuilder
    }

    /// The namespace of the values of this builder, `json`.
    pub fn namespace(&self) -> (r: Option<String>)
        ensures
            r matches Some(s) && s@ == "json"@,
    {
        proof { reveal_strlit("json"); }
        Some(String::from_str("json"))
    }

    /// Builds the plan for a JSON body: fails when the expected content is not JSON.
    pub fn build_plan(&self, content: &[u8], context: &PlanMatchingContext) -> (r: Result<ExecutionPlanNode, String>)
        ensures
            match (r, serde_json_read(content@)) {
                (Ok(n), Ok(j)) => n@ == json_body_plan(context.matching_rules@, context.allow_unexpected_entries, j),
                (Err(e), Err(f)) => e@ == f,
                _ => false,
            },
    {
        let expected = match read_json(content) {
            Ok(j) => j,
            Err(e) => return Err(e),
        };
        proof {
            reveal_strlit("tee");
            reveal_strlit("json:parse");
            reveal_strlit("$");
        }
        let mut body_node = ExecutionPlanNode::action("tee");
        let mut parse = ExecutionPlanNode::action("json:parse");
        parse.add(ExecutionPlanNode::resolve_value(DocPath::body_path()));
        body_node.add(parse);
        let path = DocPath::root();
        let label = path.to_text();
        assert(label@ =~= "$"@) by {
            reveal_with_fuel(path_text, 2);
        }
        let mut root_node = ExecutionPlanNode::container(label.as_str());
        Self::process_body_node(context, &expected, &path, &mut root_node);
        assert(root_node@.children =~= body_nodes(context.matching_rules@, context.allow_unexpected_entries, expected@, seq![Step::Root]));
        body_node.add(root_node);
        assert(body_node@.children =~= json_body_plan(context.matching_rules@, context.allow_unexpected_entries, expected@).children);
        Ok(body_node)
    }

    /// Adds to the node of a path the nodes that check the expected JSON value there.
    fn process_body_node(context: &PlanMatchingContext, json: &JsonValue, path: &DocPath, root_node: &mut ExecutionPlanNode)
        ensures
            final(root_node)@ == (PlanNode {
                children: old(root_node)@.children + body_nodes(context.matching_rules@, context.allow_unexpected_entries, json@, path@),
                ..old(root_node)@
            }),
        decreases json, 3nat,
    {
        let ghost m = context.matching_rules@;
        let ghost allow = context.allow_unexpected_entries;
        let ghost start = root_node@;
        proof { reveal_strlit("apply"); }
        match json {
            JsonValue::Array(items) => Self::process_array(context, json, items, path, root_node),
            JsonValue::Object(entries) => Self::process_object(context, json, entries, path, root_node),
            _ => {
                if context.matcher_is_defined(path) {
                    let matchers = context.select_best_matcher(path);
                    let label = last_field_or_empty_of(path);
                    root_node.add(rules_annotation_of(label.as_str(), &matchers, false));
                    root_node.add(rules_node_of(&matchers, &NodeValue::JSON(json.copy()), path));
                } else {
                    let match_node = equality_node_of(json_ns_of(json), ExecutionPlanNode::action("apply"));
                    root_node.add(match_node);
                }
                assert(root_node@.children =~= start.children + body_nodes(m, allow, json@, path@));
            },
        }
    }

    /// The nodes of an array; see [`body_nodes`].
    fn process_array(context: &PlanMatchingContext, json: &JsonValue, items: &Vec<JsonValue>, path: &DocPath, root_node: &mut ExecutionPlanNode)
        requires
            *json == JsonValue::Array(*items),
        ensures
            final(root_node)@ == (PlanNode {
                children: old(root_node)@.children + body_nodes(context.matching_rules@, context.allow_unexpected_entries, json@, path@),
                ..old(root_node)@
            }),
        decreases json, 2nat,
    {
        let ghost m = context.matching_rules@;
        let ghost allow = context.allow_unexpected_entries;
        let ghost start = root_node@;
        proof {
            reveal_strlit("ARRAY");
            reveal_strlit("OBJECT");
            reveal_strlit("for-each");
            reveal_strlit("json:expect:empty");
            reveal_strlit("json:match:length");
            reveal_strlit("json:expect:entries");
            reveal_strlit("expect:only-entries");
            reveal_strlit("json:expect:not-empty");
            reveal_strlit("apply");
        }
        proof { lemma_json_views(items@); }
        if context.matcher_is_defined(path) {
            let matchers = context.select_best_matcher(path);
            let label = last_field_or_empty_of(path);
            root_node.add(rules_annotation_of(label.as_str(), &matchers, true));
            root_node.add(rules_node_of(&matchers, &NodeValue::JSON(json.copy()), path));
            assert(root_node@.children =~= start.children + seq![rules_annotation(last_field_or_empty(path@), rules_at(m, path@), true),
                rules_node(rules_at(m, path@), NodeVal::JSON(json@), path@)]);
            if items.len() > 0 {
                proof {
                    vstd::std_specs::vec::axiom_vec_index_decreases(*items, 0);
                    assert(decreases_to!(*json => (*json)->Array_0));
                    assert(decreases_to!(*json => items[0]));
                }
                let mut for_each_node = ExecutionPlanNode::action("for-each");
                let mut item_path = path.copy();
                item_path.push_star_index();
                for_each_node.add(ExecutionPlanNode::resolve_current_value(path.copy()));
                proof { reveal_strlit("[*]"); }
                let item_node = Self::item_container_of(context, &items[0], item_path, "[*]");
                for_each_node.add(item_node);
                assert(json_views(items@)[0] == items@[0]@);
                assert(for_each_node@.children =~= seq![current(path@),
                    item_container(m, allow, json_views(items@)[0], path@.push(Step::StarIndex), "[*]"@)]);
                root_node.add(for_each_node);
            }
            assert(root_node@.children =~= start.children + body_nodes(m, allow, json@, path@));
        } else if items.len() == 0 {
            root_node.add(action2("json:expect:empty", string_node("ARRAY"),
                ExecutionPlanNode::resolve_current_value(path.copy())));
            assert(root_node@.children =~= start.children + body_nodes(m, allow, json@, path@));
        } else {
            root_node.add(action3("json:match:length", string_node("ARRAY"),
                ExecutionPlanNode::value_node(NodeValue::UINT(items.len() as u64)),
                ExecutionPlanNode::resolve_current_value(path.copy())));
            let ghost head = root_node@.children;
            let mut index: usize = 0;
            while index < items.len()
                invariant
                    *json == JsonValue::Array(*items),
                    index <= items.len(),
                    json_views(items@).len() == items.len(),
                    forall|j: int| 0 <= j < items.len() ==> #[trigger] json_views(items@)[j] == items@[j]@,
                    m == context.matching_rules@,
                    allow == context.allow_unexpected_entries,
                    root_node@.kind == start.kind,
                    root_node@.result == start.result,
                    root_node@.children == head + array_item_nodes(m, allow, json_views(items@), path@, index as nat),
                decreases items.len() - index,
            {
                proof {
                    vstd::std_specs::vec::axiom_vec_index_decreases(*items, index as int);
                    assert(decreases_to!(*json => (*json)->Array_0));
                    assert(decreases_to!(*json => items[index as int]));
                }
                let item = &items[index];
                if !is_compound(item) {
                    let item_path = path.join_index(index);
                    let mut label = String::new();
                    push_char(&mut label, '[');
                    push_decimal(&mut label, index as u64);
                    push_char(&mut label, ']');
                    assert(label@ =~= index_label(index as nat));
                    let item_node = Self::item_container_of(context, item, item_path, label.as_str());
                    root_node.add(item_node);
                }
                index = index + 1;
            }
            assert(root_node@.children =~= start.children + body_nodes(m, allow, json@, path@));
        }
    }

    /// The nodes of an object; see [`body_nodes`].
    fn process_object(context: &PlanMatchingContext, json: &JsonValue, entries: &Vec<(String, JsonValue)>, path: &DocPath, root_node: &mut ExecutionPlanNode)
        requires
            *json == JsonValue::Object(*entries),
        ensures
            final(root_node)@ == (PlanNode {
                children: old(root_node)@.children + body_nodes(context.matching_rules@, context.allow_unexpected_entries, json@, path@),
                ..old(root_node)@
            }),
        decreases json, 2nat,
    {
        let ghost m = context.matching_rules@;
        let ghost allow = context.allow_unexpected_entries;
        let ghost start = root_node@;
        proof {
            reveal_strlit("ARRAY");
            reveal_strlit("OBJECT");
            reveal_strlit("for-each");
            reveal_strlit("json:expect:empty");
            reveal_strlit("json:match:length");
            reveal_strlit("json:expect:entries");
            reveal_strlit("expect:only-entries");
            reveal_strlit("json:expect:not-empty");
            reveal_strlit("apply");
        }
        proof { lemma_entry_views(entries@); }
        let rules = context.select_best_matcher(path);
        let ghost oh = object_head(m, allow, json@, entry_views(entries@), path@);
        if !rules.is_empty() && should_apply_to_map_entries(&rules) {
            let mut text = String::new();
            push_rules_description(&mut text, &rules, true);
            root_node.add(ExecutionPlanNode::annotation(text.as_str()));
            root_node.add(rules_node_of(&rules, &NodeValue::JSON(json.copy()), path));
        } else if entries.len() == 0 {
            root_node.add(action2("json:expect:empty", string_node("OBJECT"),
                ExecutionPlanNode::resolve_current_value(path.copy())));
        } else {
            let keys = Self::entry_keys(entries);
            assert(entry_views(entries@).len() > 0);
            root_node.add(action3("json:expect:entries", string_node("OBJECT"),
                ExecutionPlanNode::value_node(NodeValue::SLIST(crate::value::copy_strings(&keys))),
                ExecutionPlanNode::resolve_current_value(path.copy())));
            if !context.allow_unexpected_entries {
                root_node.add(action2("expect:only-entries", ExecutionPlanNode::value_node(NodeValue::SLIST(keys)),
                    ExecutionPlanNode::resolve_current_value(path.copy())));
            } else {
                root_node.add(action2("json:expect:not-empty", string_node("OBJECT"),
                    ExecutionPlanNode::resolve_current_value(path.copy())));
            }
        }
        let ghost head = root_node@.children;
        assert(head =~= start.children + object_head(m, allow, json@, entry_views(entries@), path@));
        let mut index: usize = 0;
        while index < entries.len()
            invariant
                *json == JsonValue::Object(*entries),
                index <= entries.len(),
                entry_views(entries@).len() == entries.len(),
                forall|j: int| 0 <= j < entries.len() ==> #[trigger] entry_views(entries@)[j] == (entries@[j].0@, entries@[j].1@),
                m == context.matching_rules@,
                allow == context.allow_unexpected_entries,
                root_node@.kind == start.kind,
                root_node@.result == start.result,
                root_node@.children == head + entry_nodes(m, allow, entry_views(entries@), path@, index as nat),
            decreases entries.len() - index,
        {
            proof {
                vstd::std_specs::vec::axiom_vec_index_decreases(*entries, index as int);
                assert(decreases_to!(*json => (*json)->Object_0));
                assert(decreases_to!(*json => entries[index as int].1));
            }
            let item_node = Self::entry_container_of(context, entries[index].0.as_str(), &entries[index].1, path);
            root_node.add(item_node);
            index = index + 1;
        }
        assert(root_node@.children =~= start.children + body_nodes(m, allow, json@, path@));
    }

    /// The keys of some object entries.
    fn entry_keys(entries: &Vec<(String, JsonValue)>) -> (r: Vec<String>)
        ensures
            crate::text::string_views(r@) == keys_of(entry_views(entries@)),
    {
        proof { lemma_entry_views(entries@); }
        let mut out: Vec<String> = Vec::new();
        let mut i: usize = 0;
        while i < entries.len()
            invariant
                i <= entries.len(),
                out.len() == i,
                forall|j: int| 0 <= j < i ==> #[trigger] out@[j]@ == entries@[j].0@,
            decreases entries.len() - i,
        {
            out.push(entries[i].0.clone());
            i = i + 1;
        }
        assert(crate::text::string_views(out@) =~= keys_of(entry_views(entries@)));
        out
    }

    /// The container of an array item; see [`item_container`].
    fn item_container_of(context: &PlanMatchingContext, item: &JsonValue, item_path: DocPath, label: &str) -> (n: ExecutionPlanNode)
        ensures
            n@ == item_container(context.matching_rules@, context.allow_unexpected_entries, item@, item_path@, label@),
        decreases item, 4nat,
    {
        let title = item_path.to_text();
        let mut item_node = ExecutionPlanNode::container(title.as_str());
        if is_compound(item) {
            Self::process_body_node(context, item, &item_path, &mut item_node);
        } else {
            item_node.add(presence_check_of(context, item, &item_path, label));
        }
        assert(item_node@.children =~= item_container(context.matching_rules@, context.allow_unexpected_entries, item@, item_path@, label@).children);
        item_node
    }

    /// The container of an object entry; see [`entry_container`].
    fn entry_container_of(context: &PlanMatchingContext, key: &str, value: &JsonValue, path: &DocPath) -> (n: ExecutionPlanNode)
        ensures
            n@ == entry_container(context.matching_rules@, context.allow_unexpected_entries, key@, value@, path@),
        decreases value, 4nat,
    {
        let mut item_path = path.copy();
        item_path.push_field(key);
        let label = item_path.to_text();
        let mut item_node = ExecutionPlanNode::container(label.as_str());
        if is_compound(value) {
            Self::process_body_node(context, value, &item_path, &mut item_node);
        } else if context.matcher_is_defined(&item_path) {
            let matchers = context.select_best_matcher(&item_path);
            item_node.add(rules_annotation_of(key, &matchers, false));
            item_node.add(rules_node_of(&matchers, &NodeValue::JSON(value.copy()), &item_path));
        } else {
            item_node.add(equality_node_of(json_ns_of(value), ExecutionPlanNode::resolve_current_value(item_path.copy())));
        }
        assert(item_node@.children =~= entry_container(context.matching_rules@, context.allow_unexpected_entries, key@, value@, path@).children);
        item_node
    }
}

} // verus!
