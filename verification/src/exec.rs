//! Executing plan trees against actual values.

use vstd::prelude::*;
use crate::text::{push_char, push_str, push_decimal, str_eq, starts_with, chars_of, string_of, decimal,
    bool_text, string_views, joined};
use crate::json::{JsonValue, Json, read_json, read_json_str, serde_json_read, serde_json_read_str,
    json_text, serde_json_text, json_type_name, json_equals, lemma_json_views, lemma_entry_views,
    json_views, entry_views};
use crate::docpath::{DocPath, PathToken, Step};
use crate::value::{NodeValue, NodeVal, value_text, value_type_name, copy_strings};
use crate::result::{NodeResult, NodeRes, opt_result_view, result_or, copy_opt_result, result_text,
    result_as_string, result_is_truthy};
use crate::plan::{ExecutionPlanNode, PlanNodeType, PlanNode, PlanKind, plan_view, plan_views, lemma_plan_views};
use crate::context::{PlanMatchingContext, ValueResolver, stack_view, stack_top};
use crate::actions::{res_value, first_entry, find_entry, json_expect_empty_verdict, json_match_length_verdict,
    json_expect_entries_verdict, match_verdict, json_expect_empty_result, json_match_length_result,
    json_expect_entries_result, match_result, change_case_all, to_string_all, join_all, empty_check,
    entries_check, change_case_values, to_string_values, join_values, empty_check_of, entries_check_of};
use crate::outside::{from_utf8_lossy, utf8_lossy, regex_is_match, regex_outcome, to_upper, to_lower,
    unicode_upper, unicode_lower};

verus! {

/// Whether the values in a plan can all be read: each namespaced value is JSON text that
/// `serde_json` reads.
pub open spec fn plan_ok(n: PlanNode) -> bool
    decreases n, 0nat,
{
    kind_ok(n.kind) && children_ok(n.children, n.children.len())
}

/// Whether the first `k` children are all readable plans.
pub open spec fn children_ok(cs: Seq<PlanNode>, k: nat) -> bool
    decreases cs, k,
{
    if k == 0 || k > cs.len() {
        true
    } else {
        children_ok(cs, (k - 1) as nat) && plan_ok(cs[k - 1])
    }
}

/// Whether the value of a node can be read.
pub open spec fn kind_ok(k: PlanKind) -> bool {
    match k {
        PlanKind::VALUE(v) => walked_value(v) is Ok,
        _ => true,
    }
}

/// What walking a value node makes of its value: a namespaced value in the `json`
/// namespace is read as JSON; one in another namespace is an error.
pub open spec fn walked_value(v: NodeVal) -> Result<NodeVal, Seq<char>> {
    match v {
        NodeVal::NAMESPACED(ns, t) => if ns == "json"@ {
            match serde_json_read_str(t) {
                Ok(j) => Ok(NodeVal::JSON(j)),
                Err(e) => Err(e),
            }
        } else {
            Err(seq!['\''] + ns + "' is not a known namespace"@)
        },
        _ => Ok(v),
    }
}

/// Each of the first `k` children of readable children is readable.
pub proof fn lemma_children_ok(cs: Seq<PlanNode>, k: nat, i: int)
    requires
        children_ok(cs, k),
        k <= cs.len(),
        0 <= i < k,
    ensures
        plan_ok(cs[i]),
    decreases k,
{
    if i < k - 1 {
        lemma_children_ok(cs, (k - 1) as nat, i);
    }
}

/// Whether a plan leaves the value stack as it found it: no `push` or `pop` action anywhere
/// in it.
pub open spec fn stack_free(n: PlanNode) -> bool
    decreases n, 0nat,
{
    let own = match n.kind {
        PlanKind::ACTION(a) => a != "push"@ && a != "pop"@,
        _ => true,
    };
    own && children_stack_free(n.children, n.children.len())
}

/// Whether the first `k` children leave the value stack as they found it.
pub open spec fn children_stack_free(cs: Seq<PlanNode>, k: nat) -> bool
    decreases cs, k,
{
    if k == 0 || k > cs.len() {
        true
    } else {
        children_stack_free(cs, (k - 1) as nat) && stack_free(cs[k - 1])
    }
}

/// Whether walking a plan is known to leave the value stack as it found it: its values can
/// be read (a value that cannot be read stops a pipeline half way) and it holds no `push`
/// or `pop`.
pub open spec fn keeps_stack(n: PlanNode) -> bool {
    plan_ok(n) && stack_free(n)
}

/// The children of a plan that keeps the stack keep it too.
pub proof fn lemma_keeps_stack_child(n: PlanNode, i: int)
    requires
        keeps_stack(n),
        0 <= i < n.children.len(),
    ensures
        keeps_stack(n.children[i]),
{
    lemma_children_ok(n.children, n.children.len(), i);
    lemma_children_stack_free(n.children, n.children.len(), i);
}

/// Each of the first `k` children of stack-free children is stack-free.
pub proof fn lemma_children_stack_free(cs: Seq<PlanNode>, k: nat, i: int)
    requires
        children_stack_free(cs, k),
        k <= cs.len(),
        0 <= i < k,
    ensures
        stack_free(cs[i]),
    decreases k,
{
    if i < k - 1 {
        lemma_children_stack_free(cs, (k - 1) as nat, i);
    }
}

/// Whether the results of all the nodes are truthy (a node with no result counts as `OK`).
pub open spec fn all_truthy(cs: Seq<PlanNode>) -> bool {
    forall|i: int| 0 <= i < cs.len() ==> result_is_truthy(res_or_ok(#[trigger] cs[i].result))
}

/// What a pipeline gives: the result of its last child, the value it left on the stack;
/// an error when there is none.
pub open spec fn pipeline_result(cs: Seq<PlanNode>) -> Option<NodeRes> {
    if cs.len() > 0 && cs.last().result is Some {
        cs.last().result
    } else {
        Some(NodeRes::ERROR("Value from stack is empty"@))
    }
}

/// What resolving a path against the current stack value gives as a result.
pub open spec fn current_result(path: Seq<Step>, top: Option<NodeRes>) -> NodeRes {
    match current_value(path, top) {
        Ok(v) => NodeRes::VALUE(v),
        Err(e) => NodeRes::ERROR(e),
    }
}

/// A result, or `OK` when there is none.
pub open spec fn res_or_ok(r: Option<NodeRes>) -> NodeRes {
    match r {
        Some(x) => x,
        None => NodeRes::OK,
    }
}

/// How the executed form of a node relates to the node, by the type of the node: a container
/// executes all its children and says whether all their results are truthy; a value is read;
/// a path resolves to a value or an error; a pipeline executes its children in turn and gives
/// the result of the last one, which it puts on the stack and takes off again. (What the nodes that
/// read the stack were given is stated by [`reads`].)
pub open spec fn walk_shape(orig: PlanNode, res: PlanNode) -> bool
    decreases orig, 2nat,
{
    &&& res.kind == orig.kind
    &&& match orig.kind {
        PlanKind::EMPTY => res == orig,
        PlanKind::ANNOTATION(_) => res == orig,
        PlanKind::CONTAINER(_) => {
            &&& res.children.len() == orig.children.len()
            &&& forall|i: int| 0 <= i < res.children.len() ==> walk_shape(#[trigger] orig.children[i], res.children[i])
            &&& res.result == Some(NodeRes::VALUE(NodeVal::BOOL(all_truthy(res.children))))
        },
        PlanKind::VALUE(v) => {
            &&& walked_value(v) matches Ok(w)
            &&& res.result == Some(NodeRes::VALUE(w))
            &&& res.children.len() == 0
        },
        PlanKind::RESOLVE(_) => {
            &&& res.children.len() == 0
            &&& res.result matches Some(x) && (x is VALUE || x is ERROR)
        },
        PlanKind::RESOLVE_CURRENT(_) => {
            &&& res.children.len() == 0
            &&& res.result matches Some(x) && (x is VALUE || x is ERROR)
        },
        PlanKind::PIPELINE => {
            &&& res.children.len() == orig.children.len()
            &&& forall|i: int| 0 <= i < res.children.len() ==> walk_shape(#[trigger] orig.children[i], res.children[i])
            &&& res.result == pipeline_result(res.children)
        },
        PlanKind::ACTION(a) => action_outcome(a, orig, res),
    }
}

/// The node with an error result and its own children.
pub open spec fn failed(orig: PlanNode, message: Seq<char>) -> PlanNode {
    PlanNode { kind: orig.kind, result: Some(NodeRes::ERROR(message)), children: orig.children }
}

/// `'action' is not a valid action`.
pub open spec fn invalid_action(a: Seq<char>) -> Seq<char> {
    seq!['\''] + a + "' is not a valid action"@
}

/// `action takes only one argument, got n`.
pub open spec fn too_many_for_one(a: Seq<char>, n: nat) -> Seq<char> {
    a + " takes only one argument, got "@ + decimal(n)
}

/// `action requires one argument, got none`.
pub open spec fn none_for_one(a: Seq<char>) -> Seq<char> {
    a + " requires one argument, got none"@
}

/// `Action 'action' requires two arguments, got n`.
pub open spec fn not_two(a: Seq<char>, n: nat) -> Seq<char> {
    "Action '"@ + a + "' requires two arguments, got "@ + decimal(n)
}

/// `Action 'action' requires three arguments, got n`.
pub open spec fn not_three(a: Seq<char>, n: nat) -> Seq<char> {
    "Action '"@ + a + "' requires three arguments, got "@ + decimal(n)
}

/// The outcome of an action that takes one argument: arity errors, or (for a readable plan)
/// the verdict on the executed argument.
pub open spec fn one_arg_outcome(a: Seq<char>, orig: PlanNode, res: PlanNode, verdict: spec_fn(NodeRes) -> NodeRes) -> bool
    decreases orig, 0nat,
{
    if orig.children.len() > 1 {
        res == failed(orig, too_many_for_one(a, orig.children.len()))
    } else if orig.children.len() == 0 {
        res == failed(orig, none_for_one(a))
    } else {
        plan_ok(orig) ==> {
            &&& res.kind == orig.kind
            &&& res.children.len() == 1
            &&& walk_shape(orig.children[0], res.children[0])
            &&& res.result == Some(verdict(res_or_ok(res.children[0].result)))
        }
    }
}

/// The outcome of an action that takes two arguments.
pub open spec fn two_arg_outcome(a: Seq<char>, orig: PlanNode, res: PlanNode, verdict: spec_fn(NodeRes, NodeRes) -> NodeRes) -> bool
    decreases orig, 0nat,
{
    if orig.children.len() != 2 {
        res == failed(orig, not_two(a, orig.children.len()))
    } else {
        plan_ok(orig) ==> {
            &&& res.kind == orig.kind
            &&& res.children.len() == 2
            &&& walk_shape(orig.children[0], res.children[0])
            &&& walk_shape(orig.children[1], res.children[1])
            &&& res.result == Some(verdict(res_or_ok(res.children[0].result), res_or_ok(res.children[1].result)))
        }
    }
}

/// The outcome of an action that takes three arguments.
pub open spec fn three_arg_outcome(a: Seq<char>, orig: PlanNode, res: PlanNode, verdict: spec_fn(NodeRes, NodeRes, NodeRes) -> NodeRes) -> bool
    decreases orig, 0nat,
{
    if orig.children.len() != 3 {
        res == failed(orig, not_three(a, orig.children.len()))
    } else {
        plan_ok(orig) ==> {
            &&& res.kind == orig.kind
            &&& res.children.len() == 3
            &&& walk_shape(orig.children[0], res.children[0])
            &&& walk_shape(orig.children[1], res.children[1])
            &&& walk_shape(orig.children[2], res.children[2])
            &&& res.result == Some(verdict(res_or_ok(res.children[0].result), res_or_ok(res.children[1].result),
                res_or_ok(res.children[2].result)))
        }
    }
}

/// `json:parse`: reads a string or bytes as JSON; NULL (or no value) stays NULL.
pub open spec fn json_parse_verdict(r: NodeRes) -> NodeRes {
    match res_value(r) {
        None => NodeRes::VALUE(NodeVal::NULL),
        Some(NodeVal::NULL) => NodeRes::VALUE(NodeVal::NULL),
        Some(NodeVal::STRING(s)) => match serde_json_read_str(s) {
            Ok(j) => NodeRes::VALUE(NodeVal::JSON(j)),
            Err(e) => NodeRes::ERROR("json parse error - "@ + e),
        },
        Some(NodeVal::BARRAY(b)) => match serde_json_read(b) {
            Ok(j) => NodeRes::VALUE(NodeVal::JSON(j)),
            Err(e) => NodeRes::ERROR("json parse error - "@ + e),
        },
        Some(v) => NodeRes::ERROR("json:parse can not be used with "@ + value_type_name(v)),
    }
}

/// `convert:UTF8`: a string stays, bytes are read as UTF-8, NULL (or no value) is empty.
pub open spec fn convert_utf8_verdict(r: NodeRes) -> NodeRes {
    match res_value(r) {
        None => NodeRes::VALUE(NodeVal::STRING(Seq::empty())),
        Some(NodeVal::NULL) => NodeRes::VALUE(NodeVal::STRING(Seq::empty())),
        Some(NodeVal::STRING(s)) => NodeRes::VALUE(NodeVal::STRING(s)),
        Some(NodeVal::BARRAY(b)) => NodeRes::VALUE(NodeVal::STRING(utf8_lossy(b))),
        Some(v) => NodeRes::ERROR("convert:UTF8 can not be used with "@ + value_type_name(v)),
    }
}

/// `check:exists`: true for any value but NULL.
pub open spec fn check_exists_verdict(r: NodeRes) -> NodeRes {
    match r {
        NodeRes::VALUE(NodeVal::NULL) => NodeRes::VALUE(NodeVal::BOOL(false)),
        NodeRes::VALUE(_) => NodeRes::VALUE(NodeVal::BOOL(true)),
        _ => NodeRes::VALUE(NodeVal::BOOL(false)),
    }
}


/// The node with the given result and its own children.
pub open spec fn with_res(orig: PlanNode, r: NodeRes) -> PlanNode {
    PlanNode { kind: orig.kind, result: Some(r), children: orig.children }
}

/// Whether no child of a node carries a result yet, as in a plan that was built and not
/// executed.
pub open spec fn fresh(n: PlanNode) -> bool {
    forall|i: int| 0 <= i < n.children.len() ==> (#[trigger] n.children[i]).result is None
}

/// `if(condition, then, else)`: the condition is executed; when it is truthy the result is
/// that of `then` (or the condition's, without `then`); otherwise that of `else` (or the
/// condition's, without `else`).
pub open spec fn if_outcome(orig: PlanNode, res: PlanNode) -> bool
    decreases orig, 0nat,
{
    let n = orig.children.len();
    if n == 0 {
        res == with_res(orig, NodeRes::ERROR("'if' action requires at least one argument"@))
    } else {
        plan_ok(orig) ==> {
            &&& res.kind == orig.kind
            &&& res.children.len() == n
            &&& walk_shape(orig.children[0], res.children[0])
            &&& forall|i: int| 3 <= i < n ==> #[trigger] res.children[i] == orig.children[i]
            &&& {
                let c = res_or_ok(res.children[0].result);
                if !result_is_truthy(c) {
                    &&& (n > 1 ==> res.children[1] == orig.children[1])
                    &&& if n > 2 {
                        &&& walk_shape(orig.children[2], res.children[2])
                        &&& res.result == res.children[2].result
                    } else {
                        res.result == Some(c)
                    }
                } else if n > 1 {
                    &&& walk_shape(orig.children[1], res.children[1])
                    &&& res.result == Some(res_or_ok(res.children[1].result))
                    &&& (n > 2 ==> res.children[2] == orig.children[2])
                } else {
                    res.result == Some(c)
                }
            }
        }
    }
}

/// `tee(first, rest..)`: the first child is executed; when it fails, that error is the
/// result and the others are left as they are. Otherwise its result is put on the stack for
/// the others, which are all executed, and the result says whether all of theirs are truthy.
pub open spec fn tee_outcome(orig: PlanNode, res: PlanNode) -> bool
    decreases orig, 0nat,
{
    let n = orig.children.len();
    if n == 0 {
        res == with_res(orig, NodeRes::OK)
    } else {
        plan_ok(orig) ==> {
            &&& res.kind == orig.kind
            &&& res.children.len() == n
            &&& walk_shape(orig.children[0], res.children[0])
            &&& match res.children[0].result {
                Some(NodeRes::ERROR(e)) => {
                    &&& res.result == Some(NodeRes::ERROR(e))
                    &&& forall|i: int| 1 <= i < n ==> #[trigger] res.children[i] == orig.children[i]
                },
                _ => {
                    &&& forall|i: int| 1 <= i < n ==> walk_shape(#[trigger] orig.children[i], res.children[i])
                    &&& res.result == Some(NodeRes::VALUE(NodeVal::BOOL(all_truthy(res.children.drop_first()))))
                },
            }
        }
    }
}

/// The values of the results of some executed children, in order, skipping `OK`; the first
/// error stops it.
pub open spec fn child_values(cs: Seq<PlanNode>, k: nat) -> Result<Seq<NodeVal>, Seq<char>>
    decreases k,
{
    if k == 0 || k > cs.len() {
        Ok(Seq::empty())
    } else {
        match child_values(cs, (k - 1) as nat) {
            Err(e) => Err(e),
            Ok(vs) => match res_or_ok(cs[k - 1].result) {
                NodeRes::OK => Ok(vs),
                NodeRes::VALUE(v) => Ok(vs.push(v)),
                NodeRes::ERROR(e) => Err(e),
            },
        }
    }
}

/// What the actions that work on the values of all their arguments make of them.
pub open spec fn transform_result(a: Seq<char>, vs: Seq<NodeVal>) -> NodeRes {
    if a == "upper-case"@ {
        NodeRes::VALUE(change_case_all(vs, true))
    } else if a == "lower-case"@ {
        NodeRes::VALUE(change_case_all(vs, false))
    } else if a == "to-string"@ {
        NodeRes::VALUE(to_string_all(vs))
    } else if a == "join"@ {
        NodeRes::VALUE(NodeVal::STRING(join_all(vs, false)))
    } else if a == "join-with"@ {
        NodeRes::VALUE(NodeVal::STRING(join_all(vs, true)))
    } else {
        NodeRes::ERROR(join_all(vs, false))
    }
}

/// Whether an action works on the values of all its arguments.
pub open spec fn is_transform_action(a: Seq<char>) -> bool {
    a == "upper-case"@ || a == "lower-case"@ || a == "to-string"@ || a == "join"@ || a == "join-with"@ || a == "error"@
}

/// The outcome of such an action, for a plan whose arguments carry no results yet: each
/// argument is executed in turn until one fails.
pub open spec fn transform_outcome(a: Seq<char>, orig: PlanNode, res: PlanNode) -> bool
    decreases orig, 0nat,
{
    plan_ok(orig) && fresh(orig) ==> {
        &&& res.kind == orig.kind
        &&& res.children.len() <= orig.children.len()
        &&& forall|i: int| 0 <= i < res.children.len() ==> walk_shape(#[trigger] orig.children[i], res.children[i])
        &&& match child_values(res.children, res.children.len()) {
            Ok(vs) => res.children.len() == orig.children.len() && res.result == Some(transform_result(a, vs)),
            Err(e) => res.result == Some(NodeRes::ERROR(e)),
        }
    }
}

/// `action requires n arguments, got m`.
pub open spec fn too_few(a: Seq<char>, required: nat, n: nat) -> Seq<char> {
    a + " requires "@ + decimal(required) + " arguments, got "@ + decimal(n)
}

/// `action supports at most n arguments, got m`.
pub open spec fn too_many(a: Seq<char>, optional: nat, n: nat) -> Seq<char> {
    a + " supports at most "@ + decimal(optional) + " arguments, got "@ + decimal(n)
}

/// The message an optional argument gives: the string form of its result, or nothing.
pub open spec fn message_of(r: Option<NodeRes>) -> Seq<char> {
    match result_as_string(res_or_ok(r)) {
        Some(m) => m,
        None => Seq::empty(),
    }
}

/// `expect:empty(value, message?)`.
pub open spec fn expect_empty_outcome(a: Seq<char>, orig: PlanNode, res: PlanNode) -> bool
    decreases orig, 0nat,
{
    let n = orig.children.len();
    if n < 1 {
        res == failed(orig, too_few(a, 1, n))
    } else if n > 2 {
        res == failed(orig, too_many(a, 1, n))
    } else {
        plan_ok(orig) ==> {
            &&& res.kind == orig.kind
            &&& res.children.len() == n
            &&& walk_shape(orig.children[0], res.children[0])
            &&& {
                let r = res_or_ok(res.children[0].result);
                match r {
                    NodeRes::ERROR(e) => res.result == Some(NodeRes::ERROR(e)) && (n == 2 ==> res.children[1] == orig.children[1]),
                    _ => match empty_check(r) {
                        Ok(x) => res.result == Some(x) && (n == 2 ==> res.children[1] == orig.children[1]),
                        Err(m) => if n == 2 {
                            walk_shape(orig.children[1], res.children[1])
                                && res.result == Some(NodeRes::ERROR(message_of(res.children[1].result)))
                        } else {
                            res.result == Some(NodeRes::ERROR(m))
                        },
                    },
                }
            }
        }
    }
}

/// `expect:entries(expected, value, message?)` and `expect:only-entries(..)`; the message
/// argument is executed with the names that differ on the stack.
pub open spec fn entries_outcome(a: Seq<char>, orig: PlanNode, res: PlanNode) -> bool
    decreases orig, 0nat,
{
    let n = orig.children.len();
    if n < 2 {
        res == failed(orig, too_few(a, 2, n))
    } else if n > 3 {
        res == failed(orig, too_many(a, 1, n))
    } else {
        plan_ok(orig) ==> {
            &&& res.kind == orig.kind
            &&& res.children.len() == n
            &&& walk_shape(orig.children[0], res.children[0])
            &&& walk_shape(orig.children[1], res.children[1])
            &&& match entries_check(a == "expect:only-entries"@, a, res_or_ok(res.children[0].result), res_or_ok(res.children[1].result)) {
                Ok(_) => res.result == Some(NodeRes::OK) && (n == 3 ==> res.children[2] == orig.children[2]),
                Err((m, d)) => if n == 3 && d is Some {
                    walk_shape(orig.children[2], res.children[2])
                        && res.result == Some(NodeRes::ERROR(message_of(res.children[2].result)))
                } else {
                    res.result == Some(NodeRes::ERROR(m)) && (n == 3 ==> res.children[2] == orig.children[2])
                },
            }
        }
    }
}

/// Whether an action applies a matcher: `match:` and the matcher's name.
pub open spec fn is_match_action(a: Seq<char>) -> bool {
    a.len() >= 6 && a.subrange(0, 6) == "match:"@
}

/// Whether an action works on the value stack.
pub open spec fn is_stack_action(a: Seq<char>) -> bool {
    a == "apply"@ || a == "push"@ || a == "pop"@
}

/// The outcome of the actions that work on the value stack.
pub open spec fn stack_outcome(a: Seq<char>, orig: PlanNode, res: PlanNode, before: Seq<Option<NodeRes>>, after: Seq<Option<NodeRes>>) -> bool {
    if a == "apply"@ {
        if before.len() == 0 {
            res == failed(orig, "No value to apply (stack is empty)"@) && after == before
        } else {
            res == (PlanNode { result: before.last(), ..orig }) && after == before
        }
    } else if a == "push"@ {
        if before.len() == 0 {
            res == failed(orig, "No value to push (value is empty)"@) && after == before
        } else {
            res == (PlanNode { result: before.last(), ..orig }) && after == before.push(before.last())
        }
    } else {
        if before.len() == 0 {
            res == failed(orig, "No value to pop (stack is empty)"@) && after == before
        } else {
            res == (PlanNode { result: stack_top(before.drop_last()), ..orig }) && after == before.drop_last()
        }
    }
}

/// What executing an action node gives, by the action. (What the stack actions do to the
/// stack is stated by `stack_outcome`.)
pub open spec fn action_outcome(a: Seq<char>, orig: PlanNode, res: PlanNode) -> bool
    decreases orig, 1nat,
{
    if is_match_action(a) {
        three_arg_outcome(a, orig, res, |x: NodeRes, y: NodeRes, z: NodeRes| match_verdict(a.subrange(6, a.len() as int), x, y, z))
    } else if is_stack_action(a) {
        res.kind == orig.kind && res.children == orig.children
    } else if a == "json:expect:empty"@ {
        two_arg_outcome(a, orig, res, |x: NodeRes, y: NodeRes| json_expect_empty_verdict(x, y))
    } else if a == "json:match:length"@ {
        three_arg_outcome(a, orig, res, |x: NodeRes, y: NodeRes, z: NodeRes| json_match_length_verdict(x, y, z))
    } else if a == "json:expect:entries"@ {
        three_arg_outcome(a, orig, res, |x: NodeRes, y: NodeRes, z: NodeRes| json_expect_entries_verdict(x, y, z))
    } else if a == "if"@ {
        if_outcome(orig, res)
    } else if a == "tee"@ {
        tee_outcome(orig, res)
    } else if is_transform_action(a) {
        transform_outcome(a, orig, res)
    } else if a == "expect:empty"@ {
        expect_empty_outcome(a, orig, res)
    } else if a == "expect:entries"@ || a == "expect:only-entries"@ {
        entries_outcome(a, orig, res)
    } else if a == "json:parse"@ {
        one_arg_outcome(a, orig, res, |r: NodeRes| json_parse_verdict(r))
    } else if a == "convert:UTF8"@ {
        one_arg_outcome(a, orig, res, |r: NodeRes| convert_utf8_verdict(r))
    } else if a == "check:exists"@ {
        one_arg_outcome(a, orig, res, |r: NodeRes| check_exists_verdict(r))
    } else {
        res == failed(orig, invalid_action(a))
    }
}

/// Whether executing the action fails before any argument is executed: the action is not
/// known, or it is given a number of arguments that it does not take.
pub open spec fn fails_before_walking(a: Seq<char>, n: nat) -> bool {
    if is_match_action(a) || a == "json:match:length"@ || a == "json:expect:entries"@ {
        n != 3
    } else if is_stack_action(a) {
        false
    } else if a == "json:expect:empty"@ {
        n != 2
    } else if a == "if"@ || a == "tee"@ || is_transform_action(a) {
        n == 0
    } else if a == "expect:empty"@ {
        n < 1 || n > 2
    } else if a == "expect:entries"@ || a == "expect:only-entries"@ {
        n < 2 || n > 3
    } else if a == "json:parse"@ || a == "convert:UTF8"@ || a == "check:exists"@ {
        n != 1
    } else {
        true
    }
}

/// What the nodes of an executed plan that read the current value on the stack were given:
/// each such node, walked while `top` was on the stack, holds what resolving its path
/// against `top` gives. A pipeline's children each see the result of the child before them,
/// the others of a `tee` the result of the first, and the message argument of the entries
/// checks the names that differ.
pub open spec fn reads(orig: PlanNode, res: PlanNode, top: Option<NodeRes>) -> bool
    decreases orig, 1nat,
{
    match orig.kind {
        PlanKind::RESOLVE_CURRENT(p) => res.result == Some(current_result(p, top)),
        PlanKind::CONTAINER(_) => forall|i: int| 0 <= i < orig.children.len() ==> reads(#[trigger] orig.children[i], res.children[i], top),
        PlanKind::PIPELINE => forall|i: int| 0 <= i < orig.children.len() ==>
            reads(#[trigger] orig.children[i], res.children[i], if i == 0 { None } else { res.children[i - 1].result }),
        PlanKind::ACTION(a) => action_reads(a, orig, res, top),
        _ => true,
    }
}

/// What the arguments that an action executed were given; see [`reads`].
pub open spec fn action_reads(a: Seq<char>, orig: PlanNode, res: PlanNode, top: Option<NodeRes>) -> bool
    decreases orig, 0nat,
{
    let n = orig.children.len();
    if fails_before_walking(a, n) || is_stack_action(a) {
        true
    } else if a == "tee"@ {
        &&& reads(orig.children[0], res.children[0], top)
        &&& (!(res.children[0].result matches Some(NodeRes::ERROR(_))) ==> forall|i: int| 1 <= i < n ==>
            reads(#[trigger] orig.children[i], res.children[i], res.children[0].result))
    } else if a == "if"@ {
        &&& reads(orig.children[0], res.children[0], top)
        &&& if !result_is_truthy(res_or_ok(res.children[0].result)) {
            n > 2 ==> reads(orig.children[2], res.children[2], top)
        } else {
            n > 1 ==> reads(orig.children[1], res.children[1], top)
        }
    } else if a == "expect:empty"@ {
        &&& reads(orig.children[0], res.children[0], top)
        &&& (n == 2 && !(res_or_ok(res.children[0].result) is ERROR) && empty_check(res_or_ok(res.children[0].result)) is Err
            ==> reads(orig.children[1], res.children[1], top))
    } else if a == "expect:entries"@ || a == "expect:only-entries"@ {
        &&& reads(orig.children[0], res.children[0], top)
        &&& (n > 1 ==> reads(orig.children[1], res.children[1], top))
        &&& (n == 3 ==> match entries_check(a == "expect:only-entries"@, a, res_or_ok(res.children[0].result), res_or_ok(res.children[1].result)) {
            Err((_, Some(d))) => reads(orig.children[2], res.children[2], Some(NodeRes::VALUE(NodeVal::SLIST(d)))),
            _ => true,
        })
    } else if is_transform_action(a) {
        fresh(orig) ==> forall|i: int| 0 <= i < res.children.len() && i < n ==> reads(#[trigger] orig.children[i], res.children[i], top)
    } else {
        forall|i: int| 0 <= i < n ==> reads(#[trigger] orig.children[i], res.children[i], top)
    }
}

/// Whether no node of a plan carries a result yet, as in a plan that was built and not
/// executed.
pub open spec fn plan_fresh(n: PlanNode) -> bool
    decreases n, 0nat,
{
    n.result is None && children_fresh(n.children, n.children.len())
}

/// Whether the first `k` children carry no result anywhere.
pub open spec fn children_fresh(cs: Seq<PlanNode>, k: nat) -> bool
    decreases cs, k,
{
    if k == 0 || k > cs.len() {
        true
    } else {
        children_fresh(cs, (k - 1) as nat) && plan_fresh(cs[k - 1])
    }
}

/// Each of the first `k` children of fresh children is fresh.
pub proof fn lemma_children_fresh(cs: Seq<PlanNode>, k: nat, i: int)
    requires
        children_fresh(cs, k),
        k <= cs.len(),
        0 <= i < k,
    ensures
        plan_fresh(cs[i]),
    decreases k,
{
    if i < k - 1 {
        lemma_children_fresh(cs, (k - 1) as nat, i);
    }
}

/// No child of a fresh plan carries a result.
pub proof fn lemma_fresh_children(n: PlanNode)
    requires
        plan_fresh(n),
    ensures
        fresh(n),
{
    assert forall|i: int| 0 <= i < n.children.len() implies (#[trigger] n.children[i]).result is None by {
        lemma_children_fresh(n.children, n.children.len(), i);
    }
}

/// A readable, fresh plan has readable, fresh children, and none of them carries a result.
pub proof fn lemma_sound_child(n: PlanNode, i: int)
    requires
        plan_ok(n),
        plan_fresh(n),
        0 <= i < n.children.len(),
    ensures
        plan_ok(n.children[i]),
        plan_fresh(n.children[i]),
        n.children[i].result is None,
{
    lemma_children_ok(n.children, n.children.len(), i);
    lemma_children_fresh(n.children, n.children.len(), i);
}

/// The stack with its top value replaced (or the value pushed, on an empty stack).
pub open spec fn stack_update(s: Seq<Option<NodeRes>>, x: Option<NodeRes>) -> Seq<Option<NodeRes>> {
    if s.len() == 0 { seq![x] } else { s.drop_last().push(x) }
}

/// The stack without its top value (an empty stack stays empty).
pub open spec fn stack_pop(s: Seq<Option<NodeRes>>) -> Seq<Option<NodeRes>> {
    if s.len() == 0 { s } else { s.drop_last() }
}

/// The value stack after walking a node into its executed form, from the stack `s`: the
/// nodes that work on the stack change it, a pipeline puts a value on it for its children and
/// takes it off again, and the other nodes pass it through the children they execute.
pub open spec fn stack_after(orig: PlanNode, res: PlanNode, s: Seq<Option<NodeRes>>) -> Seq<Option<NodeRes>>
    decreases orig, 2nat,
{
    match orig.kind {
        PlanKind::CONTAINER(_) => seq_stack(orig.children, res.children, s, 0, orig.children.len()),
        PlanKind::PIPELINE => stack_pop(pipe_stack(orig.children, res.children, s.push(None), orig.children.len())),
        PlanKind::ACTION(a) => action_stack(a, orig, res, s),
        _ => s,
    }
}

/// The stack after walking the children from `lo` up to `k`, in order.
pub open spec fn seq_stack(cs: Seq<PlanNode>, rs: Seq<PlanNode>, s: Seq<Option<NodeRes>>, lo: nat, k: nat) -> Seq<Option<NodeRes>>
    decreases cs, k,
{
    if k <= lo || k > cs.len() {
        s
    } else {
        stack_after(cs[k - 1], rs[k - 1], seq_stack(cs, rs, s, lo, (k - 1) as nat))
    }
}

/// The stack after walking the first `k` children of a pipeline, each result put in place of
/// the top value.
pub open spec fn pipe_stack(cs: Seq<PlanNode>, rs: Seq<PlanNode>, s: Seq<Option<NodeRes>>, k: nat) -> Seq<Option<NodeRes>>
    decreases cs, k,
{
    if k == 0 || k > cs.len() {
        s
    } else {
        stack_update(stack_after(cs[k - 1], rs[k - 1], pipe_stack(cs, rs, s, (k - 1) as nat)), rs[k - 1].result)
    }
}

/// The stack after `tee`: the first child's result is on the stack while the others walk.
pub open spec fn tee_stack(orig: PlanNode, res: PlanNode, s: Seq<Option<NodeRes>>) -> Seq<Option<NodeRes>>
    decreases orig, 0nat,
{
    let n = orig.children.len();
    if n == 0 {
        s
    } else {
        let s1 = stack_after(orig.children[0], res.children[0], s);
        if res.children[0].result matches Some(NodeRes::ERROR(_)) {
            s1
        } else {
            stack_pop(seq_stack(orig.children, res.children, s1.push(res.children[0].result), 1, n))
        }
    }
}

/// The stack after `if`: the condition, then the branch it chose.
pub open spec fn if_stack(orig: PlanNode, res: PlanNode, s: Seq<Option<NodeRes>>) -> Seq<Option<NodeRes>>
    decreases orig, 0nat,
{
    let n = orig.children.len();
    if n == 0 {
        s
    } else {
        let s1 = stack_after(orig.children[0], res.children[0], s);
        if !result_is_truthy(res_or_ok(res.children[0].result)) {
            if n > 2 { stack_after(orig.children[2], res.children[2], s1) } else { s1 }
        } else if n > 1 {
            stack_after(orig.children[1], res.children[1], s1)
        } else {
            s1
        }
    }
}

/// The stack after `expect:empty`: the value, then the message when it is needed.
pub open spec fn empty_stack(orig: PlanNode, res: PlanNode, s: Seq<Option<NodeRes>>) -> Seq<Option<NodeRes>>
    decreases orig, 0nat,
{
    let n = orig.children.len();
    if n < 1 || n > 2 {
        s
    } else {
        let s1 = stack_after(orig.children[0], res.children[0], s);
        let r = res_or_ok(res.children[0].result);
        if n == 2 && !(r is ERROR) && empty_check(r) is Err {
            stack_after(orig.children[1], res.children[1], s1)
        } else {
            s1
        }
    }
}

/// The stack after the entries checks: the two values, then the message with the names
/// that differ on the stack, when it is needed.
pub open spec fn entries_stack(a: Seq<char>, orig: PlanNode, res: PlanNode, s: Seq<Option<NodeRes>>) -> Seq<Option<NodeRes>>
    decreases orig, 0nat,
{
    let n = orig.children.len();
    if n < 2 || n > 3 {
        s
    } else {
        let s2 = stack_after(orig.children[1], res.children[1], stack_after(orig.children[0], res.children[0], s));
        if n == 3 {
            match entries_check(a == "expect:only-entries"@, a, res_or_ok(res.children[0].result), res_or_ok(res.children[1].result)) {
                Err((_, Some(d))) => stack_pop(stack_after(orig.children[2], res.children[2], s2.push(Some(NodeRes::VALUE(NodeVal::SLIST(d)))))),
                _ => s2,
            }
        } else {
            s2
        }
    }
}

/// The stack after an action node.
pub open spec fn action_stack(a: Seq<char>, orig: PlanNode, res: PlanNode, s: Seq<Option<NodeRes>>) -> Seq<Option<NodeRes>>
    decreases orig, 1nat,
{
    let n = orig.children.len();
    if is_stack_action(a) {
        if a == "push"@ {
            if s.len() == 0 { s } else { s.push(s.last()) }
        } else if a == "pop"@ {
            stack_pop(s)
        } else {
            s
        }
    } else if fails_before_walking(a, n) {
        s
    } else if a == "tee"@ {
        tee_stack(orig, res, s)
    } else if a == "if"@ {
        if_stack(orig, res, s)
    } else if a == "expect:empty"@ {
        empty_stack(orig, res, s)
    } else if a == "expect:entries"@ || a == "expect:only-entries"@ {
        entries_stack(a, orig, res, s)
    } else if is_transform_action(a) {
        seq_stack(orig.children, res.children, s, 0, if res.children.len() <= n { res.children.len() } else { n })
    } else {
        seq_stack(orig.children, res.children, s, 0, n)
    }
}

/// The stack after some children depends only on the executed forms of those children.
pub proof fn lemma_seq_stack_prefix(cs: Seq<PlanNode>, a: Seq<PlanNode>, b: Seq<PlanNode>, s: Seq<Option<NodeRes>>, lo: nat, k: nat)
    requires
        k <= a.len(),
        k <= b.len(),
        a.subrange(0, k as int) == b.subrange(0, k as int),
    ensures
        seq_stack(cs, a, s, lo, k) == seq_stack(cs, b, s, lo, k),
    decreases k,
{
    if k > lo && k <= cs.len() {
        assert(a[k - 1] == a.subrange(0, k as int)[k - 1]);
        assert(b[k - 1] == b.subrange(0, k as int)[k - 1]);
        assert(a.subrange(0, k - 1) == a.subrange(0, k as int).subrange(0, k - 1));
        assert(b.subrange(0, k - 1) == b.subrange(0, k as int).subrange(0, k - 1));
        lemma_seq_stack_prefix(cs, a, b, s, lo, (k - 1) as nat);
    }
}

/// The stack after some children of a pipeline depends only on their executed forms.
pub proof fn lemma_pipe_stack_prefix(cs: Seq<PlanNode>, a: Seq<PlanNode>, b: Seq<PlanNode>, s: Seq<Option<NodeRes>>, k: nat)
    requires
        k <= a.len(),
        k <= b.len(),
        a.subrange(0, k as int) == b.subrange(0, k as int),
    ensures
        pipe_stack(cs, a, s, k) == pipe_stack(cs, b, s, k),
    decreases k,
{
    if k > 0 && k <= cs.len() {
        assert(a[k - 1] == a.subrange(0, k as int)[k - 1]);
        assert(b[k - 1] == b.subrange(0, k as int)[k - 1]);
        assert(a.subrange(0, k - 1) == a.subrange(0, k as int).subrange(0, k - 1));
        assert(b.subrange(0, k - 1) == b.subrange(0, k as int).subrange(0, k - 1));
        lemma_pipe_stack_prefix(cs, a, b, s, (k - 1) as nat);
    }
}

proof fn lemma_child_decreases(node: &ExecutionPlanNode, i: int)
    requires
        0 <= i < node.children.len(),
    ensures
        decreases_to!(*node => node.children[i]),
{
    vstd::std_specs::vec::axiom_vec_index_decreases(node.children, i);
    assert(decreases_to!(*node => node.children));
}

/// Copies of the children of a node.
fn copy_children(node: &ExecutionPlanNode) -> (r: Vec<ExecutionPlanNode>)
    ensures
        plan_views(r@) == node@.children,
{
    proof { lemma_plan_views(node.children@); }
    let mut out: Vec<ExecutionPlanNode> = Vec::new();
    let mut i: usize = 0;
    while i < node.children.len()
        invariant
            i <= node.children.len(),
            out.len() == i,
            forall|j: int| 0 <= j < i ==> plan_view(#[trigger] out@[j]) == plan_view(node.children@[j]),
        decreases node.children.len() - i,
    {
        out.push(node.children[i].copy());
        i = i + 1;
    }
    proof { lemma_plan_views(out@); }
    assert(plan_views(out@) =~= plan_views(node.children@));
    out
}

/// The node, with the given result and children.
fn with_result(node: &ExecutionPlanNode, result: Option<NodeResult>, children: Vec<ExecutionPlanNode>) -> (r: ExecutionPlanNode)
    ensures
        r@ == (PlanNode { kind: node@.kind, result: opt_result_view(result), children: plan_views(children@) }),
{
    ExecutionPlanNode { node_type: node.node_type.copy(), result, children }
}

/// The node with an error result, and copies of its children.
fn fail_node(node: &ExecutionPlanNode, message: String) -> (r: ExecutionPlanNode)
    ensures
        r@ == (PlanNode { kind: node@.kind, result: Some(NodeRes::ERROR(message@)), children: node@.children }),
{
    let children = copy_children(node);
    with_result(node, Some(NodeResult::ERROR(message)), children)
}

/// `'action' is not a valid action`
fn invalid_action_message(action: &str) -> (r: String)
    ensures
        r@ == seq!['\''] + action@ + "' is not a valid action"@,
{
    proof { reveal_strlit("' is not a valid action"); }
    let mut s = String::new();
    push_char(&mut s, '\'');
    push_str(&mut s, action);
    push_str(&mut s, "' is not a valid action");
    assert(s@ =~= seq!['\''] + action@ + "' is not a valid action"@);
    s
}

/// Walks a plan tree, executing each node against the value resolver, and returns the
/// executed tree with the result of each node. What the walk does to the value stack is
/// stated by [`stack_after`] for a readable plan that carries no results yet; a plan without
/// `push` or `pop` leaves the stack as it found it.
pub fn walk_tree<R: ValueResolver>(
    path: &Vec<String>,
    node: &ExecutionPlanNode,
    value_resolver: &R,
    context: &mut PlanMatchingContext,
) -> (r: Result<ExecutionPlanNode, String>)
    ensures
        plan_ok(node@) ==> r is Ok,
        r matches Ok(n) ==> walk_shape(node@, n@),
        node@.kind matches PlanKind::VALUE(v) ==> (walked_value(v) matches Err(e) ==> (r matches Err(f) && f@ == e)),
        node@.kind matches PlanKind::RESOLVE_CURRENT(p) ==> (r matches Ok(n)
            && n@.result == Some(current_result(p, stack_top(stack_view(old(context).value_stack@))))),
        keeps_stack(node@) ==> stack_view(final(context).value_stack@) == stack_view(old(context).value_stack@),
        keeps_stack(node@) ==> (r matches Ok(n) && reads(node@, n@, stack_top(stack_view(old(context).value_stack@)))),
        plan_ok(node@) && plan_fresh(node@) ==> (r matches Ok(n) && stack_view(final(context).value_stack@) == stack_after(node@, n@, stack_view(old(context).value_stack@))),
    decreases node, 5nat,
{
    proof { lemma_plan_views(node.children@); }
    let ghost s0 = stack_view(context.value_stack@);
    match &node.node_type {
        PlanNodeType::EMPTY => Ok(node.copy()),
        PlanNodeType::ANNOTATION(_) => Ok(node.copy()),
        PlanNodeType::CONTAINER(label) => {
            let mut child_path = copy_strings(path);
            child_path.push(label.clone());
            let mut all = true;
            let mut result: Vec<ExecutionPlanNode> = Vec::new();
            let mut i: usize = 0;
            while i < node.children.len()
                invariant
                    i <= node.children.len(),
                    result.len() == i,
                    plan_views(node.children@).len() == node.children.len(),
                    forall|j: int| 0 <= j < node.children.len() ==> #[trigger] plan_views(node.children@)[j] == plan_view(node.children@[j]),
                    all == forall|j: int| 0 <= j < i ==> result_is_truthy(res_or_ok(#[trigger] result@[j]@.result)),
                    plan_ok(node@) ==> children_ok(node@.children, node@.children.len()),
                    node@.kind is CONTAINER,
                    forall|j: int| 0 <= j < i ==> walk_shape(#[trigger] node@.children[j], result@[j]@),
                    keeps_stack(node@) ==> stack_view(context.value_stack@) == s0,
                    keeps_stack(node@) ==> forall|j: int| 0 <= j < i ==> reads(#[trigger] node@.children[j], result@[j]@, stack_top(s0)),
                    plan_ok(node@) && plan_fresh(node@) ==> stack_view(context.value_stack@) == seq_stack(node@.children, plan_views(result@), s0, 0, i as nat),
                decreases node.children.len() - i,
            {
                proof {
                    lemma_child_decreases(node, i as int);
                    if plan_ok(node@) {
                        lemma_children_ok(node@.children, node@.children.len(), i as int);
                    }
                    if keeps_stack(node@) {
                        lemma_keeps_stack_child(node@, i as int);
                    }
                    if plan_ok(node@) && plan_fresh(node@) {
                        lemma_sound_child(node@, i as int);
                    }
                }
                let child_result = walk_tree(&child_path, &node.children[i], value_resolver, context)?;
                let truthy = result_or_ok(&child_result).is_truthy();
                all = all && truthy;
                let ghost before = result@;
                result.push(child_result);
                proof {
                    lemma_plan_views(before);
                    lemma_plan_views(result@);
                    if plan_ok(node@) && plan_fresh(node@) {
                        assert(plan_views(result@).subrange(0, i as int) =~= plan_views(before).subrange(0, i as int));
                        lemma_seq_stack_prefix(node@.children, plan_views(before), plan_views(result@), s0, 0, i as nat);
                    }
                    assert forall|j: int| 0 <= j < i + 1 implies walk_shape(#[trigger] node@.children[j], result@[j]@) by {
                        if j < i {
                            assert(result@[j] == before[j]);
                        }
                    }
                    if keeps_stack(node@) {
                        assert forall|j: int| 0 <= j < i + 1 implies reads(#[trigger] node@.children[j], result@[j]@, stack_top(s0)) by {
                            if j < i {
                                assert(result@[j] == before[j]);
                            }
                        }
                    }
                    assert(all == forall|j: int| 0 <= j < i + 1 ==> result_is_truthy(res_or_ok(#[trigger] result@[j]@.result))) by {
                        if all {
                            assert forall|j: int| 0 <= j < i + 1 implies result_is_truthy(res_or_ok(#[trigger] result@[j]@.result)) by {
                                if j < i {
                                    assert(result@[j] == before[j]);
                                }
                            }
                        } else if !truthy {
                            assert(!result_is_truthy(res_or_ok(result@[i as int]@.result)));
                        } else {
                            let k = choose|k: int| 0 <= k < i && !result_is_truthy(res_or_ok(#[trigger] before[k]@.result));
                            assert(result@[k] == before[k]);
                        }
                    }
                }
                i = i + 1;
            }
            proof {
                lemma_plan_views(result@);
                assert(all == all_truthy(plan_views(result@))) by {
                    if all {
                        assert forall|j: int| 0 <= j < plan_views(result@).len() implies
                            result_is_truthy(res_or_ok(#[trigger] plan_views(result@)[j].result)) by {
                            assert(result_is_truthy(res_or_ok(result@[j]@.result)));
                        }
                    } else {
                        let k = choose|k: int| 0 <= k < i && !result_is_truthy(res_or_ok(#[trigger] result@[k]@.result));
                        assert(plan_views(result@)[k] == result@[k]@);
                    }
                }
            }
            Ok(with_result(node, Some(NodeResult::VALUE(NodeValue::BOOL(all))), result))
        },
        PlanNodeType::ACTION(action) => {
            Ok(execute_action(action.as_str(), value_resolver, node, path, context))
        },
        PlanNodeType::VALUE(val) => {
            proof { reveal_strlit("json"); reveal_strlit("' is not a known namespace"); }
            let value = match val {
                NodeValue::NAMESPACED(namespace, text) => {
                    if str_eq(namespace.as_str(), "json") {
                        match read_json_str(text.as_str()) {
                            Ok(j) => NodeValue::JSON(j),
                            Err(e) => { return Err(e); },
                        }
                    } else {
                        let mut s = String::new();
                        push_char(&mut s, '\'');
                        push_str(&mut s, namespace.as_str());
                        push_str(&mut s, "' is not a known namespace");
                        assert(s@ =~= seq!['\''] + namespace@ + "' is not a known namespace"@);
                        return Err(s);
                    }
                },
                _ => val.copy(),
            };
            Ok(with_result(node, Some(NodeResult::VALUE(value)), Vec::new()))
        },
        PlanNodeType::RESOLVE(resolve_path) => {
            match value_resolver.resolve(resolve_path, context) {
                Ok(val) => Ok(with_result(node, Some(NodeResult::VALUE(val)), Vec::new())),
                Err(err) => Ok(with_result(node, Some(NodeResult::ERROR(err)), Vec::new())),
            }
        },
        PlanNodeType::PIPELINE => {
            let child_path = copy_strings(path);
            context.push_result(None);
            let mut child_results: Vec<ExecutionPlanNode> = Vec::new();
            let mut i: usize = 0;
            while i < node.children.len()
                invariant
                    i <= node.children.len(),
                    child_results.len() == i,
                    plan_views(node.children@).len() == node.children.len(),
                    forall|j: int| 0 <= j < node.children.len() ==> #[trigger] plan_views(node.children@)[j] == plan_view(node.children@[j]),
                    plan_ok(node@) ==> children_ok(node@.children, node@.children.len()),
                    node@.kind is PIPELINE,
                    forall|j: int| 0 <= j < i ==> walk_shape(#[trigger] node@.children[j], child_results@[j]@),
                    keeps_stack(node@) ==> stack_view(context.value_stack@)
                        == s0.push(if i == 0 { None } else { child_results@[i - 1]@.result }),
                    stack_view(context.value_stack@).len() > 0,
                    stack_view(context.value_stack@).last() == if i == 0 { None } else { child_results@[i - 1]@.result },
                    keeps_stack(node@) ==> forall|j: int| 0 <= j < i ==> reads(#[trigger] node@.children[j], child_results@[j]@,
                        if j == 0 { None } else { child_results@[j - 1]@.result }),
                    plan_ok(node@) && plan_fresh(node@) ==> stack_view(context.value_stack@)
                        == pipe_stack(node@.children, plan_views(child_results@), s0.push(None), i as nat),
                decreases node.children.len() - i,
            {
                proof {
                    lemma_child_decreases(node, i as int);
                    if plan_ok(node@) {
                        lemma_children_ok(node@.children, node@.children.len(), i as int);
                    }
                    if keeps_stack(node@) {
                        lemma_keeps_stack_child(node@, i as int);
                    }
                    if plan_ok(node@) && plan_fresh(node@) {
                        lemma_sound_child(node@, i as int);
                    }
                }
                let child_result = walk_tree(&child_path, &node.children[i], value_resolver, context)?;
                context.update_result(copy_opt_result(&child_result.result));
                let ghost before = child_results@;
                child_results.push(child_result);
                proof {
                    lemma_plan_views(before);
                    lemma_plan_views(child_results@);
                    if plan_ok(node@) && plan_fresh(node@) {
                        assert(plan_views(child_results@).subrange(0, i as int) =~= plan_views(before).subrange(0, i as int));
                        lemma_pipe_stack_prefix(node@.children, plan_views(before), plan_views(child_results@), s0.push(None), i as nat);
                    }
                    assert forall|j: int| 0 <= j < i + 1 implies walk_shape(#[trigger] node@.children[j], child_results@[j]@) by {
                        if j < i {
                            assert(child_results@[j] == before[j]);
                        }
                    }
                    if keeps_stack(node@) {
                        assert forall|j: int| 0 <= j < i + 1 implies reads(#[trigger] node@.children[j], child_results@[j]@,
                            if j == 0 { None } else { child_results@[j - 1]@.result }) by {
                            if j < i {
                                assert(child_results@[j] == before[j]);
                            }
                            if 0 < j {
                                assert(child_results@[j - 1] == before[j - 1]);
                            }
                        }
                    }
                }
                i = i + 1;
            }
            proof { lemma_plan_views(child_results@); }
            match context.pop_result() {
                Some(value) => Ok(with_result(node, Some(value), child_results)),
                None => {
                    proof { reveal_strlit("Value from stack is empty"); }
                    let msg = String::from_str("Value from stack is empty");
                    Ok(with_result(node, Some(NodeResult::ERROR(msg)), child_results))
                },
            }
        },
        PlanNodeType::RESOLVE_CURRENT(expression) => {
            match resolve_current(expression, context) {
                Ok(val) => Ok(with_result(node, Some(NodeResult::VALUE(val)), Vec::new())),
                Err(err) => Ok(with_result(node, Some(NodeResult::ERROR(err)), Vec::new())),
            }
        },
    }
}

/// The value that a path names inside the current stack value.
pub open spec fn current_value(path: Seq<Step>, top: Option<NodeRes>) -> Result<NodeVal, Seq<char>> {
    match top {
        Some(NodeRes::VALUE(v)) => Ok(select_in_value(v, path)),
        _ => Err("There is no current value to resolve the path against"@),
    }
}

/// The part of a value that a path names: the value itself at the root, and the member or
/// item that each further step names in JSON; NULL where there is none.
pub open spec fn select_in_value(v: NodeVal, path: Seq<Step>) -> NodeVal {
    if path.len() == 0 || (path.len() == 1 && path[0] is Root) {
        v
    } else {
        match v {
            NodeVal::JSON(j) => if path[0] is Root {
                match select_in_json(j, path.drop_first()) {
                    Some(x) => NodeVal::JSON(x),
                    None => NodeVal::NULL,
                }
            } else {
                NodeVal::NULL
            },
            _ => NodeVal::NULL,
        }
    }
}

/// The member or item that the steps name inside a JSON value, if there is one.
pub open spec fn select_in_json(j: Json, steps: Seq<Step>) -> Option<Json>
    decreases steps.len(),
{
    if steps.len() == 0 {
        Some(j)
    } else {
        match (steps[0], j) {
            (Step::Field(name), Json::Object(entries)) => match first_entry(entries, name) {
                Some(x) => select_in_json(x, steps.drop_first()),
                None => None,
            },
            (Step::Index(i), Json::Array(items)) => if i < items.len() {
                select_in_json(items[i as int], steps.drop_first())
            } else {
                None
            },
            _ => None,
        }
    }
}

/// Resolves a path against the current value on the stack.
pub fn resolve_current(path: &DocPath, context: &PlanMatchingContext) -> (r: Result<NodeValue, String>)
    ensures
        match (r, current_value(path@, stack_top(stack_view(context.value_stack@)))) {
            (Ok(v), Ok(w)) => v@ == w,
            (Err(e), Err(f)) => e@ == f,
            _ => false,
        },
{
    proof { reveal_strlit("There is no current value to resolve the path against"); }
    match context.stack_value() {
        Some(NodeResult::VALUE(v)) => Ok(select_value(&v, path)),
        _ => Err(String::from_str("There is no current value to resolve the path against")),
    }
}

fn select_value(v: &NodeValue, path: &DocPath) -> (r: NodeValue)
    ensures
        r@ == select_in_value(v@, path@),
{
    let n = path.tokens.len();
    if n == 0 {
        return v.copy();
    }
    let first_is_root = match &path.tokens[0] {
        PathToken::Root => true,
        _ => false,
    };
    if n == 1 && first_is_root {
        return v.copy();
    }
    match v {
        NodeValue::JSON(j) => {
            if first_is_root {
                match select_json(j, path, 1) {
                    Some(x) => NodeValue::JSON(x),
                    None => NodeValue::NULL,
                }
            } else {
                NodeValue::NULL
            }
        },
        _ => NodeValue::NULL,
    }
}

fn select_json(j: &JsonValue, path: &DocPath, from: usize) -> (r: Option<JsonValue>)
    requires
        from <= path@.len(),
    ensures
        match r {
            Some(x) => select_in_json(j@, path@.subrange(from as int, path@.len() as int)) == Some(x@),
            None => select_in_json(j@, path@.subrange(from as int, path@.len() as int)) is None,
        },
    decreases path@.len() - from,
{
    let steps = Ghost(path@.subrange(from as int, path@.len() as int));
    if from == path.tokens.len() {
        return Some(j.copy());
    }
    proof {
        assert(steps@.drop_first() =~= path@.subrange(from + 1, path@.len() as int));
        assert(steps@[0] == path.tokens@[from as int]@);
    }
    match (&path.tokens[from], j) {
        (PathToken::Field(name), JsonValue::Object(entries)) => {
            proof { lemma_entry_views(entries@); }
            match find_entry(entries, name.as_str()) {
                Some(i) => select_json(&entries[i].1, path, from + 1),
                None => None,
            }
        },
        (PathToken::Index(i), JsonValue::Array(items)) => {
            proof { lemma_json_views(items@); }
            if *i < items.len() {
                select_json(&items[*i], path, from + 1)
            } else {
                None
            }
        },
        _ => None,
    }
}

/// The result of a node, or `OK` when it has none.
fn result_or_ok(node: &ExecutionPlanNode) -> (r: NodeResult)
    ensures
        r@ == res_or_ok(node@.result),
{
    match &node.result {
        Some(x) => x.copy(),
        None => NodeResult::OK,
    }
}

fn msg_too_many_for_one(action: &str, n: usize) -> (r: String)
    ensures
        r@ == too_many_for_one(action@, n as nat),
{
    proof { reveal_strlit(" takes only one argument, got "); }
    let mut s = String::new();
    push_str(&mut s, action);
    push_str(&mut s, " takes only one argument, got ");
    push_decimal(&mut s, n as u64);
    assert(s@ =~= too_many_for_one(action@, n as nat));
    s
}

fn msg_none_for_one(action: &str) -> (r: String)
    ensures
        r@ == none_for_one(action@),
{
    proof { reveal_strlit(" requires one argument, got none"); }
    let mut s = String::new();
    push_str(&mut s, action);
    push_str(&mut s, " requires one argument, got none");
    assert(s@ =~= none_for_one(action@));
    s
}

fn msg_arity(action: &str, n: usize, three: bool) -> (r: String)
    ensures
        r@ == if three { not_three(action@, n as nat) } else { not_two(action@, n as nat) },
{
    proof {
        reveal_strlit("Action '");
        reveal_strlit("' requires two arguments, got ");
        reveal_strlit("' requires three arguments, got ");
    }
    let mut s = String::new();
    push_str(&mut s, "Action '");
    push_str(&mut s, action);
    if three {
        push_str(&mut s, "' requires three arguments, got ");
    } else {
        push_str(&mut s, "' requires two arguments, got ");
    }
    push_decimal(&mut s, n as u64);
    assert(s@ =~= if three { not_three(action@, n as nat) } else { not_two(action@, n as nat) });
    s
}

/// Walks the only child of an action node.
fn validate_one_arg<R: ValueResolver>(
    node: &ExecutionPlanNode,
    action: &str,
    value_resolver: &R,
    path: &Vec<String>,
    context: &mut PlanMatchingContext,
) -> (r: Result<ExecutionPlanNode, String>)
    ensures
        node@.children.len() > 1 ==> (r matches Err(e) && e@ == too_many_for_one(action@, node@.children.len())),
        node@.children.len() == 0 ==> (r matches Err(e) && e@ == none_for_one(action@)),
        node@.children.len() == 1 && plan_ok(node@) ==> (r matches Ok(n) && walk_shape(node@.children[0], n@)),
        node@.children.len() != 1 || keeps_stack(node@) ==> stack_view(final(context).value_stack@) == stack_view(old(context).value_stack@),
        node@.children.len() == 1 && keeps_stack(node@) ==> (r matches Ok(n) && reads(node@.children[0], n@, stack_top(stack_view(old(context).value_stack@)))),
        node@.children.len() == 1 && plan_ok(node@) && plan_fresh(node@) ==> (r matches Ok(n) && stack_view(final(context).value_stack@) == stack_after(node@.children[0], n@, stack_view(old(context).value_stack@))),
    decreases node, 1nat,
{
    proof { lemma_plan_views(node.children@); }
    if node.children.len() > 1 {
        Err(msg_too_many_for_one(action, node.children.len()))
    } else if node.children.len() == 1 {
        proof {
            lemma_child_decreases(node, 0);
            if plan_ok(node@) {
                lemma_children_ok(node@.children, node@.children.len(), 0);
            }
            if keeps_stack(node@) {
                lemma_keeps_stack_child(node@, 0);
            }
            if plan_ok(node@) && plan_fresh(node@) {
                lemma_sound_child(node@, 0);
            }
        }
        walk_tree(path, &node.children[0], value_resolver, context)
    } else {
        Err(msg_none_for_one(action))
    }
}

/// Walks the first `count` children of a node.
fn walk_children<R: ValueResolver>(
    node: &ExecutionPlanNode,
    count: usize,
    value_resolver: &R,
    path: &Vec<String>,
    context: &mut PlanMatchingContext,
) -> (r: Result<Vec<ExecutionPlanNode>, String>)
    requires
        count <= node@.children.len(),
    ensures
        r matches Ok(v) ==> v@.len() == count,
        plan_ok(node@) ==> (r matches Ok(v) && v@.len() == count
            && forall|i: int| 0 <= i < count ==> walk_shape(#[trigger] node@.children[i], v@[i]@)),
        keeps_stack(node@) ==> stack_view(final(context).value_stack@) == stack_view(old(context).value_stack@),
        keeps_stack(node@) ==> (r matches Ok(v) && forall|i: int| 0 <= i < count ==> reads(#[trigger] node@.children[i], v@[i]@, stack_top(stack_view(old(context).value_stack@)))),
        plan_ok(node@) && plan_fresh(node@) ==> (r matches Ok(v) && stack_view(final(context).value_stack@) == seq_stack(node@.children, plan_views(v@), stack_view(old(context).value_stack@), 0, count as nat)),
    decreases node, 1nat,
{
    proof { lemma_plan_views(node.children@); }
    let ghost s0 = stack_view(context.value_stack@);
    let mut out: Vec<ExecutionPlanNode> = Vec::new();
    let mut i: usize = 0;
    while i < count
        invariant
            count <= node.children.len(),
            i <= count,
            out.len() == i,
            plan_views(node.children@).len() == node.children.len(),
            forall|j: int| 0 <= j < node.children.len() ==> #[trigger] plan_views(node.children@)[j] == plan_view(node.children@[j]),
            plan_ok(node@) ==> children_ok(node@.children, node@.children.len()),
            forall|j: int| 0 <= j < i ==> walk_shape(#[trigger] node@.children[j], out@[j]@),
            keeps_stack(node@) ==> stack_view(context.value_stack@) == s0,
            s0 == stack_view(old(context).value_stack@),
            keeps_stack(node@) ==> forall|j: int| 0 <= j < i ==> reads(#[trigger] node@.children[j], out@[j]@, stack_top(s0)),
            plan_ok(node@) && plan_fresh(node@) ==> stack_view(context.value_stack@) == seq_stack(node@.children, plan_views(out@), s0, 0, i as nat),
        decreases count - i,
    {
        proof {
            lemma_child_decreases(node, i as int);
            if plan_ok(node@) {
                lemma_children_ok(node@.children, node@.children.len(), i as int);
            }
            if keeps_stack(node@) {
                lemma_keeps_stack_child(node@, i as int);
            }
            if plan_ok(node@) && plan_fresh(node@) {
                lemma_sound_child(node@, i as int);
            }
            lemma_plan_views(out@);
        }
        let c = walk_tree(path, &node.children[i], value_resolver, context)?;
        let ghost prev = out@;
        out.push(c);
        proof {
            lemma_plan_views(out@);
            if plan_ok(node@) && plan_fresh(node@) {
                assert(plan_views(out@).subrange(0, i as int) =~= plan_views(prev).subrange(0, i as int));
                lemma_seq_stack_prefix(node@.children, plan_views(prev), plan_views(out@), s0, 0, i as nat);
            }
        }
        proof {
            assert forall|j: int| 0 <= j < i + 1 implies walk_shape(#[trigger] node@.children[j], out@[j]@) by {
                if j < i {
                    assert(out@[j] == prev[j]);
                }
            }
            if keeps_stack(node@) {
                assert forall|j: int| 0 <= j < i + 1 implies reads(#[trigger] node@.children[j], out@[j]@, stack_top(s0)) by {
                    if j < i {
                        assert(out@[j] == prev[j]);
                    }
                }
            }
        }
        i = i + 1;
    }
    Ok(out)
}

/// Walks the children of an action node that takes exactly two, or three, arguments.
fn validate_args_exact<R: ValueResolver>(
    node: &ExecutionPlanNode,
    action: &str,
    three: bool,
    value_resolver: &R,
    path: &Vec<String>,
    context: &mut PlanMatchingContext,
) -> (r: Result<Vec<ExecutionPlanNode>, String>)
    ensures
        node@.children.len() != (if three { 3nat } else { 2nat }) ==> (r matches Err(e) &&
            e@ == if three { not_three(action@, node@.children.len()) } else { not_two(action@, node@.children.len()) }),
        r matches Ok(v) ==> v@.len() == (if three { 3nat } else { 2nat }),
        node@.children.len() == (if three { 3nat } else { 2nat }) && plan_ok(node@) ==> (r matches Ok(v) && v@.len() == node@.children.len()
            && forall|i: int| 0 <= i < v@.len() ==> walk_shape(#[trigger] node@.children[i], v@[i]@)),
        node@.children.len() != (if three { 3nat } else { 2nat }) || keeps_stack(node@) ==> stack_view(final(context).value_stack@) == stack_view(old(context).value_stack@),
        node@.children.len() == (if three { 3nat } else { 2nat }) && keeps_stack(node@) ==> (r matches Ok(v)
            && forall|i: int| 0 <= i < v@.len() ==> reads(#[trigger] node@.children[i], v@[i]@, stack_top(stack_view(old(context).value_stack@)))),
        node@.children.len() == (if three { 3nat } else { 2nat }) && plan_ok(node@) && plan_fresh(node@) ==> (r matches Ok(v)
            && stack_view(final(context).value_stack@) == seq_stack(node@.children, plan_views(v@), stack_view(old(context).value_stack@), 0, node@.children.len())),
    decreases node, 2nat,
{
    proof { lemma_plan_views(node.children@); }
    let n: usize = if three { 3 } else { 2 };
    if node.children.len() != n {
        return Err(msg_arity(action, node.children.len(), three));
    }
    walk_children(node, n, value_resolver, path, context)
}

/// Executes an action that takes two arguments: `json:expect:empty`.
fn execute_two_args<R: ValueResolver>(
    action: &str,
    value_resolver: &R,
    node: &ExecutionPlanNode,
    path: &Vec<String>,
    context: &mut PlanMatchingContext,
) -> (r: ExecutionPlanNode)
    requires
        node@.kind == PlanKind::ACTION(action@),
    ensures
        two_arg_outcome(action@, node@, r@, |x: NodeRes, y: NodeRes| json_expect_empty_verdict(x, y)),
        r@.kind == node@.kind,
        node@.children.len() != 2 || keeps_stack(node@) ==> stack_view(final(context).value_stack@) == stack_view(old(context).value_stack@),
        node@.children.len() == 2 && keeps_stack(node@) ==> forall|i: int| 0 <= i < 2 ==> reads(#[trigger] node@.children[i], r@.children[i], stack_top(stack_view(old(context).value_stack@))),
        node@.children.len() == 2 && plan_ok(node@) && plan_fresh(node@) ==> stack_view(final(context).value_stack@) == seq_stack(node@.children, r@.children, stack_view(old(context).value_stack@), 0, 2),
    decreases node, 3nat,
{
    match validate_args_exact(node, action, false, value_resolver, path, context) {
        Ok(values) => {
            proof { lemma_plan_views(values@); }
            let r1 = result_or_ok(&values[0]);
            let r2 = result_or_ok(&values[1]);
            let result = json_expect_empty_result(&r1, &r2);
            let r = with_result(node, Some(result), values);
            r
        },
        Err(err) => fail_node(node, err),
    }
}

/// Executes an action that takes three arguments: `json:match:length` (0),
/// `json:expect:entries` (1), or a matcher (2, with the matcher's name).
fn execute_three_args<R: ValueResolver>(
    which: u8,
    matcher: &str,
    action: &str,
    value_resolver: &R,
    node: &ExecutionPlanNode,
    path: &Vec<String>,
    context: &mut PlanMatchingContext,
) -> (r: ExecutionPlanNode)
    requires
        which < 3,
        node@.kind == PlanKind::ACTION(action@),
    ensures
        three_arg_outcome(action@, node@, r@, if which == 0 {
            |x: NodeRes, y: NodeRes, z: NodeRes| json_match_length_verdict(x, y, z)
        } else if which == 1 {
            |x: NodeRes, y: NodeRes, z: NodeRes| json_expect_entries_verdict(x, y, z)
        } else {
            |x: NodeRes, y: NodeRes, z: NodeRes| match_verdict(matcher@, x, y, z)
        }),
        r@.kind == node@.kind,
        node@.children.len() != 3 || keeps_stack(node@) ==> stack_view(final(context).value_stack@) == stack_view(old(context).value_stack@),
        node@.children.len() == 3 && keeps_stack(node@) ==> forall|i: int| 0 <= i < 3 ==> reads(#[trigger] node@.children[i], r@.children[i], stack_top(stack_view(old(context).value_stack@))),
        node@.children.len() == 3 && plan_ok(node@) && plan_fresh(node@) ==> stack_view(final(context).value_stack@) == seq_stack(node@.children, r@.children, stack_view(old(context).value_stack@), 0, 3),
    decreases node, 3nat,
{
    match validate_args_exact(node, action, true, value_resolver, path, context) {
        Ok(values) => {
            proof { lemma_plan_views(values@); }
            let r1 = result_or_ok(&values[0]);
            let r2 = result_or_ok(&values[1]);
            let r3 = result_or_ok(&values[2]);
            let result = if which == 0 {
                json_match_length_result(&r1, &r2, &r3)
            } else if which == 1 {
                json_expect_entries_result(&r1, &r2, &r3)
            } else {
                match_result(matcher, &r1, &r2, &r3)
            };
            with_result(node, Some(result), values)
        },
        Err(err) => fail_node(node, err),
    }
}

fn json_parse_result(arg: &NodeResult) -> (r: NodeResult)
    ensures
        r@ == json_parse_verdict(arg@),
{
    proof {
        reveal_strlit("json parse error - ");
        reveal_strlit("json:parse can not be used with ");
    }
    match arg {
        NodeResult::VALUE(v) => match v {
            NodeValue::NULL => NodeResult::VALUE(NodeValue::NULL),
            NodeValue::STRING(s) => match read_json_str(s.as_str()) {
                Ok(j) => NodeResult::VALUE(NodeValue::JSON(j)),
                Err(e) => {
                    let mut m = String::from_str("json parse error - ");
                    push_str(&mut m, e.as_str());
                    NodeResult::ERROR(m)
                },
            },
            NodeValue::BARRAY(b) => match read_json(b.as_slice()) {
                Ok(j) => NodeResult::VALUE(NodeValue::JSON(j)),
                Err(e) => {
                    let mut m = String::from_str("json parse error - ");
                    push_str(&mut m, e.as_str());
                    NodeResult::ERROR(m)
                },
            },
            _ => {
                let mut m = String::from_str("json:parse can not be used with ");
                push_str(&mut m, v.value_type());
                NodeResult::ERROR(m)
            },
        },
        _ => NodeResult::VALUE(NodeValue::NULL),
    }
}

fn convert_utf8_result(arg: &NodeResult) -> (r: NodeResult)
    ensures
        r@ == convert_utf8_verdict(arg@),
{
    proof { reveal_strlit("convert:UTF8 can not be used with "); }
    match arg {
        NodeResult::VALUE(v) => match v {
            NodeValue::NULL => NodeResult::VALUE(NodeValue::STRING(String::new())),
            NodeValue::STRING(s) => NodeResult::VALUE(NodeValue::STRING(s.clone())),
            NodeValue::BARRAY(b) => NodeResult::VALUE(NodeValue::STRING(from_utf8_lossy(b.as_slice()))),
            _ => {
                let mut m = String::from_str("convert:UTF8 can not be used with ");
                push_str(&mut m, v.value_type());
                NodeResult::ERROR(m)
            },
        },
        _ => NodeResult::VALUE(NodeValue::STRING(String::new())),
    }
}

fn check_exists_result(arg: &NodeResult) -> (r: NodeResult)
    ensures
        r@ == check_exists_verdict(arg@),
{
    match arg {
        NodeResult::VALUE(NodeValue::NULL) => NodeResult::VALUE(NodeValue::BOOL(false)),
        NodeResult::VALUE(_) => NodeResult::VALUE(NodeValue::BOOL(true)),
        _ => NodeResult::VALUE(NodeValue::BOOL(false)),
    }
}

/// Executes an action that takes one argument: `json:parse` (0), `convert:UTF8` (1) or
/// `check:exists` (2).
fn execute_one_arg<R: ValueResolver>(
    which: u8,
    action: &str,
    value_resolver: &R,
    node: &ExecutionPlanNode,
    path: &Vec<String>,
    context: &mut PlanMatchingContext,
) -> (r: ExecutionPlanNode)
    requires
        which < 3,
        node@.kind == PlanKind::ACTION(action@),
    ensures
        one_arg_outcome(action@, node@, r@, if which == 0 {
            |x: NodeRes| json_parse_verdict(x)
        } else if which == 1 {
            |x: NodeRes| convert_utf8_verdict(x)
        } else {
            |x: NodeRes| check_exists_verdict(x)
        }),
        r@.kind == node@.kind,
        node@.children.len() != 1 || keeps_stack(node@) ==> stack_view(final(context).value_stack@) == stack_view(old(context).value_stack@),
        node@.children.len() == 1 && keeps_stack(node@) ==> forall|i: int| 0 <= i < 1 ==> reads(#[trigger] node@.children[i], r@.children[i], stack_top(stack_view(old(context).value_stack@))),
        node@.children.len() == 1 && plan_ok(node@) && plan_fresh(node@) ==> stack_view(final(context).value_stack@) == seq_stack(node@.children, r@.children, stack_view(old(context).value_stack@), 0, 1),
    decreases node, 3nat,
{
    match validate_one_arg(node, action, value_resolver, path, context) {
        Ok(value) => {
            let arg = result_or_ok(&value);
            let result = if which == 0 {
                json_parse_result(&arg)
            } else if which == 1 {
                convert_utf8_result(&arg)
            } else {
                check_exists_result(&arg)
            };
            let mut children: Vec<ExecutionPlanNode> = Vec::new();
            children.push(value);
            proof {
                lemma_plan_views(children@);
                assert(seq_stack(node@.children, plan_views(children@), stack_view(old(context).value_stack@), 0, 0)
                    == stack_view(old(context).value_stack@));
            }
            with_result(node, Some(result), children)
        },
        Err(err) => fail_node(node, err),
    }
}

/// Executes `apply`, `push` or `pop` against the value stack.
fn execute_stack_action(action: &str, node: &ExecutionPlanNode, context: &mut PlanMatchingContext) -> (r: ExecutionPlanNode)
    requires
        node@.kind == PlanKind::ACTION(action@),
        action@ == "apply"@ || action@ == "push"@ || action@ == "pop"@,
    ensures
        stack_outcome(action@, node@, r@, stack_view(old(context).value_stack@), stack_view(final(context).value_stack@)),
        r@.kind == node@.kind,
        r@.children == node@.children,
{
    proof {
        reveal_strlit("apply");
        reveal_strlit("push");
        reveal_strlit("pop");
        reveal_strlit("No value to apply (stack is empty)");
        reveal_strlit("No value to push (value is empty)");
        reveal_strlit("No value to pop (stack is empty)");
    }
    let n = context.value_stack.len();
    if str_eq(action, "apply") {
        if n == 0 {
            fail_node(node, String::from_str("No value to apply (stack is empty)"))
        } else {
            let v = copy_opt_result(&context.value_stack[n - 1]);
            with_result(node, v, copy_children(node))
        }
    } else if str_eq(action, "push") {
        if n == 0 {
            fail_node(node, String::from_str("No value to push (value is empty)"))
        } else {
            let v = copy_opt_result(&context.value_stack[n - 1]);
            let v2 = copy_opt_result(&context.value_stack[n - 1]);
            context.push_result(v2);
            with_result(node, v, copy_children(node))
        }
    } else {
        if n == 0 {
            fail_node(node, String::from_str("No value to pop (stack is empty)"))
        } else {
            let _ = context.pop_result();
            let v = context.stack_value();
            with_result(node, v, copy_children(node))
        }
    }
}


/// `'if' action requires at least one argument` etc.: the node with a result, its children kept.
fn result_node(node: &ExecutionPlanNode, r: NodeResult) -> (out: ExecutionPlanNode)
    ensures
        out@ == with_res(node@, r@),
{
    let children = copy_children(node);
    with_result(node, Some(r), children)
}

/// Executes `if`.
fn execute_if<R: ValueResolver>(
    value_resolver: &R,
    node: &ExecutionPlanNode,
    path: &Vec<String>,
    context: &mut PlanMatchingContext,
) -> (r: ExecutionPlanNode)
    ensures
        if_outcome(node@, r@),
        r@.kind == node@.kind,
        node@.children.len() == 0 || keeps_stack(node@) ==> stack_view(final(context).value_stack@) == stack_view(old(context).value_stack@),
        node@.children.len() > 0 && plan_ok(node@) && plan_fresh(node@) ==> stack_view(final(context).value_stack@) == if_stack(node@, r@, stack_view(old(context).value_stack@)),
        node@.children.len() > 0 && keeps_stack(node@) ==> {
            &&& reads(node@.children[0], r@.children[0], stack_top(stack_view(old(context).value_stack@)))
            &&& if !result_is_truthy(res_or_ok(r@.children[0].result)) {
                node@.children.len() > 2 ==> reads(node@.children[2], r@.children[2], stack_top(stack_view(old(context).value_stack@)))
            } else {
                node@.children.len() > 1 ==> reads(node@.children[1], r@.children[1], stack_top(stack_view(old(context).value_stack@)))
            }
        },
    decreases node, 3nat,
{
    proof { lemma_plan_views(node.children@); }
    let n = node.children.len();
    if n == 0 {
        proof { reveal_strlit("'if' action requires at least one argument"); }
        return result_node(node, NodeResult::ERROR(String::from_str("'if' action requires at least one argument")));
    }
    proof {
        lemma_child_decreases(node, 0);
        if plan_ok(node@) {
            lemma_children_ok(node@.children, n as nat, 0);
        }
        if keeps_stack(node@) {
            lemma_keeps_stack_child(node@, 0);
        }
        if plan_ok(node@) && plan_fresh(node@) {
            lemma_sound_child(node@, 0);
        }
    }
    let first = match walk_tree(path, &node.children[0], value_resolver, context) {
        Ok(first) => first,
        Err(err) => return fail_node(node, err),
    };
    let c = result_or_ok(&first);
    let mut children = copy_children(node);
    proof { lemma_plan_views(children@); }
    children.set(0, first);
    proof { lemma_plan_views(children@); }
    if !c.is_truthy() {
        if n > 2 {
            proof {
                lemma_child_decreases(node, 2);
                if plan_ok(node@) {
                    lemma_children_ok(node@.children, n as nat, 2);
                }
                if keeps_stack(node@) {
                    lemma_keeps_stack_child(node@, 2);
                }
                if plan_ok(node@) && plan_fresh(node@) {
                    lemma_sound_child(node@, 2);
                }
            }
            match walk_tree(path, &node.children[2], value_resolver, context) {
                Ok(else_node) => {
                    let result = copy_opt_result(&else_node.result);
                    children.set(2, else_node);
                    proof { lemma_plan_views(children@); }
                    with_result(node, result, children)
                },
                Err(err) => with_result(node, Some(NodeResult::ERROR(err)), children),
            }
        } else {
            with_result(node, Some(c), children)
        }
    } else if n > 1 {
        proof {
            lemma_child_decreases(node, 1);
            if plan_ok(node@) {
                lemma_children_ok(node@.children, n as nat, 1);
            }
            if keeps_stack(node@) {
                lemma_keeps_stack_child(node@, 1);
            }
            if plan_ok(node@) && plan_fresh(node@) {
                lemma_sound_child(node@, 1);
            }
        }
        match walk_tree(path, &node.children[1], value_resolver, context) {
            Ok(second) => {
                let result = result_or_ok(&second);
                children.set(1, second);
                proof { lemma_plan_views(children@); }
                with_result(node, Some(result), children)
            },
            Err(err) => with_result(node, Some(NodeResult::ERROR(err)), children),
        }
    } else {
        with_result(node, Some(c), children)
    }
}

/// Executes `tee`.
fn execute_tee<R: ValueResolver>(
    value_resolver: &R,
    node: &ExecutionPlanNode,
    path: &Vec<String>,
    context: &mut PlanMatchingContext,
) -> (r: ExecutionPlanNode)
    ensures
        tee_outcome(node@, r@),
        r@.kind == node@.kind,
        node@.children.len() == 0 || keeps_stack(node@) ==> stack_view(final(context).value_stack@) == stack_view(old(context).value_stack@),
        node@.children.len() > 0 && plan_ok(node@) && plan_fresh(node@) ==> stack_view(final(context).value_stack@) == tee_stack(node@, r@, stack_view(old(context).value_stack@)),
        node@.children.len() > 0 && keeps_stack(node@) ==> {
            &&& reads(node@.children[0], r@.children[0], stack_top(stack_view(old(context).value_stack@)))
            &&& (!(r@.children[0].result matches Some(NodeRes::ERROR(_))) ==> forall|i: int| 1 <= i < node@.children.len() ==>
                reads(#[trigger] node@.children[i], r@.children[i], r@.children[0].result))
        },
    decreases node, 3nat,
{
    proof { lemma_plan_views(node.children@); }
    let ghost s0 = stack_view(context.value_stack@);
    let n = node.children.len();
    if n == 0 {
        return result_node(node, NodeResult::OK);
    }
    proof {
        lemma_child_decreases(node, 0);
        if plan_ok(node@) {
            lemma_children_ok(node@.children, n as nat, 0);
        }
        if keeps_stack(node@) {
            lemma_keeps_stack_child(node@, 0);
        }
        if plan_ok(node@) && plan_fresh(node@) {
            lemma_sound_child(node@, 0);
        }
    }
    let first = match walk_tree(path, &node.children[0], value_resolver, context) {
        Ok(first) => first,
        Err(err) => return fail_node(node, err),
    };
    if let Some(NodeResult::ERROR(e)) = &first.result {
        let result = NodeResult::ERROR(e.clone());
        let mut children = copy_children(node);
        proof { lemma_plan_views(children@); }
        children.set(0, first);
        proof { lemma_plan_views(children@); }
        return with_result(node, Some(result), children);
    }
    let ghost s1 = stack_view(context.value_stack@);
    context.push_result(copy_opt_result(&first.result));
    let ghost top = first@.result;
    let mut all = true;
    let mut child_results: Vec<ExecutionPlanNode> = Vec::new();
    child_results.push(first);
    let mut i: usize = 1;
    while i < n
        invariant
            1 <= i <= n,
            n == node.children.len(),
            child_results.len() == i,
            plan_views(node.children@).len() == node.children.len(),
            forall|j: int| 0 <= j < node.children.len() ==> #[trigger] plan_views(node.children@)[j] == plan_view(node.children@[j]),
            plan_ok(node@) ==> children_ok(node@.children, node@.children.len()),
            plan_ok(node@) ==> forall|j: int| 0 <= j < i ==> walk_shape(#[trigger] node@.children[j], child_results@[j]@),
            child_results@[0]@.result == top,
            !(top matches Some(NodeRes::ERROR(_))),
            all == forall|j: int| 1 <= j < i ==> result_is_truthy(res_or_ok(#[trigger] child_results@[j]@.result)),
            keeps_stack(node@) ==> stack_view(context.value_stack@) == s0.push(top),
            keeps_stack(node@) ==> forall|j: int| 1 <= j < i ==> reads(#[trigger] node@.children[j], child_results@[j]@, top),
            keeps_stack(node@) ==> reads(node@.children[0], child_results@[0]@, stack_top(s0)),
            s0 == stack_view(old(context).value_stack@),
            plan_ok(node@) && plan_fresh(node@) ==> s1 == stack_after(node@.children[0], child_results@[0]@, s0),
            plan_ok(node@) && plan_fresh(node@) ==> stack_view(context.value_stack@)
                == seq_stack(node@.children, plan_views(child_results@), s1.push(top), 1, i as nat),
        decreases n - i,
    {
        proof {
            lemma_child_decreases(node, i as int);
            if plan_ok(node@) {
                lemma_children_ok(node@.children, n as nat, i as int);
            }
            if keeps_stack(node@) {
                lemma_keeps_stack_child(node@, i as int);
            }
            if plan_ok(node@) && plan_fresh(node@) {
                lemma_sound_child(node@, i as int);
            }
        }
        let ghost before = child_results@;
        proof { lemma_plan_views(before); }
        let truthy = match walk_tree(path, &node.children[i], value_resolver, context) {
            Ok(value) => {
                let t = result_or_ok(&value).is_truthy();
                child_results.push(value);
                t
            },
            Err(err) => {
                child_results.push(fail_node(&node.children[i], err));
                false
            },
        };
        all = all && truthy;
        proof {
            assert(child_results@[0] == before[0]);
            assert(truthy == result_is_truthy(res_or_ok(child_results@[i as int]@.result)));
            lemma_plan_views(child_results@);
            if plan_ok(node@) && plan_fresh(node@) {
                assert(plan_views(child_results@).subrange(0, i as int) =~= plan_views(before).subrange(0, i as int));
                lemma_seq_stack_prefix(node@.children, plan_views(before), plan_views(child_results@), s1.push(top), 1, i as nat);
            }
            if keeps_stack(node@) {
                assert forall|j: int| 1 <= j < i + 1 implies reads(#[trigger] node@.children[j], child_results@[j]@, top) by {
                    if j < i {
                        assert(child_results@[j] == before[j]);
                    }
                }
            }
            if plan_ok(node@) {
                assert forall|j: int| 0 <= j < i + 1 implies walk_shape(#[trigger] node@.children[j], child_results@[j]@) by {
                    if j < i {
                        assert(child_results@[j] == before[j]);
                    }
                }
            }
            assert(all == forall|j: int| 1 <= j < i + 1 ==> result_is_truthy(res_or_ok(#[trigger] child_results@[j]@.result))) by {
                if all {
                    assert forall|j: int| 1 <= j < i + 1 implies result_is_truthy(res_or_ok(#[trigger] child_results@[j]@.result)) by {
                        if j < i {
                            assert(child_results@[j] == before[j]);
                        }
                    }
                } else if !truthy {
                    assert(!result_is_truthy(res_or_ok(child_results@[i as int]@.result)));
                } else {
                    let k = choose|k: int| 1 <= k < i && !result_is_truthy(res_or_ok(#[trigger] before[k]@.result));
                    assert(child_results@[k] == before[k]);
                }
            }
        }
        i = i + 1;
    }
    let _ = context.pop_result();
    proof {
        lemma_plan_views(child_results@);
        let cs = plan_views(child_results@);
        assert forall|j: int| 0 <= j < cs.drop_first().len() implies
            #[trigger] cs.drop_first()[j] == plan_view(child_results@[j + 1]) by {}
        if keeps_stack(node@) {
            assert forall|j: int| 1 <= j < n implies
                reads(#[trigger] node@.children[j], cs[j], cs[0].result) by {
                assert(cs[j] == child_results@[j]@);
            }
            assert(cs[0] == child_results@[0]@);
        }
        assert(all == all_truthy(cs.drop_first())) by {
            if all {
                assert forall|j: int| 0 <= j < cs.drop_first().len() implies
                    result_is_truthy(res_or_ok(#[trigger] cs.drop_first()[j].result)) by {
                    assert(cs.drop_first()[j] == plan_view(child_results@[j + 1]));
                    assert(result_is_truthy(res_or_ok(child_results@[j + 1]@.result)));
                }
            } else {
                let k = choose|k: int| 1 <= k < i && !result_is_truthy(res_or_ok(#[trigger] child_results@[k]@.result));
                assert(cs.drop_first()[k - 1] == plan_view(child_results@[k]));
            }
        }
    }
    with_result(node, Some(NodeResult::VALUE(NodeValue::BOOL(all))), child_results)
}

/// Executes the children of a node in turn and collects the values of their results, as the
/// actions that work on all their arguments need; a child that carries a result already is
/// not executed again. A failure stops it: the error comes back as the executed node.
fn evaluate_children<R: ValueResolver>(
    value_resolver: &R,
    node: &ExecutionPlanNode,
    path: &Vec<String>,
    context: &mut PlanMatchingContext,
) -> (r: Result<(Vec<ExecutionPlanNode>, Vec<NodeValue>), ExecutionPlanNode>)
    ensures
        match r {
            Err(n) => n@.kind == node@.kind && n@.result matches Some(NodeRes::ERROR(_)),
            Ok(_) => true,
        },
        plan_ok(node@) && fresh(node@) ==> match r {
            Ok((cs, vs)) => {
                &&& cs@.len() == node@.children.len()
                &&& forall|i: int| 0 <= i < cs@.len() ==> walk_shape(#[trigger] node@.children[i], cs@[i]@)
                &&& child_values(plan_views(cs@), cs@.len() as nat) == Ok::<Seq<NodeVal>, Seq<char>>(crate::value::node_value_views(vs@))
            },
            Err(n) => {
                &&& n@.children.len() <= node@.children.len()
                &&& forall|i: int| 0 <= i < n@.children.len() ==> walk_shape(#[trigger] node@.children[i], n@.children[i])
                &&& child_values(n@.children, n@.children.len()) matches Err(e)
                &&& n@.result == Some(NodeRes::ERROR(e))
            },
        },
        node@.children.len() == 0 || keeps_stack(node@) ==> stack_view(final(context).value_stack@) == stack_view(old(context).value_stack@),
        plan_ok(node@) && plan_fresh(node@) ==> match r {
            Ok((cs, vs)) => stack_view(final(context).value_stack@) == seq_stack(node@.children, plan_views(cs@), stack_view(old(context).value_stack@), 0, cs@.len() as nat),
            Err(n) => stack_view(final(context).value_stack@) == seq_stack(node@.children, n@.children, stack_view(old(context).value_stack@), 0, n@.children.len()),
        },
        keeps_stack(node@) && fresh(node@) ==> match r {
            Ok((cs, vs)) => forall|i: int| 0 <= i < cs@.len() && i < node@.children.len() ==> reads(#[trigger] node@.children[i], cs@[i]@, stack_top(stack_view(old(context).value_stack@))),
            Err(n) => forall|i: int| 0 <= i < n@.children.len() && i < node@.children.len() ==> reads(#[trigger] node@.children[i], n@.children[i], stack_top(stack_view(old(context).value_stack@))),
        },
    decreases node, 2nat,
{
    proof { lemma_plan_views(node.children@); }
    let ghost s0 = stack_view(context.value_stack@);
    proof {
        if plan_fresh(node@) {
            lemma_fresh_children(node@);
        }
    }
    let n = node.children.len();
    let mut children: Vec<ExecutionPlanNode> = Vec::new();
    let mut values: Vec<NodeValue> = Vec::new();
    let mut i: usize = 0;
    while i < n
        invariant
            i <= n,
            n == node.children.len(),
            plan_views(node.children@).len() == node.children.len(),
            forall|j: int| 0 <= j < node.children.len() ==> #[trigger] plan_views(node.children@)[j] == plan_view(node.children@[j]),
            plan_ok(node@) ==> children_ok(node@.children, node@.children.len()),
            plan_ok(node@) && fresh(node@) ==> {
                &&& children.len() == i
                &&& forall|j: int| 0 <= j < i ==> walk_shape(#[trigger] node@.children[j], children@[j]@)
                &&& child_values(plan_views(children@), i as nat) == Ok::<Seq<NodeVal>, Seq<char>>(crate::value::node_value_views(values@))
            },
            s0 == stack_view(old(context).value_stack@),
            keeps_stack(node@) || i == 0 ==> stack_view(context.value_stack@) == s0,
            keeps_stack(node@) && fresh(node@) ==> forall|j: int| 0 <= j < children.len() && j < node@.children.len() ==>
                reads(#[trigger] node@.children[j], children@[j]@, stack_top(s0)),
            plan_fresh(node@) ==> fresh(node@),
            plan_ok(node@) && plan_fresh(node@) ==> stack_view(context.value_stack@) == seq_stack(node@.children, plan_views(children@), s0, 0, i as nat),
        decreases n - i,
    {
        proof {
            lemma_child_decreases(node, i as int);
            if plan_ok(node@) {
                lemma_children_ok(node@.children, n as nat, i as int);
            }
            if keeps_stack(node@) {
                lemma_keeps_stack_child(node@, i as int);
            }
            if plan_ok(node@) && plan_fresh(node@) {
                lemma_sound_child(node@, i as int);
            }
            lemma_plan_views(children@);
            crate::value::lemma_node_value_views(values@);
        }
        let ghost before = children@;
        let ghost vbefore = values@;
        let value = match &node.children[i].result {
            Some(v) => v.copy(),
            None => match walk_tree(path, &node.children[i], value_resolver, context) {
                Ok(executed) => {
                    let v = result_or_ok(&executed);
                    children.push(executed);
                    v
                },
                Err(err) => return Err(with_result(node, Some(NodeResult::ERROR(err)), children)),
            },
        };
        proof {
            lemma_plan_views(children@);
            if keeps_stack(node@) && fresh(node@) {
                assert forall|j: int| 0 <= j < children.len() && j < node@.children.len() implies
                    reads(#[trigger] node@.children[j], children@[j]@, stack_top(s0)) by {
                    if j < before.len() {
                        assert(children@[j] == before[j]);
                    }
                }
            }
            if plan_ok(node@) && fresh(node@) {
                assert(node@.children[i as int].result is None);
                assert(plan_views(children@).subrange(0, i as int) =~= plan_views(before).subrange(0, i as int));
                lemma_values_prefix(plan_views(before), plan_views(children@), i as nat);
                lemma_plan_views(before);
                lemma_seq_stack_prefix(node@.children, plan_views(before), plan_views(children@), s0, 0, i as nat);
                assert forall|j: int| 0 <= j < i + 1 implies walk_shape(#[trigger] node@.children[j], children@[j]@) by {
                    if j < i {
                        assert(children@[j] == before[j]);
                    }
                }
            }
        }
        match value {
            NodeResult::OK => {},
            NodeResult::VALUE(v) => {
                values.push(v);
                proof {
                    crate::value::lemma_node_value_views(values@);
                    assert(crate::value::node_value_views(values@) =~= crate::value::node_value_views(vbefore).push(values@.last()@));
                }
            },
            NodeResult::ERROR(e) => {
                return Err(with_result(node, Some(NodeResult::ERROR(e)), children));
            },
        }
        i = i + 1;
    }
    Ok((children, values))
}

/// The values of a prefix of children that is unchanged.
proof fn lemma_values_prefix(a: Seq<PlanNode>, b: Seq<PlanNode>, k: nat)
    requires
        k <= a.len(),
        k <= b.len(),
        a.subrange(0, k as int) == b.subrange(0, k as int),
    ensures
        child_values(a, k) == child_values(b, k),
    decreases k,
{
    if k > 0 {
        assert(a.subrange(0, k - 1) == a.subrange(0, k as int).subrange(0, k - 1));
        assert(b.subrange(0, k - 1) == b.subrange(0, k as int).subrange(0, k - 1));
        assert(a[k - 1] == a.subrange(0, k as int)[k - 1]);
        assert(b[k - 1] == b.subrange(0, k as int)[k - 1]);
        lemma_values_prefix(a, b, (k - 1) as nat);
    }
}

/// Executes `upper-case`, `lower-case`, `to-string`, `join`, `join-with` or `error`.
fn execute_transform<R: ValueResolver>(
    action: &str,
    value_resolver: &R,
    node: &ExecutionPlanNode,
    path: &Vec<String>,
    context: &mut PlanMatchingContext,
) -> (r: ExecutionPlanNode)
    requires
        is_transform_action(action@),
    ensures
        transform_outcome(action@, node@, r@),
        r@.kind == node@.kind,
        node@.children.len() == 0 || keeps_stack(node@) ==> stack_view(final(context).value_stack@) == stack_view(old(context).value_stack@),
        keeps_stack(node@) && fresh(node@) ==> forall|i: int| 0 <= i < r@.children.len() && i < node@.children.len() ==>
            reads(#[trigger] node@.children[i], r@.children[i], stack_top(stack_view(old(context).value_stack@))),
        plan_ok(node@) && plan_fresh(node@) ==> stack_view(final(context).value_stack@) == seq_stack(node@.children, r@.children, stack_view(old(context).value_stack@), 0, r@.children.len()),
    decreases node, 3nat,
{
    proof {
        reveal_strlit("upper-case");
        reveal_strlit("lower-case");
        reveal_strlit("to-string");
        reveal_strlit("join");
        reveal_strlit("join-with");
    }
    let (children, values) = match evaluate_children(value_resolver, node, path, context) {
        Ok(x) => x,
        Err(n) => return n,
    };
    let result = if str_eq(action, "upper-case") {
        NodeResult::VALUE(change_case_values(&values, true))
    } else if str_eq(action, "lower-case") {
        NodeResult::VALUE(change_case_values(&values, false))
    } else if str_eq(action, "to-string") {
        NodeResult::VALUE(to_string_values(&values))
    } else if str_eq(action, "join") {
        NodeResult::VALUE(NodeValue::STRING(join_values(&values, false)))
    } else if str_eq(action, "join-with") {
        NodeResult::VALUE(NodeValue::STRING(join_values(&values, true)))
    } else {
        NodeResult::ERROR(join_values(&values, false))
    };
    proof { lemma_plan_views(children@); }
    with_result(node, Some(result), children)
}

fn msg_args(action: &str, count: usize, n: usize, at_most: bool) -> (r: String)
    ensures
        r@ == if at_most { too_many(action@, count as nat, n as nat) } else { too_few(action@, count as nat, n as nat) },
{
    proof {
        reveal_strlit(" requires ");
        reveal_strlit(" supports at most ");
        reveal_strlit(" arguments, got ");
    }
    let mut s = String::new();
    push_str(&mut s, action);
    if at_most {
        push_str(&mut s, " supports at most ");
    } else {
        push_str(&mut s, " requires ");
    }
    push_decimal(&mut s, count as u64);
    push_str(&mut s, " arguments, got ");
    push_decimal(&mut s, n as u64);
    assert(s@ =~= if at_most { too_many(action@, count as nat, n as nat) } else { too_few(action@, count as nat, n as nat) });
    s
}

/// The message an executed optional argument gives; see [`message_of`].
fn message_from(node: &ExecutionPlanNode) -> (m: String)
    ensures
        m@ == message_of(node@.result),
{
    let r = result_or_ok(node);
    match r.as_string() {
        Some(m) => m,
        None => String::new(),
    }
}

/// Executes `expect:empty`.
fn execute_expect_empty<R: ValueResolver>(
    action: &str,
    value_resolver: &R,
    node: &ExecutionPlanNode,
    path: &Vec<String>,
    context: &mut PlanMatchingContext,
) -> (r: ExecutionPlanNode)
    ensures
        expect_empty_outcome(action@, node@, r@),
        r@.kind == node@.kind,
        node@.children.len() < 1 || node@.children.len() > 2 || keeps_stack(node@) ==> stack_view(final(context).value_stack@) == stack_view(old(context).value_stack@),
        1 <= node@.children.len() <= 2 && plan_ok(node@) && plan_fresh(node@) ==> stack_view(final(context).value_stack@) == empty_stack(node@, r@, stack_view(old(context).value_stack@)),
        1 <= node@.children.len() <= 2 && keeps_stack(node@) ==> {
            &&& reads(node@.children[0], r@.children[0], stack_top(stack_view(old(context).value_stack@)))
            &&& (node@.children.len() == 2 && !(res_or_ok(r@.children[0].result) is ERROR) && empty_check(res_or_ok(r@.children[0].result)) is Err
                ==> reads(node@.children[1], r@.children[1], stack_top(stack_view(old(context).value_stack@))))
        },
    decreases node, 3nat,
{
    proof { lemma_plan_views(node.children@); }
    let n = node.children.len();
    if n < 1 {
        return fail_node(node, msg_args(action, 1, n, false));
    }
    if n > 2 {
        return fail_node(node, msg_args(action, 1, n, true));
    }
    let mut values = match walk_children(node, 1, value_resolver, path, context) {
        Ok(v) => v,
        Err(err) => return fail_node(node, err),
    };
    proof {
        lemma_plan_views(values@);
        let ghost o = stack_view(old(context).value_stack@);
        assert(seq_stack(node@.children, plan_views(values@), o, 0, 0) == o);
    }
    let first = result_or_ok(&values[0]);
    let check = match &first {
        NodeResult::ERROR(e) => Err(Ok(e.clone())),
        _ => match empty_check_of(&first) {
            Ok(x) => Ok(x),
            Err(m) => Err(Err(m)),
        },
    };
    let ghost walked = values@;
    match check {
        Ok(x) => {
            if n == 2 {
                values.push(node.children[1].copy());
            }
            proof { lemma_plan_views(values@); }
            with_result(node, Some(x), values)
        },
        Err(Ok(e)) => {
            if n == 2 {
                values.push(node.children[1].copy());
            }
            proof { lemma_plan_views(values@); }
            with_result(node, Some(NodeResult::ERROR(e)), values)
        },
        Err(Err(m)) => {
            if n == 2 {
                proof {
                    lemma_child_decreases(node, 1);
                    if plan_ok(node@) {
                        lemma_children_ok(node@.children, n as nat, 1);
                    }
                    if keeps_stack(node@) {
                        lemma_keeps_stack_child(node@, 1);
                    }
                    if plan_ok(node@) && plan_fresh(node@) {
                        lemma_sound_child(node@, 1);
                    }
                }
                match walk_tree(path, &node.children[1], value_resolver, context) {
                    Ok(message_node) => {
                        let message = message_from(&message_node);
                        values.push(message_node);
                        proof { lemma_plan_views(values@); }
                        with_result(node, Some(NodeResult::ERROR(message)), values)
                    },
                    Err(_) => {
                        values.push(node.children[1].copy());
                        proof { lemma_plan_views(values@); }
                        with_result(node, Some(NodeResult::ERROR(m)), values)
                    },
                }
            } else {
                proof { lemma_plan_views(values@); }
                with_result(node, Some(NodeResult::ERROR(m)), values)
            }
        },
    }
}

/// Executes `expect:entries` or `expect:only-entries`.
fn execute_check_entries<R: ValueResolver>(
    action: &str,
    value_resolver: &R,
    node: &ExecutionPlanNode,
    path: &Vec<String>,
    context: &mut PlanMatchingContext,
) -> (r: ExecutionPlanNode)
    ensures
        entries_outcome(action@, node@, r@),
        r@.kind == node@.kind,
        node@.children.len() < 2 || node@.children.len() > 3 || keeps_stack(node@) ==> stack_view(final(context).value_stack@) == stack_view(old(context).value_stack@),
        2 <= node@.children.len() <= 3 && plan_ok(node@) && plan_fresh(node@) ==> stack_view(final(context).value_stack@) == entries_stack(action@, node@, r@, stack_view(old(context).value_stack@)),
        2 <= node@.children.len() <= 3 && keeps_stack(node@) ==> {
            &&& reads(node@.children[0], r@.children[0], stack_top(stack_view(old(context).value_stack@)))
            &&& reads(node@.children[1], r@.children[1], stack_top(stack_view(old(context).value_stack@)))
            &&& (node@.children.len() == 3 ==> match entries_check(action@ == "expect:only-entries"@, action@,
                res_or_ok(r@.children[0].result), res_or_ok(r@.children[1].result)) {
                Err((_, Some(d))) => reads(node@.children[2], r@.children[2], Some(NodeRes::VALUE(NodeVal::SLIST(d)))),
                _ => true,
            })
        },
    decreases node, 3nat,
{
    let ghost s0 = stack_view(context.value_stack@);
    proof {
        lemma_plan_views(node.children@);
        reveal_strlit("expect:only-entries");
    }
    let n = node.children.len();
    if n < 2 {
        return fail_node(node, msg_args(action, 2, n, false));
    }
    if n > 3 {
        return fail_node(node, msg_args(action, 1, n, true));
    }
    let mut values = match walk_children(node, 2, value_resolver, path, context) {
        Ok(v) => v,
        Err(err) => return fail_node(node, err),
    };
    proof {
        lemma_plan_views(values@);
        let ghost o = stack_view(old(context).value_stack@);
        assert(seq_stack(node@.children, plan_views(values@), o, 0, 0) == o);
        assert(seq_stack(node@.children, plan_views(values@), o, 0, 1) == stack_after(node@.children[0], values@[0]@, o));
    }
    let r1 = result_or_ok(&values[0]);
    let r2 = result_or_ok(&values[1]);
    let only = str_eq(action, "expect:only-entries");
    match entries_check_of(only, action, &r1, &r2) {
        Ok(()) => {
            if n == 3 {
                values.push(node.children[2].copy());
            }
            proof { lemma_plan_views(values@); }
                    with_result(node, Some(NodeResult::OK), values)
        },
        Err((m, diff)) => {
            let diff = if n == 3 { diff } else { None };
            match diff {
                Some(d) => {
                    proof {
                        lemma_child_decreases(node, 2);
                        if plan_ok(node@) {
                            lemma_children_ok(node@.children, n as nat, 2);
                        }
                        if keeps_stack(node@) {
                            lemma_keeps_stack_child(node@, 2);
                        }
                        if plan_ok(node@) && plan_fresh(node@) {
                            lemma_sound_child(node@, 2);
                        }
                    }
                    context.push_result(Some(NodeResult::VALUE(NodeValue::SLIST(d))));
                    let ghost mid = stack_view(context.value_stack@);
                    let out = match walk_tree(path, &node.children[2], value_resolver, context) {
                        Ok(message_node) => {
                            let message = message_from(&message_node);
                            values.push(message_node);
                            proof { lemma_plan_views(values@); }
                            with_result(node, Some(NodeResult::ERROR(message)), values)
                        },
                        Err(_) => {
                            values.push(node.children[2].copy());
                            proof { lemma_plan_views(values@); }
                            with_result(node, Some(NodeResult::ERROR(m)), values)
                        },
                    };
                    let _ = context.pop_result();
                    proof {
                        assert(keeps_stack(node@) ==> stack_view(context.value_stack@) =~= s0) by {
                            if keeps_stack(node@) {
                                assert(mid.drop_last() =~= s0);
                            }
                        }
                    }
                                    out
                },
                None => {
                    if n == 3 {
                        values.push(node.children[2].copy());
                    }
                    proof { lemma_plan_views(values@); }
                    with_result(node, Some(NodeResult::ERROR(m)), values)
                },
            }
        },
    }
}

/// Executes an action node.
pub fn execute_action<R: ValueResolver>(
    action: &str,
    value_resolver: &R,
    node: &ExecutionPlanNode,
    path: &Vec<String>,
    context: &mut PlanMatchingContext,
) -> (r: ExecutionPlanNode)
    requires
        node@.kind == PlanKind::ACTION(action@),
    ensures
        action_outcome(action@, node@, r@),
        is_stack_action(action@) ==> stack_outcome(action@, node@, r@, stack_view(old(context).value_stack@),
            stack_view(final(context).value_stack@)),
        r@.kind == node@.kind,
        keeps_stack(node@) || fails_before_walking(action@, node@.children.len()) ==> stack_view(final(context).value_stack@) == stack_view(old(context).value_stack@),
        keeps_stack(node@) ==> action_reads(action@, node@, r@, stack_top(stack_view(old(context).value_stack@))),
        plan_ok(node@) && plan_fresh(node@) ==> stack_view(final(context).value_stack@) == action_stack(action@, node@, r@, stack_view(old(context).value_stack@)),
    decreases node, 4nat,
{
    proof {
        reveal_strlit("apply");
        reveal_strlit("push");
        reveal_strlit("pop");
        reveal_strlit("json:parse");
        reveal_strlit("convert:UTF8");
        reveal_strlit("check:exists");
        reveal_strlit("match:");
        reveal_strlit("json:expect:empty");
        reveal_strlit("json:match:length");
        reveal_strlit("json:expect:entries");
        reveal_strlit("if");
        reveal_strlit("tee");
        reveal_strlit("upper-case");
        reveal_strlit("lower-case");
        reveal_strlit("to-string");
        reveal_strlit("join");
        reveal_strlit("join-with");
        reveal_strlit("error");
        reveal_strlit("expect:empty");
        reveal_strlit("expect:entries");
        reveal_strlit("expect:only-entries");
    }
    let mut action_path = copy_strings(path);
    action_path.push(action.to_string());
    if starts_with(action, "match:") {
        let cs = chars_of(action);
        let mut m: Vec<char> = Vec::new();
        let mut i: usize = 6;
        while i < cs.len()
            invariant
                6 <= i <= cs.len(),
                cs@ == action@,
                m@ =~= cs@.subrange(6, i as int),
                stack_view(context.value_stack@) == stack_view(old(context).value_stack@),
            decreases cs.len() - i,
        {
            m.push(cs[i]);
            i = i + 1;
        }
        let matcher = string_of(&m);
        let r = execute_three_args(2, matcher.as_str(), action, value_resolver, node, &action_path, context);
        assert(action@[0] == "match:"@[0]);
        r
    } else if str_eq(action, "apply") || str_eq(action, "push") || str_eq(action, "pop") {
        let r = execute_stack_action(action, node, context);
        proof {
            if keeps_stack(node@) {
                assert(action@ != "push"@ && action@ != "pop"@);
                assert(action@ == "apply"@);
            }
        }
        r
    } else if str_eq(action, "json:expect:empty") {
        let r = execute_two_args(action, value_resolver, node, &action_path, context);
        assert("json:expect:empty"@[5] != "json:match:length"@[5]);
        r
    } else if str_eq(action, "json:match:length") {
        execute_three_args(0, "", action, value_resolver, node, &action_path, context)
    } else if str_eq(action, "json:expect:entries") {
        let r = execute_three_args(1, "", action, value_resolver, node, &action_path, context);
        assert("json:expect:entries"@[0] != "expect:only-entries"@[0]);
        r
    } else if str_eq(action, "if") {
        execute_if(value_resolver, node, &action_path, context)
    } else if str_eq(action, "tee") {
        execute_tee(value_resolver, node, &action_path, context)
    } else if str_eq(action, "upper-case") || str_eq(action, "lower-case") || str_eq(action, "to-string")
        || str_eq(action, "join") || str_eq(action, "join-with") || str_eq(action, "error") {
        let r = execute_transform(action, value_resolver, node, &action_path, context);
        proof {
            if plan_fresh(node@) {
                lemma_fresh_children(node@);
            }
        }
        r
    } else if str_eq(action, "expect:empty") {
        execute_expect_empty(action, value_resolver, node, &action_path, context)
    } else if str_eq(action, "expect:entries") || str_eq(action, "expect:only-entries") {
        execute_check_entries(action, value_resolver, node, &action_path, context)
    } else if str_eq(action, "json:parse") {
        execute_one_arg(0, action, value_resolver, node, &action_path, context)
    } else if str_eq(action, "convert:UTF8") {
        execute_one_arg(1, action, value_resolver, node, &action_path, context)
    } else if str_eq(action, "check:exists") {
        execute_one_arg(2, action, value_resolver, node, &action_path, context)
    } else {
        fail_node(node, invalid_action_message(action))
    }
}

} // verus!
