//! What the actions of a plan compute from the results of their arguments.

use vstd::prelude::*;
use crate::text::{push_char, push_str, push_decimal, str_eq, decimal, joined, string_views, lemma_joined_push};
use crate::json::{JsonValue, Json, json_text, serde_json_text, json_debug, serde_json_debug, json_type_name, json_equals, entry_views,
    lemma_entry_views, json_views, lemma_json_views};
use crate::value::{NodeValue, NodeVal, value_text, value_debug, node_value_views, lemma_node_value_views};
use crate::result::{NodeResult, NodeRes, result_text, result_as_string};
use crate::outside::{regex_is_match, regex_outcome, to_upper, to_lower, unicode_upper, unicode_lower,
    debug_str, debug_string};
use crate::text::{push_bool, bool_text, push_joined};

verus! {

/// A result as a value, if it is one.
pub open spec fn res_value(r: NodeRes) -> Option<NodeVal> {
    match r {
        NodeRes::VALUE(v) => Some(v),
        _ => None,
    }
}

/// The kind of a JSON value as messages name it: `Null`, `Boolean`, `Number`, `String`,
/// `Array` or `Object`.
pub open spec fn json_kind(j: Json) -> Seq<char> {
    match j {
        Json::Null => "Null"@,
        Json::Bool(_) => "Boolean"@,
        Json::Number(_) => "Number"@,
        Json::Str(_) => "String"@,
        Json::Array(_) => "Array"@,
        Json::Object(_) => "Object"@,
    }
}

/// Checks a JSON value against a type name (`NULL`, `BOOL`, `NUMBER`, `STRING`, `ARRAY` or
/// `OBJECT`): `None` when it has that type, else the error message.
pub open spec fn json_type_error(t: Seq<char>, j: Json) -> Option<Seq<char>> {
    let (name, ok) = if t == "NULL"@ {
        ("NULL"@, j is Null)
    } else if t == "BOOL"@ {
        ("Bool"@, j is Bool)
    } else if t == "NUMBER"@ {
        ("Number"@, j is Number)
    } else if t == "STRING"@ {
        ("String"@, j is Str)
    } else if t == "ARRAY"@ {
        ("Array"@, j is Array)
    } else {
        ("Object"@, j is Object)
    };
    if !(t == "NULL"@ || t == "BOOL"@ || t == "NUMBER"@ || t == "STRING"@ || t == "ARRAY"@ || t == "OBJECT"@) {
        Some(seq!['\''] + t + "' is not a valid JSON type"@)
    } else if ok {
        None
    } else {
        Some("Was expecting a JSON "@ + name + " but got a "@ + json_kind(j))
    }
}

/// The JSON type named by the first argument of a JSON action.
pub open spec fn json_type_arg(r: NodeRes) -> Result<Seq<char>, Seq<char>> {
    match result_as_string(r) {
        Some(t) => Ok(t),
        None => Err(seq!['\''] + result_text(r) + "' is not a valid JSON type"@),
    }
}

/// The JSON value that an argument of a JSON action holds.
pub open spec fn json_arg(r: NodeRes) -> Result<Json, Seq<char>> {
    match res_value(r) {
        None => Err("Was expecting a JSON value, but got "@ + result_text(r)),
        Some(NodeVal::JSON(j)) => Ok(j),
        Some(v) => Err("Was expecting a JSON value, but got "@ + value_debug(v)),
    }
}

/// Whether a JSON value is empty: NULL, or an empty string, array or object.
pub open spec fn json_empty_outcome(j: Json) -> NodeRes {
    let t = serde_json_text(j);
    match j {
        Json::Null => NodeRes::VALUE(NodeVal::BOOL(true)),
        Json::Str(s) => if s.len() == 0 {
            NodeRes::VALUE(NodeVal::BOOL(true))
        } else {
            NodeRes::ERROR("Expected JSON String ("@ + t + ") to be empty"@)
        },
        Json::Array(a) => if a.len() == 0 {
            NodeRes::VALUE(NodeVal::BOOL(true))
        } else {
            NodeRes::ERROR("Expected JSON Array ("@ + t + ") to be empty"@)
        },
        Json::Object(o) => if o.len() == 0 {
            NodeRes::VALUE(NodeVal::BOOL(true))
        } else {
            NodeRes::ERROR("Expected JSON Object ("@ + t + ") to be empty"@)
        },
        _ => NodeRes::ERROR("Expected json ("@ + t + ") to be empty"@),
    }
}

/// `json:expect:empty(type, value)`.
pub open spec fn json_expect_empty_verdict(r1: NodeRes, r2: NodeRes) -> NodeRes {
    match json_type_arg(r1) {
        Err(e) => NodeRes::ERROR(e),
        Ok(t) => match json_arg(r2) {
            Err(e) => NodeRes::ERROR(e),
            Ok(j) => match json_type_error(t, j) {
                Some(e) => NodeRes::ERROR(e),
                None => json_empty_outcome(j),
            },
        },
    }
}

/// `Was expecting a length of n, but actual length is m`.
pub open spec fn length_message(expected: nat, actual: nat) -> Seq<char> {
    "Was expecting a length of "@ + decimal(expected) + ", but actual length is "@ + decimal(actual)
}

/// Checks the length of an array or object; other values have no length to check.
pub open spec fn json_length_error(n: nat, j: Json) -> Option<Seq<char>> {
    match j {
        Json::Array(a) => if a.len() == n { None } else { Some(length_message(n, a.len())) },
        Json::Object(o) => if o.len() == n { None } else { Some(length_message(n, o.len())) },
        _ => None,
    }
}

/// `json:match:length(type, length, value)`.
pub open spec fn json_match_length_verdict(r1: NodeRes, r2: NodeRes, r3: NodeRes) -> NodeRes {
    match json_type_arg(r1) {
        Err(e) => NodeRes::ERROR(e),
        Ok(t) => match r2 {
            NodeRes::VALUE(NodeVal::UINT(n)) => match json_arg(r3) {
                Err(e) => NodeRes::ERROR(e),
                Ok(j) => match json_type_error(t, j) {
                    Some(e) => NodeRes::ERROR(e),
                    None => match json_length_error(n as nat, j) {
                        Some(e) => NodeRes::ERROR(e),
                        None => NodeRes::VALUE(NodeVal::BOOL(true)),
                    },
                },
            },
            _ => NodeRes::ERROR(seq!['\''] + result_text(r2) + "' is not a valid number"@),
        },
    }
}

/// The keys of some JSON object entries.
pub open spec fn entry_keys(o: Seq<(Seq<char>, Json)>) -> Seq<Seq<char>> {
    o.map_values(|e: (Seq<char>, Json)| e.0)
}

/// The items of `wanted` that `present` does not hold, each once, in the order of `wanted`.
pub open spec fn missing_items(wanted: Seq<Seq<char>>, present: Seq<Seq<char>>) -> Seq<Seq<char>>
    decreases wanted.len(),
{
    if wanted.len() == 0 {
        Seq::empty()
    } else {
        let m = missing_items(wanted.drop_last(), present);
        let k = wanted.last();
        if present.contains(k) || m.contains(k) { m } else { m.push(k) }
    }
}

/// `json:expect:entries(type, keys, value)`: every expected key is in the object.
pub open spec fn json_expect_entries_verdict(r1: NodeRes, r2: NodeRes, r3: NodeRes) -> NodeRes {
    match json_type_arg(r1) {
        Err(e) => NodeRes::ERROR(e),
        Ok(t) => match r2 {
            NodeRes::VALUE(NodeVal::SLIST(keys)) => match json_arg(r3) {
                Err(e) => NodeRes::ERROR(e),
                Ok(j) => match json_type_error(t, j) {
                    Some(e) => NodeRes::ERROR(e),
                    None => match j {
                        Json::Object(o) => {
                            let missing = missing_items(keys, entry_keys(o));
                            if missing.len() == 0 {
                                NodeRes::VALUE(NodeVal::BOOL(true))
                            } else {
                                NodeRes::ERROR("The following expected entries were missing from the actual Object: "@
                                    + joined(", "@, missing))
                            }
                        },
                        _ => NodeRes::ERROR("Was expecting a JSON Object, but got "@ + serde_json_debug(j)),
                    },
                },
            },
            _ => NodeRes::ERROR(seq!['\''] + result_text(r2) + "' is not a list of Strings"@),
        },
    }
}

/// The value a result stands for: `OK` stands for `true`, an error stays an error.
pub open spec fn value_or_error(r: NodeRes) -> Result<NodeVal, Seq<char>> {
    match r {
        NodeRes::OK => Ok(NodeVal::BOOL(true)),
        NodeRes::VALUE(v) => Ok(v),
        NodeRes::ERROR(e) => Err(e),
    }
}

/// How a value appears in a matching message: a string in quotes, JSON with its type.
pub open spec fn match_display(v: NodeVal) -> Seq<char> {
    match v {
        NodeVal::STRING(s) => seq!['\''] + s + seq!['\''],
        NodeVal::JSON(Json::Str(s)) => seq!['\''] + s + "' (String)"@,
        NodeVal::JSON(j) => serde_json_text(j) + " ("@ + json_type_name(j) + ")"@,
        _ => value_text(v),
    }
}

/// The text a value is matched as by a regular expression.
pub open spec fn match_text(v: NodeVal) -> Seq<char> {
    match v {
        NodeVal::STRING(s) => s,
        NodeVal::JSON(Json::Str(s)) => s,
        NodeVal::JSON(j) => serde_json_text(j),
        _ => value_text(v),
    }
}

/// The text of a JSON value used as a matcher parameter: a string as it is, anything else
/// as JSON text.
pub open spec fn json_param_text(j: Json) -> Seq<char> {
    match j {
        Json::Str(s) => s,
        _ => serde_json_text(j),
    }
}

/// The value of the first entry with the given key.
pub open spec fn first_entry(entries: Seq<(Seq<char>, Json)>, key: Seq<char>) -> Option<Json>
    decreases entries.len(),
{
    if entries.len() == 0 {
        None
    } else if entries[0].0 == key {
        Some(entries[0].1)
    } else {
        first_entry(entries.drop_first(), key)
    }
}

/// The position of the first entry with the given key.
pub fn find_entry(entries: &Vec<(String, JsonValue)>, key: &str) -> (r: Option<usize>)
    ensures
        match r {
            Some(i) => i < entries.len() && first_entry(entry_views(entries@), key@) == Some(entry_views(entries@)[i as int].1),
            None => first_entry(entry_views(entries@), key@) is None,
        },
{
    proof { lemma_entry_views(entries@); }
    let ghost ev = entry_views(entries@);
    let mut i: usize = 0;
    proof { assert(ev.subrange(0, ev.len() as int) =~= ev); }
    while i < entries.len()
        invariant
            i <= entries.len(),
            ev == entry_views(entries@),
            ev.len() == entries.len(),
            forall|j: int| 0 <= j < entries.len() ==> #[trigger] ev[j] == (entries@[j].0@, entries@[j].1@),
            first_entry(ev, key@) == first_entry(ev.subrange(i as int, ev.len() as int), key@),
        decreases entries.len() - i,
    {
        proof {
            assert(ev.subrange(i as int, ev.len() as int).drop_first() =~= ev.subrange(i + 1, ev.len() as int));
        }
        if str_eq(entries[i].0.as_str(), key) {
            return Some(i);
        }
        i = i + 1;
    }
    None
}

/// The `regex` parameter of a matcher, if there is one.
pub open spec fn regex_param(p: NodeVal) -> Option<Seq<char>> {
    match p {
        NodeVal::JSON(Json::Object(o)) => match first_entry(o, "regex"@) {
            Some(r) => Some(json_param_text(r)),
            None => None,
        },
        _ => None,
    }
}

/// The expression that matches a whole text exactly when the given one does: `^(?:re)$`.
pub open spec fn whole_match(re: Seq<char>) -> Seq<char> {
    "^(?:"@ + re + ")$"@
}

/// Applies a matcher to the expected value, the actual value and the matcher's parameters.
/// A regular expression has to match the whole of the actual text.
pub open spec fn matcher_outcome(m: Seq<char>, e: NodeVal, a: NodeVal, p: NodeVal) -> NodeRes {
    if m == "equality"@ {
        if a == e {
            NodeRes::VALUE(NodeVal::BOOL(true))
        } else {
            NodeRes::ERROR("Expected "@ + match_display(a) + " to be equal to "@ + match_display(e))
        }
    } else if m == "regex"@ {
        match regex_param(p) {
            None => NodeRes::ERROR("Regex matcher missing 'regex' field"@),
            Some(re) => match regex_outcome(re, match_text(a)) {
                Err(err) => NodeRes::ERROR(err),
                Ok(_) => match regex_outcome(whole_match(re), match_text(a)) {
                    Ok(true) => NodeRes::VALUE(NodeVal::BOOL(true)),
                    Ok(false) => NodeRes::ERROR("Expected '"@ + match_text(a) + "' to match '"@ + re + seq!['\'']),
                    Err(err) => NodeRes::ERROR(err),
                },
            },
        }
    } else {
        NodeRes::ERROR(seq!['\''] + m + "' is not a valid matching rule type"@)
    }
}

/// `match:<matcher>(expected, actual, parameters)`.
pub open spec fn match_verdict(m: Seq<char>, r1: NodeRes, r2: NodeRes, r3: NodeRes) -> NodeRes {
    match (value_or_error(r1), value_or_error(r2), value_or_error(r3)) {
        (Err(e), _, _) => NodeRes::ERROR(e),
        (Ok(_), Err(e), _) => NodeRes::ERROR(e),
        (Ok(_), Ok(_), Err(e)) => NodeRes::ERROR(e),
        (Ok(e), Ok(a), Ok(p)) => matcher_outcome(m, e, a, p),
    }
}

/// Appends the kind of a JSON value as messages name it.
fn push_json_kind(buf: &mut String, j: &JsonValue)
    ensures
        final(buf)@ == old(buf)@ + json_kind(j@),
{
    proof {
        reveal_strlit("Null");
        reveal_strlit("Boolean");
        reveal_strlit("Number");
        reveal_strlit("String");
        reveal_strlit("Array");
        reveal_strlit("Object");
    }
    match j {
        JsonValue::Null => push_str(buf, "Null"),
        JsonValue::Bool(_) => push_str(buf, "Boolean"),
        JsonValue::Number(_) => push_str(buf, "Number"),
        JsonValue::Str(_) => push_str(buf, "String"),
        JsonValue::Array(_) => push_str(buf, "Array"),
        JsonValue::Object(_) => push_str(buf, "Object"),
    }
}

/// Checks a JSON value against a type name; see [`json_type_error`].
pub fn json_check_type(t: &str, j: &JsonValue) -> (r: Option<String>)
    ensures
        match r {
            Some(e) => json_type_error(t@, j@) == Some(e@),
            None => json_type_error(t@, j@) is None,
        },
{
    proof {
        reveal_strlit("NULL");
        reveal_strlit("BOOL");
        reveal_strlit("NUMBER");
        reveal_strlit("STRING");
        reveal_strlit("ARRAY");
        reveal_strlit("OBJECT");
        reveal_strlit("Bool");
        reveal_strlit("Number");
        reveal_strlit("String");
        reveal_strlit("Array");
        reveal_strlit("Object");
        reveal_strlit("' is not a valid JSON type");
        reveal_strlit("Was expecting a JSON ");
        reveal_strlit(" but got a ");
    }
    let (name, ok) = if str_eq(t, "NULL") {
        ("NULL", matches!(j, JsonValue::Null))
    } else if str_eq(t, "BOOL") {
        ("Bool", matches!(j, JsonValue::Bool(_)))
    } else if str_eq(t, "NUMBER") {
        ("Number", matches!(j, JsonValue::Number(_)))
    } else if str_eq(t, "STRING") {
        ("String", matches!(j, JsonValue::Str(_)))
    } else if str_eq(t, "ARRAY") {
        ("Array", matches!(j, JsonValue::Array(_)))
    } else if str_eq(t, "OBJECT") {
        ("Object", matches!(j, JsonValue::Object(_)))
    } else {
        let mut m = String::new();
        push_char(&mut m, '\'');
        push_str(&mut m, t);
        push_str(&mut m, "' is not a valid JSON type");
        assert(m@ =~= seq!['\''] + t@ + "' is not a valid JSON type"@);
        return Some(m);
    };
    if ok {
        None
    } else {
        let mut m = String::new();
        push_str(&mut m, "Was expecting a JSON ");
        push_str(&mut m, name);
        push_str(&mut m, " but got a ");
        push_json_kind(&mut m, j);
        assert(m@ =~= "Was expecting a JSON "@ + name@ + " but got a "@ + json_kind(j@));
        Some(m)
    }
}

/// The JSON type named by the first argument of a JSON action; see [`json_type_arg`].
fn json_type_of(r: &NodeResult) -> (out: Result<String, String>)
    ensures
        match (out, json_type_arg(r@)) {
            (Ok(a), Ok(b)) => a@ == b,
            (Err(a), Err(b)) => a@ == b,
            _ => false,
        },
{
    match r.as_string() {
        Some(t) => Ok(t),
        None => {
            proof { reveal_strlit("' is not a valid JSON type"); }
            let mut m = String::new();
            push_char(&mut m, '\'');
            r.write_text(&mut m);
            push_str(&mut m, "' is not a valid JSON type");
            assert(m@ =~= seq!['\''] + result_text(r@) + "' is not a valid JSON type"@);
            Err(m)
        },
    }
}

/// The JSON value an argument of a JSON action holds; see [`json_arg`].
fn json_of(r: &NodeResult) -> (out: Result<JsonValue, String>)
    ensures
        match (out, json_arg(r@)) {
            (Ok(a), Ok(b)) => a@ == b,
            (Err(a), Err(b)) => a@ == b,
            _ => false,
        },
{
    proof { reveal_strlit("Was expecting a JSON value, but got "); }
    let mut m = String::from_str("Was expecting a JSON value, but got ");
    match r {
        NodeResult::VALUE(NodeValue::JSON(j)) => Ok(j.copy()),
        NodeResult::VALUE(v) => {
            v.write_debug(&mut m);
            Err(m)
        },
        _ => {
            r.write_text(&mut m);
            Err(m)
        },
    }
}

/// Whether a JSON value is empty; see [`json_empty_outcome`].
fn json_empty_result(j: &JsonValue) -> (r: NodeResult)
    ensures
        r@ == json_empty_outcome(j@),
{
    proof {
        reveal_strlit("Expected JSON String (");
        reveal_strlit("Expected JSON Array (");
        reveal_strlit("Expected JSON Object (");
        reveal_strlit("Expected json (");
        reveal_strlit(") to be empty");
    }
    let (empty, prefix) = match j {
        JsonValue::Null => (true, "Expected json ("),
        JsonValue::Str(s) => (s.as_str().is_empty(), "Expected JSON String ("),
        JsonValue::Array(a) => (a.len() == 0, "Expected JSON Array ("),
        JsonValue::Object(o) => {
            proof { lemma_entry_views(o@); }
            (o.len() == 0, "Expected JSON Object (")
        },
        _ => (false, "Expected json ("),
    };
    proof {
        match j {
            JsonValue::Array(a) => { lemma_json_views(a@); },
            _ => {},
        }
    }
    if empty {
        NodeResult::VALUE(NodeValue::BOOL(true))
    } else {
        let mut m = String::from_str(prefix);
        let t = json_text(j);
        push_str(&mut m, t.as_str());
        push_str(&mut m, ") to be empty");
        NodeResult::ERROR(m)
    }
}

/// `json:expect:empty(type, value)`: see [`json_expect_empty_verdict`].
pub fn json_expect_empty_result(r1: &NodeResult, r2: &NodeResult) -> (r: NodeResult)
    ensures
        r@ == json_expect_empty_verdict(r1@, r2@),
{
    let t = match json_type_of(r1) {
        Ok(t) => t,
        Err(e) => return NodeResult::ERROR(e),
    };
    let j = match json_of(r2) {
        Ok(j) => j,
        Err(e) => return NodeResult::ERROR(e),
    };
    match json_check_type(t.as_str(), &j) {
        Some(e) => NodeResult::ERROR(e),
        None => json_empty_result(&j),
    }
}

fn push_length_message(m: &mut String, expected: u64, actual: usize)
    ensures
        final(m)@ == old(m)@ + length_message(expected as nat, actual as nat),
{
    proof {
        reveal_strlit("Was expecting a length of ");
        reveal_strlit(", but actual length is ");
    }
    push_str(m, "Was expecting a length of ");
    push_decimal(m, expected);
    push_str(m, ", but actual length is ");
    push_decimal(m, actual as u64);
}

/// Checks the length of an array or object; see [`json_length_error`].
pub fn json_check_length(n: u64, j: &JsonValue) -> (r: Option<String>)
    ensures
        match r {
            Some(e) => json_length_error(n as nat, j@) == Some(e@),
            None => json_length_error(n as nat, j@) is None,
        },
{
    let len: usize = match j {
        JsonValue::Array(a) => {
            proof { lemma_json_views(a@); }
            a.len()
        },
        JsonValue::Object(o) => {
            proof { lemma_entry_views(o@); }
            o.len()
        },
        _ => return None,
    };
    if len as u64 == n {
        None
    } else {
        let mut m = String::new();
        push_length_message(&mut m, n, len);
        assert(m@ =~= length_message(n as nat, len as nat));
        Some(m)
    }
}

/// `json:match:length(type, length, value)`: see [`json_match_length_verdict`].
pub fn json_match_length_result(r1: &NodeResult, r2: &NodeResult, r3: &NodeResult) -> (r: NodeResult)
    ensures
        r@ == json_match_length_verdict(r1@, r2@, r3@),
{
    let t = match json_type_of(r1) {
        Ok(t) => t,
        Err(e) => return NodeResult::ERROR(e),
    };
    let n = match r2 {
        NodeResult::VALUE(NodeValue::UINT(n)) => *n,
        _ => {
            proof { reveal_strlit("' is not a valid number"); }
            let mut m = String::new();
            push_char(&mut m, '\'');
            r2.write_text(&mut m);
            push_str(&mut m, "' is not a valid number");
            assert(m@ =~= seq!['\''] + result_text(r2@) + "' is not a valid number"@);
            return NodeResult::ERROR(m);
        },
    };
    let j = match json_of(r3) {
        Ok(j) => j,
        Err(e) => return NodeResult::ERROR(e),
    };
    match json_check_type(t.as_str(), &j) {
        Some(e) => NodeResult::ERROR(e),
        None => match json_check_length(n, &j) {
            Some(e) => NodeResult::ERROR(e),
            None => NodeResult::VALUE(NodeValue::BOOL(true)),
        },
    }
}

/// Whether a list of strings holds the given string.
pub fn contains_str(v: &Vec<String>, s: &str) -> (r: bool)
    ensures
        r == string_views(v@).contains(s@),
{
    let mut i: usize = 0;
    while i < v.len()
        invariant
            i <= v.len(),
            forall|j: int| 0 <= j < i ==> v@[j]@ != s@,
        decreases v.len() - i,
    {
        if str_eq(v[i].as_str(), s) {
            assert(string_views(v@)[i as int] == s@);
            return true;
        }
        i = i + 1;
    }
    proof {
        if string_views(v@).contains(s@) {
            let k = choose|k: int| 0 <= k < string_views(v@).len() && string_views(v@)[k] == s@;
            assert(v@[k]@ == s@);
        }
    }
    false
}

/// Copies of the strings of `wanted` that `present` does not hold, each once, in the order
/// of `wanted`; see [`missing_items`].
pub fn missing_from(wanted: &Vec<String>, present: &Vec<String>) -> (r: Vec<String>)
    ensures
        string_views(r@) == missing_items(string_views(wanted@), string_views(present@)),
{
    let mut out: Vec<String> = Vec::new();
    let mut i: usize = 0;
    while i < wanted.len()
        invariant
            i <= wanted.len(),
            string_views(out@) == missing_items(string_views(wanted@).subrange(0, i as int), string_views(present@)),
        decreases wanted.len() - i,
    {
        let ghost w = string_views(wanted@).subrange(0, i + 1);
        proof {
            assert(w.drop_last() =~= string_views(wanted@).subrange(0, i as int));
            assert(w.last() == wanted@[i as int]@);
        }
        let k = wanted[i].as_str();
        if !contains_str(present, k) && !contains_str(&out, k) {
            let ghost before = out@;
            out.push(wanted[i].clone());
            proof {
                assert(string_views(out@) =~= string_views(before).push(wanted@[i as int]@));
            }
        }
        i = i + 1;
    }
    proof { assert(string_views(wanted@).subrange(0, wanted.len() as int) =~= string_views(wanted@)); }
    out
}

/// The keys of some JSON object entries, as strings.
fn keys_of(o: &Vec<(String, JsonValue)>) -> (r: Vec<String>)
    ensures
        string_views(r@) == entry_keys(entry_views(o@)),
{
    proof { lemma_entry_views(o@); }
    let mut out: Vec<String> = Vec::new();
    let mut i: usize = 0;
    while i < o.len()
        invariant
            i <= o.len(),
            entry_views(o@).len() == o.len(),
            forall|j: int| 0 <= j < o.len() ==> #[trigger] entry_views(o@)[j] == (o@[j].0@, o@[j].1@),
            out.len() == i,
            forall|j: int| 0 <= j < i ==> #[trigger] out@[j]@ == o@[j].0@,
        decreases o.len() - i,
    {
        out.push(o[i].0.clone());
        i = i + 1;
    }
    assert(string_views(out@) =~= entry_keys(entry_views(o@)));
    out
}

/// `json:expect:entries(type, keys, value)`: see [`json_expect_entries_verdict`].
pub fn json_expect_entries_result(r1: &NodeResult, r2: &NodeResult, r3: &NodeResult) -> (r: NodeResult)
    ensures
        r@ == json_expect_entries_verdict(r1@, r2@, r3@),
{
    let t = match json_type_of(r1) {
        Ok(t) => t,
        Err(e) => return NodeResult::ERROR(e),
    };
    let keys = match r2 {
        NodeResult::VALUE(NodeValue::SLIST(keys)) => keys,
        _ => {
            proof { reveal_strlit("' is not a list of Strings"); }
            let mut m = String::new();
            push_char(&mut m, '\'');
            r2.write_text(&mut m);
            push_str(&mut m, "' is not a list of Strings");
            assert(m@ =~= seq!['\''] + result_text(r2@) + "' is not a list of Strings"@);
            return NodeResult::ERROR(m);
        },
    };
    let j = match json_of(r3) {
        Ok(j) => j,
        Err(e) => return NodeResult::ERROR(e),
    };
    if let Some(e) = json_check_type(t.as_str(), &j) {
        return NodeResult::ERROR(e);
    }
    match &j {
        JsonValue::Object(o) => {
            let present = keys_of(o);
            let missing = missing_from(keys, &present);
            if missing.len() == 0 {
                NodeResult::VALUE(NodeValue::BOOL(true))
            } else {
                proof {
                    reveal_strlit("The following expected entries were missing from the actual Object: ");
                    reveal_strlit(", ");
                }
                let mut m = String::from_str("The following expected entries were missing from the actual Object: ");
                crate::text::push_joined(&mut m, ", ", &missing);
                NodeResult::ERROR(m)
            }
        },
        _ => {
            proof { reveal_strlit("Was expecting a JSON Object, but got "); }
            let mut m = String::from_str("Was expecting a JSON Object, but got ");
            let text = json_debug(&j);
            push_str(&mut m, text.as_str());
            NodeResult::ERROR(m)
        },
    }
}

/// Whether two lists of strings are equal.
pub fn strings_eq(a: &Vec<String>, b: &Vec<String>) -> (r: bool)
    ensures
        r == (string_views(a@) == string_views(b@)),
{
    if a.len() != b.len() {
        assert(string_views(a@).len() != string_views(b@).len());
        return false;
    }
    let mut i: usize = 0;
    while i < a.len()
        invariant
            a.len() == b.len(),
            i <= a.len(),
            forall|j: int| 0 <= j < i ==> #[trigger] a@[j]@ == b@[j]@,
        decreases a.len() - i,
    {
        if !str_eq(a[i].as_str(), b[i].as_str()) {
            assert(string_views(a@)[i as int] != string_views(b@)[i as int]);
            return false;
        }
        i = i + 1;
    }
    assert(string_views(a@) =~= string_views(b@));
    true
}

/// Whether two byte buffers are equal.
pub fn bytes_eq(a: &Vec<u8>, b: &Vec<u8>) -> (r: bool)
    ensures
        r == (a@ == b@),
{
    if a.len() != b.len() {
        return false;
    }
    let mut i: usize = 0;
    while i < a.len()
        invariant
            a.len() == b.len(),
            i <= a.len(),
            forall|j: int| 0 <= j < i ==> a@[j] == b@[j],
        decreases a.len() - i,
    {
        if a[i] != b[i] {
            return false;
        }
        i = i + 1;
    }
    assert(a@ =~= b@);
    true
}

/// Whether two multi-string maps hold the same entries in the same order.
pub fn mmap_eq(a: &Vec<(String, Vec<String>)>, b: &Vec<(String, Vec<String>)>) -> (r: bool)
    ensures
        r == (crate::value::mmap_view(a@) == crate::value::mmap_view(b@)),
{
    if a.len() != b.len() {
        assert(crate::value::mmap_view(a@).len() != crate::value::mmap_view(b@).len());
        return false;
    }
    let mut i: usize = 0;
    while i < a.len()
        invariant
            a.len() == b.len(),
            i <= a.len(),
            forall|j: int| 0 <= j < i ==> #[trigger] crate::value::mmap_view(a@)[j] == crate::value::mmap_view(b@)[j],
        decreases a.len() - i,
    {
        if !str_eq(a[i].0.as_str(), b[i].0.as_str()) || !strings_eq(&a[i].1, &b[i].1) {
            assert(crate::value::mmap_view(a@)[i as int] != crate::value::mmap_view(b@)[i as int]);
            return false;
        }
        i = i + 1;
    }
    assert(crate::value::mmap_view(a@) =~= crate::value::mmap_view(b@));
    true
}

/// Whether two node values are equal.
pub fn node_value_eq(a: &NodeValue, b: &NodeValue) -> (r: bool)
    ensures
        r == (a@ == b@),
    decreases a,
{
    match (a, b) {
        (NodeValue::NULL, NodeValue::NULL) => true,
        (NodeValue::STRING(x), NodeValue::STRING(y)) => str_eq(x.as_str(), y.as_str()),
        (NodeValue::BOOL(x), NodeValue::BOOL(y)) => *x == *y,
        (NodeValue::MMAP(x), NodeValue::MMAP(y)) => mmap_eq(x, y),
        (NodeValue::SLIST(x), NodeValue::SLIST(y)) => strings_eq(x, y),
        (NodeValue::BARRAY(x), NodeValue::BARRAY(y)) => bytes_eq(x, y),
        (NodeValue::NAMESPACED(n1, s1), NodeValue::NAMESPACED(n2, s2)) =>
            str_eq(n1.as_str(), n2.as_str()) && str_eq(s1.as_str(), s2.as_str()),
        (NodeValue::UINT(x), NodeValue::UINT(y)) => *x == *y,
        (NodeValue::JSON(x), NodeValue::JSON(y)) => json_equals(x, y),
        (NodeValue::LIST(xs), NodeValue::LIST(ys)) => {
            proof {
                lemma_node_value_views(xs@);
                lemma_node_value_views(ys@);
            }
            if xs.len() != ys.len() {
                assert(node_value_views(xs@).len() != node_value_views(ys@).len());
                return false;
            }
            let mut i: usize = 0;
            while i < xs.len()
                invariant
                    *a == NodeValue::LIST(*xs),
                    *b == NodeValue::LIST(*ys),
                    xs.len() == ys.len(),
                    i <= xs.len(),
                    node_value_views(xs@).len() == xs.len(),
                    node_value_views(ys@).len() == ys.len(),
                    forall|j: int| 0 <= j < xs.len() ==> #[trigger] node_value_views(xs@)[j] == xs@[j]@,
                    forall|j: int| 0 <= j < ys.len() ==> #[trigger] node_value_views(ys@)[j] == ys@[j]@,
                    forall|j: int| 0 <= j < i ==> xs@[j]@ == ys@[j]@,
                decreases xs.len() - i,
            {
                proof {
                    vstd::std_specs::vec::axiom_vec_index_decreases(*xs, i as int);
                    assert(decreases_to!(*a => (*a)->LIST_0));
                    assert(decreases_to!(*a => xs[i as int]));
                }
                if !node_value_eq(&xs[i], &ys[i]) {
                    assert(node_value_views(xs@)[i as int] != node_value_views(ys@)[i as int]);
                    return false;
                }
                i = i + 1;
            }
            assert(node_value_views(xs@) =~= node_value_views(ys@));
            true
        },
        _ => false,
    }
}

/// The value a result stands for; see [`value_or_error`].
pub fn value_or_error_of(r: &NodeResult) -> (out: Result<NodeValue, String>)
    ensures
        match (out, value_or_error(r@)) {
            (Ok(a), Ok(b)) => a@ == b,
            (Err(a), Err(b)) => a@ == b,
            _ => false,
        },
{
    match r {
        NodeResult::OK => Ok(NodeValue::BOOL(true)),
        NodeResult::VALUE(v) => Ok(v.copy()),
        NodeResult::ERROR(e) => Err(e.clone()),
    }
}

/// Appends how a value appears in a matching message; see [`match_display`].
fn push_match_display(buf: &mut String, v: &NodeValue)
    ensures
        final(buf)@ == old(buf)@ + match_display(v@),
{
    proof {
        reveal_strlit("' (String)");
        reveal_strlit(" (");
        reveal_strlit(")");
    }
    match v {
        NodeValue::STRING(s) => {
            push_char(buf, '\'');
            push_str(buf, s.as_str());
            push_char(buf, '\'');
        },
        NodeValue::JSON(JsonValue::Str(s)) => {
            push_char(buf, '\'');
            push_str(buf, s.as_str());
            push_str(buf, "' (String)");
        },
        NodeValue::JSON(j) => {
            let t = json_text(j);
            push_str(buf, t.as_str());
            push_str(buf, " (");
            let k = j.kind_name();
            push_str(buf, k.as_str());
            push_str(buf, ")");
        },
        _ => v.write_str_form(buf),
    }
}

/// The text a value is matched as by a regular expression; see [`match_text`].
fn match_text_of(v: &NodeValue) -> (r: String)
    ensures
        r@ == match_text(v@),
{
    match v {
        NodeValue::STRING(s) => s.clone(),
        NodeValue::JSON(JsonValue::Str(s)) => s.clone(),
        NodeValue::JSON(j) => json_text(j),
        _ => v.str_form(),
    }
}

/// The `regex` parameter of a matcher; see [`regex_param`].
fn regex_param_of(p: &NodeValue) -> (r: Option<String>)
    ensures
        match r {
            Some(s) => regex_param(p@) == Some(s@),
            None => regex_param(p@) is None,
        },
{
    proof { reveal_strlit("regex"); }
    match p {
        NodeValue::JSON(JsonValue::Object(o)) => {
            proof { lemma_entry_views(o@); }
            match find_entry(o, "regex") {
                Some(i) => match &o[i].1 {
                    JsonValue::Str(s) => Some(s.clone()),
                    j => Some(json_text(j)),
                },
                None => None,
            }
        },
        _ => None,
    }
}

/// Applies a matcher; see [`matcher_outcome`].
pub fn matcher_result(m: &str, e: &NodeValue, a: &NodeValue, p: &NodeValue) -> (r: NodeResult)
    ensures
        r@ == matcher_outcome(m@, e@, a@, p@),
{
    proof {
        reveal_strlit("equality");
        reveal_strlit("regex");
        reveal_strlit("Expected ");
        reveal_strlit(" to be equal to ");
        reveal_strlit("Regex matcher missing 'regex' field");
        reveal_strlit("Expected '");
        reveal_strlit("' to match '");
        reveal_strlit("' is not a valid matching rule type");
        reveal_strlit("^(?:");
        reveal_strlit(")$");
    }
    if str_eq(m, "equality") {
        if node_value_eq(a, e) {
            NodeResult::VALUE(NodeValue::BOOL(true))
        } else {
            let mut s = String::from_str("Expected ");
            push_match_display(&mut s, a);
            push_str(&mut s, " to be equal to ");
            push_match_display(&mut s, e);
            assert(s@ =~= "Expected "@ + match_display(a@) + " to be equal to "@ + match_display(e@));
            NodeResult::ERROR(s)
        }
    } else if str_eq(m, "regex") {
        match regex_param_of(p) {
            None => NodeResult::ERROR(String::from_str("Regex matcher missing 'regex' field")),
            Some(re) => {
                let text = match_text_of(a);
                match regex_is_match(re.as_str(), text.as_str()) {
                    Err(err) => NodeResult::ERROR(err),
                    Ok(_) => {
                        let mut whole = String::from_str("^(?:");
                        push_str(&mut whole, re.as_str());
                        push_str(&mut whole, ")$");
                        assert(whole@ =~= whole_match(re@));
                        match regex_is_match(whole.as_str(), text.as_str()) {
                            Ok(true) => NodeResult::VALUE(NodeValue::BOOL(true)),
                            Ok(false) => {
                                let mut s = String::from_str("Expected '");
                                push_str(&mut s, text.as_str());
                                push_str(&mut s, "' to match '");
                                push_str(&mut s, re.as_str());
                                push_char(&mut s, '\'');
                                assert(s@ =~= "Expected '"@ + match_text(a@) + "' to match '"@ + re@ + seq!['\'']);
                                NodeResult::ERROR(s)
                            },
                            Err(err) => NodeResult::ERROR(err),
                        }
                    },
                }
            },
        }
    } else {
        let mut s = String::new();
        push_char(&mut s, '\'');
        push_str(&mut s, m);
        push_str(&mut s, "' is not a valid matching rule type");
        assert(s@ =~= seq!['\''] + m@ + "' is not a valid matching rule type"@);
        NodeResult::ERROR(s)
    }
}

/// `match:<matcher>(expected, actual, parameters)`: see [`match_verdict`].
pub fn match_result(m: &str, r1: &NodeResult, r2: &NodeResult, r3: &NodeResult) -> (r: NodeResult)
    ensures
        r@ == match_verdict(m@, r1@, r2@, r3@),
{
    let e = match value_or_error_of(r1) {
        Ok(v) => v,
        Err(err) => return NodeResult::ERROR(err),
    };
    let a = match value_or_error_of(r2) {
        Ok(v) => v,
        Err(err) => return NodeResult::ERROR(err),
    };
    let p = match value_or_error_of(r3) {
        Ok(v) => v,
        Err(err) => return NodeResult::ERROR(err),
    };
    matcher_result(m, &e, &a, &p)
}

/// A string in upper or lower case.
pub open spec fn case_of(s: Seq<char>, upper: bool) -> Seq<char> {
    if upper { unicode_upper(s) } else { unicode_lower(s) }
}

/// `upper-case` / `lower-case` of one value: strings and lists of strings change case,
/// other values stay as they are.
pub open spec fn change_case(v: NodeVal, upper: bool) -> NodeVal {
    match v {
        NodeVal::STRING(s) => NodeVal::STRING(case_of(s, upper)),
        NodeVal::SLIST(l) => NodeVal::SLIST(l.map_values(|s: Seq<char>| case_of(s, upper))),
        _ => v,
    }
}

/// One value as it is, or several (or none) as a list.
pub open spec fn single_or_list(vs: Seq<NodeVal>) -> NodeVal {
    if vs.len() == 1 { vs[0] } else { NodeVal::LIST(vs) }
}

/// `upper-case` / `lower-case` of the values of the arguments.
pub open spec fn change_case_all(vs: Seq<NodeVal>, upper: bool) -> NodeVal {
    single_or_list(vs.map_values(|v: NodeVal| change_case(v, upper)))
}

/// `to-string` of one value.
pub open spec fn to_string_value(v: NodeVal) -> NodeVal {
    match v {
        NodeVal::STRING(_) => v,
        NodeVal::SLIST(_) => v,
        NodeVal::JSON(Json::Str(s)) => NodeVal::STRING(s),
        NodeVal::JSON(j) => NodeVal::STRING(serde_json_text(j)),
        _ => NodeVal::STRING(value_text(v)),
    }
}

/// `to-string` of the values of the arguments.
pub open spec fn to_string_all(vs: Seq<NodeVal>) -> NodeVal {
    single_or_list(vs.map_values(|v: NodeVal| to_string_value(v)))
}

/// The strings one value gives to `join`, `join-with` and `error`.
pub open spec fn join_texts(v: NodeVal) -> Seq<Seq<char>> {
    match v {
        NodeVal::STRING(s) => seq![s],
        NodeVal::BOOL(b) => seq![bool_text(b)],
        NodeVal::MMAP(_) => seq![value_text(v)],
        NodeVal::SLIST(l) => l,
        NodeVal::BARRAY(_) => seq![value_text(v)],
        NodeVal::NAMESPACED(_, _) => seq![value_text(v)],
        NodeVal::UINT(u) => seq![decimal(u as nat)],
        NodeVal::JSON(j) => seq![serde_json_text(j)],
        _ => Seq::empty(),
    }
}

/// The strings all the values give, one value after the other.
pub open spec fn all_join_texts(vs: Seq<NodeVal>) -> Seq<Seq<char>>
    decreases vs.len(),
{
    if vs.len() == 0 {
        Seq::empty()
    } else {
        all_join_texts(vs.drop_last()) + join_texts(vs.last())
    }
}

/// `join` (and `error`): the strings one after the other; `join-with`: the strings after the
/// first, with the first between them.
pub open spec fn join_all(vs: Seq<NodeVal>, with_separator: bool) -> Seq<char> {
    let strs = all_join_texts(vs);
    if with_separator && strs.len() > 0 {
        joined(strs[0], strs.drop_first())
    } else {
        joined(Seq::empty(), strs)
    }
}

fn case_strings(l: &Vec<String>, upper: bool) -> (r: Vec<String>)
    ensures
        string_views(r@) == string_views(l@).map_values(|s: Seq<char>| case_of(s, upper)),
{
    let mut out: Vec<String> = Vec::new();
    let mut i: usize = 0;
    while i < l.len()
        invariant
            i <= l.len(),
            out.len() == i,
            forall|j: int| 0 <= j < i ==> #[trigger] out@[j]@ == case_of(l@[j]@, upper),
        decreases l.len() - i,
    {
        let c = if upper { to_upper(l[i].as_str()) } else { to_lower(l[i].as_str()) };
        out.push(c);
        i = i + 1;
    }
    assert(string_views(out@) =~= string_views(l@).map_values(|s: Seq<char>| case_of(s, upper)));
    out
}

/// `upper-case` / `lower-case` of one value; see [`change_case`].
pub fn change_case_value(v: &NodeValue, upper: bool) -> (r: NodeValue)
    ensures
        r@ == change_case(v@, upper),
{
    match v {
        NodeValue::STRING(s) => NodeValue::STRING(if upper { to_upper(s.as_str()) } else { to_lower(s.as_str()) }),
        NodeValue::SLIST(l) => NodeValue::SLIST(case_strings(l, upper)),
        _ => v.copy(),
    }
}

/// One value as it is, or the values as a list; see [`single_or_list`].
fn single_or_list_of(mut vs: Vec<NodeValue>) -> (r: NodeValue)
    ensures
        r@ == single_or_list(node_value_views(vs@)),
{
    proof { lemma_node_value_views(vs@); }
    if vs.len() == 1 {
        vs.pop().unwrap()
    } else {
        NodeValue::LIST(vs)
    }
}

/// `upper-case` / `lower-case` of the values of the arguments; see [`change_case_all`].
pub fn change_case_values(vs: &Vec<NodeValue>, upper: bool) -> (r: NodeValue)
    ensures
        r@ == change_case_all(node_value_views(vs@), upper),
{
    proof { lemma_node_value_views(vs@); }
    let mut out: Vec<NodeValue> = Vec::new();
    let mut i: usize = 0;
    while i < vs.len()
        invariant
            i <= vs.len(),
            out.len() == i,
            node_value_views(vs@).len() == vs.len(),
            forall|j: int| 0 <= j < vs.len() ==> #[trigger] node_value_views(vs@)[j] == vs@[j]@,
            forall|j: int| 0 <= j < i ==> #[trigger] out@[j]@ == change_case(vs@[j]@, upper),
        decreases vs.len() - i,
    {
        out.push(change_case_value(&vs[i], upper));
        i = i + 1;
    }
    proof {
        lemma_node_value_views(out@);
        assert forall|j: int| 0 <= j < vs.len() implies node_value_views(out@)[j] == change_case(vs@[j]@, upper) by {
            assert(out@[j]@ == change_case(vs@[j]@, upper));
        }
    }
    assert(node_value_views(out@) =~= node_value_views(vs@).map_values(|v: NodeVal| change_case(v, upper)));
    single_or_list_of(out)
}

/// `to-string` of one value; see [`to_string_value`].
pub fn to_string_of(v: &NodeValue) -> (r: NodeValue)
    ensures
        r@ == to_string_value(v@),
{
    match v {
        NodeValue::STRING(_) => v.copy(),
        NodeValue::SLIST(_) => v.copy(),
        NodeValue::JSON(JsonValue::Str(s)) => NodeValue::STRING(s.clone()),
        NodeValue::JSON(j) => NodeValue::STRING(json_text(j)),
        _ => NodeValue::STRING(v.str_form()),
    }
}

/// `to-string` of the values of the arguments; see [`to_string_all`].
pub fn to_string_values(vs: &Vec<NodeValue>) -> (r: NodeValue)
    ensures
        r@ == to_string_all(node_value_views(vs@)),
{
    proof { lemma_node_value_views(vs@); }
    let mut out: Vec<NodeValue> = Vec::new();
    let mut i: usize = 0;
    while i < vs.len()
        invariant
            i <= vs.len(),
            out.len() == i,
            node_value_views(vs@).len() == vs.len(),
            forall|j: int| 0 <= j < vs.len() ==> #[trigger] node_value_views(vs@)[j] == vs@[j]@,
            forall|j: int| 0 <= j < i ==> #[trigger] out@[j]@ == to_string_value(vs@[j]@),
        decreases vs.len() - i,
    {
        out.push(to_string_of(&vs[i]));
        i = i + 1;
    }
    proof {
        lemma_node_value_views(out@);
        assert forall|j: int| 0 <= j < vs.len() implies node_value_views(out@)[j] == to_string_value(vs@[j]@) by {
            assert(out@[j]@ == to_string_value(vs@[j]@));
        }
    }
    assert(node_value_views(out@) =~= node_value_views(vs@).map_values(|v: NodeVal| to_string_value(v)));
    single_or_list_of(out)
}

/// Appends the strings one value gives to `join`; see [`join_texts`].
fn push_join_texts(out: &mut Vec<String>, v: &NodeValue)
    ensures
        string_views(final(out)@) == string_views(old(out)@) + join_texts(v@),
{
    let ghost before = string_views(out@);
    match v {
        NodeValue::STRING(s) => out.push(s.clone()),
        NodeValue::BOOL(b) => {
            let mut s = String::new();
            push_bool(&mut s, *b);
            out.push(s);
        },
        NodeValue::SLIST(l) => {
            let mut i: usize = 0;
            while i < l.len()
                invariant
                    i <= l.len(),
                    string_views(out@) == before + string_views(l@).subrange(0, i as int),
                decreases l.len() - i,
            {
                let ghost prev = string_views(out@);
                out.push(l[i].clone());
                assert(string_views(out@) =~= prev.push(l@[i as int]@));
                assert(string_views(l@).subrange(0, i + 1) =~= string_views(l@).subrange(0, i as int).push(l@[i as int]@));
                i = i + 1;
            }
            assert(string_views(l@).subrange(0, l.len() as int) =~= string_views(l@));
        },
        NodeValue::UINT(u) => out.push(crate::text::u64_to_string(*u)),
        NodeValue::JSON(j) => out.push(json_text(j)),
        NodeValue::NULL => {},
        NodeValue::LIST(_) => {},
        _ => out.push(v.str_form()),
    }
    assert(string_views(out@) =~= before + join_texts(v@));
}

/// The strings all the values give; see [`all_join_texts`].
fn join_texts_of(vs: &Vec<NodeValue>) -> (r: Vec<String>)
    ensures
        string_views(r@) == all_join_texts(node_value_views(vs@)),
{
    proof { lemma_node_value_views(vs@); }
    let mut out: Vec<String> = Vec::new();
    let mut i: usize = 0;
    while i < vs.len()
        invariant
            i <= vs.len(),
            node_value_views(vs@).len() == vs.len(),
            forall|j: int| 0 <= j < vs.len() ==> #[trigger] node_value_views(vs@)[j] == vs@[j]@,
            string_views(out@) == all_join_texts(node_value_views(vs@).subrange(0, i as int)),
        decreases vs.len() - i,
    {
        proof {
            let s = node_value_views(vs@).subrange(0, i + 1);
            assert(s.drop_last() =~= node_value_views(vs@).subrange(0, i as int));
            assert(s.last() == vs@[i as int]@);
        }
        push_join_texts(&mut out, &vs[i]);
        i = i + 1;
    }
    assert(node_value_views(vs@).subrange(0, vs.len() as int) =~= node_value_views(vs@));
    out
}

/// `join`, `join-with` and `error` of the values of the arguments; see [`join_all`].
pub fn join_values(vs: &Vec<NodeValue>, with_separator: bool) -> (r: String)
    ensures
        r@ == join_all(node_value_views(vs@), with_separator),
{
    let strs = join_texts_of(vs);
    let mut s = String::new();
    if with_separator && strs.len() > 0 {
        let mut rest: Vec<String> = Vec::new();
        let mut i: usize = 1;
        while i < strs.len()
            invariant
                1 <= i <= strs.len(),
                rest.len() == i - 1,
                forall|j: int| 0 <= j < i - 1 ==> #[trigger] rest@[j]@ == strs@[j + 1]@,
            decreases strs.len() - i,
        {
            rest.push(strs[i].clone());
            i = i + 1;
        }
        assert(string_views(rest@) =~= string_views(strs@).subrange(1, strs.len() as int));
        assert(string_views(strs@).drop_first() =~= string_views(strs@).subrange(1, strs.len() as int));
        push_joined(&mut s, strs[0].as_str(), &rest);
    } else {
        push_joined(&mut s, "", &strs);
        proof { reveal_strlit(""); }
        assert(""@ =~= Seq::<char>::empty());
    }
    assert(s@ =~= join_all(node_value_views(vs@), with_separator));
    s
}

/// The check of `expect:empty` on the value of its argument: `Ok` with the result when the
/// value counts as empty (a boolean gives itself), else the error message.
pub open spec fn empty_check(r: NodeRes) -> Result<NodeRes, Seq<char>> {
    let yes = NodeRes::VALUE(NodeVal::BOOL(true));
    match res_value(r) {
        None => Ok(yes),
        Some(v) => match v {
            NodeVal::NULL => Ok(yes),
            NodeVal::STRING(s) => if s.len() == 0 {
                Ok(yes)
            } else {
                Err("Expected STRING("@ + debug_string(s) + ") to be empty"@)
            },
            NodeVal::BOOL(b) => Ok(NodeRes::VALUE(NodeVal::BOOL(b))),
            NodeVal::MMAP(m) => if m.len() == 0 { Ok(yes) } else { Err("Expected "@ + value_text(v) + " to be empty"@) },
            NodeVal::SLIST(l) => if l.len() == 0 { Ok(yes) } else { Err("Expected "@ + value_text(v) + " to be empty"@) },
            NodeVal::BARRAY(b) => if b.len() == 0 {
                Ok(yes)
            } else {
                Err("Expected byte array ("@ + decimal(b.len()) + " bytes) to be empty"@)
            },
            NodeVal::NAMESPACED(_, _) => Err("Expected "@ + value_text(v) + " to be empty"@),
            NodeVal::UINT(u) => if u == 0 {
                Ok(yes)
            } else {
                Err("Expected UINT("@ + decimal(u as nat) + ") to be empty"@)
            },
            NodeVal::JSON(j) => match json_empty_outcome(j) {
                NodeRes::ERROR(e) => Err(e),
                x => Ok(x),
            },
            NodeVal::LIST(l) => if l.len() == 0 { Ok(yes) } else { Err("Expected "@ + value_text(v) + " to be empty"@) },
        },
    }
}

/// `Expected <value> to be empty`.
fn not_empty_message(v: &NodeValue) -> (m: String)
    ensures
        m@ == "Expected "@ + value_text(v@) + " to be empty"@,
{
    proof {
        reveal_strlit("Expected ");
        reveal_strlit(" to be empty");
    }
    let mut m = String::from_str("Expected ");
    v.write_str_form(&mut m);
    push_str(&mut m, " to be empty");
    m
}

/// The check of `expect:empty`; see [`empty_check`].
pub fn empty_check_of(r: &NodeResult) -> (out: Result<NodeResult, String>)
    ensures
        match (out, empty_check(r@)) {
            (Ok(a), Ok(b)) => a@ == b,
            (Err(a), Err(b)) => a@ == b,
            _ => false,
        },
{
    proof {
        reveal_strlit("Expected STRING(");
        reveal_strlit(") to be empty");
        reveal_strlit("Expected ");
        reveal_strlit(" to be empty");
        reveal_strlit("Expected byte array (");
        reveal_strlit(" bytes) to be empty");
        reveal_strlit("Expected UINT(");
    }
    let yes = NodeResult::VALUE(NodeValue::BOOL(true));
    let v = match r {
        NodeResult::VALUE(v) => v,
        _ => return Ok(yes),
    };
    match v {
        NodeValue::NULL => Ok(yes),
        NodeValue::STRING(s) => if s.as_str().is_empty() {
            Ok(yes)
        } else {
            let mut m = String::from_str("Expected STRING(");
            let d = debug_str(s.as_str());
            push_str(&mut m, d.as_str());
            push_str(&mut m, ") to be empty");
            Err(m)
        },
        NodeValue::BOOL(b) => Ok(NodeResult::VALUE(NodeValue::BOOL(*b))),
        NodeValue::MMAP(m) => if m.len() == 0 { Ok(yes) } else { Err(not_empty_message(v)) },
        NodeValue::SLIST(l) => if l.len() == 0 { Ok(yes) } else { Err(not_empty_message(v)) },
        NodeValue::BARRAY(b) => if b.len() == 0 {
            Ok(yes)
        } else {
            let mut m = String::from_str("Expected byte array (");
            push_decimal(&mut m, b.len() as u64);
            push_str(&mut m, " bytes) to be empty");
            Err(m)
        },
        NodeValue::NAMESPACED(_, _) => Err(not_empty_message(v)),
        NodeValue::UINT(u) => if *u == 0 {
            Ok(yes)
        } else {
            let mut m = String::from_str("Expected UINT(");
            push_decimal(&mut m, *u);
            push_str(&mut m, ") to be empty");
            Err(m)
        },
        NodeValue::JSON(j) => match json_empty_result(j) {
            NodeResult::ERROR(e) => Err(e),
            x => Ok(x),
        },
        NodeValue::LIST(l) => {
            proof { lemma_node_value_views(l@); }
            if l.len() == 0 { Ok(yes) } else { Err(not_empty_message(v)) }
        },
    }
}

/// The names of the entries of a value that `expect:entries` can look at: the keys of a map
/// or JSON object, the items of a list, the JSON text of the items of a JSON array.
pub open spec fn entry_names(v: NodeVal) -> Option<Seq<Seq<char>>> {
    match v {
        NodeVal::MMAP(m) => Some(m.map_values(|e: (Seq<char>, Seq<Seq<char>>)| e.0)),
        NodeVal::SLIST(l) => Some(l),
        NodeVal::JSON(Json::Object(o)) => Some(entry_keys(o)),
        NodeVal::JSON(Json::Array(a)) => Some(a.map_values(|j: Json| serde_json_text(j))),
        _ => None,
    }
}

/// The expected names, from the first argument of `expect:entries`: a list of strings, or
/// nothing.
pub open spec fn expected_names(r: NodeRes) -> Seq<Seq<char>> {
    match r {
        NodeRes::VALUE(NodeVal::SLIST(l)) => l,
        _ => Seq::empty(),
    }
}

/// The value of the second argument of `expect:entries`, NULL when there is none.
pub open spec fn value_or_null(r: NodeRes) -> NodeVal {
    match r {
        NodeRes::VALUE(v) => v,
        _ => NodeVal::NULL,
    }
}

/// The check of `expect:entries` (every expected name is present) or, with `only`,
/// `expect:only-entries` (no name is present that is not expected): `Ok` when it holds,
/// else the message and the names that differ, if the value has names.
pub open spec fn entries_check(only: bool, action: Seq<char>, r1: NodeRes, r2: NodeRes) -> Result<(), (Seq<char>, Option<Seq<Seq<char>>>)> {
    let v = value_or_null(r2);
    match entry_names(v) {
        None => Err((seq!['\''] + action + "' can't be used with a "@ + value_debug(v) + " node"@, None)),
        Some(names) => {
            let diff = if only { missing_items(names, expected_names(r1)) } else { missing_items(expected_names(r1), names) };
            if diff.len() == 0 {
                Ok(())
            } else if only {
                Err(("The following unexpected entries were received: "@ + value_text(NodeVal::SLIST(diff)), Some(diff)))
            } else {
                Err(("The following expected entries were missing: "@ + value_text(NodeVal::SLIST(diff)), Some(diff)))
            }
        },
    }
}

fn mmap_keys(m: &Vec<(String, Vec<String>)>) -> (r: Vec<String>)
    ensures
        string_views(r@) == crate::value::mmap_view(m@).map_values(|e: (Seq<char>, Seq<Seq<char>>)| e.0),
{
    let mut out: Vec<String> = Vec::new();
    let mut i: usize = 0;
    while i < m.len()
        invariant
            i <= m.len(),
            out.len() == i,
            forall|j: int| 0 <= j < i ==> #[trigger] out@[j]@ == m@[j].0@,
        decreases m.len() - i,
    {
        out.push(m[i].0.clone());
        i = i + 1;
    }
    assert(string_views(out@) =~= crate::value::mmap_view(m@).map_values(|e: (Seq<char>, Seq<Seq<char>>)| e.0));
    out
}

fn item_texts(a: &Vec<JsonValue>) -> (r: Vec<String>)
    ensures
        string_views(r@) == json_views(a@).map_values(|j: Json| serde_json_text(j)),
{
    proof { lemma_json_views(a@); }
    let mut out: Vec<String> = Vec::new();
    let mut i: usize = 0;
    while i < a.len()
        invariant
            i <= a.len(),
            out.len() == i,
            json_views(a@).len() == a.len(),
            forall|j: int| 0 <= j < a.len() ==> #[trigger] json_views(a@)[j] == a@[j]@,
            forall|j: int| 0 <= j < i ==> #[trigger] out@[j]@ == serde_json_text(a@[j]@),
        decreases a.len() - i,
    {
        out.push(json_text(&a[i]));
        i = i + 1;
    }
    assert(string_views(out@) =~= json_views(a@).map_values(|j: Json| serde_json_text(j)));
    out
}

/// The names of the entries of a value; see [`entry_names`].
fn entry_names_of(v: &NodeValue) -> (r: Option<Vec<String>>)
    ensures
        match r {
            Some(l) => entry_names(v@) == Some(string_views(l@)),
            None => entry_names(v@) is None,
        },
{
    match v {
        NodeValue::MMAP(m) => Some(mmap_keys(m)),
        NodeValue::SLIST(l) => Some(crate::value::copy_strings(l)),
        NodeValue::JSON(JsonValue::Object(o)) => Some(keys_of(o)),
        NodeValue::JSON(JsonValue::Array(a)) => Some(item_texts(a)),
        _ => None,
    }
}

/// The check of `expect:entries` and `expect:only-entries`; see [`entries_check`].
pub fn entries_check_of(only: bool, action: &str, r1: &NodeResult, r2: &NodeResult) -> (out: Result<(), (String, Option<Vec<String>>)>)
    ensures
        match (out, entries_check(only, action@, r1@, r2@)) {
            (Ok(_), Ok(_)) => true,
            (Err((m, d)), Err((n, e))) => m@ == n && match (d, e) {
                (Some(x), Some(y)) => string_views(x@) == y,
                (None, None) => true,
                _ => false,
            },
            _ => false,
        },
{
    proof {
        reveal_strlit("' can't be used with a ");
        reveal_strlit(" node");
        reveal_strlit("The following unexpected entries were received: ");
        reveal_strlit("The following expected entries were missing: ");
    }
    let null = NodeValue::NULL;
    let v = match r2 {
        NodeResult::VALUE(v) => v,
        _ => &null,
    };
    let empty: Vec<String> = Vec::new();
    let expected = match r1 {
        NodeResult::VALUE(NodeValue::SLIST(l)) => l,
        _ => &empty,
    };
    assert(string_views(expected@) == expected_names(r1@)) by {
        assert(string_views(empty@) =~= Seq::<Seq<char>>::empty());
    }
    match entry_names_of(v) {
        None => {
            let mut m = String::new();
            push_char(&mut m, '\'');
            push_str(&mut m, action);
            push_str(&mut m, "' can't be used with a ");
            v.write_debug(&mut m);
            push_str(&mut m, " node");
            assert(m@ =~= seq!['\''] + action@ + "' can't be used with a "@ + value_debug(v@) + " node"@);
            Err((m, None))
        },
        Some(names) => {
            let diff = if only { missing_from(&names, expected) } else { missing_from(expected, &names) };
            if diff.len() == 0 {
                Ok(())
            } else {
                let mut m = if only {
                    String::from_str("The following unexpected entries were received: ")
                } else {
                    String::from_str("The following expected entries were missing: ")
                };
                let listed = NodeValue::SLIST(diff);
                listed.write_str_form(&mut m);
                let diff = match listed {
                    NodeValue::SLIST(d) => d,
                    _ => Vec::new(),
                };
                Err((m, Some(diff)))
            }
        },
    }
}

} // verus!
