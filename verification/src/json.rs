//! JSON values as the plan engine sees them, and the calls into `serde_json` that read and
//! write their text form.

use vstd::prelude::*;
use crate::text::{push_str, chars_of, str_eq, decimal};

verus! {

/// `serde_json::Value`, made known to Verus so that the JSON wrappers can hand it between
/// them; nothing is seen inside it.
#[verifier::external_type_specification]
#[verifier::external_body]
pub struct ExSerdeJsonValue(serde_json::Value);

/// A JSON value. Numbers keep the text that `serde_json` writes for them (so `1` and `1.0`
/// stay different values, as they are for `serde_json`), and objects keep their entries in
/// the order in which they were read.
#[derive(Debug)]
pub enum JsonValue {
    Null,
    Bool(bool),
    Number(String),
    Str(String),
    Array(Vec<JsonValue>),
    Object(Vec<(String, JsonValue)>),
}

/// The mathematical model of a JSON value.
pub enum Json {
    Null,
    Bool(bool),
    Number(Seq<char>),
    Str(Seq<char>),
    Array(Seq<Json>),
    Object(Seq<(Seq<char>, Json)>),
}

/// The model of a JSON value.
pub open spec fn json_view(v: JsonValue) -> Json
    decreases v, 1nat,
{
    match v {
        JsonValue::Null => Json::Null,
        JsonValue::Bool(b) => Json::Bool(b),
        JsonValue::Number(n) => Json::Number(n@),
        JsonValue::Str(s) => Json::Str(s@),
        JsonValue::Array(xs) => {
            proof { vstd::std_specs::vec::axiom_vec_decreases_to_view(xs); }
            Json::Array(json_views(xs@))
        },
        JsonValue::Object(xs) => {
            proof { vstd::std_specs::vec::axiom_vec_decreases_to_view(xs); }
            Json::Object(entry_views(xs@))
        },
    }
}

/// The models of a sequence of JSON values.
pub open spec fn json_views(xs: Seq<JsonValue>) -> Seq<Json>
    decreases xs, 0nat,
{
    if xs.len() == 0 {
        Seq::empty()
    } else {
        json_views(xs.drop_last()).push(json_view(xs.last()))
    }
}

/// The models of a sequence of object entries.
pub open spec fn entry_views(xs: Seq<(String, JsonValue)>) -> Seq<(Seq<char>, Json)>
    decreases xs, 0nat,
{
    if xs.len() == 0 {
        Seq::empty()
    } else {
        entry_views(xs.drop_last()).push((xs.last().0@, json_view(xs.last().1)))
    }
}

impl View for JsonValue {
    type V = Json;

    open spec fn view(&self) -> Json {
        json_view(*self)
    }
}

/// The models of a sequence have its length, element by element.
pub proof fn lemma_json_views(xs: Seq<JsonValue>)
    ensures
        json_views(xs).len() == xs.len(),
        forall|i: int| 0 <= i < xs.len() ==> #[trigger] json_views(xs)[i] == json_view(xs[i]),
    decreases xs.len(),
{
    if xs.len() > 0 {
        lemma_json_views(xs.drop_last());
    }
}

/// The models of object entries have their length, entry by entry.
pub proof fn lemma_entry_views(xs: Seq<(String, JsonValue)>)
    ensures
        entry_views(xs).len() == xs.len(),
        forall|i: int| 0 <= i < xs.len() ==> #[trigger] entry_views(xs)[i] == (xs[i].0@, json_view(xs[i].1)),
    decreases xs.len(),
{
    if xs.len() > 0 {
        lemma_entry_views(xs.drop_last());
    }
}

/// The type name used in messages about a JSON value.
pub open spec fn json_type_name(v: Json) -> Seq<char> {
    match v {
        Json::Null => "Null"@,
        Json::Bool(_) => "Boolean"@,
        Json::Number(n) => if number_is_integer(n) { "Integer"@ } else { "Decimal"@ },
        Json::Str(_) => "String"@,
        Json::Array(_) => "Array"@,
        Json::Object(_) => "Object"@,
    }
}

/// A number is an integer when its text has no fraction and no exponent.
pub open spec fn number_is_integer(t: Seq<char>) -> bool {
    forall|i: int| 0 <= i < t.len() ==> t[i] != '.' && t[i] != 'e' && t[i] != 'E'
}

/// The compact text that `serde_json` writes for a value.
pub uninterp spec fn serde_json_text(v: Json) -> Seq<char>;

/// What `serde_json` reads from a byte buffer: the value, or the text of its error.
pub uninterp spec fn serde_json_read(bytes: Seq<u8>) -> Result<Json, Seq<char>>;

/// Converts a `serde_json::Value` into the library's [`JsonValue`], one for one (number text
/// as `serde_json::Number` writes it, object entries in the order of `serde_json`'s map).
/// It promises nothing; the wrappers that read JSON name their outcome.
#[verifier::external_body]
fn from_serde(v: serde_json::Value) -> JsonValue {
    match v {
        serde_json::Value::Null => JsonValue::Null,
        serde_json::Value::Bool(b) => JsonValue::Bool(b),
        serde_json::Value::Number(n) => JsonValue::Number(n.to_string()),
        serde_json::Value::String(s) => JsonValue::Str(s),
        serde_json::Value::Array(a) => JsonValue::Array(a.into_iter().map(from_serde).collect()),
        serde_json::Value::Object(o) => JsonValue::Object(o.into_iter().map(|(k, v)| (k, from_serde(v))).collect()),
    }
}

/// Converts a [`JsonValue`] into a `serde_json::Value`, one for one (number text read by
/// `serde_json::Number`'s `FromStr`, `null` when it reads none). It promises nothing; the
/// wrapper that writes JSON names its outcome.
#[verifier::external_body]
fn to_serde(v: &JsonValue) -> serde_json::Value {
    match v {
        JsonValue::Null => serde_json::Value::Null,
        JsonValue::Bool(b) => serde_json::Value::Bool(*b),
        JsonValue::Number(n) => n.parse::<serde_json::Number>().map(serde_json::Value::Number).unwrap_or(serde_json::Value::Null),
        JsonValue::Str(s) => serde_json::Value::String(s.clone()),
        JsonValue::Array(a) => serde_json::Value::Array(a.iter().map(to_serde).collect()),
        JsonValue::Object(o) => serde_json::Value::Object(o.iter().map(|(k, v)| (k.clone(), to_serde(v))).collect()),
    }
}

/// What `serde_json::Number::as_i64` gives for the number that this text holds.
pub uninterp spec fn json_number_i64(text: Seq<char>) -> Option<i64>;

/// What `serde_json::Number::as_u64` gives for the number that this text holds.
pub uninterp spec fn json_number_u64(text: Seq<char>) -> Option<u64>;

/// `serde_json::Number::as_i64` of the number written as this text: the contract names the
/// outcome, which depends on the text alone, and adds what the crate's source shows of a
/// text that is the plain decimal form of an `i64` (digits with no leading zero, after a
/// `-` for a negative number): `Number`'s `FromStr` reads it as that integer, and `as_i64`
/// gives it back.
#[verifier::external_body]
pub(crate) fn number_as_i64(text: &str) -> (r: Option<i64>)
    ensures
        r == json_number_i64(text@),
        forall|v: nat| text@ == #[trigger] decimal(v) && v <= i64::MAX ==> r == Some(v as i64),
        forall|v: nat| text@ == seq!['-'] + #[trigger] decimal(v) && 0 < v <= 0x8000_0000_0000_0000
            ==> r == Some((0 - v) as i64),
{
    text.parse::<serde_json::Number>().ok().and_then(|n| n.as_i64())
}

/// `serde_json::Number::as_u64` of the number written as this text: the contract names the
/// outcome, which depends on the text alone, and adds what the crate's source shows of a
/// text that is the plain decimal form of a `u64`: it is read as that integer and given back.
#[verifier::external_body]
pub(crate) fn number_as_u64(text: &str) -> (r: Option<u64>)
    ensures
        r == json_number_u64(text@),
        forall|v: nat| text@ == #[trigger] decimal(v) && v <= u64::MAX ==> r == Some(v as u64),
{
    text.parse::<serde_json::Number>().ok().and_then(|n| n.as_u64())
}

/// `serde_json::from_slice` read into a [`JsonValue`]: the contract names the outcome,
/// which depends on the bytes alone, and says nothing more about it.
#[verifier::external_body]
pub(crate) fn read_json(bytes: &[u8]) -> (r: Result<JsonValue, String>)
    ensures
        match (r, serde_json_read(bytes@)) {
            (Ok(v), Ok(w)) => v@ == w,
            (Err(e), Err(f)) => e@ == f,
            _ => false,
        },
{
    serde_json::from_slice::<serde_json::Value>(bytes).map(from_serde).map_err(|e| e.to_string())
}

/// What `serde_json` reads from a string: the value, or the text of its error.
pub uninterp spec fn serde_json_read_str(text: Seq<char>) -> Result<Json, Seq<char>>;

/// `serde_json::from_str` read into a [`JsonValue`]: the contract names the outcome, which
/// depends on the text alone.
#[verifier::external_body]
pub(crate) fn read_json_str(text: &str) -> (r: Result<JsonValue, String>)
    ensures
        match (r, serde_json_read_str(text@)) {
            (Ok(v), Ok(w)) => v@ == w,
            (Err(e), Err(f)) => e@ == f,
            _ => false,
        },
{
    serde_json::from_str::<serde_json::Value>(text).map(from_serde).map_err(|e| e.to_string())
}

/// `serde_json::Value::to_string` (the compact form) of a [`JsonValue`]: the contract names
/// the text, which depends on the value alone.
#[verifier::external_body]
pub(crate) fn json_text(v: &JsonValue) -> (r: String)
    ensures
        r@ == serde_json_text(v@),
{
    to_serde(v).to_string()
}

/// What `format!("{:?}", value)` writes for a `serde_json::Value`.
pub uninterp spec fn serde_json_debug(v: Json) -> Seq<char>;

/// `format!("{:?}", value)` of the `serde_json::Value` that a [`JsonValue`] stands for: the
/// contract names the text, which depends on the value alone.
#[verifier::external_body]
pub(crate) fn json_debug(v: &JsonValue) -> (r: String)
    ensures
        r@ == serde_json_debug(v@),
{
    format!("{:?}", to_serde(v))
}

impl JsonValue {
    /// A copy of this value.
    pub fn copy(&self) -> (r: JsonValue)
        ensures
            r@ == self@,
        decreases self,
    {
        match self {
            JsonValue::Null => JsonValue::Null,
            JsonValue::Bool(b) => JsonValue::Bool(*b),
            JsonValue::Number(n) => JsonValue::Number(n.clone()),
            JsonValue::Str(s) => JsonValue::Str(s.clone()),
            JsonValue::Array(xs) => {
                let mut out: Vec<JsonValue> = Vec::new();
                let mut i: usize = 0;
                while i < xs.len()
                    invariant
                        *self == JsonValue::Array(*xs),
                        i <= xs.len(),
                        json_views(out@) == json_views(xs@.subrange(0, i as int)),
                    decreases xs.len() - i,
                {
                    proof {
                        vstd::std_specs::vec::axiom_vec_index_decreases(*xs, i as int);
                        assert(decreases_to!(*self => (*self)->Array_0));
                        assert(decreases_to!(*self => xs[i as int]));
                    }
                    let c = xs[i].copy();
                    let ghost before = out@;
                    out.push(c);
                    proof {
                        assert(out@.drop_last() == before);
                        assert(xs@.subrange(0, i + 1).drop_last() == xs@.subrange(0, i as int));
                    }
                    i = i + 1;
                }
                assert(xs@.subrange(0, xs.len() as int) == xs@);
                JsonValue::Array(out)
            },
            JsonValue::Object(xs) => {
                let mut out: Vec<(String, JsonValue)> = Vec::new();
                let mut i: usize = 0;
                while i < xs.len()
                    invariant
                        *self == JsonValue::Object(*xs),
                        i <= xs.len(),
                        entry_views(out@) == entry_views(xs@.subrange(0, i as int)),
                    decreases xs.len() - i,
                {
                    proof {
                        vstd::std_specs::vec::axiom_vec_index_decreases(*xs, i as int);
                        assert(decreases_to!(*self => (*self)->Object_0));
                        assert(decreases_to!(*self => xs[i as int].1));
                    }
                    let c = xs[i].1.copy();
                    let k = xs[i].0.clone();
                    let ghost before = out@;
                    out.push((k, c));
                    proof {
                        assert(out@.drop_last() == before);
                        assert(xs@.subrange(0, i + 1).drop_last() == xs@.subrange(0, i as int));
                    }
                    i = i + 1;
                }
                assert(xs@.subrange(0, xs.len() as int) == xs@);
                JsonValue::Object(out)
            },
        }
    }

    /// The type name used in messages about this value.
    pub fn kind_name(&self) -> (r: String)
        ensures
            r@ == json_type_name(self@),
    {
        let mut s = String::new();
        proof {
            reveal_strlit("Null");
            reveal_strlit("Boolean");
            reveal_strlit("Integer");
            reveal_strlit("Decimal");
            reveal_strlit("String");
            reveal_strlit("Array");
            reveal_strlit("Object");
        }
        match self {
            JsonValue::Null => push_str(&mut s, "Null"),
            JsonValue::Bool(_) => push_str(&mut s, "Boolean"),
            JsonValue::Number(n) => if is_integer_text(n.as_str()) {
                push_str(&mut s, "Integer")
            } else {
                push_str(&mut s, "Decimal")
            },
            JsonValue::Str(_) => push_str(&mut s, "String"),
            JsonValue::Array(_) => push_str(&mut s, "Array"),
            JsonValue::Object(_) => push_str(&mut s, "Object"),
        }
        assert(s@ =~= json_type_name(self@));
        s
    }
}

/// Whether a number's text is that of an integer.
pub fn is_integer_text(t: &str) -> (r: bool)
    ensures
        r == number_is_integer(t@),
{
    let cs = chars_of(t);
    let mut i: usize = 0;
    while i < cs.len()
        invariant
            cs@ == t@,
            i <= cs.len(),
            forall|j: int| 0 <= j < i ==> cs@[j] != '.' && cs@[j] != 'e' && cs@[j] != 'E',
        decreases cs.len() - i,
    {
        if cs[i] == '.' || cs[i] == 'e' || cs[i] == 'E' {
            return false;
        }
        i = i + 1;
    }
    true
}

/// Whether two JSON values hold the same data.
pub fn json_equals(a: &JsonValue, b: &JsonValue) -> (r: bool)
    ensures
        r == (a@ == b@),
    decreases a,
{
    match (a, b) {
        (JsonValue::Null, JsonValue::Null) => true,
        (JsonValue::Bool(x), JsonValue::Bool(y)) => *x == *y,
        (JsonValue::Number(x), JsonValue::Number(y)) => str_eq(x.as_str(), y.as_str()),
        (JsonValue::Str(x), JsonValue::Str(y)) => str_eq(x.as_str(), y.as_str()),
        (JsonValue::Array(xs), JsonValue::Array(ys)) => {
            proof { lemma_json_views(xs@); lemma_json_views(ys@); }
            if xs.len() != ys.len() {
                return false;
            }
            let mut i: usize = 0;
            while i < xs.len()
                invariant
                    xs.len() == ys.len(),
                    i <= xs.len(),
                    *a == JsonValue::Array(*xs),
                    *b == JsonValue::Array(*ys),
                    json_views(xs@).len() == xs.len(),
                    json_views(ys@).len() == ys.len(),
                    forall|j: int| 0 <= j < xs.len() ==> #[trigger] json_views(xs@)[j] == json_view(xs@[j]),
                    forall|j: int| 0 <= j < ys.len() ==> #[trigger] json_views(ys@)[j] == json_view(ys@[j]),
                    forall|j: int| 0 <= j < i ==> json_view(#[trigger] xs@[j]) == json_view(ys@[j]),
                decreases xs.len() - i,
            {
                proof {
                    vstd::std_specs::vec::axiom_vec_index_decreases(*xs, i as int);
                    assert(decreases_to!(*a => (*a)->Array_0));
                    assert(decreases_to!(*a => xs[i as int]));
                }
                if !json_equals(&xs[i], &ys[i]) {
                    assert(json_views(xs@)[i as int] != json_views(ys@)[i as int]);
                    return false;
                }
                i = i + 1;
            }
            assert(json_views(xs@) =~= json_views(ys@));
            true
        },
        (JsonValue::Object(xs), JsonValue::Object(ys)) => {
            proof { lemma_entry_views(xs@); lemma_entry_views(ys@); }
            if xs.len() != ys.len() {
                return false;
            }
            let mut i: usize = 0;
            while i < xs.len()
                invariant
                    xs.len() == ys.len(),
                    i <= xs.len(),
                    *a == JsonValue::Object(*xs),
                    *b == JsonValue::Object(*ys),
                    entry_views(xs@).len() == xs.len(),
                    entry_views(ys@).len() == ys.len(),
                    forall|j: int| 0 <= j < xs.len() ==> #[trigger] entry_views(xs@)[j] == (xs@[j].0@, json_view(xs@[j].1)),
                    forall|j: int| 0 <= j < ys.len() ==> #[trigger] entry_views(ys@)[j] == (ys@[j].0@, json_view(ys@[j].1)),
                    forall|j: int| 0 <= j < i ==> #[trigger] entry_views(xs@)[j] == entry_views(ys@)[j],
                decreases xs.len() - i,
            {
                proof {
                    vstd::std_specs::vec::axiom_vec_index_decreases(*xs, i as int);
                    assert(decreases_to!(*a => (*a)->Object_0));
                    assert(decreases_to!(*a => xs[i as int].1));
                }
                if !str_eq(xs[i].0.as_str(), ys[i].0.as_str()) {
                    assert(entry_views(xs@)[i as int] != entry_views(ys@)[i as int]);
                    return false;
                }
                if !json_equals(&xs[i].1, &ys[i].1) {
                    assert(entry_views(xs@)[i as int] != entry_views(ys@)[i as int]);
                    return false;
                }
                i = i + 1;
            }
            assert(entry_views(xs@) =~= entry_views(ys@));
            true
        },
        _ => false,
    }
}

} // verus!
