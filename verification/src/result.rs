//! The result of executing a plan node.

use vstd::prelude::*;
use crate::text::{push_char, push_str, push_decimal, push_bool, decimal, bool_text, joined,
    lemma_joined_push, string_views};
use crate::json::{json_text, serde_json_text};
use crate::base64::{base64_encode, base64_standard};
use crate::outside::{debug_str, debug_string};
use crate::value::{NodeValue, NodeVal, value_text, copy_strings, mmap_view};

verus! {

/// The result of executing a node.
#[derive(Debug)]
#[allow(non_camel_case_types)]
pub enum NodeResult {
    /// The node executed successfully
    OK,
    /// The node executed successfully, with a value
    VALUE(NodeValue),
    /// The node failed, with an error message
    ERROR(String),
}

/// The model of a [`NodeResult`].
#[allow(non_camel_case_types)]
pub enum NodeRes {
    OK,
    VALUE(NodeVal),
    ERROR(Seq<char>),
}

impl View for NodeResult {
    type V = NodeRes;

    open spec fn view(&self) -> NodeRes {
        match *self {
            NodeResult::OK => NodeRes::OK,
            NodeResult::VALUE(v) => NodeRes::VALUE(v@),
            NodeResult::ERROR(e) => NodeRes::ERROR(e@),
        }
    }
}

/// The model of an optional result.
pub open spec fn opt_result_view(r: Option<NodeResult>) -> Option<NodeRes> {
    match r {
        Some(x) => Some(x@),
        None => None,
    }
}

/// The message of a result that combines a failed child.
pub open spec fn children_failed() -> Seq<char> {
    "One or more children failed"@
}

/// The OR of a result with an optional other result: an error on either side gives an
/// error, a value is kept over `OK`, and the first value is kept over the second.
pub open spec fn result_or(a: NodeRes, b: Option<NodeRes>) -> NodeRes {
    match b {
        None => a,
        Some(NodeRes::ERROR(_)) => NodeRes::ERROR(children_failed()),
        Some(NodeRes::OK) => match a {
            NodeRes::ERROR(_) => NodeRes::ERROR(children_failed()),
            _ => a,
        },
        Some(NodeRes::VALUE(v)) => match a {
            NodeRes::OK => NodeRes::VALUE(v),
            NodeRes::VALUE(_) => a,
            NodeRes::ERROR(_) => NodeRes::ERROR(children_failed()),
        },
    }
}

/// The `Debug` text of some strings.
pub open spec fn debug_all(items: Seq<Seq<char>>) -> Seq<Seq<char>> {
    items.map_values(|s: Seq<char>| debug_string(s))
}

/// The `Debug` text of a list of strings, `["a", "b"]`.
pub open spec fn debug_list_text(items: Seq<Seq<char>>) -> Seq<char> {
    "["@ + joined(", "@, debug_all(items)) + "]"@
}

/// The `Debug` text of a multi-string map, `{"a": ["b"]}`.
pub open spec fn debug_map_text(m: Seq<(Seq<char>, Seq<Seq<char>>)>) -> Seq<char> {
    "{"@ + joined(", "@, m.map_values(|e: (Seq<char>, Seq<Seq<char>>)| debug_string(e.0) + ": "@ + debug_list_text(e.1))) + "}"@
}

/// The string form of a value, as `as_string` gives it.
pub open spec fn value_as_text(v: NodeVal) -> Seq<char> {
    match v {
        NodeVal::NULL => Seq::empty(),
        NodeVal::STRING(s) => s,
        NodeVal::BOOL(b) => bool_text(b),
        NodeVal::MMAP(m) => debug_map_text(m),
        NodeVal::SLIST(l) => debug_list_text(l),
        NodeVal::BARRAY(b) => base64_standard(b),
        NodeVal::NAMESPACED(n, s) => n + ":"@ + s,
        NodeVal::UINT(u) => decimal(u as nat),
        NodeVal::JSON(j) => serde_json_text(j),
        NodeVal::LIST(_) => value_text(v),
    }
}

/// The string form of a result: only a value has one.
pub open spec fn result_as_string(r: NodeRes) -> Option<Seq<char>> {
    match r {
        NodeRes::VALUE(v) => Some(value_as_text(v)),
        _ => None,
    }
}

/// Whether a result is truthy: `OK`, or a value that is not NULL, false, zero or empty.
pub open spec fn result_is_truthy(r: NodeRes) -> bool {
    match r {
        NodeRes::OK => true,
        NodeRes::VALUE(v) => match v {
            NodeVal::NULL => false,
            NodeVal::STRING(s) => s.len() > 0,
            NodeVal::BOOL(b) => b,
            NodeVal::MMAP(m) => m.len() > 0,
            NodeVal::SLIST(l) => l.len() > 0,
            NodeVal::BARRAY(b) => b.len() > 0,
            NodeVal::NAMESPACED(_, _) => false,
            NodeVal::UINT(u) => u != 0,
            NodeVal::JSON(_) => false,
            NodeVal::LIST(l) => l.len() > 0,
        },
        NodeRes::ERROR(_) => false,
    }
}

/// The display text of a result: `OK`, the text form of the value, or `ERROR(message)`.
pub open spec fn result_text(r: NodeRes) -> Seq<char> {
    match r {
        NodeRes::OK => "OK"@,
        NodeRes::VALUE(v) => value_text(v),
        NodeRes::ERROR(e) => "ERROR("@ + e + ")"@,
    }
}

fn push_debug_list(buf: &mut String, items: &Vec<String>)
    ensures
        final(buf)@ == old(buf)@ + debug_list_text(string_views(items@)),
{
    proof {
        reveal_strlit("[");
        reveal_strlit("]");
        reveal_strlit(", ");
    }
    push_str(buf, "[");
    let ghost texts = debug_all(string_views(items@));
    let mut i: usize = 0;
    while i < items.len()
        invariant
            i <= items.len(),
            texts == debug_all(string_views(items@)),
            buf@ == old(buf)@ + "["@ + joined(", "@, texts.subrange(0, i as int)),
        decreases items.len() - i,
    {
        proof {
            assert(texts.subrange(0, i + 1) =~= texts.subrange(0, i as int).push(texts[i as int]));
            lemma_joined_push(", "@, texts.subrange(0, i as int), texts[i as int]);
        }
        if i > 0 {
            push_str(buf, ", ");
        }
        let d = debug_str(items[i].as_str());
        push_str(buf, d.as_str());
        i = i + 1;
        assert(buf@ =~= old(buf)@ + "["@ + joined(", "@, texts.subrange(0, i as int)));
    }
    assert(texts.subrange(0, items.len() as int) =~= texts);
    push_str(buf, "]");
    assert(buf@ =~= old(buf)@ + debug_list_text(string_views(items@)));
}

fn push_debug_map(buf: &mut String, m: &Vec<(String, Vec<String>)>)
    ensures
        final(buf)@ == old(buf)@ + debug_map_text(mmap_view(m@)),
{
    proof {
        reveal_strlit("{");
        reveal_strlit("}");
        reveal_strlit(", ");
        reveal_strlit(": ");
    }
    push_str(buf, "{");
    let ghost texts = mmap_view(m@).map_values(|e: (Seq<char>, Seq<Seq<char>>)| debug_string(e.0) + ": "@ + debug_list_text(e.1));
    let mut i: usize = 0;
    while i < m.len()
        invariant
            i <= m.len(),
            texts == mmap_view(m@).map_values(|e: (Seq<char>, Seq<Seq<char>>)| debug_string(e.0) + ": "@ + debug_list_text(e.1)),
            buf@ == old(buf)@ + "{"@ + joined(", "@, texts.subrange(0, i as int)),
        decreases m.len() - i,
    {
        proof {
            assert(texts.subrange(0, i + 1) =~= texts.subrange(0, i as int).push(texts[i as int]));
            lemma_joined_push(", "@, texts.subrange(0, i as int), texts[i as int]);
        }
        if i > 0 {
            push_str(buf, ", ");
        }
        let d = debug_str(m[i].0.as_str());
        push_str(buf, d.as_str());
        push_str(buf, ": ");
        push_debug_list(buf, &m[i].1);
        i = i + 1;
        assert(buf@ =~= old(buf)@ + "{"@ + joined(", "@, texts.subrange(0, i as int)));
    }
    assert(texts.subrange(0, m.len() as int) =~= texts);
    push_str(buf, "}");
    assert(buf@ =~= old(buf)@ + debug_map_text(mmap_view(m@)));
}

impl NodeResult {
    /// A copy of this result.
    pub fn copy(&self) -> (r: NodeResult)
        ensures
            r@ == self@,
    {
        match self {
            NodeResult::OK => NodeResult::OK,
            NodeResult::VALUE(v) => NodeResult::VALUE(v.copy()),
            NodeResult::ERROR(e) => NodeResult::ERROR(e.clone()),
        }
    }

    /// Return the OR of this result with the given one.
    pub fn or(&self, option: &Option<NodeResult>) -> (r: NodeResult)
        ensures
            r@ == result_or(self@, opt_result_view(*option)),
    {
        proof { reveal_strlit("One or more children failed"); }
        let failed = NodeResult::ERROR(String::from_str("One or more children failed"));
        match option {
            None => self.copy(),
            Some(NodeResult::ERROR(_)) => failed,
            Some(NodeResult::OK) => match self {
                NodeResult::ERROR(_) => failed,
                _ => self.copy(),
            },
            Some(NodeResult::VALUE(v)) => match self {
                NodeResult::OK => NodeResult::VALUE(v.copy()),
                NodeResult::VALUE(_) => self.copy(),
                NodeResult::ERROR(_) => failed,
            },
        }
    }

    /// Converts the result value to a string.
    pub fn as_string(&self) -> (r: Option<String>)
        ensures
            match r {
                Some(s) => result_as_string(self@) == Some(s@),
                None => result_as_string(self@) is None,
            },
    {
        match self {
            NodeResult::VALUE(v) => {
                let mut s = String::new();
                proof { reveal_strlit(":"); }
                match v {
                    NodeValue::NULL => {},
                    NodeValue::STRING(t) => push_str(&mut s, t.as_str()),
                    NodeValue::BOOL(b) => push_bool(&mut s, *b),
                    NodeValue::MMAP(m) => push_debug_map(&mut s, m),
                    NodeValue::SLIST(l) => push_debug_list(&mut s, l),
                    NodeValue::BARRAY(b) => {
                        let e = base64_encode(b.as_slice());
                        push_str(&mut s, e.as_str());
                    },
                    NodeValue::NAMESPACED(n, t) => {
                        push_str(&mut s, n.as_str());
                        push_str(&mut s, ":");
                        push_str(&mut s, t.as_str());
                    },
                    NodeValue::UINT(u) => push_decimal(&mut s, *u),
                    NodeValue::JSON(j) => {
                        let t = json_text(j);
                        push_str(&mut s, t.as_str());
                    },
                    NodeValue::LIST(_) => v.write_str_form(&mut s),
                }
                assert(s@ =~= value_as_text(v@));
                Some(s)
            },
            _ => None,
        }
    }

    /// If the result is a number, returns it.
    pub fn as_number(&self) -> (r: Option<u64>)
        ensures
            r == match self@ {
                NodeRes::VALUE(NodeVal::UINT(u)) => Some(u),
                _ => None::<u64>,
            },
    {
        match self {
            NodeResult::VALUE(NodeValue::UINT(u)) => Some(*u),
            _ => None,
        }
    }

    /// Returns the associated value if there is one.
    pub fn as_value(&self) -> (r: Option<NodeValue>)
        ensures
            match r {
                Some(v) => self@ == NodeRes::VALUE(v@),
                None => !(self@ is VALUE),
            },
    {
        match self {
            NodeResult::VALUE(v) => Some(v.copy()),
            _ => None,
        }
    }

    /// If the result is a list of strings, returns it.
    pub fn as_slist(&self) -> (r: Option<Vec<String>>)
        ensures
            match r {
                Some(l) => self@ == NodeRes::VALUE(NodeVal::SLIST(string_views(l@))),
                None => !(self@ matches NodeRes::VALUE(NodeVal::SLIST(_))),
            },
    {
        match self {
            NodeResult::VALUE(NodeValue::SLIST(l)) => Some(copy_strings(l)),
            _ => None,
        }
    }

    /// If this value represents a truthy value (not NULL, false or empty).
    pub fn is_truthy(&self) -> (r: bool)
        ensures
            r == result_is_truthy(self@),
    {
        match self {
            NodeResult::OK => true,
            NodeResult::VALUE(v) => match v {
                NodeValue::NULL => false,
                NodeValue::STRING(s) => !s.as_str().is_empty(),
                NodeValue::BOOL(b) => *b,
                NodeValue::MMAP(m) => m.len() > 0,
                NodeValue::SLIST(l) => l.len() > 0,
                NodeValue::BARRAY(b) => b.len() > 0,
                NodeValue::NAMESPACED(_, _) => false,
                NodeValue::UINT(u) => *u != 0,
                NodeValue::JSON(_) => false,
                NodeValue::LIST(l) => l.len() > 0,
            },
            NodeResult::ERROR(_) => false,
        }
    }

    /// The display text of the result.
    pub fn to_text(&self) -> (r: String)
        ensures
            r@ == result_text(self@),
    {
        let mut s = String::new();
        self.write_text(&mut s);
        assert(s@ =~= result_text(self@));
        s
    }

    /// Appends the display text of the result.
    pub fn write_text(&self, buf: &mut String)
        ensures
            final(buf)@ == old(buf)@ + result_text(self@),
    {
        proof {
            reveal_strlit("OK");
            reveal_strlit("ERROR(");
            reveal_strlit(")");
        }
        match self {
            NodeResult::OK => push_str(buf, "OK"),
            NodeResult::VALUE(v) => v.write_str_form(buf),
            NodeResult::ERROR(e) => {
                push_str(buf, "ERROR(");
                push_str(buf, e.as_str());
                push_str(buf, ")");
            },
        }
        assert(buf@ =~= old(buf)@ + result_text(self@));
    }
}

impl Default for NodeResult {
    fn default() -> (r: NodeResult)
        ensures
            r@ == NodeRes::OK,
    {
        NodeResult::OK
    }
}

/// A copy of an optional result.
pub fn copy_opt_result(r: &Option<NodeResult>) -> (c: Option<NodeResult>)
    ensures
        opt_result_view(c) == opt_result_view(*r),
{
    match r {
        Some(x) => Some(x.copy()),
        None => None,
    }
}

} // verus!
