//! The values that plan nodes hold and produce.

use vstd::prelude::*;
use crate::text::{push_char, push_str, push_decimal, push_bool, decimal, bool_text, joined,
    lemma_joined_push, string_views, push_joined};
use crate::json::{JsonValue, Json, json_text, serde_json_text, json_debug, serde_json_debug};
use crate::base64::{base64_encode, base64_standard};
use crate::outside::{escape, snailquote_escape, debug_str, debug_string};

verus! {

/// A value stored in a leaf node or produced by executing a node.
#[derive(Debug)]
#[allow(non_camel_case_types)]
pub enum NodeValue {
    /// No value
    NULL,
    /// A string value
    STRING(String),
    /// Boolean value
    BOOL(bool),
    /// Multi-string map (string key to one or more string values); keys do not repeat
    MMAP(Vec<(String, Vec<String>)>),
    /// List of string values
    SLIST(Vec<String>),
    /// Byte array
    BARRAY(Vec<u8>),
    /// Namespaced value
    NAMESPACED(String, String),
    /// Unsigned integer
    UINT(u64),
    /// JSON
    JSON(JsonValue),
    /// List of values (the results of an action applied to several arguments)
    LIST(Vec<NodeValue>),
}

/// The model of a [`NodeValue`].
#[allow(non_camel_case_types)]
pub enum NodeVal {
    NULL,
    STRING(Seq<char>),
    BOOL(bool),
    MMAP(Seq<(Seq<char>, Seq<Seq<char>>)>),
    SLIST(Seq<Seq<char>>),
    BARRAY(Seq<u8>),
    NAMESPACED(Seq<char>, Seq<char>),
    UINT(u64),
    JSON(Json),
    LIST(Seq<NodeVal>),
}

/// The model of the entries of a multi-string map.
pub open spec fn mmap_view(m: Seq<(String, Vec<String>)>) -> Seq<(Seq<char>, Seq<Seq<char>>)> {
    m.map_values(|e: (String, Vec<String>)| (e.0@, string_views(e.1@)))
}

/// The model of a node value.
pub open spec fn node_value_view(v: NodeValue) -> NodeVal
    decreases v, 1nat,
{
    match v {
        NodeValue::NULL => NodeVal::NULL,
        NodeValue::STRING(s) => NodeVal::STRING(s@),
        NodeValue::BOOL(b) => NodeVal::BOOL(b),
        NodeValue::MMAP(m) => NodeVal::MMAP(mmap_view(m@)),
        NodeValue::SLIST(l) => NodeVal::SLIST(string_views(l@)),
        NodeValue::BARRAY(b) => NodeVal::BARRAY(b@),
        NodeValue::NAMESPACED(n, s) => NodeVal::NAMESPACED(n@, s@),
        NodeValue::UINT(u) => NodeVal::UINT(u),
        NodeValue::JSON(j) => NodeVal::JSON(j@),
        NodeValue::LIST(xs) => {
            proof { vstd::std_specs::vec::axiom_vec_decreases_to_view(xs); }
            NodeVal::LIST(node_value_views(xs@))
        },
    }
}

/// The models of a sequence of node values.
pub open spec fn node_value_views(xs: Seq<NodeValue>) -> Seq<NodeVal>
    decreases xs, 0nat,
{
    if xs.len() == 0 {
        Seq::empty()
    } else {
        node_value_views(xs.drop_last()).push(node_value_view(xs.last()))
    }
}

impl View for NodeValue {
    type V = NodeVal;

    open spec fn view(&self) -> NodeVal {
        node_value_view(*self)
    }
}

/// The models of a sequence of node values, element by element.
pub proof fn lemma_node_value_views(xs: Seq<NodeValue>)
    ensures
        node_value_views(xs).len() == xs.len(),
        forall|i: int| 0 <= i < xs.len() ==> #[trigger] node_value_views(xs)[i] == node_value_view(xs[i]),
    decreases xs.len(),
{
    if xs.len() > 0 {
        lemma_node_value_views(xs.drop_last());
    }
}

/// A string as it appears in the text form of a plan: escaped by `snailquote`, and put in
/// single quotes when it needed no escaping.
pub open spec fn escaped_text(s: Seq<char>) -> Seq<char> {
    let (t, unchanged) = snailquote_escape(s);
    if unchanged { seq!['\''] + t + seq!['\''] } else { t }
}

/// The escaped forms of some strings.
pub open spec fn escaped_all(items: Seq<Seq<char>>) -> Seq<Seq<char>> {
    items.map_values(|s: Seq<char>| escaped_text(s))
}

/// The text of one multi-string map entry, `key: value` or `key: [v1, v2]`.
pub open spec fn mmap_entry_text(e: (Seq<char>, Seq<Seq<char>>)) -> Seq<char> {
    escaped_text(e.0) + if e.1.len() == 0 {
        ": []"@
    } else if e.1.len() == 1 {
        ": "@ + escaped_text(e.1[0])
    } else {
        ": ["@ + joined(", "@, escaped_all(e.1)) + "]"@
    }
}

/// The encoded text form of a node value.
pub open spec fn value_text(v: NodeVal) -> Seq<char>
    decreases v, 1nat,
{
    match v {
        NodeVal::NULL => "NULL"@,
        NodeVal::STRING(s) => escaped_text(s),
        NodeVal::BOOL(b) => "BOOL("@ + bool_text(b) + ")"@,
        NodeVal::MMAP(m) => "{"@ + joined(", "@, m.map_values(|e: (Seq<char>, Seq<Seq<char>>)| mmap_entry_text(e))) + "}"@,
        NodeVal::SLIST(l) => "["@ + joined(", "@, escaped_all(l)) + "]"@,
        NodeVal::BARRAY(b) => "BYTES("@ + decimal(b.len()) + ", "@ + base64_standard(b) + ")"@,
        NodeVal::NAMESPACED(n, s) => n + ":"@ + s,
        NodeVal::UINT(u) => "UINT("@ + decimal(u as nat) + ")"@,
        NodeVal::JSON(j) => "json:"@ + serde_json_text(j),
        NodeVal::LIST(xs) => "["@ + list_text(xs) + "]"@,
    }
}

/// The text forms of some node values, separated by `, `.
pub open spec fn list_text(xs: Seq<NodeVal>) -> Seq<char>
    decreases xs, 0nat,
{
    if xs.len() == 0 {
        Seq::empty()
    } else if xs.len() == 1 {
        value_text(xs[0])
    } else {
        list_text(xs.drop_last()) + ", "@ + value_text(xs.last())
    }
}

/// The `Debug` forms of some strings.
pub open spec fn debug_all(l: Seq<Seq<char>>) -> Seq<Seq<char>> {
    l.map_values(|s: Seq<char>| debug_string(s))
}

/// The decimal forms of some bytes.
pub open spec fn byte_texts(b: Seq<u8>) -> Seq<Seq<char>> {
    b.map_values(|x: u8| decimal(x as nat))
}

/// The `Debug` form of one multi-string map entry, `"key": ["v1", "v2"]`.
pub open spec fn mmap_entry_debug(e: (Seq<char>, Seq<Seq<char>>)) -> Seq<char> {
    debug_string(e.0) + ": ["@ + joined(", "@, debug_all(e.1)) + "]"@
}

/// The `Debug` form of a node value: the variant's name and its fields as `Debug` writes
/// them, as in `STRING("a")` or `SLIST(["a", "b"])`.
pub open spec fn value_debug(v: NodeVal) -> Seq<char>
    decreases v, 1nat,
{
    match v {
        NodeVal::NULL => "NULL"@,
        NodeVal::STRING(s) => "STRING("@ + debug_string(s) + ")"@,
        NodeVal::BOOL(b) => "BOOL("@ + bool_text(b) + ")"@,
        NodeVal::MMAP(m) => "MMAP({"@ + joined(", "@, m.map_values(|e: (Seq<char>, Seq<Seq<char>>)| mmap_entry_debug(e))) + "})"@,
        NodeVal::SLIST(l) => "SLIST(["@ + joined(", "@, debug_all(l)) + "])"@,
        NodeVal::BARRAY(b) => "BARRAY(["@ + joined(", "@, byte_texts(b)) + "])"@,
        NodeVal::NAMESPACED(n, s) => "NAMESPACED("@ + debug_string(n) + ", "@ + debug_string(s) + ")"@,
        NodeVal::UINT(u) => "UINT("@ + decimal(u as nat) + ")"@,
        NodeVal::JSON(j) => "JSON("@ + serde_json_debug(j) + ")"@,
        NodeVal::LIST(xs) => "LIST(["@ + list_debug(xs) + "])"@,
    }
}

/// The `Debug` forms of some node values, separated by `, `.
pub open spec fn list_debug(xs: Seq<NodeVal>) -> Seq<char>
    decreases xs, 0nat,
{
    if xs.len() == 0 {
        Seq::empty()
    } else if xs.len() == 1 {
        value_debug(xs[0])
    } else {
        list_debug(xs.drop_last()) + ", "@ + value_debug(xs.last())
    }
}

/// The name of the type of a node value.
pub open spec fn value_type_name(v: NodeVal) -> Seq<char> {
    match v {
        NodeVal::NULL => "NULL"@,
        NodeVal::STRING(_) => "String"@,
        NodeVal::BOOL(_) => "Boolean"@,
        NodeVal::MMAP(_) => "Multi-Value String Map"@,
        NodeVal::SLIST(_) => "String List"@,
        NodeVal::BARRAY(_) => "Byte Array"@,
        NodeVal::NAMESPACED(_, _) => "Namespaced Value"@,
        NodeVal::UINT(_) => "Unsigned Integer"@,
        NodeVal::JSON(_) => "JSON"@,
        NodeVal::LIST(_) => "List"@,
    }
}

/// Appends the escaped form of a string.
pub fn push_escaped(buf: &mut String, s: &str)
    ensures
        final(buf)@ == old(buf)@ + escaped_text(s@),
{
    let (t, unchanged) = escape(s);
    if unchanged {
        push_char(buf, '\'');
        push_str(buf, t.as_str());
        push_char(buf, '\'');
    } else {
        push_str(buf, t.as_str());
    }
    assert(buf@ =~= old(buf)@ + escaped_text(s@));
}

/// Appends the escaped forms of some strings, separated by `, `.
pub fn push_escaped_list(buf: &mut String, items: &Vec<String>)
    ensures
        final(buf)@ == old(buf)@ + joined(", "@, escaped_all(string_views(items@))),
{
    let mut i: usize = 0;
    while i < items.len()
        invariant
            i <= items.len(),
            buf@ == old(buf)@ + joined(", "@, escaped_all(string_views(items@.subrange(0, i as int)))),
        decreases items.len() - i,
    {
        proof {
            reveal_strlit(", ");
            assert(escaped_all(string_views(items@.subrange(0, i + 1))) =~= escaped_all(string_views(items@.subrange(0, i as int))).push(escaped_text(items@[i as int]@)));
            lemma_joined_push(", "@, escaped_all(string_views(items@.subrange(0, i as int))), escaped_text(items@[i as int]@));
        }
        if i > 0 {
            push_str(buf, ", ");
        }
        push_escaped(buf, items[i].as_str());
        i = i + 1;
        assert(buf@ =~= old(buf)@ + joined(", "@, escaped_all(string_views(items@.subrange(0, i as int)))));
    }
    assert(items@.subrange(0, items.len() as int) =~= items@);
}

fn push_mmap_entry(buf: &mut String, key: &String, values: &Vec<String>)
    ensures
        final(buf)@ == old(buf)@ + mmap_entry_text((key@, string_views(values@))),
{
    proof {
        reveal_strlit(": []");
        reveal_strlit(": ");
        reveal_strlit(": [");
        reveal_strlit("]");
    }
    push_escaped(buf, key.as_str());
    if values.len() == 0 {
        push_str(buf, ": []");
    } else if values.len() == 1 {
        push_str(buf, ": ");
        push_escaped(buf, values[0].as_str());
    } else {
        push_str(buf, ": [");
        push_escaped_list(buf, values);
        push_str(buf, "]");
    }
    assert(buf@ =~= old(buf)@ + mmap_entry_text((key@, string_views(values@))));
}

/// Appends the text of the entries of a multi-string map, separated by `, `.
fn push_mmap(buf: &mut String, m: &Vec<(String, Vec<String>)>)
    ensures
        final(buf)@ == old(buf)@ + joined(", "@, mmap_view(m@).map_values(|e: (Seq<char>, Seq<Seq<char>>)| mmap_entry_text(e))),
{
    let ghost texts = mmap_view(m@).map_values(|e: (Seq<char>, Seq<Seq<char>>)| mmap_entry_text(e));
    let mut i: usize = 0;
    while i < m.len()
        invariant
            i <= m.len(),
            texts == mmap_view(m@).map_values(|e: (Seq<char>, Seq<Seq<char>>)| mmap_entry_text(e)),
            buf@ == old(buf)@ + joined(", "@, texts.subrange(0, i as int)),
        decreases m.len() - i,
    {
        proof {
            reveal_strlit(", ");
            assert(texts.subrange(0, i + 1) =~= texts.subrange(0, i as int).push(texts[i as int]));
            lemma_joined_push(", "@, texts.subrange(0, i as int), texts[i as int]);
        }
        if i > 0 {
            push_str(buf, ", ");
        }
        push_mmap_entry(buf, &m[i].0, &m[i].1);
        i = i + 1;
        assert(buf@ =~= old(buf)@ + joined(", "@, texts.subrange(0, i as int)));
    }
    assert(texts.subrange(0, m.len() as int) =~= texts);
}

/// Appends the `Debug` forms of some strings, separated by `, `.
fn push_debug_list(buf: &mut String, items: &Vec<String>)
    ensures
        final(buf)@ == old(buf)@ + joined(", "@, debug_all(string_views(items@))),
{
    let mut i: usize = 0;
    while i < items.len()
        invariant
            i <= items.len(),
            buf@ == old(buf)@ + joined(", "@, debug_all(string_views(items@.subrange(0, i as int)))),
        decreases items.len() - i,
    {
        proof {
            reveal_strlit(", ");
            assert(debug_all(string_views(items@.subrange(0, i + 1))) =~= debug_all(string_views(items@.subrange(0, i as int))).push(debug_string(items@[i as int]@)));
            lemma_joined_push(", "@, debug_all(string_views(items@.subrange(0, i as int))), debug_string(items@[i as int]@));
        }
        if i > 0 {
            push_str(buf, ", ");
        }
        let d = debug_str(items[i].as_str());
        push_str(buf, d.as_str());
        i = i + 1;
        assert(buf@ =~= old(buf)@ + joined(", "@, debug_all(string_views(items@.subrange(0, i as int)))));
    }
    assert(items@.subrange(0, items.len() as int) =~= items@);
}

/// Appends the decimal forms of some bytes, separated by `, `.
fn push_byte_list(buf: &mut String, bytes: &Vec<u8>)
    ensures
        final(buf)@ == old(buf)@ + joined(", "@, byte_texts(bytes@)),
{
    let mut i: usize = 0;
    while i < bytes.len()
        invariant
            i <= bytes.len(),
            buf@ == old(buf)@ + joined(", "@, byte_texts(bytes@.subrange(0, i as int))),
        decreases bytes.len() - i,
    {
        proof {
            reveal_strlit(", ");
            assert(byte_texts(bytes@.subrange(0, i + 1)) =~= byte_texts(bytes@.subrange(0, i as int)).push(decimal(bytes@[i as int] as nat)));
            lemma_joined_push(", "@, byte_texts(bytes@.subrange(0, i as int)), decimal(bytes@[i as int] as nat));
        }
        if i > 0 {
            push_str(buf, ", ");
        }
        push_decimal(buf, bytes[i] as u64);
        i = i + 1;
        assert(buf@ =~= old(buf)@ + joined(", "@, byte_texts(bytes@.subrange(0, i as int))));
    }
    assert(bytes@.subrange(0, bytes.len() as int) =~= bytes@);
}

/// Appends the `Debug` forms of the entries of a multi-string map, separated by `, `.
fn push_mmap_debug(buf: &mut String, m: &Vec<(String, Vec<String>)>)
    ensures
        final(buf)@ == old(buf)@ + joined(", "@, mmap_view(m@).map_values(|e: (Seq<char>, Seq<Seq<char>>)| mmap_entry_debug(e))),
{
    let ghost texts = mmap_view(m@).map_values(|e: (Seq<char>, Seq<Seq<char>>)| mmap_entry_debug(e));
    let mut i: usize = 0;
    while i < m.len()
        invariant
            i <= m.len(),
            texts == mmap_view(m@).map_values(|e: (Seq<char>, Seq<Seq<char>>)| mmap_entry_debug(e)),
            buf@ == old(buf)@ + joined(", "@, texts.subrange(0, i as int)),
        decreases m.len() - i,
    {
        proof {
            reveal_strlit(", ");
            reveal_strlit(": [");
            reveal_strlit("]");
            assert(texts.subrange(0, i + 1) =~= texts.subrange(0, i as int).push(texts[i as int]));
            lemma_joined_push(", "@, texts.subrange(0, i as int), texts[i as int]);
        }
        if i > 0 {
            push_str(buf, ", ");
        }
        let k = debug_str(m[i].0.as_str());
        push_str(buf, k.as_str());
        push_str(buf, ": [");
        push_debug_list(buf, &m[i].1);
        push_str(buf, "]");
        i = i + 1;
        assert(buf@ =~= old(buf)@ + joined(", "@, texts.subrange(0, i as int)));
    }
    assert(texts.subrange(0, m.len() as int) =~= texts);
}

impl NodeValue {
    /// A copy of this value.
    pub fn copy(&self) -> (r: NodeValue)
        ensures
            r@ == self@,
        decreases self,
    {
        match self {
            NodeValue::NULL => NodeValue::NULL,
            NodeValue::STRING(s) => NodeValue::STRING(s.clone()),
            NodeValue::BOOL(b) => NodeValue::BOOL(*b),
            NodeValue::MMAP(m) => {
                let mut out: Vec<(String, Vec<String>)> = Vec::new();
                let mut i: usize = 0;
                while i < m.len()
                    invariant
                        i <= m.len(),
                        out.len() == i,
                        forall|j: int| 0 <= j < i ==> (#[trigger] out@[j]).0@ == m@[j].0@ && string_views(out@[j].1@) == string_views(m@[j].1@),
                    decreases m.len() - i,
                {
                    let k = m[i].0.clone();
                    let vs = copy_strings(&m[i].1);
                    out.push((k, vs));
                    i = i + 1;
                }
                let r = NodeValue::MMAP(out);
                assert(mmap_view(out@) =~= mmap_view(m@));
                r
            },
            NodeValue::SLIST(l) => NodeValue::SLIST(copy_strings(l)),
            NodeValue::BARRAY(b) => NodeValue::BARRAY(b.clone()),
            NodeValue::NAMESPACED(n, s) => NodeValue::NAMESPACED(n.clone(), s.clone()),
            NodeValue::UINT(u) => NodeValue::UINT(*u),
            NodeValue::JSON(j) => NodeValue::JSON(j.copy()),
            NodeValue::LIST(xs) => {
                proof { lemma_node_value_views(xs@); }
                let mut out: Vec<NodeValue> = Vec::new();
                let mut i: usize = 0;
                while i < xs.len()
                    invariant
                        *self == NodeValue::LIST(*xs),
                        i <= xs.len(),
                        out.len() == i,
                        forall|j: int| 0 <= j < i ==> node_value_view(#[trigger] out@[j]) == node_value_view(xs@[j]),
                    decreases xs.len() - i,
                {
                    proof {
                        vstd::std_specs::vec::axiom_vec_index_decreases(*xs, i as int);
                        assert(decreases_to!(*self => (*self)->LIST_0));
                        assert(decreases_to!(*self => xs[i as int]));
                    }
                    let c = xs[i].copy();
                    out.push(c);
                    i = i + 1;
                }
                proof { lemma_node_value_views(out@); }
                assert(node_value_views(out@) =~= node_value_views(xs@));
                NodeValue::LIST(out)
            },
        }
    }

    /// Returns the encoded string form of the node value.
    pub fn str_form(&self) -> (r: String)
        ensures
            r@ == value_text(self@),
    {
        let mut s = String::new();
        self.write_str_form(&mut s);
        assert(s@ =~= value_text(self@));
        s
    }

    /// Appends the encoded string form of the node value.
    pub fn write_str_form(&self, buf: &mut String)
        ensures
            final(buf)@ == old(buf)@ + value_text(self@),
        decreases self,
    {
        proof {
            reveal_strlit("NULL");
            reveal_strlit("BOOL(");
            reveal_strlit(")");
            reveal_strlit("{");
            reveal_strlit("}");
            reveal_strlit("[");
            reveal_strlit("]");
            reveal_strlit("BYTES(");
            reveal_strlit(", ");
            reveal_strlit(":");
            reveal_strlit("UINT(");
            reveal_strlit("json:");
        }
        match self {
            NodeValue::NULL => push_str(buf, "NULL"),
            NodeValue::STRING(s) => push_escaped(buf, s.as_str()),
            NodeValue::BOOL(b) => {
                push_str(buf, "BOOL(");
                push_bool(buf, *b);
                push_str(buf, ")");
            },
            NodeValue::MMAP(m) => {
                push_str(buf, "{");
                push_mmap(buf, m);
                push_str(buf, "}");
            },
            NodeValue::SLIST(l) => {
                push_str(buf, "[");
                push_escaped_list(buf, l);
                push_str(buf, "]");
            },
            NodeValue::BARRAY(b) => {
                push_str(buf, "BYTES(");
                push_decimal(buf, b.len() as u64);
                push_str(buf, ", ");
                let e = base64_encode(b.as_slice());
                push_str(buf, e.as_str());
                push_str(buf, ")");
            },
            NodeValue::NAMESPACED(n, v) => {
                push_str(buf, n.as_str());
                push_str(buf, ":");
                push_str(buf, v.as_str());
            },
            NodeValue::UINT(u) => {
                push_str(buf, "UINT(");
                push_decimal(buf, *u);
                push_str(buf, ")");
            },
            NodeValue::JSON(j) => {
                push_str(buf, "json:");
                let t = json_text(j);
                push_str(buf, t.as_str());
            },
            NodeValue::LIST(xs) => {
                push_str(buf, "[");
                proof { lemma_node_value_views(xs@); }
                let mut i: usize = 0;
                while i < xs.len()
                    invariant
                        *self == NodeValue::LIST(*xs),
                        i <= xs.len(),
                        node_value_views(xs@).len() == xs.len(),
                        forall|j: int| 0 <= j < xs.len() ==> #[trigger] node_value_views(xs@)[j] == node_value_view(xs@[j]),
                        buf@ == old(buf)@ + "["@ + list_text(node_value_views(xs@).subrange(0, i as int)),
                    decreases xs.len() - i,
                {
                    proof {
                        vstd::std_specs::vec::axiom_vec_index_decreases(*xs, i as int);
                        assert(decreases_to!(*self => (*self)->LIST_0));
                        assert(decreases_to!(*self => xs[i as int]));
                        let sub = node_value_views(xs@).subrange(0, i + 1);
                        assert(sub.drop_last() =~= node_value_views(xs@).subrange(0, i as int));
                    }
                    if i > 0 {
                        push_str(buf, ", ");
                    }
                    xs[i].write_str_form(buf);
                    i = i + 1;
                    assert(buf@ =~= old(buf)@ + "["@ + list_text(node_value_views(xs@).subrange(0, i as int)));
                }
                assert(node_value_views(xs@).subrange(0, xs.len() as int) =~= node_value_views(xs@));
                push_str(buf, "]");
            },
        }
        assert(buf@ =~= old(buf)@ + value_text(self@));
    }

    /// Returns the `Debug` form of the node value; see [`value_debug`].
    pub fn debug_form(&self) -> (r: String)
        ensures
            r@ == value_debug(self@),
    {
        let mut s = String::new();
        self.write_debug(&mut s);
        assert(s@ =~= value_debug(self@));
        s
    }

    /// Appends the `Debug` form of the node value.
    pub fn write_debug(&self, buf: &mut String)
        ensures
            final(buf)@ == old(buf)@ + value_debug(self@),
        decreases self,
    {
        proof {
            reveal_strlit("NULL");
            reveal_strlit("STRING(");
            reveal_strlit("BOOL(");
            reveal_strlit(")");
            reveal_strlit("MMAP({");
            reveal_strlit("})");
            reveal_strlit("SLIST([");
            reveal_strlit("])");
            reveal_strlit("BARRAY([");
            reveal_strlit("NAMESPACED(");
            reveal_strlit(", ");
            reveal_strlit("UINT(");
            reveal_strlit("JSON(");
            reveal_strlit("LIST([");
        }
        match self {
            NodeValue::NULL => push_str(buf, "NULL"),
            NodeValue::STRING(s) => {
                push_str(buf, "STRING(");
                let d = debug_str(s.as_str());
                push_str(buf, d.as_str());
                push_str(buf, ")");
            },
            NodeValue::BOOL(b) => {
                push_str(buf, "BOOL(");
                push_bool(buf, *b);
                push_str(buf, ")");
            },
            NodeValue::MMAP(m) => {
                push_str(buf, "MMAP({");
                push_mmap_debug(buf, m);
                push_str(buf, "})");
            },
            NodeValue::SLIST(l) => {
                push_str(buf, "SLIST([");
                push_debug_list(buf, l);
                push_str(buf, "])");
            },
            NodeValue::BARRAY(b) => {
                push_str(buf, "BARRAY([");
                push_byte_list(buf, b);
                push_str(buf, "])");
            },
            NodeValue::NAMESPACED(n, v) => {
                push_str(buf, "NAMESPACED(");
                let dn = debug_str(n.as_str());
                push_str(buf, dn.as_str());
                push_str(buf, ", ");
                let dv = debug_str(v.as_str());
                push_str(buf, dv.as_str());
                push_str(buf, ")");
            },
            NodeValue::UINT(u) => {
                push_str(buf, "UINT(");
                push_decimal(buf, *u);
                push_str(buf, ")");
            },
            NodeValue::JSON(j) => {
                push_str(buf, "JSON(");
                let t = json_debug(j);
                push_str(buf, t.as_str());
                push_str(buf, ")");
            },
            NodeValue::LIST(xs) => {
                push_str(buf, "LIST([");
                proof { lemma_node_value_views(xs@); }
                let mut i: usize = 0;
                while i < xs.len()
                    invariant
                        *self == NodeValue::LIST(*xs),
                        i <= xs.len(),
                        node_value_views(xs@).len() == xs.len(),
                        forall|j: int| 0 <= j < xs.len() ==> #[trigger] node_value_views(xs@)[j] == node_value_view(xs@[j]),
                        buf@ == old(buf)@ + "LIST(["@ + list_debug(node_value_views(xs@).subrange(0, i as int)),
                    decreases xs.len() - i,
                {
                    proof {
                        vstd::std_specs::vec::axiom_vec_index_decreases(*xs, i as int);
                        assert(decreases_to!(*self => (*self)->LIST_0));
                        assert(decreases_to!(*self => xs[i as int]));
                        let sub = node_value_views(xs@).subrange(0, i + 1);
                        assert(sub.drop_last() =~= node_value_views(xs@).subrange(0, i as int));
                    }
                    if i > 0 {
                        push_str(buf, ", ");
                    }
                    xs[i].write_debug(buf);
                    i = i + 1;
                    assert(buf@ =~= old(buf)@ + "LIST(["@ + list_debug(node_value_views(xs@).subrange(0, i as int)));
                }
                assert(node_value_views(xs@).subrange(0, xs.len() as int) =~= node_value_views(xs@));
                push_str(buf, "])");
            },
        }
        assert(buf@ =~= old(buf)@ + value_debug(self@));
    }

    /// Returns the type of the value.
    pub fn value_type(&self) -> (r: &'static str)
        ensures
            r@ == value_type_name(self@),
    {
        proof {
            reveal_strlit("NULL");
            reveal_strlit("String");
            reveal_strlit("Boolean");
            reveal_strlit("Multi-Value String Map");
            reveal_strlit("String List");
            reveal_strlit("Byte Array");
            reveal_strlit("Namespaced Value");
            reveal_strlit("Unsigned Integer");
            reveal_strlit("JSON");
            reveal_strlit("List");
        }
        match self {
            NodeValue::NULL => "NULL",
            NodeValue::STRING(_) => "String",
            NodeValue::BOOL(_) => "Boolean",
            NodeValue::MMAP(_) => "Multi-Value String Map",
            NodeValue::SLIST(_) => "String List",
            NodeValue::BARRAY(_) => "Byte Array",
            NodeValue::NAMESPACED(_, _) => "Namespaced Value",
            NodeValue::UINT(_) => "Unsigned Integer",
            NodeValue::JSON(_) => "JSON",
            NodeValue::LIST(_) => "List",
        }
    }
}

/// A copy of a vector of strings.
pub fn copy_strings(v: &Vec<String>) -> (r: Vec<String>)
    ensures
        string_views(r@) == string_views(v@),
{
    let mut out: Vec<String> = Vec::new();
    let mut i: usize = 0;
    while i < v.len()
        invariant
            i <= v.len(),
            out.len() == i,
            forall|j: int| 0 <= j < i ==> (#[trigger] out@[j])@ == v@[j]@,
        decreases v.len() - i,
    {
        out.push(v[i].clone());
        i = i + 1;
    }
    assert(string_views(out@) =~= string_views(v@));
    out
}

} // verus!
