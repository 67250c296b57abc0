//! Properties that hold across the operations of the library: how results combine, how the
//! value stack behaves, what the generator collections keep, and what reads back what was
//! written.

use vstd::prelude::*;
use crate::result::{NodeRes, result_or, children_failed};
use crate::context::stack_top;
use crate::docpath::{Step, last_field_name};
use crate::json::Json;
use crate::actions::first_entry;
use crate::generators::{Gen, GenEntries, GeneratorCategory, DataType, gens_put, gens_empty, gen_lookup,
    gen_json, gen_from_map, data_type_name, data_type_of, lemma_gens_put, first_index, put, lemma_first_of_index, int_text};
use crate::text::{decimal, joined, lemma_joined_push};
use crate::value::{NodeVal, value_text};
use crate::json::serde_json_text;
use crate::actions::{json_expect_entries_verdict, json_expect_empty_verdict, json_match_length_verdict, json_type_arg, json_type_error,
    entries_check, empty_check, missing_items, all_join_texts};
use crate::exec::{check_exists_verdict, transform_result};

verus! {

/// Combining a result with no child result leaves it as it is.
pub proof fn law_or_without_child_keeps_result(a: NodeRes)
    ensures
        result_or(a, None) == a,
{
}

/// A failed child makes the combined result an error, whatever the result was.
pub proof fn law_or_with_failed_child_fails(a: NodeRes, e: Seq<char>)
    ensures
        result_or(a, Some(NodeRes::ERROR(e))) == NodeRes::ERROR(children_failed()),
{
}

/// Once a result is an error, combining it with any child result keeps it an error.
pub proof fn law_or_keeps_failure(e: Seq<char>, b: NodeRes)
    ensures
        result_or(NodeRes::ERROR(e), Some(b)) == NodeRes::ERROR(children_failed()),
{
}

/// Combining `OK` with a child that did not fail gives the child's result.
pub proof fn law_or_ok_takes_child_result(b: NodeRes)
    requires
        !(b is ERROR),
    ensures
        result_or(NodeRes::OK, Some(b)) == b,
{
}

/// Popping right after pushing gives back the pushed value and the stack as it was.
pub proof fn law_pop_undoes_push(s: Seq<Option<NodeRes>>, x: Option<NodeRes>)
    ensures
        stack_top(s.push(x)) == x,
        s.push(x).drop_last() == s,
{
    assert(s.push(x).drop_last() =~= s);
}

/// The top of the stack after replacing it is the new value.
pub proof fn law_top_after_update(s: Seq<Option<NodeRes>>, x: Option<NodeRes>)
    requires
        s.len() > 0,
    ensures
        stack_top(s.drop_last().push(x)) == x,
{
}

/// After adding a generator, the collection is not empty.
pub proof fn law_not_empty_after_add(cats: Seq<(GeneratorCategory, GenEntries)>, c: GeneratorCategory, k: Seq<char>, g: Gen)
    ensures
        !gens_empty(gens_put(cats, c, k, g)),
{
    lemma_first_of_index(cats, c);
    match first_index(cats, c) {
        Some(i) => {
            let entries = cats[i].1;
            lemma_first_of_index(entries, k);
            let after = gens_put(cats, c, k, g);
            assert(after[i].1 == put(entries, k, g));
            assert(after[i].1.len() > 0);
        },
        None => {
            let after = gens_put(cats, c, k, g);
            assert(after[cats.len() as int].1.len() == 1);
        },
    }
}

/// Adding a generator under a key that already has one replaces it: the collection then
/// reads as if only the second had been added.
pub proof fn law_second_add_replaces_first(cats: Seq<(GeneratorCategory, GenEntries)>, c: GeneratorCategory, k: Seq<char>,
    g1: Gen, g2: Gen, c2: GeneratorCategory, k2: Seq<char>)
    ensures
        gen_lookup(gens_put(gens_put(cats, c, k, g1), c, k, g2), c2, k2) == gen_lookup(gens_put(cats, c, k, g2), c2, k2),
{
    lemma_gens_put(gens_put(cats, c, k, g1), c, k, g2, c2, k2);
    lemma_gens_put(cats, c, k, g1, c2, k2);
    lemma_gens_put(cats, c, k, g2, c2, k2);
}

/// The name of a data type reads back as that data type.
pub proof fn law_data_type_read_back_from_its_name(d: DataType)
    ensures
        data_type_of(Json::Str(data_type_name(d))) == d,
{
    reveal_strlit("STRING");
    reveal_strlit("INTEGER");
    reveal_strlit("DECIMAL");
    reveal_strlit("FLOAT");
    reveal_strlit("RAW");
    reveal_strlit("BOOLEAN");
    let names = seq!["STRING"@, "INTEGER"@, "DECIMAL"@, "FLOAT"@, "BOOLEAN"@, "RAW"@];
    assert forall|i: int, j: int| 0 <= i < j < names.len() implies names[i] != names[j] by {
        if names[i].len() == names[j].len() {
            assert(names[i][0] != names[j][0]);
        }
    }
    assert(names[0] == "STRING"@ && names[1] == "INTEGER"@ && names[2] == "DECIMAL"@);
    assert(names[3] == "FLOAT"@ && names[4] == "BOOLEAN"@ && names[5] == "RAW"@);
}

/// The last field of a path with a field added is that field.
pub proof fn law_last_field_of_join(p: Seq<Step>, name: Seq<char>)
    ensures
        last_field_name(p.push(Step::Field(name))) == Some(name),
{
}

proof fn lemma_first_entry_of_one(a: (Seq<char>, Json), k: Seq<char>)
    ensures
        first_entry(seq![a], k) == if a.0 == k { Some(a.1) } else { None::<Json> },
{
    reveal_with_fuel(first_entry, 2);
    assert(seq![a].drop_first() =~= Seq::<(Seq<char>, Json)>::empty());
}

proof fn lemma_first_entry_of_two(a: (Seq<char>, Json), b: (Seq<char>, Json), k: Seq<char>)
    ensures
        first_entry(seq![a, b], k) == if a.0 == k { Some(a.1) } else if b.0 == k { Some(b.1) } else { None::<Json> },
{
    reveal_with_fuel(first_entry, 3);
    assert(seq![a, b].drop_first() =~= seq![b]);
    assert(seq![b].drop_first() =~= Seq::<(Seq<char>, Json)>::empty());
}

proof fn lemma_first_entry_of_three(a: (Seq<char>, Json), b: (Seq<char>, Json), c: (Seq<char>, Json), k: Seq<char>)
    ensures
        first_entry(seq![a, b, c], k) == if a.0 == k { Some(a.1) } else { first_entry(seq![b, c], k) },
{
    assert(seq![a, b, c].drop_first() =~= seq![b, c]);
}

/// The generator a JSON object describes: the one that its `type` names, read from it.
pub open spec fn generator_of_json(j: Json) -> Option<Gen> {
    match j {
        Json::Object(m) => match first_entry(m, "type"@) {
            Some(Json::Str(t)) => gen_from_map(t, m),
            _ => None,
        },
        _ => None,
    }
}

/// A generator without numbers reads back from its JSON form: the JSON has its type, and
/// the map read with that type gives the generator. (A generator with numbers reads back too,
/// through `serde_json`'s reading of the number text when the map is read; that is stated
/// by the `ensures` of `Generator::from_map`.)
pub proof fn law_generator_read_back_from_its_json(g: Gen)
    requires
        !(g is RandomInt || g is RandomDecimal || g is RandomHexadecimal || g is RandomString),
    ensures
        generator_of_json(gen_json(g)) == Some(g),
{
    reveal_strlit("type");
    reveal_strlit("regex");
    reveal_strlit("format");
    reveal_strlit("dataType");
    reveal_strlit("expression");
    reveal_strlit("example");
    reveal_strlit("RandomInt");
    reveal_strlit("Uuid");
    reveal_strlit("RandomDecimal");
    reveal_strlit("RandomHexadecimal");
    reveal_strlit("RandomString");
    reveal_strlit("Regex");
    reveal_strlit("Date");
    reveal_strlit("Time");
    reveal_strlit("DateTime");
    reveal_strlit("RandomBoolean");
    reveal_strlit("ProviderState");
    reveal_strlit("MockServerURL");
    assert("type"@.len() == 4);
    assert("regex"@.len() == 5);
    assert("format"@.len() == 6);
    assert("dataType"@.len() == 8);
    assert("expression"@.len() == 10);
    assert("example"@.len() == 7);
    assert("RandomInt"@.len() == 9);
    assert("Uuid"@.len() == 4);
    assert("RandomDecimal"@.len() == 13);
    assert("RandomHexadecimal"@.len() == 17);
    assert("RandomString"@.len() == 12);
    assert("Regex"@.len() == 5);
    assert("Date"@.len() == 4);
    assert("Time"@.len() == 4);
    assert("DateTime"@.len() == 8);
    assert("RandomBoolean"@.len() == 13);
    assert("ProviderState"@.len() == 13);
    assert("MockServerURL"@.len() == 13);
    assert("Date"@ != "Uuid"@) by { assert("Date"@[0] != "Uuid"@[0]); }
    assert("Time"@ != "Uuid"@) by { assert("Time"@[0] != "Uuid"@[0]); }
    assert("Time"@ != "Date"@) by { assert("Time"@[0] != "Date"@[0]); }
    assert("RandomBoolean"@ != "RandomDecimal"@) by { assert("RandomBoolean"@[6] != "RandomDecimal"@[6]); }
    assert("ProviderState"@ != "RandomDecimal"@) by { assert("ProviderState"@[0] != "RandomDecimal"@[0]); }
    assert("ProviderState"@ != "RandomBoolean"@) by { assert("ProviderState"@[0] != "RandomBoolean"@[0]); }
    assert("MockServerURL"@ != "RandomDecimal"@) by { assert("MockServerURL"@[0] != "RandomDecimal"@[0]); }
    assert("MockServerURL"@ != "RandomBoolean"@) by { assert("MockServerURL"@[0] != "RandomBoolean"@[0]); }
    assert("MockServerURL"@ != "ProviderState"@) by { assert("MockServerURL"@[0] != "ProviderState"@[0]); }
    let m = match gen_json(g) {
        Json::Object(m) => m,
        _ => Seq::empty(),
    };
    assert(gen_json(g) is Object);
    match g {
        Gen::Uuid => {
            assert(m =~= seq![("type"@, Json::Str("Uuid"@))]);
            lemma_first_entry_of_one(("type"@, Json::Str("Uuid"@)), "type"@);
        },
        Gen::RandomBoolean => {
            assert(m =~= seq![("type"@, Json::Str("RandomBoolean"@))]);
            lemma_first_entry_of_one(("type"@, Json::Str("RandomBoolean"@)), "type"@);
        },
        Gen::Regex(r) => {
            assert(m =~= seq![("regex"@, Json::Str(r)), ("type"@, Json::Str("Regex"@))]);
            lemma_first_entry_of_two(("regex"@, Json::Str(r)), ("type"@, Json::Str("Regex"@)), "type"@);
            lemma_first_entry_of_two(("regex"@, Json::Str(r)), ("type"@, Json::Str("Regex"@)), "regex"@);
        },
        Gen::Date(Some(f)) => {
            assert(m =~= seq![("format"@, Json::Str(f)), ("type"@, Json::Str("Date"@))]);
            lemma_first_entry_of_two(("format"@, Json::Str(f)), ("type"@, Json::Str("Date"@)), "type"@);
            lemma_first_entry_of_two(("format"@, Json::Str(f)), ("type"@, Json::Str("Date"@)), "format"@);
        },
        Gen::Date(None) => {
            assert(m =~= seq![("type"@, Json::Str("Date"@))]);
            lemma_first_entry_of_one(("type"@, Json::Str("Date"@)), "type"@);
            lemma_first_entry_of_one(("type"@, Json::Str("Date"@)), "format"@);
        },
        Gen::Time(Some(f)) => {
            assert(m =~= seq![("format"@, Json::Str(f)), ("type"@, Json::Str("Time"@))]);
            lemma_first_entry_of_two(("format"@, Json::Str(f)), ("type"@, Json::Str("Time"@)), "type"@);
            lemma_first_entry_of_two(("format"@, Json::Str(f)), ("type"@, Json::Str("Time"@)), "format"@);
        },
        Gen::Time(None) => {
            assert(m =~= seq![("type"@, Json::Str("Time"@))]);
            lemma_first_entry_of_one(("type"@, Json::Str("Time"@)), "type"@);
            lemma_first_entry_of_one(("type"@, Json::Str("Time"@)), "format"@);
        },
        Gen::DateTime(Some(f)) => {
            assert(m =~= seq![("format"@, Json::Str(f)), ("type"@, Json::Str("DateTime"@))]);
            lemma_first_entry_of_two(("format"@, Json::Str(f)), ("type"@, Json::Str("DateTime"@)), "type"@);
            lemma_first_entry_of_two(("format"@, Json::Str(f)), ("type"@, Json::Str("DateTime"@)), "format"@);
        },
        Gen::DateTime(None) => {
            assert(m =~= seq![("type"@, Json::Str("DateTime"@))]);
            lemma_first_entry_of_one(("type"@, Json::Str("DateTime"@)), "type"@);
            lemma_first_entry_of_one(("type"@, Json::Str("DateTime"@)), "format"@);
        },
        Gen::ProviderStateGenerator(e, Some(d)) => {
            law_data_type_read_back_from_its_name(d);
            assert(m =~= seq![("dataType"@, Json::Str(data_type_name(d))), ("expression"@, Json::Str(e)), ("type"@, Json::Str("ProviderState"@))]);
            lemma_first_entry_of_three(("dataType"@, Json::Str(data_type_name(d))), ("expression"@, Json::Str(e)), ("type"@, Json::Str("ProviderState"@)), "type"@);
            lemma_first_entry_of_two(("expression"@, Json::Str(e)), ("type"@, Json::Str("ProviderState"@)), "type"@);
            lemma_first_entry_of_three(("dataType"@, Json::Str(data_type_name(d))), ("expression"@, Json::Str(e)), ("type"@, Json::Str("ProviderState"@)), "expression"@);
            lemma_first_entry_of_two(("expression"@, Json::Str(e)), ("type"@, Json::Str("ProviderState"@)), "expression"@);
            lemma_first_entry_of_three(("dataType"@, Json::Str(data_type_name(d))), ("expression"@, Json::Str(e)), ("type"@, Json::Str("ProviderState"@)), "dataType"@);
            lemma_first_entry_of_two(("expression"@, Json::Str(e)), ("type"@, Json::Str("ProviderState"@)), "dataType"@);
        },
        Gen::ProviderStateGenerator(e, None) => {
            assert(m =~= seq![("expression"@, Json::Str(e)), ("type"@, Json::Str("ProviderState"@))]);
            lemma_first_entry_of_two(("expression"@, Json::Str(e)), ("type"@, Json::Str("ProviderState"@)), "type"@);
            lemma_first_entry_of_two(("expression"@, Json::Str(e)), ("type"@, Json::Str("ProviderState"@)), "expression"@);
            lemma_first_entry_of_two(("expression"@, Json::Str(e)), ("type"@, Json::Str("ProviderState"@)), "dataType"@);
        },
        Gen::MockServerURL(ex, re) => {
            assert(m =~= seq![("example"@, Json::Str(ex)), ("regex"@, Json::Str(re)), ("type"@, Json::Str("MockServerURL"@))]);
            lemma_first_entry_of_three(("example"@, Json::Str(ex)), ("regex"@, Json::Str(re)), ("type"@, Json::Str("MockServerURL"@)), "type"@);
            lemma_first_entry_of_two(("regex"@, Json::Str(re)), ("type"@, Json::Str("MockServerURL"@)), "type"@);
            lemma_first_entry_of_three(("example"@, Json::Str(ex)), ("regex"@, Json::Str(re)), ("type"@, Json::Str("MockServerURL"@)), "example"@);
            lemma_first_entry_of_two(("regex"@, Json::Str(re)), ("type"@, Json::Str("MockServerURL"@)), "example"@);
            lemma_first_entry_of_three(("example"@, Json::Str(ex)), ("regex"@, Json::Str(re)), ("type"@, Json::Str("MockServerURL"@)), "regex"@);
            lemma_first_entry_of_two(("regex"@, Json::Str(re)), ("type"@, Json::Str("MockServerURL"@)), "regex"@);
        },
        _ => {},
    }
}

/// The JSON form of a generator with numbers holds its type and each number, written in
/// decimal, under their keys.
pub proof fn lemma_numeric_generator_json(g: Gen)
    requires
        g is RandomInt || g is RandomDecimal || g is RandomHexadecimal || g is RandomString,
    ensures
        gen_json(g) is Object,
        match gen_json(g) {
            Json::Object(m) => match g {
                Gen::RandomInt(min, max) => {
                    &&& first_entry(m, "type"@) == Some(Json::Str("RandomInt"@))
                    &&& first_entry(m, "min"@) == Some(Json::Number(int_text(min as int)))
                    &&& first_entry(m, "max"@) == Some(Json::Number(int_text(max as int)))
                },
                Gen::RandomDecimal(d) => {
                    &&& first_entry(m, "type"@) == Some(Json::Str("RandomDecimal"@))
                    &&& first_entry(m, "digits"@) == Some(Json::Number(decimal(d as nat)))
                },
                Gen::RandomHexadecimal(d) => {
                    &&& first_entry(m, "type"@) == Some(Json::Str("RandomHexadecimal"@))
                    &&& first_entry(m, "digits"@) == Some(Json::Number(decimal(d as nat)))
                },
                Gen::RandomString(n) => {
                    &&& first_entry(m, "type"@) == Some(Json::Str("RandomString"@))
                    &&& first_entry(m, "size"@) == Some(Json::Number(decimal(n as nat)))
                },
                _ => true,
            },
            _ => false,
        },
{
    reveal_strlit("type");
    reveal_strlit("min");
    reveal_strlit("max");
    reveal_strlit("digits");
    reveal_strlit("size");
    assert("type"@.len() == 4);
    assert("min"@.len() == 3);
    assert("max"@.len() == 3);
    assert("digits"@.len() == 6);
    assert("size"@.len() == 4);
    assert("max"@ != "min"@) by { assert("max"@[1] != "min"@[1]); }
    assert("type"@ != "size"@) by { assert("type"@[0] != "size"@[0]); }
    match g {
        Gen::RandomInt(min, max) => {
            let a = ("max"@, Json::Number(int_text(max as int)));
            let b = ("min"@, Json::Number(int_text(min as int)));
            let c = ("type"@, Json::Str("RandomInt"@));
            assert(seq![a, b] + seq![c] + Seq::<(Seq<char>, Json)>::empty() =~= seq![a, b, c]);
            lemma_first_entry_of_three(a, b, c, "type"@);
            lemma_first_entry_of_two(b, c, "type"@);
            lemma_first_entry_of_three(a, b, c, "min"@);
            lemma_first_entry_of_three(a, b, c, "max"@);
            lemma_first_entry_of_two(b, c, "min"@);
        },
        Gen::RandomDecimal(d) => {
            let a = ("digits"@, Json::Number(decimal(d as nat)));
            let c = ("type"@, Json::Str("RandomDecimal"@));
            assert(seq![a] + seq![c] + Seq::<(Seq<char>, Json)>::empty() =~= seq![a, c]);
            lemma_first_entry_of_two(a, c, "type"@);
            lemma_first_entry_of_two(a, c, "digits"@);
        },
        Gen::RandomHexadecimal(d) => {
            let a = ("digits"@, Json::Number(decimal(d as nat)));
            let c = ("type"@, Json::Str("RandomHexadecimal"@));
            assert(seq![a] + seq![c] + Seq::<(Seq<char>, Json)>::empty() =~= seq![a, c]);
            lemma_first_entry_of_two(a, c, "type"@);
            lemma_first_entry_of_two(a, c, "digits"@);
        },
        Gen::RandomString(n) => {
            let a = ("size"@, Json::Number(decimal(n as nat)));
            let c = ("type"@, Json::Str("RandomString"@));
            assert(Seq::<(Seq<char>, Json)>::empty() + seq![c] + seq![a] =~= seq![c, a]);
            lemma_first_entry_of_two(c, a, "type"@);
            lemma_first_entry_of_two(c, a, "size"@);
        },
        _ => {},
    }
}

/// Whether a JSON object has an entry with the key.
pub open spec fn object_has_key(o: Seq<(Seq<char>, Json)>, k: Seq<char>) -> bool {
    exists|j: int| 0 <= j < o.len() && o[j].0 == k
}

/// The items of `wanted` that `present` lacks are listed once each, and only they.
proof fn lemma_missing_items(wanted: Seq<Seq<char>>, present: Seq<Seq<char>>)
    ensures
        forall|k: Seq<char>| #[trigger] missing_items(wanted, present).contains(k) <==> (wanted.contains(k) && !present.contains(k)),
        missing_items(wanted, present).no_duplicates(),
    decreases wanted.len(),
{
    if wanted.len() > 0 {
        let w = wanted.drop_last();
        let k = wanted.last();
        lemma_missing_items(w, present);
        let m = missing_items(w, present);
        assert forall|x: Seq<char>| wanted.contains(x) <==> (w.contains(x) || x == k) by {
            if wanted.contains(x) {
                let i = choose|i: int| 0 <= i < wanted.len() && wanted[i] == x;
                if i < wanted.len() - 1 {
                    assert(w[i] == x);
                }
            }
            if w.contains(x) {
                let i = choose|i: int| 0 <= i < w.len() && w[i] == x;
                assert(wanted[i] == x);
            }
            if x == k {
                assert(wanted[wanted.len() - 1] == x);
            }
        }
        if !(present.contains(k) || m.contains(k)) {
            let m2 = m.push(k);
            assert forall|x: Seq<char>| m2.contains(x) <==> (m.contains(x) || x == k) by {
                if m2.contains(x) {
                    let i = choose|i: int| 0 <= i < m2.len() && m2[i] == x;
                    if i < m.len() {
                        assert(m[i] == x);
                    }
                }
                if m.contains(x) {
                    let i = choose|i: int| 0 <= i < m.len() && m[i] == x;
                    assert(m2[i] == x);
                }
                if x == k {
                    assert(m2[m.len() as int] == x);
                }
            }
            assert forall|a: int, b: int| 0 <= a < m2.len() && 0 <= b < m2.len() && a != b implies m2[a] != m2[b] by {
                if a < m.len() && b < m.len() {
                } else if a < m.len() {
                    assert(m.contains(m2[a]));
                } else {
                    assert(m.contains(m2[b]));
                }
            }
        }
    }
}

/// The keys of an object, as a list, hold exactly the keys it has.
proof fn lemma_object_keys(o: Seq<(Seq<char>, Json)>)
    ensures
        forall|k: Seq<char>| #[trigger] crate::actions::entry_keys(o).contains(k) <==> object_has_key(o, k),
{
    let ks = crate::actions::entry_keys(o);
    assert forall|k: Seq<char>| #[trigger] ks.contains(k) <==> object_has_key(o, k) by {
        if ks.contains(k) {
            let i = choose|i: int| 0 <= i < ks.len() && ks[i] == k;
            assert(o[i].0 == k);
        }
        if object_has_key(o, k) {
            let j = choose|j: int| 0 <= j < o.len() && o[j].0 == k;
            assert(ks[j] == k);
        }
    }
}

/// The six JSON type names are told apart by their lengths and first letters.
proof fn lemma_json_type_names()
    ensures
        "OBJECT"@ != "NULL"@, "OBJECT"@ != "BOOL"@, "OBJECT"@ != "NUMBER"@, "OBJECT"@ != "STRING"@, "OBJECT"@ != "ARRAY"@,
        "ARRAY"@ != "NULL"@, "ARRAY"@ != "BOOL"@, "ARRAY"@ != "NUMBER"@, "ARRAY"@ != "STRING"@,
        "STRING"@ != "NULL"@, "STRING"@ != "BOOL"@, "STRING"@ != "NUMBER"@,
{
    reveal_strlit("OBJECT");
    reveal_strlit("NULL");
    reveal_strlit("BOOL");
    reveal_strlit("NUMBER");
    reveal_strlit("STRING");
    reveal_strlit("ARRAY");
    assert("OBJECT"@.len() == 6 && "NUMBER"@.len() == 6 && "STRING"@.len() == 6);
    assert("NULL"@.len() == 4 && "BOOL"@.len() == 4 && "ARRAY"@.len() == 5);
    assert("OBJECT"@[0] != "NUMBER"@[0] && "OBJECT"@[0] != "STRING"@[0] && "STRING"@[0] != "NUMBER"@[0]);
}

/// `json:expect:entries` on an object: it holds (`BOOL(true)`) exactly when every expected key
/// is a key of the object; otherwise the error lists each expected key that the object lacks,
/// once, and no other.
pub proof fn law_json_expect_entries_reports_exactly_the_missing_keys(keys: Seq<Seq<char>>, o: Seq<(Seq<char>, Json)>)
    ensures ({
        let r = json_expect_entries_verdict(NodeRes::VALUE(NodeVal::STRING("OBJECT"@)), NodeRes::VALUE(NodeVal::SLIST(keys)),
            NodeRes::VALUE(NodeVal::JSON(Json::Object(o))));
        &&& (r == NodeRes::VALUE(NodeVal::BOOL(true))) <==> (forall|i: int| 0 <= i < keys.len() ==> #[trigger] object_has_key(o, keys[i]))
        &&& !(forall|i: int| 0 <= i < keys.len() ==> #[trigger] object_has_key(o, keys[i])) ==> (r matches NodeRes::ERROR(m)
            && exists|miss: Seq<Seq<char>>| {
                &&& m == "The following expected entries were missing from the actual Object: "@ + joined(", "@, miss)
                &&& miss.no_duplicates()
                &&& forall|k: Seq<char>| #[trigger] miss.contains(k) <==> (keys.contains(k) && !object_has_key(o, k))
            })
    }),
{
    lemma_json_type_names();
    let r1 = NodeRes::VALUE(NodeVal::STRING("OBJECT"@));
    assert(json_type_arg(r1) == Ok::<Seq<char>, Seq<char>>("OBJECT"@));
    assert(json_type_error("OBJECT"@, Json::Object(o)) is None);
    lemma_object_keys(o);
    let ks = crate::actions::entry_keys(o);
    lemma_missing_items(keys, ks);
    let miss = missing_items(keys, ks);
    let all = forall|i: int| 0 <= i < keys.len() ==> #[trigger] object_has_key(o, keys[i]);
    if all {
        if miss.len() > 0 {
            assert(miss.contains(miss[0]));
            let i = choose|i: int| 0 <= i < keys.len() && keys[i] == miss[0];
            assert(object_has_key(o, keys[i]));
        }
    } else {
        let i = choose|i: int| 0 <= i < keys.len() && !object_has_key(o, #[trigger] keys[i]);
        assert(keys.contains(keys[i]));
        assert(miss.contains(keys[i]));
        assert(miss.len() > 0);
    }
}

/// `json:expect:empty` holds (`BOOL(true)`) for an object, an array or a string of the
/// expected type exactly when it has nothing in it; otherwise it is an error.
pub proof fn law_json_expect_empty_only_for_empty_values(o: Seq<(Seq<char>, Json)>, a: Seq<Json>, s: Seq<char>)
    ensures ({
        let ro = json_expect_empty_verdict(NodeRes::VALUE(NodeVal::STRING("OBJECT"@)), NodeRes::VALUE(NodeVal::JSON(Json::Object(o))));
        let ra = json_expect_empty_verdict(NodeRes::VALUE(NodeVal::STRING("ARRAY"@)), NodeRes::VALUE(NodeVal::JSON(Json::Array(a))));
        let rs = json_expect_empty_verdict(NodeRes::VALUE(NodeVal::STRING("STRING"@)), NodeRes::VALUE(NodeVal::JSON(Json::Str(s))));
        &&& (ro == NodeRes::VALUE(NodeVal::BOOL(true))) <==> o.len() == 0
        &&& o.len() > 0 ==> ro is ERROR
        &&& (ra == NodeRes::VALUE(NodeVal::BOOL(true))) <==> a.len() == 0
        &&& a.len() > 0 ==> ra is ERROR
        &&& (rs == NodeRes::VALUE(NodeVal::BOOL(true))) <==> s.len() == 0
        &&& s.len() > 0 ==> rs is ERROR
    }),
{
    lemma_json_type_names();
    assert(json_type_arg(NodeRes::VALUE(NodeVal::STRING("OBJECT"@))) == Ok::<Seq<char>, Seq<char>>("OBJECT"@));
    assert(json_type_arg(NodeRes::VALUE(NodeVal::STRING("ARRAY"@))) == Ok::<Seq<char>, Seq<char>>("ARRAY"@));
    assert(json_type_arg(NodeRes::VALUE(NodeVal::STRING("STRING"@))) == Ok::<Seq<char>, Seq<char>>("STRING"@));
    assert(json_type_error("OBJECT"@, Json::Object(o)) is None);
    assert(json_type_error("ARRAY"@, Json::Array(a)) is None);
    assert(json_type_error("STRING"@, Json::Str(s)) is None);
}

/// Whether a value has names that the entries checks look at: a map, a list of strings, or
/// a JSON object or array.
pub open spec fn has_names(v: NodeVal) -> bool {
    v is MMAP || v is SLIST || (v matches NodeVal::JSON(j) && (j is Object || j is Array))
}

/// Whether a name is one of a value's names: a key of a map or a JSON object, an item of a
/// list of strings, or the JSON text of an item of a JSON array.
pub open spec fn is_name_of(v: NodeVal, k: Seq<char>) -> bool {
    match v {
        NodeVal::MMAP(m) => exists|j: int| 0 <= j < m.len() && m[j].0 == k,
        NodeVal::SLIST(l) => l.contains(k),
        NodeVal::JSON(Json::Object(o)) => object_has_key(o, k),
        NodeVal::JSON(Json::Array(a)) => exists|j: int| 0 <= j < a.len() && serde_json_text(a[j]) == k,
        _ => false,
    }
}

/// The names the entries checks look at hold exactly a value's names.
proof fn lemma_entry_names(v: NodeVal)
    requires
        has_names(v),
    ensures
        crate::actions::entry_names(v) matches Some(names)
            && forall|k: Seq<char>| #[trigger] names.contains(k) <==> is_name_of(v, k),
{
    match v {
        NodeVal::MMAP(m) => {
            let ns = m.map_values(|e: (Seq<char>, Seq<Seq<char>>)| e.0);
            assert forall|k: Seq<char>| #[trigger] ns.contains(k) <==> is_name_of(v, k) by {
                if ns.contains(k) {
                    let i = choose|i: int| 0 <= i < ns.len() && ns[i] == k;
                    assert(m[i].0 == k);
                }
                if is_name_of(v, k) {
                    let j = choose|j: int| 0 <= j < m.len() && m[j].0 == k;
                    assert(ns[j] == k);
                }
            }
        },
        NodeVal::JSON(Json::Object(o)) => {
            lemma_object_keys(o);
        },
        NodeVal::JSON(Json::Array(a)) => {
            let ns = a.map_values(|j: Json| serde_json_text(j));
            assert forall|k: Seq<char>| #[trigger] ns.contains(k) <==> is_name_of(v, k) by {
                if ns.contains(k) {
                    let i = choose|i: int| 0 <= i < ns.len() && ns[i] == k;
                    assert(serde_json_text(a[i]) == k);
                }
                if is_name_of(v, k) {
                    let j = choose|j: int| 0 <= j < a.len() && serde_json_text(a[j]) == k;
                    assert(ns[j] == k);
                }
            }
        },
        _ => {},
    }
}

/// `expect:only-entries` on any value with names: it holds exactly when every name of the
/// value is expected; otherwise the error lists each name of the value that is not expected,
/// once, and no other.
pub proof fn law_only_entries_reports_exactly_the_unexpected_names(expected: Seq<Seq<char>>, v: NodeVal, a: Seq<char>)
    requires
        has_names(v),
    ensures
        entries_check(true, a, NodeRes::VALUE(NodeVal::SLIST(expected)), NodeRes::VALUE(v)) is Ok
            <==> (forall|k: Seq<char>| #[trigger] is_name_of(v, k) ==> expected.contains(k)),
        entries_check(true, a, NodeRes::VALUE(NodeVal::SLIST(expected)), NodeRes::VALUE(v)) matches Err((m, d)) ==> (d matches Some(diff)
            && m == "The following unexpected entries were received: "@ + value_text(NodeVal::SLIST(diff))
            && diff.no_duplicates()
            && forall|k: Seq<char>| #[trigger] diff.contains(k) <==> (is_name_of(v, k) && !expected.contains(k))),
{
    lemma_entry_names(v);
    let names = crate::actions::entry_names(v)->Some_0;
    lemma_missing_items(names, expected);
    let diff = missing_items(names, expected);
    if diff.len() > 0 {
        assert(diff.contains(diff[0]));
        assert(is_name_of(v, diff[0]) && !expected.contains(diff[0]));
    } else {
        assert forall|k: Seq<char>| #[trigger] is_name_of(v, k) implies expected.contains(k) by {
            assert(names.contains(k));
            if !expected.contains(k) {
                assert(diff.contains(k));
            }
        }
    }
}

/// `expect:entries` on any value with names: it holds exactly when every expected name is a
/// name of the value; otherwise the error lists each expected name that the value lacks,
/// once, and no other.
pub proof fn law_entries_reports_exactly_the_missing_names(expected: Seq<Seq<char>>, v: NodeVal, a: Seq<char>)
    requires
        has_names(v),
    ensures
        entries_check(false, a, NodeRes::VALUE(NodeVal::SLIST(expected)), NodeRes::VALUE(v)) is Ok
            <==> (forall|k: Seq<char>| #[trigger] expected.contains(k) ==> is_name_of(v, k)),
        entries_check(false, a, NodeRes::VALUE(NodeVal::SLIST(expected)), NodeRes::VALUE(v)) matches Err((m, d)) ==> (d matches Some(diff)
            && m == "The following expected entries were missing: "@ + value_text(NodeVal::SLIST(diff))
            && diff.no_duplicates()
            && forall|k: Seq<char>| #[trigger] diff.contains(k) <==> (expected.contains(k) && !is_name_of(v, k))),
{
    lemma_entry_names(v);
    let names = crate::actions::entry_names(v)->Some_0;
    lemma_missing_items(expected, names);
    let diff = missing_items(expected, names);
    if diff.len() > 0 {
        assert(diff.contains(diff[0]));
    } else {
        assert forall|k: Seq<char>| #[trigger] expected.contains(k) implies is_name_of(v, k) by {
            if !names.contains(k) {
                assert(diff.contains(k));
            }
        }
    }
}

/// `check:exists` gives a boolean, true exactly when its argument is a value other than
/// NULL: a missing item (NULL) or a failed or empty argument does not exist.
pub proof fn law_check_exists_is_true_only_for_present_values(r: NodeRes)
    ensures
        check_exists_verdict(r) matches NodeRes::VALUE(NodeVal::BOOL(b))
            && (b <==> (r matches NodeRes::VALUE(v) && v != NodeVal::NULL)),
        check_exists_verdict(NodeRes::VALUE(NodeVal::NULL)) == NodeRes::VALUE(NodeVal::BOOL(false)),
{
}

/// Strings as node values.
pub open spec fn string_values(xs: Seq<Seq<char>>) -> Seq<NodeVal> {
    xs.map_values(|x: Seq<char>| NodeVal::STRING(x))
}

/// The strings `join` and `join-with` take from string values are the strings themselves.
proof fn lemma_join_texts_of_strings(xs: Seq<Seq<char>>)
    ensures
        all_join_texts(string_values(xs)) == xs,
    decreases xs.len(),
{
    if xs.len() > 0 {
        lemma_join_texts_of_strings(xs.drop_last());
        assert(string_values(xs).drop_last() =~= string_values(xs.drop_last()));
        assert(all_join_texts(string_values(xs)) =~= xs);
    } else {
        assert(string_values(xs) =~= Seq::<NodeVal>::empty());
    }
}

/// `join-with` puts its first argument between the others: one string alone comes back as
/// it is, and one more string at the end adds the separator and that string.
pub proof fn law_join_with_puts_the_separator_between(sep: Seq<char>, xs: Seq<Seq<char>>, y: Seq<char>)
    ensures
        transform_result("join-with"@, seq![NodeVal::STRING(sep), NodeVal::STRING(y)]) == NodeRes::VALUE(NodeVal::STRING(y)),
        xs.len() > 0 ==> (transform_result("join-with"@, seq![NodeVal::STRING(sep)] + string_values(xs)) matches NodeRes::VALUE(NodeVal::STRING(t))
            && transform_result("join-with"@, seq![NodeVal::STRING(sep)] + string_values(xs.push(y))) == NodeRes::VALUE(NodeVal::STRING(t + sep + y))),
{
    reveal_strlit("join-with");
    reveal_strlit("upper-case");
    reveal_strlit("lower-case");
    reveal_strlit("to-string");
    reveal_strlit("join");
    assert("join-with"@.len() == 9);
    assert("upper-case"@.len() == 10);
    assert("lower-case"@.len() == 10);
    assert("to-string"@.len() == 9);
    assert("join"@.len() == 4);
    assert("join-with"@ != "to-string"@) by { assert("join-with"@[0] != "to-string"@[0]); }
    let one = seq![sep, y];
    lemma_join_texts_of_strings(one);
    assert(seq![NodeVal::STRING(sep), NodeVal::STRING(y)] =~= string_values(one));
    assert(one.drop_first() =~= seq![y]);
    if xs.len() > 0 {
        let a = seq![sep] + xs;
        let b = seq![sep] + xs.push(y);
        lemma_join_texts_of_strings(a);
        lemma_join_texts_of_strings(b);
        assert(seq![NodeVal::STRING(sep)] + string_values(xs) =~= string_values(a));
        assert(seq![NodeVal::STRING(sep)] + string_values(xs.push(y)) =~= string_values(b));
        assert(a.drop_first() =~= xs);
        assert(b.drop_first() =~= xs.push(y));
        lemma_joined_push(sep, xs, y);
    }
}

/// `join` puts its arguments one after the other: one more string at the end adds just that
/// string.
pub proof fn law_join_concatenates(xs: Seq<Seq<char>>, y: Seq<char>)
    ensures
        transform_result("join"@, string_values(xs)) matches NodeRes::VALUE(NodeVal::STRING(t))
            && transform_result("join"@, string_values(xs.push(y))) == NodeRes::VALUE(NodeVal::STRING(t + y)),
{
    reveal_strlit("upper-case");
    reveal_strlit("lower-case");
    reveal_strlit("to-string");
    reveal_strlit("join");
    assert("join"@.len() == 4);
    assert("upper-case"@.len() == 10);
    assert("lower-case"@.len() == 10);
    assert("to-string"@.len() == 9);
    lemma_join_texts_of_strings(xs);
    lemma_join_texts_of_strings(xs.push(y));
    lemma_joined_push(Seq::empty(), xs, y);
    if xs.len() == 0 {
        assert(joined(Seq::<char>::empty(), xs) =~= Seq::<char>::empty());
        assert(Seq::<char>::empty() + y =~= y);
    } else {
        assert(joined(Seq::<char>::empty(), xs) + Seq::<char>::empty() + y =~= joined(Seq::<char>::empty(), xs) + y);
    }
}

/// `json:match:length` on an object or an array of the expected type holds (`BOOL(true)`)
/// exactly when it has as many entries as asked; any other length is an error.
pub proof fn law_json_match_length_holds_only_for_that_length(n: u64, o: Seq<(Seq<char>, Json)>, a: Seq<Json>)
    ensures ({
        let ro = json_match_length_verdict(NodeRes::VALUE(NodeVal::STRING("OBJECT"@)), NodeRes::VALUE(NodeVal::UINT(n)),
            NodeRes::VALUE(NodeVal::JSON(Json::Object(o))));
        let ra = json_match_length_verdict(NodeRes::VALUE(NodeVal::STRING("ARRAY"@)), NodeRes::VALUE(NodeVal::UINT(n)),
            NodeRes::VALUE(NodeVal::JSON(Json::Array(a))));
        &&& (ro == NodeRes::VALUE(NodeVal::BOOL(true))) <==> o.len() == n
        &&& o.len() != n ==> ro is ERROR
        &&& (ra == NodeRes::VALUE(NodeVal::BOOL(true))) <==> a.len() == n
        &&& a.len() != n ==> ra is ERROR
    }),
{
    lemma_json_type_names();
    assert(json_type_arg(NodeRes::VALUE(NodeVal::STRING("OBJECT"@))) == Ok::<Seq<char>, Seq<char>>("OBJECT"@));
    assert(json_type_arg(NodeRes::VALUE(NodeVal::STRING("ARRAY"@))) == Ok::<Seq<char>, Seq<char>>("ARRAY"@));
    assert(json_type_error("OBJECT"@, Json::Object(o)) is None);
    assert(json_type_error("ARRAY"@, Json::Array(a)) is None);
}

/// The JSON checks refuse a value of another type than the one they are given: with
/// `OBJECT` only an object, with `ARRAY` only an array, with `STRING` only a string gets
/// past the check, whatever the check is.
pub proof fn law_json_checks_refuse_another_type(j: Json, keys: Seq<Seq<char>>, n: u64)
    ensures
        !(j is Object) ==> json_expect_empty_verdict(NodeRes::VALUE(NodeVal::STRING("OBJECT"@)), NodeRes::VALUE(NodeVal::JSON(j))) is ERROR,
        !(j is Array) ==> json_expect_empty_verdict(NodeRes::VALUE(NodeVal::STRING("ARRAY"@)), NodeRes::VALUE(NodeVal::JSON(j))) is ERROR,
        !(j is Str) ==> json_expect_empty_verdict(NodeRes::VALUE(NodeVal::STRING("STRING"@)), NodeRes::VALUE(NodeVal::JSON(j))) is ERROR,
        !(j is Object) ==> json_expect_entries_verdict(NodeRes::VALUE(NodeVal::STRING("OBJECT"@)), NodeRes::VALUE(NodeVal::SLIST(keys)),
            NodeRes::VALUE(NodeVal::JSON(j))) is ERROR,
        !(j is Object) ==> json_match_length_verdict(NodeRes::VALUE(NodeVal::STRING("OBJECT"@)), NodeRes::VALUE(NodeVal::UINT(n)),
            NodeRes::VALUE(NodeVal::JSON(j))) is ERROR,
        !(j is Array) ==> json_match_length_verdict(NodeRes::VALUE(NodeVal::STRING("ARRAY"@)), NodeRes::VALUE(NodeVal::UINT(n)),
            NodeRes::VALUE(NodeVal::JSON(j))) is ERROR,
{
    lemma_json_type_names();
    assert(json_type_arg(NodeRes::VALUE(NodeVal::STRING("OBJECT"@))) == Ok::<Seq<char>, Seq<char>>("OBJECT"@));
    assert(json_type_arg(NodeRes::VALUE(NodeVal::STRING("ARRAY"@))) == Ok::<Seq<char>, Seq<char>>("ARRAY"@));
    assert(json_type_arg(NodeRes::VALUE(NodeVal::STRING("STRING"@))) == Ok::<Seq<char>, Seq<char>>("STRING"@));
    assert(!(j is Object) ==> json_type_error("OBJECT"@, j) is Some);
    assert(!(j is Array) ==> json_type_error("ARRAY"@, j) is Some);
    assert(!(j is Str) ==> json_type_error("STRING"@, j) is Some);
}

/// `expect:empty` on a value: NULL, and a string, list, map, byte array or number with
/// nothing in it (zero), count as empty (`BOOL(true)`); one with something in it is an
/// error; a boolean gives itself.
pub proof fn law_expect_empty_only_for_empty_values(s: Seq<char>, l: Seq<Seq<char>>, m: Seq<(Seq<char>, Seq<Seq<char>>)>,
    b: Seq<u8>, u: u64, t: bool)
    ensures
        empty_check(NodeRes::VALUE(NodeVal::NULL)) == Ok::<NodeRes, Seq<char>>(NodeRes::VALUE(NodeVal::BOOL(true))),
        empty_check(NodeRes::VALUE(NodeVal::STRING(s))) is Ok <==> s.len() == 0,
        empty_check(NodeRes::VALUE(NodeVal::SLIST(l))) is Ok <==> l.len() == 0,
        empty_check(NodeRes::VALUE(NodeVal::MMAP(m))) is Ok <==> m.len() == 0,
        empty_check(NodeRes::VALUE(NodeVal::BARRAY(b))) is Ok <==> b.len() == 0,
        empty_check(NodeRes::VALUE(NodeVal::UINT(u))) is Ok <==> u == 0,
        s.len() == 0 ==> empty_check(NodeRes::VALUE(NodeVal::STRING(s))) == Ok::<NodeRes, Seq<char>>(NodeRes::VALUE(NodeVal::BOOL(true))),
        l.len() == 0 ==> empty_check(NodeRes::VALUE(NodeVal::SLIST(l))) == Ok::<NodeRes, Seq<char>>(NodeRes::VALUE(NodeVal::BOOL(true))),
        m.len() == 0 ==> empty_check(NodeRes::VALUE(NodeVal::MMAP(m))) == Ok::<NodeRes, Seq<char>>(NodeRes::VALUE(NodeVal::BOOL(true))),
        b.len() == 0 ==> empty_check(NodeRes::VALUE(NodeVal::BARRAY(b))) == Ok::<NodeRes, Seq<char>>(NodeRes::VALUE(NodeVal::BOOL(true))),
        u == 0 ==> empty_check(NodeRes::VALUE(NodeVal::UINT(u))) == Ok::<NodeRes, Seq<char>>(NodeRes::VALUE(NodeVal::BOOL(true))),
        empty_check(NodeRes::VALUE(NodeVal::BOOL(t))) == Ok::<NodeRes, Seq<char>>(NodeRes::VALUE(NodeVal::BOOL(t))),
{
}

} // verus!
