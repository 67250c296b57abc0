//! Applying generators to `application/x-www-form-urlencoded` bodies.

use vstd::prelude::*;
use crate::text::{str_eq, string_views};
use crate::json::{JsonValue, Json, entry_views, lemma_entry_views, read_json_str, serde_json_read_str};
use crate::docpath::{DocPath, Step};
use crate::generators::{Generator, Gen, GeneratorTestMode, GeneratorCategory, Generators, GenEntries, gen_entries_view,
    first_index, lemma_first_index,
    gen_string_outcome, gen_can_generate, gen_corresponds_to_mode};
use crate::docpath::path_text;
use crate::rules::{MatchingRuleCategory, Rule};
use crate::request::{OptionalBody, Body};
use vstd::string::StrSliceExecFns;
use vstd::utf8::encode_utf8;

verus! {

/// The names and values of some parameters.
pub type Params = Seq<(Seq<char>, Seq<char>)>;

/// The model of some parameters.
pub open spec fn params_view(p: Seq<(String, String)>) -> Params {
    p.map_values(|e: (String, String)| (e.0@, e.1@))
}

/// How many parameters before the `i`th have its name.
pub open spec fn occurrences_before(p: Params, i: int) -> nat
    decreases i,
{
    if i <= 0 || i > p.len() {
        0
    } else {
        occurrences_before(p, i - 1) + if p[i - 1].0 == p[i].0 { 1nat } else { 0nat }
    }
}

/// How many of the first `k` parameters have the name.
pub open spec fn count_name(p: Params, name: Seq<char>, k: int) -> nat
    decreases k,
{
    if k <= 0 || k > p.len() {
        0
    } else {
        count_name(p, name, k - 1) + if p[k - 1].0 == name { 1nat } else { 0nat }
    }
}

/// Whether a path names the `i`th parameter: `$.name`, or `$.name[n]` where it is the
/// `n`th parameter with that name (counting from zero).
pub open spec fn names_param(key: Seq<Step>, p: Params, i: int) -> bool {
    key == seq![Step::Root, Step::Field(p[i].0)]
        || key == seq![Step::Root, Step::Field(p[i].0), Step::Index(count_name(p, p[i].0, i))]
}

/// The first parameter that a path names, if any.
pub open spec fn first_named(key: Seq<Step>, p: Params) -> Option<int> {
    if exists|i: int| 0 <= i < p.len() && names_param(key, p, i) {
        Some(choose|i: int| 0 <= i < p.len() && names_param(key, p, i)
            && forall|j: int| 0 <= j < i ==> !names_param(key, p, j))
    } else {
        None
    }
}

/// The `application/x-www-form-urlencoded` text that `serde_urlencoded` writes for some
/// parameters, or the text of its error.
pub uninterp spec fn form_urlencoded_text(p: Params) -> Result<Seq<char>, Seq<char>>;

/// `serde_urlencoded::to_string` of the parameters: the contract names the outcome, which
/// depends on the parameters alone.
#[verifier::external_body]
fn to_form_urlencoded(params: &Vec<(String, String)>) -> (r: Result<String, String>)
    ensures
        match (r, form_urlencoded_text(params_view(params@))) {
            (Ok(a), Ok(b)) => a@ == b,
            (Err(a), Err(b)) => a@ == b,
            _ => false,
        },
{
    serde_urlencoded::to_string(params).map_err(|e| e.to_string())
}

/// What applying a generator to the parameter a path names does: the first parameter that the
/// path names (see [`first_named`]) gets the generated value, or keeps its value when the
/// generator fails; all other parameters, and all names, stay as they are.
pub open spec fn key_applied(before: Params, after: Params, key: Seq<Step>, g: Gen, ctx: Seq<(Seq<char>, Json)>) -> bool {
    &&& after.len() == before.len()
    &&& match first_named(key, before) {
        None => after == before,
        Some(i) => {
            &&& forall|j: int| 0 <= j < before.len() && j != i ==> after[j] == before[j]
            &&& after[i].0 == before[i].0
            &&& exists|r: Result<Seq<char>, Seq<char>>| #[trigger] gen_string_outcome(g, ctx, r)
                && after[i].1 == match r { Ok(s) => s, Err(_) => before[i].1 }
        },
    }
}

/// The generators of a body, each with the path it applies to.
pub open spec fn keyed_gens_view(gens: Seq<(DocPath, Generator)>) -> Seq<(Seq<Step>, Gen)> {
    gens.map_values(|e: (DocPath, Generator)| (e.0@, e.1@))
}

/// What applying one generator gives: when it corresponds to the mode it is applied as
/// [`key_applied`] says; otherwise the parameters stay as they are.
pub open spec fn gen_step(before: Params, after: Params, e: (Seq<Step>, Gen), mode: GeneratorTestMode,
    ctx: Seq<(Seq<char>, Json)>) -> bool {
    if gen_corresponds_to_mode(e.1, mode) {
        key_applied(before, after, e.0, e.1, ctx)
    } else {
        after == before
    }
}

/// What applying the generators in order gives: there are parameters after each of them,
/// from the ones before the first to the ones after the last, each step as [`gen_step`] says.
pub open spec fn gens_applied(before: Params, after: Params, gens: Seq<(Seq<Step>, Gen)>, mode: GeneratorTestMode,
    ctx: Seq<(Seq<char>, Json)>) -> bool {
    exists|states: Seq<Params>| #[trigger] states.len() == gens.len() + 1 && states[0] == before
        && states[gens.len() as int] == after
        && forall|j: int| 0 <= j < gens.len() ==> gen_step(#[trigger] states[j], states[j + 1], gens[j], mode, ctx)
}

/// Applies generators to the parameters of a form body.
#[derive(Debug)]
pub struct FormUrlEncodedHandler {
    /// Query params to apply the generators to.
    pub params: Vec<(String, String)>,
}

/// The content type of a form body.
pub open spec fn form_content_type() -> Seq<char> {
    "application/x-www-form-urlencoded"@
}

impl FormUrlEncodedHandler {
    /// Applies the generator to the first parameter that the path names (`$.name`, or
    /// `$.name[n]` for the `n`th parameter with the name); when the generator fails, the
    /// value stays. Other parameters, and all names, stay as they are.
    pub fn apply_key(&mut self, key: &DocPath, generator: &Generator, context: &Vec<(String, JsonValue)>)
        requires
            gen_can_generate(generator@),
        ensures
            key_applied(params_view(old(self).params@), params_view(final(self).params@), key@, generator@, entry_views(context@)),
    {
        let ghost p = params_view(self.params@);
        let n = self.params.len();
        let mut i: usize = 0;
        while i < n
            invariant
                i <= n,
                n == self.params.len(),
                self.params@ == old(self).params@,
                p == params_view(self.params@),
                gen_can_generate(generator@),
                forall|j: int| 0 <= j < i ==> !names_param(key@, p, j),
            decreases n - i,
        {
            let count = self.count_before(i);
            let mut plain = DocPath::root();
            plain.push_field(self.params[i].0.as_str());
            let indexed = plain.join_index(count);
            assert(plain@ =~= seq![Step::Root, Step::Field(p[i as int].0)]);
            assert(indexed@ =~= seq![Step::Root, Step::Field(p[i as int].0), Step::Index(count_name(p, p[i as int].0, i as int))]);
            if key.same_as(&plain) || key.same_as(&indexed) {
                assert(names_param(key@, p, i as int));
                proof {
                    assert(first_named(key@, p) == Some(i as int)) by {
                        let c = choose|c: int| 0 <= c < p.len() && names_param(key@, p, c)
                            && forall|j: int| 0 <= j < c ==> !names_param(key@, p, j);
                        if c < i {
                        } else if c > i {
                            assert(!names_param(key@, p, i as int));
                        }
                    }
                }
                let result = generator.generate_string(context);
                let ghost outcome = match &result {
                    Ok(s) => Ok::<Seq<char>, Seq<char>>(s@),
                    Err(e) => Err::<Seq<char>, Seq<char>>(e@),
                };
                match result {
                    Ok(new_value) => {
                        let name = self.params[i].0.clone();
                        self.params.set(i, (name, new_value));
                    },
                    Err(_) => {},
                }
                assert(gen_string_outcome(generator@, entry_views(context@), outcome));
                proof {
                    let q = params_view(self.params@);
                    assert forall|j: int| 0 <= j < p.len() && j != i implies q[j] == p[j] by {}
                    assert(q[i as int].1 == match outcome { Ok(s) => s, Err(_) => p[i as int].1 });
                }
                return;
            }
            i = i + 1;
        }
        assert(first_named(key@, p) is None);
        assert(params_view(self.params@) =~= p);
    }

    /// How many parameters before the `i`th have its name.
    fn count_before(&self, i: usize) -> (r: usize)
        requires
            i < self.params.len(),
        ensures
            r == count_name(params_view(self.params@), self.params@[i as int].0@, i as int),
    {
        let ghost p = params_view(self.params@);
        let mut c: usize = 0;
        let mut k: usize = 0;
        while k < i
            invariant
                k <= i,
                i < self.params.len(),
                p == params_view(self.params@),
                c == count_name(p, self.params@[i as int].0@, k as int),
                c <= k,
            decreases i - k,
        {
            if str_eq(self.params[k].0.as_str(), self.params[i].0.as_str()) {
                c = c + 1;
            }
            k = k + 1;
        }
        c
    }

    /// Applies each generator that corresponds to the mode to the parameter its path names,
    /// in order, then writes the parameters as a form body.
    pub fn process_body(&mut self, generators: &Vec<(DocPath, Generator)>, mode: &GeneratorTestMode, context: &Vec<(String, JsonValue)>) -> (r: Result<OptionalBody, String>)
        requires
            forall|i: int| 0 <= i < generators@.len() ==> gen_can_generate(#[trigger] generators@[i].1@),
        ensures
            gens_applied(params_view(old(self).params@), params_view(final(self).params@), keyed_gens_view(generators@),
                *mode, entry_views(context@)),
            match (r, form_urlencoded_text(params_view(final(self).params@))) {
                (Ok(body), Ok(text)) => body@ == Body::Present(encode_utf8(text), Some(form_content_type())),
                (Err(e), Err(f)) => e@ == "Failed to convert query params to query string: "@ + f,
                _ => false,
            },
    {
        let ghost start = params_view(self.params@);
        let ghost gens = keyed_gens_view(generators@);
        let ghost ctx = entry_views(context@);
        let ghost mut states: Seq<Params> = seq![start];
        let mut i: usize = 0;
        while i < generators.len()
            invariant
                i <= generators.len(),
                forall|j: int| 0 <= j < generators@.len() ==> gen_can_generate(#[trigger] generators@[j].1@),
                gens == keyed_gens_view(generators@),
                gens.len() == generators@.len(),
                ctx == entry_views(context@),
                states.len() == i + 1,
                states[0] == start,
                states[i as int] == params_view(self.params@),
                forall|j: int| 0 <= j < i ==> gen_step(#[trigger] states[j], states[j + 1], gens[j], *mode, ctx),
            decreases generators.len() - i,
        {
            let ghost before = params_view(self.params@);
            assert(gens[i as int] == (generators@[i as int].0@, generators@[i as int].1@));
            if generators[i].1.corresponds_to_mode(mode) {
                self.apply_key(&generators[i].0, &generators[i].1, context);
            }
            proof {
                let after = params_view(self.params@);
                assert(gen_step(before, after, gens[i as int], *mode, ctx));
                let old_states = states;
                states = states.push(after);
                assert forall|j: int| 0 <= j < i + 1 implies gen_step(#[trigger] states[j], states[j + 1], gens[j], *mode, ctx) by {
                    if j < i {
                        assert(states[j] == old_states[j]);
                        assert(states[j + 1] == old_states[j + 1]);
                    }
                }
            }
            i = i + 1;
        }
        assert(gens_applied(start, params_view(self.params@), gens, *mode, ctx));
        proof {
            reveal_strlit("application/x-www-form-urlencoded");
            reveal_strlit("Failed to convert query params to query string: ");
        }
        match to_form_urlencoded(&self.params) {
            Ok(text) => Ok(OptionalBody::Present(text.as_str().as_bytes_vec(), Some(String::from_str("application/x-www-form-urlencoded")))),
            Err(err) => {
                let mut m = String::from_str("Failed to convert query params to query string: ");
                crate::text::push_str(&mut m, err.as_str());
                Err(m)
            },
        }
    }
}

/// Whether the text holds the other text somewhere.
pub open spec fn text_contains(a: Seq<char>, b: Seq<char>) -> bool {
    exists|i: int| 0 <= i && i + b.len() <= a.len() && #[trigger] a.subrange(i, i + b.len()) == b
}

/// Whether the text holds the other text somewhere; see [`text_contains`].
pub fn contains_text(a: &str, b: &str) -> (r: bool)
    ensures
        r == text_contains(a@, b@),
{
    let x = crate::text::chars_of(a);
    let y = crate::text::chars_of(b);
    if y.len() > x.len() {
        return false;
    }
    let mut i: usize = 0;
    let last = x.len() - y.len();
    while i <= last
        invariant
            last == x.len() - y.len(),
            x@ == a@,
            y@ == b@,
            y.len() <= x.len(),
            i <= x.len() - y.len() + 1,
            forall|k: int| 0 <= k < i ==> #[trigger] a@.subrange(k, k + b@.len()) != b@,
        decreases x.len() - i,
    {
        let mut j: usize = 0;
        while j < y.len() && x[i + j] == y[j]
            invariant
                j <= y.len(),
                i + y.len() <= x.len(),
                x@ == a@,
                y@ == b@,
                forall|k: int| 0 <= k < j ==> x@[i + k] == y@[k],
            decreases y.len() - j,
        {
            j = j + 1;
        }
        if j == y.len() {
            assert(a@.subrange(i as int, i + b@.len()) =~= b@);
            return true;
        }
        assert(a@.subrange(i as int, i + b@.len())[j as int] != b@[j as int]);
        i = i + 1;
    }
    false
}

/// The parameters of a form body described as JSON: each string or number entry of an
/// object, and each string or number item of an array entry, under the entry's key; other
/// values give none.
pub open spec fn json_params(j: Json) -> Params {
    match j {
        Json::Object(m) => entries_params(m, m.len()),
        _ => Seq::empty(),
    }
}

/// The parameters of the first `k` entries of an object.
pub open spec fn entries_params(m: Seq<(Seq<char>, Json)>, k: nat) -> Params
    decreases k,
{
    if k == 0 || k > m.len() {
        Seq::empty()
    } else {
        entries_params(m, (k - 1) as nat) + entry_params(m[k - 1].0, m[k - 1].1)
    }
}

/// The parameter a value gives under a key, if it is a string or a number.
pub open spec fn scalar_param(key: Seq<char>, v: Json) -> Params {
    match v {
        Json::Number(t) => seq![(key, t)],
        Json::Str(s) => seq![(key, s)],
        _ => Seq::empty(),
    }
}

/// The parameters one entry gives.
pub open spec fn entry_params(key: Seq<char>, v: Json) -> Params {
    match v {
        Json::Array(items) => items_params(key, items, items.len()),
        _ => scalar_param(key, v),
    }
}

/// The parameters the first `k` items of an array give.
pub open spec fn items_params(key: Seq<char>, items: Seq<Json>, k: nat) -> Params
    decreases k,
{
    if k == 0 || k > items.len() {
        Seq::empty()
    } else {
        items_params(key, items, (k - 1) as nat) + scalar_param(key, items[k - 1])
    }
}

/// Whether a value can be a parameter.
pub open spec fn is_scalar(v: Json) -> bool {
    v is Number || v is Str
}

/// The paths of the values that cannot be parameters, in order.
pub open spec fn invalid_paths(j: Json) -> Seq<Seq<Step>> {
    match j {
        Json::Object(m) => entries_invalid(m, m.len()),
        _ => Seq::empty(),
    }
}

/// The paths of the values of the first `k` entries that cannot be parameters.
pub open spec fn entries_invalid(m: Seq<(Seq<char>, Json)>, k: nat) -> Seq<Seq<Step>>
    decreases k,
{
    if k == 0 || k > m.len() {
        Seq::empty()
    } else {
        entries_invalid(m, (k - 1) as nat) + entry_invalid(m[k - 1].0, m[k - 1].1)
    }
}

/// The paths of the values of one entry that cannot be parameters.
pub open spec fn entry_invalid(key: Seq<char>, v: Json) -> Seq<Seq<Step>> {
    let path = seq![Step::Root, Step::Field(key)];
    match v {
        Json::Array(items) => items_invalid(path, items, items.len()),
        _ => if is_scalar(v) { Seq::empty() } else { seq![path] },
    }
}

/// The paths of the first `k` items of an array that cannot be parameters.
pub open spec fn items_invalid(path: Seq<Step>, items: Seq<Json>, k: nat) -> Seq<Seq<Step>>
    decreases k,
{
    if k == 0 || k > items.len() {
        Seq::empty()
    } else {
        items_invalid(path, items, (k - 1) as nat)
            + if is_scalar(items[k - 1]) { Seq::empty() } else { seq![path.push(Step::Index((k - 1) as nat))] }
    }
}

/// The rules whose path holds the text of the given path are dropped.
pub open spec fn rules_without(rules: Seq<(Seq<Step>, Seq<Rule>)>, path: Seq<Step>) -> Seq<(Seq<Step>, Seq<Rule>)> {
    rules.filter(|e: (Seq<Step>, Seq<Rule>)| !text_contains(path_text(e.0), path_text(path)))
}

/// The texts of the paths of the rules that are dropped for a path.
pub open spec fn dropped_keys(rules: Seq<(Seq<Step>, Seq<Rule>)>, path: Seq<Step>) -> Seq<Seq<char>> {
    rules.filter(|e: (Seq<Step>, Seq<Rule>)| text_contains(path_text(e.0), path_text(path))).map_values(
        |e: (Seq<Step>, Seq<Rule>)| path_text(e.0))
}

/// The generators with the body generators of the given keys dropped (the body category is
/// added when there is none); nothing changes when there are no keys.
pub open spec fn gens_dropping(cats: Seq<(GeneratorCategory, GenEntries)>, keys: Seq<Seq<char>>) -> Seq<(GeneratorCategory, GenEntries)> {
    if keys.len() == 0 {
        cats
    } else {
        match first_index(cats, GeneratorCategory::BODY) {
            Some(i) => cats.update(i, (GeneratorCategory::BODY, cats[i].1.filter(|e: (Seq<char>, Gen)| !keys.contains(e.0)))),
            None => cats.push((GeneratorCategory::BODY, Seq::empty())),
        }
    }
}

/// Drops the rules whose path holds the text of the path of a value that cannot be a
/// parameter, and the body generators of those rules' paths.
pub fn handle_form_urlencoded_invalid_value(value: &JsonValue, path: &DocPath, matching_rules: &mut MatchingRuleCategory, generators: &mut Generators)
    ensures
        final(matching_rules)@.name == old(matching_rules)@.name,
        final(matching_rules)@.rules == rules_without(old(matching_rules)@.rules, path@),
        final(generators)@ == gens_dropping(old(generators)@, dropped_keys(old(matching_rules)@.rules, path@)),
{
    let path_string = path.to_text();
    let ghost rules0 = matching_rules@.rules;
    let mut kept: Vec<(DocPath, crate::rules::RuleList)> = Vec::new();
    let mut dropped: Vec<String> = Vec::new();
    let mut old_rules: Vec<(DocPath, crate::rules::RuleList)> = Vec::new();
    std::mem::swap(&mut old_rules, &mut matching_rules.rules);
    let ghost taken = old_rules@;
    assert(taken.map_values(|e: (DocPath, crate::rules::RuleList)| (e.0@, e.1@)) == rules0);
    let mut i: usize = 0;
    while i < old_rules.len()
        invariant
            i <= old_rules.len(),
            old_rules@ == taken,
            path_string@ == path_text(path@),
            rules0 == taken.map_values(|e: (DocPath, crate::rules::RuleList)| (e.0@, e.1@)),
            kept@.map_values(|e: (DocPath, crate::rules::RuleList)| (e.0@, e.1@)) == rules_without(rules0.subrange(0, i as int), path@),
            string_views(dropped@) == dropped_keys(rules0.subrange(0, i as int), path@),
        decreases old_rules.len() - i,
    {
        proof {
            reveal(Seq::filter);
            let s = rules0.subrange(0, i + 1);
            assert(s.drop_last() =~= rules0.subrange(0, i as int));
            assert(s.last() == rules0[i as int]);
        }
        let key_text = old_rules[i].0.to_text();
        let ghost kb = kept@;
        let ghost db = dropped@;
        if contains_text(key_text.as_str(), path_string.as_str()) {
            dropped.push(key_text);
            proof {
                assert(string_views(dropped@) =~= string_views(db).push(path_text(rules0[i as int].0)));
                let s = rules0.subrange(0, i + 1);
                let f = |e: (Seq<Step>, Seq<Rule>)| text_contains(path_text(e.0), path_text(path@));
                assert(s.filter(f) == s.drop_last().filter(f).push(s.last()));
                assert(s.filter(f).map_values(|e: (Seq<Step>, Seq<Rule>)| path_text(e.0)) =~=
                    s.drop_last().filter(f).map_values(|e: (Seq<Step>, Seq<Rule>)| path_text(e.0)).push(path_text(s.last().0)));
            }
        } else {
            kept.push((old_rules[i].0.copy(), old_rules[i].1.copy()));
            proof {
                assert(kept@.map_values(|e: (DocPath, crate::rules::RuleList)| (e.0@, e.1@)) =~=
                    kb.map_values(|e: (DocPath, crate::rules::RuleList)| (e.0@, e.1@)).push(rules0[i as int]));
                let s = rules0.subrange(0, i + 1);
                let f = |e: (Seq<Step>, Seq<Rule>)| text_contains(path_text(e.0), path_text(path@));
                assert(s.filter(f) == s.drop_last().filter(f));
            }
        }
        i = i + 1;
    }
    assert(rules0.subrange(0, old_rules.len() as int) =~= rules0);
    matching_rules.rules = kept;
    if dropped.len() > 0 {
        drop_body_generators(generators, &dropped);
    }
}

/// Drops the body generators of the given keys (adding the body category when there is none).
fn drop_body_generators(generators: &mut Generators, keys: &Vec<String>)
    requires
        keys.len() > 0,
    ensures
        final(generators)@ == gens_dropping(old(generators)@, string_views(keys@)),
{
    let ghost cats = generators@;
    let mut i: usize = 0;
    while i < generators.categories.len() && generators.categories[i].0 != GeneratorCategory::BODY
        invariant
            i <= generators.categories.len(),
            generators@ == cats,
            forall|j: int| 0 <= j < i ==> cats[j].0 != GeneratorCategory::BODY,
        decreases generators.categories.len() - i,
    {
        i = i + 1;
    }
    proof { lemma_first_index(cats, GeneratorCategory::BODY, i as int); }
    if i == generators.categories.len() {
        generators.categories.push((GeneratorCategory::BODY, Vec::new()));
        assert(gen_entries_view(Seq::<(String, Generator)>::empty()) =~= Seq::<(Seq<char>, Gen)>::empty());
        assert(generators@ =~= cats.push((GeneratorCategory::BODY, Seq::empty())));
    } else {
        let (c, entries) = generators.categories.remove(i);
        let ghost ev = gen_entries_view(entries@);
        let mut out: Vec<(String, Generator)> = Vec::new();
        let mut k: usize = 0;
        while k < entries.len()
            invariant
                k <= entries.len(),
                ev == gen_entries_view(entries@),
                gen_entries_view(out@) == ev.subrange(0, k as int).filter(|e: (Seq<char>, Gen)| !string_views(keys@).contains(e.0)),
            decreases entries.len() - k,
        {
            proof {
                reveal(Seq::filter);
                let s = ev.subrange(0, k + 1);
                assert(s.drop_last() =~= ev.subrange(0, k as int));
                assert(s.last() == ev[k as int]);
            }
            let ghost before = out@;
            if !crate::actions::contains_str(keys, entries[k].0.as_str()) {
                out.push((entries[k].0.clone(), entries[k].1.copy()));
                assert(gen_entries_view(out@) =~= gen_entries_view(before).push(ev[k as int]));
            }
            k = k + 1;
        }
        assert(ev.subrange(0, entries.len() as int) =~= ev);
        generators.categories.insert(i, (c, out));
        assert(generators@ =~= cats.update(i as int, (GeneratorCategory::BODY,
            cats[i as int].1.filter(|e: (Seq<char>, Gen)| !string_views(keys@).contains(e.0)))));
    }
}

/// The rules after dropping those of each of the paths in turn.
pub open spec fn rules_after(rules: Seq<(Seq<Step>, Seq<Rule>)>, paths: Seq<Seq<Step>>) -> Seq<(Seq<Step>, Seq<Rule>)>
    decreases paths.len(),
{
    if paths.len() == 0 {
        rules
    } else {
        rules_without(rules_after(rules, paths.drop_last()), paths.last())
    }
}

/// The generators after dropping the body generators of the rules dropped for each of the
/// paths in turn.
pub open spec fn gens_after(cats: Seq<(GeneratorCategory, GenEntries)>, rules: Seq<(Seq<Step>, Seq<Rule>)>, paths: Seq<Seq<Step>>) -> Seq<(GeneratorCategory, GenEntries)>
    decreases paths.len(),
{
    if paths.len() == 0 {
        cats
    } else {
        gens_dropping(gens_after(cats, rules, paths.drop_last()), dropped_keys(rules_after(rules, paths.drop_last()), paths.last()))
    }
}

/// One more path dropped, after the others.
proof fn lemma_after_push(cats: Seq<(GeneratorCategory, GenEntries)>, rules: Seq<(Seq<Step>, Seq<Rule>)>, paths: Seq<Seq<Step>>, p: Seq<Step>)
    ensures
        rules_after(rules, paths.push(p)) == rules_without(rules_after(rules, paths), p),
        gens_after(cats, rules, paths.push(p)) == gens_dropping(gens_after(cats, rules, paths), dropped_keys(rules_after(rules, paths), p)),
{
    assert(paths.push(p).drop_last() =~= paths);
}

/// A parameter for a string or number value.
fn scalar_param_of(key: &String, v: &JsonValue, out: &mut Vec<(String, String)>) -> (added: bool)
    ensures
        params_view(final(out)@) == params_view(old(out)@) + scalar_param(key@, v@),
        added == is_scalar(v@),
{
    let ghost before = out@;
    let added = match v {
        JsonValue::Number(n) => {
            out.push((key.clone(), n.clone()));
            true
        },
        JsonValue::Str(s) => {
            out.push((key.clone(), s.clone()));
            true
        },
        _ => false,
    };
    assert(params_view(out@) =~= params_view(before) + scalar_param(key@, v@));
    added
}

/// The parameters of a form body described as JSON; values that cannot be parameters drop
/// the rules and body generators at their paths.
pub fn convert_json_value_to_query_params(value: &JsonValue, matching_rules: &mut MatchingRuleCategory, generators: &mut Generators) -> (r: Vec<(String, String)>)
    ensures
        params_view(r@) == json_params(value@),
        final(matching_rules)@.name == old(matching_rules)@.name,
        final(matching_rules)@.rules == rules_after(old(matching_rules)@.rules, invalid_paths(value@)),
        final(generators)@ == gens_after(old(generators)@, old(matching_rules)@.rules, invalid_paths(value@)),
{
    let ghost rules0 = matching_rules@.rules;
    let ghost gens0 = generators@;
    let mut params: Vec<(String, String)> = Vec::new();
    match value {
        JsonValue::Object(map) => {
            proof { lemma_entry_views(map@); }
            let ghost m = entry_views(map@);
            let mut i: usize = 0;
            while i < map.len()
                invariant
                    i <= map.len(),
                    m == entry_views(map@),
                    m.len() == map.len(),
                    forall|j: int| 0 <= j < map.len() ==> #[trigger] m[j] == (map@[j].0@, map@[j].1@),
                    params_view(params@) == entries_params(m, i as nat),
                    matching_rules@.name == old(matching_rules)@.name,
                    matching_rules@.rules == rules_after(rules0, entries_invalid(m, i as nat)),
                    generators@ == gens_after(gens0, rules0, entries_invalid(m, i as nat)),
                decreases map.len() - i,
            {
                let key = &map[i].0;
                let v = &map[i].1;
                let mut path = DocPath::root();
                path.push_field(key.as_str());
                assert(path@ =~= seq![Step::Root, Step::Field(key@)]);
                let ghost inv_before = entries_invalid(m, i as nat);
                match v {
                    JsonValue::Array(items) => {
                        proof { crate::json::lemma_json_views(items@); }
                        let ghost its = crate::json::json_views(items@);
                        let ghost base = params_view(params@);
                        let mut k: usize = 0;
                        while k < items.len()
                            invariant
                                k <= items.len(),
                                its == crate::json::json_views(items@),
                                its.len() == items.len(),
                                forall|j: int| 0 <= j < items.len() ==> #[trigger] its[j] == items@[j]@,
                                path@ == seq![Step::Root, Step::Field(key@)],
                                params_view(params@) == base + items_params(key@, its, k as nat),
                                matching_rules@.name == old(matching_rules)@.name,
                                matching_rules@.rules == rules_after(rules0, inv_before + items_invalid(path@, its, k as nat)),
                                generators@ == gens_after(gens0, rules0, inv_before + items_invalid(path@, its, k as nat)),
                            decreases items.len() - k,
                        {
                            let ghost pb = params_view(params@);
                            let ok = scalar_param_of(key, &items[k], &mut params);
                            proof {
                                assert(params_view(params@) =~= base + items_params(key@, its, (k + 1) as nat));
                            }
                            if !ok {
                                let item_path = path.join_index(k);
                                let ghost prior = inv_before + items_invalid(path@, its, k as nat);
                                proof { lemma_after_push(gens0, rules0, prior, item_path@); }
                                handle_form_urlencoded_invalid_value(&items[k], &item_path, matching_rules, generators);
                                assert(inv_before + items_invalid(path@, its, (k + 1) as nat) =~= prior.push(item_path@));
                            } else {
                                assert(inv_before + items_invalid(path@, its, (k + 1) as nat) =~= inv_before + items_invalid(path@, its, k as nat));
                            }
                            k = k + 1;
                        }
                        assert(entries_invalid(m, (i + 1) as nat) =~= inv_before + items_invalid(path@, its, items.len() as nat));
                        assert(params_view(params@) =~= entries_params(m, (i + 1) as nat));
                    },
                    _ => {
                        let ok = scalar_param_of(key, v, &mut params);
                        if !ok {
                            proof { lemma_after_push(gens0, rules0, inv_before, path@); }
                            handle_form_urlencoded_invalid_value(v, &path, matching_rules, generators);
                            assert(entries_invalid(m, (i + 1) as nat) =~= inv_before.push(path@));
                        } else {
                            assert(entries_invalid(m, (i + 1) as nat) =~= inv_before);
                        }
                        assert(params_view(params@) =~= entries_params(m, (i + 1) as nat));
                    },
                }
                i = i + 1;
            }
        },
        _ => {
            assert(params_view(params@) =~= Seq::<(Seq<char>, Seq<char>)>::empty());
        },
    }
    params
}

/// Turns the JSON text of a form body (with its rules and generators already taken out)
/// into the form body: the JSON is read, its parameters taken as
/// [`convert_json_value_to_query_params`] says (dropping the rules and body generators of the
/// values that cannot be parameters), and written by `serde_urlencoded`. When the text is not
/// JSON, or the parameters cannot be written, the error comes back and nothing changes.
pub fn process_form_urlencoded_json(json: &str, matching_rules: &mut MatchingRuleCategory, generators: &mut Generators) -> (r: Result<String, String>)
    ensures
        match serde_json_read_str(json@) {
            Ok(j) => {
                &&& final(matching_rules)@.name == old(matching_rules)@.name
                &&& final(matching_rules)@.rules == rules_after(old(matching_rules)@.rules, invalid_paths(j))
                &&& final(generators)@ == gens_after(old(generators)@, old(matching_rules)@.rules, invalid_paths(j))
                &&& match (r, form_urlencoded_text(json_params(j))) {
                    (Ok(a), Ok(b)) => a@ == b,
                    (Err(a), Err(b)) => a@ == b,
                    _ => false,
                }
            },
            Err(e) => {
                &&& r matches Err(f) && f@ == e
                &&& final(matching_rules)@ == old(matching_rules)@
                &&& final(generators)@ == old(generators)@
            },
        },
{
    match read_json_str(json) {
        Ok(values) => {
            let params = convert_json_value_to_query_params(&values, matching_rules, generators);
            to_form_urlencoded(&params)
        },
        Err(e) => Err(e),
    }
}

} // verus!
