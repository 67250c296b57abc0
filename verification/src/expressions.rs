//! Provider state expressions: text with `${name}` parts, each standing for the value of a
//! name in the provider state context.

use vstd::prelude::*;
use crate::text::{push_char, push_str, chars_of, string_of};
use crate::json::{JsonValue, Json, entry_views, lemma_entry_views};
use crate::actions::{first_entry, find_entry, json_param_text};

verus! {

/// Whether a text holds an expression part: `${` somewhere in it.
pub open spec fn has_expression(e: Seq<char>) -> bool
    decreases e.len(),
{
    if e.len() < 2 {
        false
    } else {
        (e[0] == '$' && e[1] == '{') || has_expression(e.drop_first())
    }
}

/// How many characters come before the first `}`, if there is one.
pub open spec fn close_index(e: Seq<char>) -> Option<nat>
    decreases e.len(),
{
    if e.len() == 0 {
        None
    } else if e[0] == '}' {
        Some(0)
    } else {
        match close_index(e.drop_first()) {
            Some(k) => Some(k + 1),
            None => None,
        }
    }
}

/// `Value '<name>' was not found in the provided context`.
pub open spec fn not_in_context(e: Seq<char>) -> Seq<char> {
    "Value '"@ + e + "' was not found in the provided context"@
}

/// `expression is missing its closing brace`.
pub open spec fn unclosed_expression() -> Seq<char> {
    "expression is missing its closing brace"@
}

/// A text put in front of a result that is not an error.
pub open spec fn prefixed(pre: Seq<char>, r: Result<Seq<char>, Seq<char>>) -> Result<Seq<char>, Seq<char>> {
    match r {
        Ok(s) => Ok(pre + s),
        Err(e) => Err(e),
    }
}

/// The text with each `${name}` part replaced by the text of the value of the name, or the
/// error of the first part whose name has no value or that is not closed.
pub open spec fn interpolate(ctx: Seq<(Seq<char>, Json)>, e: Seq<char>) -> Result<Seq<char>, Seq<char>>
    decreases e.len(),
{
    if e.len() == 0 {
        Ok(Seq::empty())
    } else if e.len() >= 2 && e[0] == '$' && e[1] == '{' {
        let body = e.subrange(2, e.len() as int);
        match close_index(body) {
            None => Err(unclosed_expression()),
            Some(k) => {
                let name = body.subrange(0, k as int);
                if k + 3 > e.len() {
                    Err(unclosed_expression())
                } else {
                    match first_entry(ctx, name) {
                        Some(v) => prefixed(json_param_text(v), interpolate(ctx, e.subrange((k + 3) as int, e.len() as int))),
                        None => Err(not_in_context(name)),
                    }
                }
            },
        }
    } else {
        prefixed(seq![e[0]], interpolate(ctx, e.drop_first()))
    }
}

/// The value of an expression in the provider state context: when it has `${name}` parts,
/// the text with each replaced; else the value under the whole expression as a name.
pub open spec fn context_value(ctx: Seq<(Seq<char>, Json)>, e: Seq<char>) -> Result<Seq<char>, Seq<char>> {
    if has_expression(e) {
        interpolate(ctx, e)
    } else {
        match first_entry(ctx, e) {
            Some(v) => Ok(json_param_text(v)),
            None => Err(not_in_context(e)),
        }
    }
}

/// The name of an expression that is one `${name}` part and nothing else.
pub open spec fn single_name(e: Seq<char>) -> Option<Seq<char>> {
    if e.len() >= 3 && e[0] == '$' && e[1] == '{' && close_index(e.subrange(2, e.len() as int)) == Some((e.len() - 3) as nat) {
        Some(e.subrange(2, e.len() - 1))
    } else {
        None
    }
}

/// The value of an expression as JSON: the value of the name of a single `${name}` part or
/// of an expression without parts, as it is; else the text of the expression as a string.
pub open spec fn context_json(ctx: Seq<(Seq<char>, Json)>, e: Seq<char>) -> Result<Json, Seq<char>> {
    let name = match single_name(e) {
        Some(n) => n,
        None => e,
    };
    if single_name(e) is Some || !has_expression(e) {
        match first_entry(ctx, name) {
            Some(v) => Ok(v),
            None => Err(not_in_context(name)),
        }
    } else {
        match interpolate(ctx, e) {
            Ok(s) => Ok(Json::Str(s)),
            Err(m) => Err(m),
        }
    }
}

/// Whether the characters from `i` on hold an expression part; see [`has_expression`].
fn has_expression_from(cs: &Vec<char>, i: usize) -> (r: bool)
    requires
        i <= cs.len(),
    ensures
        r == has_expression(cs@.subrange(i as int, cs.len() as int)),
    decreases cs.len() - i,
{
    let ghost rest = cs@.subrange(i as int, cs.len() as int);
    if cs.len() - i < 2 {
        false
    } else {
        assert(rest.drop_first() =~= cs@.subrange(i + 1, cs.len() as int));
        (cs[i] == '$' && cs[i + 1] == '{') || has_expression_from(cs, i + 1)
    }
}

/// The position of the first `}` from `i` on, if there is one; see [`close_index`].
fn close_from(cs: &Vec<char>, i: usize) -> (r: Option<usize>)
    requires
        i <= cs.len(),
    ensures
        match (r, close_index(cs@.subrange(i as int, cs.len() as int))) {
            (Some(j), Some(k)) => i <= j < cs.len() && j - i == k,
            (None, None) => true,
            _ => false,
        },
    decreases cs.len() - i,
{
    let ghost rest = cs@.subrange(i as int, cs.len() as int);
    if i == cs.len() {
        None
    } else if cs[i] == '}' {
        Some(i)
    } else {
        assert(rest.drop_first() =~= cs@.subrange(i + 1, cs.len() as int));
        close_from(cs, i + 1)
    }
}

/// The characters from `a` up to `b`, as a string.
fn slice_string(cs: &Vec<char>, a: usize, b: usize) -> (r: String)
    requires
        a <= b <= cs.len(),
    ensures
        r@ == cs@.subrange(a as int, b as int),
{
    let mut part: Vec<char> = Vec::new();
    let mut k = a;
    while k < b
        invariant
            a <= k <= b <= cs.len(),
            part@ == cs@.subrange(a as int, k as int),
        decreases b - k,
    {
        part.push(cs[k]);
        k = k + 1;
        assert(part@ =~= cs@.subrange(a as int, k as int));
    }
    string_of(&part)
}

/// The text of a JSON value used as a parameter: a string as it is, else its JSON text.
fn param_text(j: &JsonValue) -> (r: String)
    ensures
        r@ == json_param_text(j@),
{
    match j {
        JsonValue::Str(s) => s.clone(),
        _ => crate::json::json_text(j),
    }
}

/// Replaces the `${name}` parts of the expression; see [`interpolate`].
pub fn interpolate_expression(context: &Vec<(String, JsonValue)>, expression: &str) -> (r: Result<String, String>)
    ensures
        match (r, interpolate(entry_views(context@), expression@)) {
            (Ok(a), Ok(b)) => a@ == b,
            (Err(a), Err(b)) => a@ == b,
            _ => false,
        },
{
    proof {
        lemma_entry_views(context@);
        reveal_strlit("Value '");
        reveal_strlit("' was not found in the provided context");
        reveal_strlit("expression is missing its closing brace");
    }
    let ghost ctx = entry_views(context@);
    let cs = chars_of(expression);
    let n = cs.len();
    let mut out = String::new();
    let mut i: usize = 0;
    assert(cs@.subrange(0, n as int) =~= expression@);
    assert(prefixed(out@, interpolate(ctx, expression@)) == interpolate(ctx, expression@)) by {
        if let Ok(f) = interpolate(ctx, expression@) {
            assert(out@ + f =~= f);
        }
    }
    while i < n
        invariant
            n == cs.len(),
            cs@ == expression@,
            i <= n,
            ctx == entry_views(context@),
            interpolate(ctx, expression@) == prefixed(out@, interpolate(ctx, cs@.subrange(i as int, n as int))),
        decreases n - i,
    {
        let ghost rest = cs@.subrange(i as int, n as int);
        let ghost before = out@;
        let ghost i0 = i as int;
        if i + 1 < n && cs[i] == '$' && cs[i + 1] == '{' {
            assert(rest.subrange(2, rest.len() as int) =~= cs@.subrange(i + 2, n as int));
            match close_from(&cs, i + 2) {
                None => return Err(String::from_str("expression is missing its closing brace")),
                Some(j) => {
                    let name = slice_string(&cs, i + 2, j);
                    assert(name@ =~= rest.subrange(2, rest.len() as int).subrange(0, (j - (i + 2)) as int));
                    match find_entry(context, name.as_str()) {
                        None => {
                            let mut m = String::from_str("Value '");
                            push_str(&mut m, name.as_str());
                            push_str(&mut m, "' was not found in the provided context");
                            assert(m@ =~= not_in_context(name@));
                            return Err(m);
                        },
                        Some(k) => {
                            let text = param_text(&context[k].1);
                            push_str(&mut out, text.as_str());
                            assert(rest.subrange((j - i) + 1, rest.len() as int) =~= cs@.subrange(j + 1, n as int));
                            i = j + 1;
                            proof {
                                let next = interpolate(ctx, cs@.subrange(i as int, n as int));
                                let body = rest.subrange(2, rest.len() as int);
                                assert(body =~= cs@.subrange(i0 + 2, n as int));
                                assert(close_index(body) == Some((j - (i0 + 2)) as nat));
                                lemma_entry_views(context@);
                                assert(first_entry(ctx, name@) == Some(context@[k as int].1@));
                                assert(interpolate(ctx, rest) == prefixed(text@, next));
                                if let Ok(s) = next {
                                    assert(before + (text@ + s) =~= out@ + s);
                                }
                            }
                        },
                    }
                },
            }
        } else {
            assert(rest.drop_first() =~= cs@.subrange(i + 1, n as int));
            push_char(&mut out, cs[i]);
            i = i + 1;
            proof {
                let next = interpolate(ctx, cs@.subrange(i as int, n as int));
                if let Ok(s) = next {
                    assert(before + (seq![cs@[i - 1]] + s) =~= out@ + s);
                }
            }
        }
    }
    assert(cs@.subrange(n as int, n as int) =~= Seq::<char>::empty());
    proof {
        assert(out@ + Seq::<char>::empty() =~= out@);
    }
    Ok(out)
}

/// The value of an expression in the provider state context; see [`context_value`].
pub fn generate_value_from_context(expression: &str, context: &Vec<(String, JsonValue)>) -> (r: Result<String, String>)
    ensures
        match (r, context_value(entry_views(context@), expression@)) {
            (Ok(a), Ok(b)) => a@ == b,
            (Err(a), Err(b)) => a@ == b,
            _ => false,
        },
{
    proof {
        lemma_entry_views(context@);
        reveal_strlit("Value '");
        reveal_strlit("' was not found in the provided context");
    }
    let cs = chars_of(expression);
    assert(cs@.subrange(0, cs.len() as int) =~= expression@);
    if has_expression_from(&cs, 0) {
        interpolate_expression(context, expression)
    } else {
        match find_entry(context, expression) {
            Some(i) => Ok(param_text(&context[i].1)),
            None => {
                let mut m = String::from_str("Value '");
                push_str(&mut m, expression);
                push_str(&mut m, "' was not found in the provided context");
                assert(m@ =~= not_in_context(expression@));
                Err(m)
            },
        }
    }
}

/// The value of an expression as JSON; see [`context_json`].
pub fn json_value_from_context(expression: &str, context: &Vec<(String, JsonValue)>) -> (r: Result<JsonValue, String>)
    ensures
        match (r, context_json(entry_views(context@), expression@)) {
            (Ok(a), Ok(b)) => a@ == b,
            (Err(a), Err(b)) => a@ == b,
            _ => false,
        },
{
    proof {
        lemma_entry_views(context@);
        reveal_strlit("Value '");
        reveal_strlit("' was not found in the provided context");
    }
    let cs = chars_of(expression);
    let n = cs.len();
    assert(cs@.subrange(0, n as int) =~= expression@);
    let single = if n >= 3 && cs[0] == '$' && cs[1] == '{' {
        match close_from(&cs, 2) {
            Some(j) => j == n - 1,
            None => false,
        }
    } else {
        false
    };
    assert(single == (single_name(expression@) is Some));
    if single || !has_expression_from(&cs, 0) {
        let name = if single { slice_string(&cs, 2, n - 1) } else { String::from_str(expression) };
        match find_entry(context, name.as_str()) {
            Some(i) => Ok(context[i].1.copy()),
            None => {
                let mut m = String::from_str("Value '");
                push_str(&mut m, name.as_str());
                push_str(&mut m, "' was not found in the provided context");
                assert(m@ =~= not_in_context(name@));
                Err(m)
            },
        }
    } else {
        match interpolate_expression(context, expression) {
            Ok(s) => Ok(JsonValue::Str(s)),
            Err(e) => Err(e),
        }
    }
}

} // verus!
