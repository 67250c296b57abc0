//! Date and time patterns written with the letters of Java's `DateTimeFormatter`
//! (`yyyy-MM-dd HH:mm:ss`), and the `chrono` formats that write the same fields.

use vstd::prelude::*;
use crate::text::{push_char, push_str, chars_of};

verus! {

/// Whether a character is an ASCII letter: the letters are the pattern's fields, every other
/// character stands for itself.
pub open spec fn is_pattern_letter(c: char) -> bool {
    ('a' <= c && c <= 'z') || ('A' <= c && c <= 'Z')
}

/// The `chrono` item for a run of `n` (at least one) of a pattern letter, when the letter is
/// one that has such an item.
pub open spec fn letter_item(c: char, n: nat) -> Option<Seq<char>> {
    if c == 'y' || c == 'u' {
        Some(if n == 2 { "%y"@ } else { "%Y"@ })
    } else if c == 'M' || c == 'L' {
        Some(if n == 1 { "%-m"@ } else if n == 2 { "%m"@ } else if n == 3 { "%b"@ } else { "%B"@ })
    } else if c == 'd' {
        Some(if n == 1 { "%-d"@ } else { "%d"@ })
    } else if c == 'D' {
        Some("%j"@)
    } else if c == 'E' {
        Some(if n <= 3 { "%a"@ } else { "%A"@ })
    } else if c == 'a' {
        Some("%p"@)
    } else if c == 'H' {
        Some(if n == 1 { "%-H"@ } else { "%H"@ })
    } else if c == 'h' {
        Some(if n == 1 { "%-I"@ } else { "%I"@ })
    } else if c == 'm' {
        Some(if n == 1 { "%-M"@ } else { "%M"@ })
    } else if c == 's' {
        Some(if n == 1 { "%-S"@ } else { "%S"@ })
    } else if c == 'S' {
        if n == 3 { Some("%3f"@) } else if n == 6 { Some("%6f"@) } else if n == 9 { Some("%9f"@) } else { None }
    } else if c == 'Z' {
        Some("%z"@)
    } else if c == 'X' || c == 'x' {
        Some("%:z"@)
    } else if c == 'z' {
        Some("%Z"@)
    } else {
        None
    }
}

/// How many times the character repeats at the start of the text.
pub open spec fn run_len(p: Seq<char>, c: char) -> nat
    decreases p.len(),
{
    if p.len() > 0 && p[0] == c { 1 + run_len(p.drop_first(), c) } else { 0 }
}

/// A character written literally in a `chrono` format: `%` doubled, others as they are.
pub open spec fn literal(c: char) -> Seq<char> {
    if c == '%' { "%%"@ } else { seq![c] }
}

/// Putting two texts in front of a result one after the other is putting both in front.
pub proof fn lemma_prefixed_twice(a: Seq<char>, b: Seq<char>, r: Result<Seq<char>, Seq<char>>)
    ensures
        prefixed(a, prefixed(b, r)) == prefixed(a + b, r),
{
    if let Ok(s) = r {
        assert(a + (b + s) =~= (a + b) + s);
    }
}

/// A text put in front of a result that is not an error.
pub open spec fn prefixed(pre: Seq<char>, r: Result<Seq<char>, Seq<char>>) -> Result<Seq<char>, Seq<char>> {
    match r {
        Ok(s) => Ok(pre + s),
        Err(e) => Err(e),
    }
}

/// `pattern letter 'c' is not supported`.
pub open spec fn unsupported_letter(c: char) -> Seq<char> {
    "pattern letter '"@ + seq![c] + "' is not supported"@
}

/// `quoted text is not closed`.
pub open spec fn unclosed_quote() -> Seq<char> {
    "quoted text is not closed"@
}

/// The `chrono` format for a pattern: each run of a letter is that letter's field, text in
/// single quotes stands for itself (two single quotes for one), and every other character
/// stands for itself.
pub open spec fn chrono_format(p: Seq<char>) -> Result<Seq<char>, Seq<char>>
    decreases p.len(), 1nat,
{
    if p.len() == 0 {
        Ok(Seq::empty())
    } else if p[0] == '\'' {
        if p.len() >= 2 && p[1] == '\'' {
            prefixed(seq!['\''], chrono_format(p.subrange(2, p.len() as int)))
        } else {
            quoted_format(p.drop_first())
        }
    } else if is_pattern_letter(p[0]) {
        let n = run_len(p, p[0]);
        if n == 0 || n > p.len() {
            Err(unsupported_letter(p[0]))
        } else {
            match letter_item(p[0], n) {
                Some(item) => prefixed(item, chrono_format(p.subrange(n as int, p.len() as int))),
                None => Err(unsupported_letter(p[0])),
            }
        }
    } else {
        prefixed(literal(p[0]), chrono_format(p.drop_first()))
    }
}

/// The `chrono` format for the rest of a pattern that starts inside quoted text.
pub open spec fn quoted_format(p: Seq<char>) -> Result<Seq<char>, Seq<char>>
    decreases p.len(), 0nat,
{
    if p.len() == 0 {
        Err(unclosed_quote())
    } else if p[0] == '\'' {
        if p.len() >= 2 && p[1] == '\'' {
            prefixed(seq!['\''], quoted_format(p.subrange(2, p.len() as int)))
        } else {
            chrono_format(p.drop_first())
        }
    } else {
        prefixed(literal(p[0]), quoted_format(p.drop_first()))
    }
}

/// Whether a `chrono` conversion character writes a field of the time of day.
pub open spec fn is_time_field(c: char) -> bool {
    c == 'H' || c == 'I' || c == 'M' || c == 'S' || c == 'p' || c == 'f'
}

/// The length of the `chrono` item at the start of a format that starts with `%`, or zero
/// when it is not one of the items this library writes (or, for a date alone, when it
/// writes a field of the time of day).
pub open spec fn item_len(f: Seq<char>, date_only: bool) -> nat {
    if f.len() >= 2 && (f[1] == '%' || f[1] == 'Y' || f[1] == 'y' || f[1] == 'm' || f[1] == 'b' || f[1] == 'B'
        || f[1] == 'd' || f[1] == 'j' || f[1] == 'a' || f[1] == 'A' || f[1] == 'p' || f[1] == 'H' || f[1] == 'I'
        || f[1] == 'M' || f[1] == 'S' || f[1] == 'z' || f[1] == 'Z') {
        if date_only && is_time_field(f[1]) { 0 } else { 2 }
    } else if f.len() >= 3 && f[1] == '-' && (f[2] == 'm' || f[2] == 'd' || f[2] == 'H' || f[2] == 'I' || f[2] == 'M' || f[2] == 'S') {
        if date_only && is_time_field(f[2]) { 0 } else { 3 }
    } else if f.len() >= 3 && f[1] == ':' && f[2] == 'z' {
        3
    } else if f.len() >= 3 && (f[1] == '3' || f[1] == '6' || f[1] == '9') && f[2] == 'f' {
        if date_only { 0 } else { 3 }
    } else {
        0
    }
}

/// Whether a `chrono` format is made of the items this library writes and of characters
/// other than `%`: such a format writes a date and time (or, when it has no field of the
/// time of day, a date alone) without failing.
pub open spec fn format_safe(f: Seq<char>, date_only: bool) -> bool
    decreases f.len(),
{
    if f.len() == 0 {
        true
    } else if f[0] != '%' {
        format_safe(f.drop_first(), date_only)
    } else {
        let k = item_len(f, date_only);
        k > 0 && format_safe(f.subrange(k as int, f.len() as int), date_only)
    }
}

/// Whether a `chrono` format is safe to write a date and time with.
pub open spec fn chrono_safe(f: Seq<char>) -> bool {
    format_safe(f, false)
}

/// Whether a pattern can be used for a date alone: when it gives a format, that format
/// writes no field of the time of day.
pub open spec fn date_pattern(p: Seq<char>) -> bool {
    chrono_format(p) matches Ok(f) ==> format_safe(f, true)
}

/// Two safe formats one after the other make a safe format.
pub proof fn lemma_safe_concat(a: Seq<char>, b: Seq<char>, date_only: bool)
    requires
        format_safe(a, date_only),
        format_safe(b, date_only),
    ensures
        format_safe(a + b, date_only),
    decreases a.len(),
{
    if a.len() == 0 {
        assert(a + b =~= b);
    } else if a[0] != '%' {
        assert((a + b).drop_first() =~= a.drop_first() + b);
        lemma_safe_concat(a.drop_first(), b, date_only);
    } else {
        let k = item_len(a, date_only);
        assert(item_len(a + b, date_only) == k);
        assert((a + b).subrange(k as int, (a + b).len() as int) =~= a.subrange(k as int, a.len() as int) + b);
        lemma_safe_concat(a.subrange(k as int, a.len() as int), b, date_only);
    }
}

proof fn lemma_literal_safe(c: char, date_only: bool)
    ensures
        format_safe(literal(c), date_only),
{
    reveal_strlit("%%");
    reveal_with_fuel(format_safe, 2);
    let l = literal(c);
    if c == '%' {
        assert(item_len(l, date_only) == 2);
        assert(l.subrange(2, 2) =~= Seq::<char>::empty());
    } else {
        assert(l.drop_first() =~= Seq::<char>::empty());
    }
}

proof fn lemma_item_safe(c: char, n: nat)
    requires
        letter_item(c, n) is Some,
    ensures
        chrono_safe(letter_item(c, n).unwrap()),
{
    reveal_strlit("%y");
    reveal_strlit("%Y");
    reveal_strlit("%-m");
    reveal_strlit("%m");
    reveal_strlit("%b");
    reveal_strlit("%B");
    reveal_strlit("%-d");
    reveal_strlit("%d");
    reveal_strlit("%j");
    reveal_strlit("%a");
    reveal_strlit("%A");
    reveal_strlit("%p");
    reveal_strlit("%-H");
    reveal_strlit("%H");
    reveal_strlit("%-I");
    reveal_strlit("%I");
    reveal_strlit("%-M");
    reveal_strlit("%M");
    reveal_strlit("%-S");
    reveal_strlit("%S");
    reveal_strlit("%3f");
    reveal_strlit("%6f");
    reveal_strlit("%9f");
    reveal_strlit("%z");
    reveal_strlit("%:z");
    reveal_strlit("%Z");
    reveal_with_fuel(format_safe, 2);
    let item = letter_item(c, n).unwrap();
    assert(item_len(item, false) == item.len());
    assert(item.subrange(item.len() as int, item.len() as int) =~= Seq::<char>::empty());
}

/// Every format that a pattern gives is safe.
pub proof fn lemma_format_safe(p: Seq<char>)
    ensures
        chrono_format(p) matches Ok(f) ==> chrono_safe(f),
        quoted_format(p) matches Ok(f) ==> chrono_safe(f),
    decreases p.len(),
{
    if p.len() > 0 {
        let q = seq!['\''];
        assert(chrono_safe(q)) by {
            reveal_with_fuel(format_safe, 2);
            assert(q.drop_first() =~= Seq::<char>::empty());
        }
        lemma_literal_safe(p[0], false);
        lemma_format_safe(p.drop_first());
        if p.len() >= 2 {
            lemma_format_safe(p.subrange(2, p.len() as int));
            if let Ok(f) = chrono_format(p.subrange(2, p.len() as int)) {
                lemma_safe_concat(q, f, false);
            }
            if let Ok(f) = quoted_format(p.subrange(2, p.len() as int)) {
                lemma_safe_concat(q, f, false);
            }
        }
        if let Ok(f) = chrono_format(p.drop_first()) {
            lemma_safe_concat(literal(p[0]), f, false);
        }
        if let Ok(f) = quoted_format(p.drop_first()) {
            lemma_safe_concat(literal(p[0]), f, false);
        }
        if is_pattern_letter(p[0]) {
            let n = run_len(p, p[0]);
            if 0 < n <= p.len() && letter_item(p[0], n) is Some {
                lemma_item_safe(p[0], n);
                lemma_format_safe(p.subrange(n as int, p.len() as int));
                if let Ok(f) = chrono_format(p.subrange(n as int, p.len() as int)) {
                    lemma_safe_concat(letter_item(p[0], n).unwrap(), f, false);
                }
            }
        }
    }
}

/// The number of times the character at `i` repeats from there.
fn run_at(cs: &Vec<char>, i: usize) -> (n: usize)
    requires
        i < cs.len(),
    ensures
        n == run_len(cs@.subrange(i as int, cs.len() as int), cs@[i as int]),
        1 <= n <= cs.len() - i,
{
    let c = cs[i];
    let mut k: usize = i;
    while k < cs.len() && cs[k] == c
        invariant
            i <= k <= cs.len(),
            forall|t: int| i <= t < k ==> cs@[t] == c,
        decreases cs.len() - k,
    {
        k = k + 1;
    }
    proof { lemma_run_len(cs@, i as int, k as int, c); }
    k - i
}

proof fn lemma_run_len(s: Seq<char>, i: int, k: int, c: char)
    requires
        0 <= i <= k <= s.len(),
        forall|t: int| i <= t < k ==> s[t] == c,
        k == s.len() || s[k] != c,
    ensures
        run_len(s.subrange(i, s.len() as int), c) == k - i,
    decreases k - i,
{
    let r = s.subrange(i, s.len() as int);
    if i < k {
        assert(r.drop_first() =~= s.subrange(i + 1, s.len() as int));
        lemma_run_len(s, i + 1, k, c);
    }
}

/// The `chrono` item of a run of a pattern letter; see [`letter_item`].
fn letter_item_of(c: char, n: usize) -> (r: Option<&'static str>)
    ensures
        match (r, letter_item(c, n as nat)) {
            (Some(a), Some(b)) => a@ == b,
            (None, None) => true,
            _ => false,
        },
{
    if c == 'y' || c == 'u' {
        Some(if n == 2 { "%y" } else { "%Y" })
    } else if c == 'M' || c == 'L' {
        Some(if n == 1 { "%-m" } else if n == 2 { "%m" } else if n == 3 { "%b" } else { "%B" })
    } else if c == 'd' {
        Some(if n == 1 { "%-d" } else { "%d" })
    } else if c == 'D' {
        Some("%j")
    } else if c == 'E' {
        Some(if n <= 3 { "%a" } else { "%A" })
    } else if c == 'a' {
        Some("%p")
    } else if c == 'H' {
        Some(if n == 1 { "%-H" } else { "%H" })
    } else if c == 'h' {
        Some(if n == 1 { "%-I" } else { "%I" })
    } else if c == 'm' {
        Some(if n == 1 { "%-M" } else { "%M" })
    } else if c == 's' {
        Some(if n == 1 { "%-S" } else { "%S" })
    } else if c == 'S' {
        if n == 3 { Some("%3f") } else if n == 6 { Some("%6f") } else if n == 9 { Some("%9f") } else { None }
    } else if c == 'Z' {
        Some("%z")
    } else if c == 'X' || c == 'x' {
        Some("%:z")
    } else if c == 'z' {
        Some("%Z")
    } else {
        None
    }
}

fn push_literal(out: &mut String, c: char)
    ensures
        final(out)@ == old(out)@ + literal(c),
{
    proof { reveal_strlit("%%"); }
    if c == '%' {
        push_str(out, "%%");
    } else {
        push_char(out, c);
        assert(out@ =~= old(out)@ + literal(c));
    }
}

/// The `chrono` format for a date and time pattern, or why there is none; see
/// [`chrono_format`]. A format it gives is safe to write a date with.
pub fn to_chrono_format(pattern: &str) -> (r: Result<String, String>)
    ensures
        match (r, chrono_format(pattern@)) {
            (Ok(a), Ok(b)) => a@ == b && chrono_safe(a@),
            (Err(a), Err(b)) => a@ == b,
            _ => false,
        },
{
    proof {
        lemma_format_safe(pattern@);
        reveal_strlit("pattern letter '");
        reveal_strlit("' is not supported");
        reveal_strlit("quoted text is not closed");
    }
    let cs = chars_of(pattern);
    let n = cs.len();
    let mut out = String::new();
    let mut quoted = false;
    let mut i: usize = 0;
    assert(cs@.subrange(0, n as int) =~= pattern@);
    assert(prefixed(out@, chrono_format(pattern@)) == chrono_format(pattern@)) by {
        if let Ok(f) = chrono_format(pattern@) {
            assert(out@ + f =~= f);
        }
    }
    while i < n
        invariant
            n == cs.len(),
            cs@ == pattern@,
            i <= n,
            chrono_format(pattern@) == prefixed(out@, if quoted {
                quoted_format(cs@.subrange(i as int, n as int))
            } else {
                chrono_format(cs@.subrange(i as int, n as int))
            }),
        decreases n - i,
    {
        let ghost rest = cs@.subrange(i as int, n as int);
        let ghost before = out@;
        let c = cs[i];
        assert(rest[0] == c);
        if c == '\'' {
            if i + 1 < n && cs[i + 1] == '\'' {
                assert(rest.subrange(2, rest.len() as int) =~= cs@.subrange(i + 2, n as int));
                push_char(&mut out, '\'');
                i = i + 2;
                proof {
                    let next = if quoted { quoted_format(cs@.subrange(i as int, n as int)) } else { chrono_format(cs@.subrange(i as int, n as int)) };
                    lemma_prefixed_twice(before, seq!['\''], next);
                    assert(before + seq!['\''] =~= out@);
                }
            } else {
                assert(rest.drop_first() =~= cs@.subrange(i + 1, n as int));
                quoted = !quoted;
                i = i + 1;
            }
        } else if quoted {
            assert(rest.drop_first() =~= cs@.subrange(i + 1, n as int));
            push_literal(&mut out, c);
            i = i + 1;
            proof { lemma_prefixed_twice(before, literal(c), quoted_format(cs@.subrange(i as int, n as int))); }
        } else if ('a' <= c && c <= 'z') || ('A' <= c && c <= 'Z') {
            let k = run_at(&cs, i);
            assert(rest.subrange(k as int, rest.len() as int) =~= cs@.subrange(i + k, n as int));
            match letter_item_of(c, k) {
                Some(item) => {
                    push_str(&mut out, item);
                    i = i + k;
                    proof { lemma_prefixed_twice(before, item@, chrono_format(cs@.subrange(i as int, n as int))); }
                },
                None => {
                    let mut m = String::from_str("pattern letter '");
                    push_char(&mut m, c);
                    push_str(&mut m, "' is not supported");
                    assert(m@ =~= unsupported_letter(c));
                    return Err(m);
                },
            }
        } else {
            assert(rest.drop_first() =~= cs@.subrange(i + 1, n as int));
            push_literal(&mut out, c);
            i = i + 1;
            proof { lemma_prefixed_twice(before, literal(c), chrono_format(cs@.subrange(i as int, n as int))); }
        }
    }
    assert(cs@.subrange(n as int, n as int) =~= Seq::<char>::empty());
    if quoted {
        Err(String::from_str("quoted text is not closed"))
    } else {
        Ok(out)
    }
}

} // verus!
