//! Calls into outside crates and into parts of `std` that `vstd` does not describe, each with
//! the contract that the rest of the library relies on.

use vstd::prelude::*;
use crate::datetime::{chrono_safe, format_safe};
use crate::text::decimal;
use rand::Rng;
use rand::seq::SliceRandom;
use rand::seq::IteratorRandom;

verus! {

/// What `snailquote::escape` makes of a string: its text, and whether the input came back
/// unchanged (a borrowed `Cow`).
pub uninterp spec fn snailquote_escape(s: Seq<char>) -> (Seq<char>, bool);

/// What `format!("{:?}", s)` writes for a string slice.
pub uninterp spec fn debug_string(s: Seq<char>) -> Seq<char>;

/// `snailquote::escape`. The contract names its outcome, and adds what the crate documents:
/// a string that needs no escaping comes back unchanged (as a borrowed `Cow`).
#[verifier::external_body]
pub(crate) fn escape(s: &str) -> (r: (String, bool))
    ensures
        (r.0@, r.1) == snailquote_escape(s@),
        r.1 ==> r.0@ == s@,
{
    let e = snailquote::escape(s);
    let borrowed = matches!(e, std::borrow::Cow::Borrowed(_));
    (e.to_string(), borrowed)
}

/// `format!("{:?}", s)` for a string slice.
#[verifier::external_body]
pub(crate) fn debug_str(s: &str) -> (r: String)
    ensures
        r@ == debug_string(s@),
{
    format!("{:?}", s)
}

/// `String::from_utf8_lossy`: the bytes read as UTF-8, with each invalid sequence replaced.
pub uninterp spec fn utf8_lossy(bytes: Seq<u8>) -> Seq<char>;

/// What `regex::Regex::new(re)` and then `is_match(text)` give: whether the text matches,
/// or the text of the error when the expression is not valid.
pub uninterp spec fn regex_outcome(re: Seq<char>, text: Seq<char>) -> Result<bool, Seq<char>>;

/// `str::to_uppercase`.
pub uninterp spec fn unicode_upper(s: Seq<char>) -> Seq<char>;

/// `str::to_lowercase`.
pub uninterp spec fn unicode_lower(s: Seq<char>) -> Seq<char>;

/// `String::from_utf8_lossy`.
#[verifier::external_body]
pub(crate) fn from_utf8_lossy(bytes: &[u8]) -> (r: String)
    ensures
        r@ == utf8_lossy(bytes@),
{
    String::from_utf8_lossy(bytes).to_string()
}

/// `regex::Regex::new` and `Regex::is_match`; the contract names the outcome, which depends
/// on the expression and the text alone.
#[verifier::external_body]
pub(crate) fn regex_is_match(re: &str, text: &str) -> (r: Result<bool, String>)
    ensures
        match (r, regex_outcome(re@, text@)) {
            (Ok(a), Ok(b)) => a == b,
            (Err(e), Err(f)) => e@ == f,
            _ => false,
        },
{
    regex::Regex::new(re).map(|rx| rx.is_match(text)).map_err(|e| e.to_string())
}

/// `str::to_uppercase`.
#[verifier::external_body]
pub(crate) fn to_upper(s: &str) -> (r: String)
    ensures
        r@ == unicode_upper(s@),
{
    s.to_uppercase()
}

/// `str::to_lowercase`.
#[verifier::external_body]
pub(crate) fn to_lower(s: &str) -> (r: String)
    ensures
        r@ == unicode_lower(s@),
{
    s.to_lowercase()
}

/// Whether a character is one of `0123456789ABCDEF`.
pub open spec fn is_upper_hex_digit(c: char) -> bool {
    ('0' <= c && c <= '9') || ('A' <= c && c <= 'F')
}

/// Whether a character is one of `0123456789abcdef`.
pub open spec fn is_lower_hex_digit(c: char) -> bool {
    ('0' <= c && c <= '9') || ('a' <= c && c <= 'f')
}

/// Whether a character is an ASCII letter or digit.
pub open spec fn is_ascii_alphanumeric(c: char) -> bool {
    ('0' <= c && c <= '9') || ('a' <= c && c <= 'z') || ('A' <= c && c <= 'Z')
}

/// `rand`'s `SliceRandom::choose` on a non-empty list of characters: the contract says
/// only that the character is one of them.
#[verifier::external_body]
pub(crate) fn random_choice(chars: &Vec<char>) -> (r: char)
    requires
        chars.len() > 0,
    ensures
        chars@.contains(r),
{
    *chars.choose(&mut rand::thread_rng()).unwrap()
}

/// `rand::Rng::gen_range(lo..hi)` on a `usize` range, which the contract requires to be
/// non-empty; it says only that the number is in the range.
#[verifier::external_body]
pub(crate) fn random_index(lo: usize, hi: usize) -> (r: usize)
    requires
        lo < hi,
    ensures
        lo <= r < hi,
{
    rand::thread_rng().gen_range(lo..hi)
}

/// `rand::Rng::gen_range(lo..hi)` on an `i32` range, which the contract requires to be
/// non-empty; it says only that the number is in the range.
#[verifier::external_body]
pub(crate) fn random_int(lo: i32, hi: i32) -> (r: i32)
    requires
        lo < hi,
    ensures
        lo <= r < hi,
{
    rand::thread_rng().gen_range(lo..hi)
}

/// `rand::Rng::gen_range(lo..hi)` on a `u16` range, which the contract requires to be
/// non-empty; it says only that the number is in the range.
#[verifier::external_body]
pub(crate) fn random_u16(lo: u16, hi: u16) -> (r: u16)
    requires
        lo < hi,
    ensures
        lo <= r < hi,
{
    rand::thread_rng().gen_range(lo..hi)
}

/// What `str::parse::<u16>` gives for a text: the number, or the text of its error.
pub uninterp spec fn u16_from_text(t: Seq<char>) -> Result<u16, Seq<char>>;

/// `str::parse::<u16>`: the contract names the outcome, which depends on the text alone, and
/// adds what `u16`'s `FromStr` documents of the plain decimal form of a `u16`: it is read as
/// that number.
#[verifier::external_body]
pub(crate) fn parse_u16(t: &str) -> (r: Result<u16, String>)
    ensures
        match (r, u16_from_text(t@)) {
            (Ok(a), Ok(b)) => a == b,
            (Err(a), Err(b)) => a@ == b,
            _ => false,
        },
        forall|v: nat| t@ == #[trigger] decimal(v) && v <= u16::MAX ==> (match r { Ok(x) => x == v, Err(_) => false }),
{
    t.parse::<u16>().map_err(|e| e.to_string())
}

/// `rand::Rng::gen::<bool>()`: nothing is promised about which.
#[verifier::external_body]
pub(crate) fn random_bool() -> (r: bool)
{
    rand::thread_rng().gen::<bool>()
}

/// `IteratorRandom::choose_multiple` of `amount` of the characters, joined: as many as
/// asked for, at most as many as there are, each one of the characters, and no two from
/// the same position (so, of characters that differ, no two alike).
#[verifier::external_body]
pub(crate) fn random_pick(chars: &Vec<char>, amount: usize) -> (r: String)
    ensures
        r@.len() == if amount < chars.len() { amount } else { chars.len() },
        forall|i: int| 0 <= i < r@.len() ==> chars@.contains(#[trigger] r@[i]),
        (forall|i: int, j: int| 0 <= i < j < chars.len() ==> chars@[i] != chars@[j])
            ==> forall|i: int, j: int| 0 <= i < j < r@.len() ==> r@[i] != r@[j],
{
    chars.iter().copied().choose_multiple(&mut rand::thread_rng(), amount).into_iter().collect()
}

/// `size` characters sampled from `rand::distributions::Alphanumeric`: ASCII letters and
/// digits.
#[verifier::external_body]
pub(crate) fn random_alphanumeric(size: usize) -> (r: String)
    ensures
        r@.len() == size,
        forall|i: int| 0 <= i < r@.len() ==> is_ascii_alphanumeric(#[trigger] r@[i]),
{
    rand::thread_rng().sample_iter(&rand::distributions::Alphanumeric).map(char::from).take(size).collect()
}

/// Whether a text has the shape of a hyphenated UUID: 36 characters, hyphens at 8, 13, 18
/// and 23, lower case hex digits elsewhere.
pub open spec fn uuid_hyphenated_shape(s: Seq<char>) -> bool {
    &&& s.len() == 36
    &&& forall|i: int| 0 <= i < 36 ==> if i == 8 || i == 13 || i == 18 || i == 23 {
        s[i] == '-'
    } else {
        is_lower_hex_digit(#[trigger] s[i])
    }
}

/// `uuid::Uuid::new_v4()` written hyphenated: the contract states the shape of the text,
/// and the version digit `4` that a version 4 UUID carries.
#[verifier::external_body]
pub(crate) fn uuid_v4_hyphenated() -> (r: String)
    ensures
        uuid_hyphenated_shape(r@),
        r@[14] == '4',
{
    uuid::Uuid::new_v4().hyphenated().to_string()
}

/// `uuid::Uuid::new_v4()` written simple: 32 lower case hex digits, with the version digit
/// `4` at 12.
#[verifier::external_body]
pub(crate) fn uuid_v4_simple() -> (r: String)
    ensures
        r@.len() == 32,
        forall|i: int| 0 <= i < 32 ==> is_lower_hex_digit(#[trigger] r@[i]),
        r@[12] == '4',
{
    uuid::Uuid::new_v4().simple().to_string()
}

/// The error `regex_syntax` (0.6, with Unicode off) gives when it parses the pattern, if any.
pub uninterp spec fn regex_parse_error(pattern: Seq<char>) -> Option<Seq<char>>;

/// The error `rand_regex::Regex::with_hir` gives for the parsed pattern and the most
/// repeats of an unbounded repetition, if any.
pub uninterp spec fn regex_sampler_error(pattern: Seq<char>, max_repeat: u32) -> Option<Seq<char>>;

/// A random string that the pattern matches, from `rand_regex` after `regex_syntax` parses
/// the pattern (`ParserBuilder::parse` with Unicode off, `Regex::with_hir`, `Rng::sample`;
/// the values between the calls are of those crates' own types). The contract names the
/// two errors, which depend on the pattern and the repeat limit alone, and says nothing
/// about the string (which is random).
#[verifier::external_body]
pub(crate) fn regex_sample(pattern: &str, max_repeat: u32) -> (r: Result<String, (bool, String)>)
    ensures
        match r {
            Ok(_) => regex_parse_error(pattern@) is None && regex_sampler_error(pattern@, max_repeat) is None,
            Err((true, e)) => regex_parse_error(pattern@) == Some(e@),
            Err((false, e)) => regex_parse_error(pattern@) is None && regex_sampler_error(pattern@, max_repeat) == Some(e@),
        },
{
    match regex_syntax::ParserBuilder::new().unicode(false).build().parse(pattern) {
        Ok(hir) => match rand_regex::Regex::with_hir(hir, max_repeat) {
            Ok(gen) => Ok(rand::thread_rng().sample::<String, _>(gen)),
            Err(err) => Err((false, err.to_string())),
        },
        Err(err) => Err((true, err.to_string())),
    }
}

/// `chrono::Local::now().format(format).to_string()`: the local date and time now, written
/// with the format. It depends on the clock, so nothing is promised about the text. Writing
/// fails, and `to_string` panics, on a format that `chrono` cannot use; the format is
/// required to be made of items that it can.
#[verifier::external_body]
pub(crate) fn local_now(format: &str) -> (r: String)
    requires
        chrono_safe(format@),
{
    chrono::Local::now().format(format).to_string()
}

/// `chrono::Local::now().date().format(format).to_string()`: the local date today, with its
/// offset from UTC, written with the format. It depends on the clock, so nothing is promised
/// about the text. A date has no time of day, so a format with a field of it fails (and
/// `to_string` panics); the format is required to have none.
#[verifier::external_body]
#[allow(deprecated)]
pub(crate) fn local_today(format: &str) -> (r: String)
    requires
        format_safe(format@, true),
{
    chrono::Local::now().date().format(format).to_string()
}

/// The first match of a regular expression in a text: the text before the match, the text of
/// the match's first group (`None` when the group did not take part or does not exist), and the
/// text after the match; `None` when nothing matches, or the error when the expression is not
/// valid.
pub uninterp spec fn regex_first_match(re: Seq<char>, text: Seq<char>) -> Result<Option<(Seq<char>, Option<Seq<char>>, Seq<char>)>, Seq<char>>;

/// `regex::Regex::new(re)` and `Regex::captures(text)`: the contract names the outcome, which
/// depends on the arguments alone. The pieces around the whole match are handed out as texts.
#[verifier::external_body]
pub(crate) fn regex_first_captures(re: &str, text: &str) -> (r: Result<Option<(String, Option<String>, String)>, String>)
    ensures
        match (r, regex_first_match(re@, text@)) {
            (Ok(None), Ok(None)) => true,
            (Ok(Some((b, g, a))), Ok(Some((b2, g2, a2)))) => b@ == b2 && a@ == a2 && match (g, g2) {
                (Some(x), Some(y)) => x@ == y,
                (None, None) => true,
                _ => false,
            },
            (Err(a), Err(b)) => a@ == b,
            _ => false,
        },
{
    match regex::Regex::new(re) {
        Ok(rx) => Ok(match rx.captures(text) {
            Some(caps) => match caps.get(0) {
                Some(whole) => Some((text[..whole.start()].to_string(),
                    caps.get(1).map(|g| g.as_str().to_string()), text[whole.end()..].to_string())),
                None => None,
            },
            None => None,
        }),
        Err(err) => Err(err.to_string()),
    }
}

} // verus!
