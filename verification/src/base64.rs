//! The standard Base64 text of bytes (RFC 4648 alphabet, with `=` padding).

use vstd::prelude::*;
use crate::text::{chars_of, string_of};

verus! {

/// The standard Base64 alphabet: the value of a six-bit group is the index of its character.
pub open spec fn base64_alphabet() -> Seq<char> {
    "ABCDEFGHIJKLMNOPQRSTUVWXYZabcdefghijklmnopqrstuvwxyz0123456789+/"@
}

/// The character for a six-bit value.
pub open spec fn b64(n: int) -> char {
    base64_alphabet()[n]
}

/// The four characters of one group of one to three bytes: six bits each, high bits first,
/// the last group filled with zero bits and with `=` to four characters.
pub open spec fn b64_group(g: Seq<u8>) -> Seq<char> {
    if g.len() == 1 {
        let n = g[0] as int;
        seq![b64(n / 4), b64((n % 4) * 16), '=', '=']
    } else if g.len() == 2 {
        let n = g[0] as int * 256 + g[1] as int;
        seq![b64(n / 1024), b64((n / 16) % 64), b64((n % 16) * 4), '=']
    } else {
        let n = g[0] as int * 65536 + g[1] as int * 256 + g[2] as int;
        seq![b64(n / 262144), b64((n / 4096) % 64), b64((n / 64) % 64), b64(n % 64)]
    }
}

/// The standard (padded) Base64 text of some bytes: the groups of three bytes in order,
/// each written as [`b64_group`] says.
pub open spec fn base64_standard(b: Seq<u8>) -> Seq<char>
    decreases b.len(),
{
    if b.len() == 0 {
        Seq::empty()
    } else if b.len() <= 3 {
        b64_group(b)
    } else {
        b64_group(b.subrange(0, 3)) + base64_standard(b.subrange(3, b.len() as int))
    }
}

/// Appends the characters of the group of `k` bytes at `i`.
fn push_group(out: &mut Vec<char>, table: &Vec<char>, bytes: &[u8], i: usize, k: usize)
    requires
        1 <= k <= 3,
        i + k <= bytes@.len(),
        table@ == base64_alphabet(),
    ensures
        final(out)@ == old(out)@ + b64_group(bytes@.subrange(i as int, i + k)),
{
    let ghost g = bytes@.subrange(i as int, i + k);
    proof { reveal_strlit("ABCDEFGHIJKLMNOPQRSTUVWXYZabcdefghijklmnopqrstuvwxyz0123456789+/"); }
    assert(table@.len() == 64);
    if k == 1 {
        let n: u32 = bytes[i] as u32;
        assert(g[0] == bytes@[i as int]);
        out.push(table[(n / 4) as usize]);
        out.push(table[((n % 4) * 16) as usize]);
        out.push('=');
        out.push('=');
    } else if k == 2 {
        let n: u32 = bytes[i] as u32 * 256 + bytes[i + 1] as u32;
        assert(g[0] == bytes@[i as int] && g[1] == bytes@[i + 1]);
        out.push(table[(n / 1024) as usize]);
        out.push(table[((n / 16) % 64) as usize]);
        out.push(table[((n % 16) * 4) as usize]);
        out.push('=');
    } else {
        let n: u32 = bytes[i] as u32 * 65536 + bytes[i + 1] as u32 * 256 + bytes[i + 2] as u32;
        assert(g[0] == bytes@[i as int] && g[1] == bytes@[i + 1] && g[2] == bytes@[i + 2]);
        out.push(table[(n / 262144) as usize]);
        out.push(table[((n / 4096) % 64) as usize]);
        out.push(table[((n / 64) % 64) as usize]);
        out.push(table[(n % 64) as usize]);
    }
    assert(out@ =~= old(out)@ + b64_group(g));
}

/// The standard Base64 text of some bytes; see [`base64_standard`].
pub fn base64_encode(bytes: &[u8]) -> (r: String)
    ensures
        r@ == base64_standard(bytes@),
{
    proof { reveal_strlit("ABCDEFGHIJKLMNOPQRSTUVWXYZabcdefghijklmnopqrstuvwxyz0123456789+/"); }
    let table = chars_of("ABCDEFGHIJKLMNOPQRSTUVWXYZabcdefghijklmnopqrstuvwxyz0123456789+/");
    let mut out: Vec<char> = Vec::new();
    let len = bytes.len();
    let mut i: usize = 0;
    assert(bytes@.subrange(0, len as int) =~= bytes@);
    assert(out@ + base64_standard(bytes@.subrange(0, len as int)) =~= base64_standard(bytes@));
    while i < len
        invariant
            i <= len,
            len == bytes@.len(),
            table@ == base64_alphabet(),
            out@ + base64_standard(bytes@.subrange(i as int, len as int)) == base64_standard(bytes@),
        decreases len - i,
    {
        let ghost before = out@;
        let ghost tail = bytes@.subrange(i as int, len as int);
        let k: usize = if len - i < 3 { len - i } else { 3 };
        push_group(&mut out, &table, bytes, i, k);
        proof {
            assert(tail.subrange(0, k as int) =~= bytes@.subrange(i as int, i + k));
            if tail.len() <= 3 {
                assert(tail =~= bytes@.subrange(i as int, i + k));
                assert(bytes@.subrange(i + k, len as int) =~= Seq::<u8>::empty());
            } else {
                assert(tail.subrange(3, tail.len() as int) =~= bytes@.subrange(i + 3, len as int));
            }
            assert(out@ + base64_standard(bytes@.subrange(i + k, len as int)) =~= before + base64_standard(tail));
        }
        i = i + k;
    }
    assert(bytes@.subrange(len as int, len as int) =~= Seq::<u8>::empty());
    assert(out@ =~= base64_standard(bytes@));
    string_of(&out)
}

} // verus!
