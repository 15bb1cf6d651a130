//! A template-driven mail composition and delivery pipeline.
//!
//! The library composes an email from a reusable template and named input
//! fields, resolves embedded resources into content-addressed parts, encodes
//! the finished mail into wire bytes, and decides an SMTP delivery session
//! step by step. All text and wire content is modelled as byte sequences.

use vstd::prelude::*;
use vstd::string::*;

pub mod config;
pub mod context;
pub mod fileset;
pub mod mail;
pub mod resource;
pub mod smtp;
pub mod template;
pub mod templates;
pub mod wire;

verus! {

/// True when every byte is seven-bit ASCII.
pub open spec fn spec_all_ascii(s: Seq<u8>) -> bool {
    forall|i: int| 0 <= i < s.len() ==> s[i] < 128
}

/// Checks that every byte of `v` is seven-bit ASCII.
pub fn all_ascii(v: &[u8]) -> (r: bool)
    ensures
        r == spec_all_ascii(v@),
{
    let mut i: usize = 0;
    while i < v.len()
        invariant
            0 <= i <= v@.len(),
            forall|j: int| 0 <= j < i ==> v@[j] < 128,
        decreases v@.len() - i,
    {
        if v[i] >= 128 {
            return false;
        }
        i = i + 1;
    }
    true
}

/// Compares two byte slices for equality.
pub fn bytes_eq(a: &[u8], b: &[u8]) -> (r: bool)
    ensures
        r == (a@ == b@),
{
    if a.len() != b.len() {
        assert(a@ != b@) by {
            assert(a@.len() != b@.len());
        }
        return false;
    }
    let mut i: usize = 0;
    while i < a.len()
        invariant
            0 <= i <= a@.len(),
            a@.len() == b@.len(),
            forall|j: int| 0 <= j < i ==> a@[j] == b@[j],
        decreases a@.len() - i,
    {
        if a[i] != b[i] {
            return false;
        }
        i = i + 1;
    }
    assert(a@ =~= b@);
    true
}

/// The bytes of an ASCII string literal, as an owned vector.
pub fn lit_bytes(s: &str) -> (r: Vec<u8>)
    ensures
        r@ == s.spec_bytes(),
{
    s.as_bytes_vec()
}

/// An owned copy of a byte slice.
pub fn copy_bytes(src: &[u8]) -> (r: Vec<u8>)
    ensures
        r@ == src@,
{
    let mut out: Vec<u8> = Vec::new();
    push_all(&mut out, src);
    assert(out@ =~= src@);
    out
}

/// Appends all of `src` to `out`.
pub fn push_all(out: &mut Vec<u8>, src: &[u8])
    ensures
        final(out)@ == old(out)@ + src@,
{
    let mut i: usize = 0;
    while i < src.len()
        invariant
            0 <= i <= src@.len(),
            out@ == old(out)@ + src@.subrange(0, i as int),
        decreases src@.len() - i,
    {
        out.push(src[i]);
        assert(out@ =~= old(out)@ + src@.subrange(0, i + 1 as int));
        i = i + 1;
    }
    assert(out@ =~= old(out)@ + src@);
}

/// Decimal rendering of `n`, most significant digit first, no leading zeros.
pub open spec fn spec_dec(n: u64) -> Seq<u8>
    decreases n,
{
    if n < 10 {
        seq![(48 + n) as u8]
    } else {
        spec_dec(n / 10).push((48 + n % 10) as u8)
    }
}

/// Renders `n` in decimal.
pub fn dec_bytes(n: u64) -> (r: Vec<u8>)
    ensures
        r@ == spec_dec(n),
        r@.len() >= 1,
    decreases n,
{
    let digit: u8 = (48 + n % 10) as u8;
    if n < 10 {
        let mut v: Vec<u8> = Vec::new();
        v.push(digit);
        assert(v@ =~= spec_dec(n));
        v
    } else {
        let mut v = dec_bytes(n / 10);
        v.push(digit);
        assert(v@ =~= spec_dec(n));
        v
    }
}

/// Distinct numbers have distinct decimal renderings.
pub proof fn lemma_dec_injective(a: u64, b: u64)
    requires
        a != b,
    ensures
        spec_dec(a) != spec_dec(b),
    decreases a + b,
{
    if a < 10 && b < 10 {
        assert(spec_dec(a)[0] != spec_dec(b)[0]);
    } else if a < 10 && b >= 10 {
        lemma_dec_len_one(a);
        lemma_dec_len_two(b);
    } else if a >= 10 && b < 10 {
        lemma_dec_len_one(b);
        lemma_dec_len_two(a);
    } else {
        if a / 10 != b / 10 {
            lemma_dec_injective(a / 10, b / 10);
            if spec_dec(a) == spec_dec(b) {
                assert(spec_dec(a).drop_last() =~= spec_dec(a / 10));
                assert(spec_dec(b).drop_last() =~= spec_dec(b / 10));
            }
        } else {
            assert(a % 10 != b % 10);
            assert(spec_dec(a).last() != spec_dec(b).last());
        }
    }
}

/// A one-digit rendering has length one.
proof fn lemma_dec_len_one(a: u64)
    requires
        a < 10,
    ensures
        spec_dec(a).len() == 1,
{
}

/// A multi-digit rendering has length at least two.
proof fn lemma_dec_len_two(a: u64)
    requires
        a >= 10,
    ensures
        spec_dec(a).len() >= 2,
{
    lemma_dec_len_pos(a / 10);
}

/// Every rendering has at least one digit.
proof fn lemma_dec_len_pos(a: u64)
    ensures
        spec_dec(a).len() >= 1,
    decreases a,
{
    if a >= 10 {
        lemma_dec_len_pos(a / 10);
    }
}

/// Lowercase hexadecimal digit for a value below 16.
pub open spec fn spec_hex_digit(n: u64) -> u8 {
    if n < 10 {
        (48 + n) as u8
    } else {
        (87 + n) as u8
    }
}

/// Hexadecimal rendering of `n`, most significant digit first, no leading zeros.
pub open spec fn spec_hex(n: u64) -> Seq<u8>
    decreases n,
{
    if n < 16 {
        seq![spec_hex_digit(n)]
    } else {
        spec_hex(n / 16).push(spec_hex_digit(n % 16))
    }
}

/// Renders `n` in lowercase hexadecimal.
pub fn hex_bytes(n: u64) -> (r: Vec<u8>)
    ensures
        r@ == spec_hex(n),
        r@.len() >= 1,
    decreases n,
{
    let d: u64 = n % 16;
    let digit: u8 = if d < 10 { (48 + d) as u8 } else { (87 + d) as u8 };
    if n < 16 {
        let mut v: Vec<u8> = Vec::new();
        v.push(digit);
        assert(v@ =~= spec_hex(n));
        v
    } else {
        let mut v = hex_bytes(n / 16);
        v.push(digit);
        assert(v@ =~= spec_hex(n));
        v
    }
}

} // verus!
