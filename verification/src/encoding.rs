//! Little-endian integer encoding and byte-string comparison.

use vstd::prelude::*;
use vstd::string::StringSliceAdditionalSpecFns;
use vstd::utf8::{decode_utf8, valid_utf8};
use std::str::Utf8Error;

verus! {

/// The integer stored little-endian in the four bytes of `b` starting at `at`.
pub open spec fn le_u32_at(b: Seq<u8>, at: int) -> int {
    b[at] + 256 * b[at + 1] + 65536 * b[at + 2] + 16777216 * b[at + 3]
}

/// The four little-endian bytes of `x`.
pub open spec fn le_bytes(x: u32) -> Seq<u8> {
    seq![
        (x % 256) as u8,
        ((x / 256) % 256) as u8,
        ((x / 65536) % 256) as u8,
        ((x / 16777216) % 256) as u8,
    ]
}

/// Reading back the four bytes written for `x` gives `x`.
pub proof fn lemma_le_bytes_roundtrip(x: u32)
    ensures
        le_bytes(x).len() == 4,
        le_u32_at(le_bytes(x), 0) == x,
{
    assert(x % 256 + 256 * ((x / 256) % 256) + 65536 * ((x / 65536) % 256) + 16777216 * ((x
        / 16777216) % 256) == x) by (bit_vector);
}

/// Reads the little-endian `u32` stored at `at`.
pub fn read_u32_le(b: &[u8], at: usize) -> (r: u32)
    requires
        at + 4 <= b@.len(),
    ensures
        r == le_u32_at(b@, at as int),
{
    let b0 = b[at] as u32;
    let b1 = b[at + 1] as u32;
    let b2 = b[at + 2] as u32;
    let b3 = b[at + 3] as u32;
    b0 + 256 * b1 + 65536 * b2 + 16777216 * b3
}

/// Appends the little-endian bytes of `x`.
pub fn push_u32_le(out: &mut Vec<u8>, x: u32)
    ensures
        final(out)@ == old(out)@ + le_bytes(x),
{
    out.push((x % 256) as u8);
    out.push(((x / 256) % 256) as u8);
    out.push(((x / 65536) % 256) as u8);
    out.push(((x / 16777216) % 256) as u8);
    assert(final(out)@ =~= old(out)@ + le_bytes(x));
}


/// The result of comparing two byte strings.
#[derive(Debug, Clone, Copy, PartialEq, Eq, Structural)]
pub enum ByteOrder {
    Less,
    Equal,
    Greater,
}

/// Lexicographic order of byte strings, as `Ord` on `[u8]`, `str` and `String` orders them.
pub open spec fn lex_order(a: Seq<u8>, b: Seq<u8>) -> ByteOrder
    decreases a.len(),
{
    if a.len() == 0 && b.len() == 0 {
        ByteOrder::Equal
    } else if a.len() == 0 {
        ByteOrder::Less
    } else if b.len() == 0 {
        ByteOrder::Greater
    } else if a[0] < b[0] {
        ByteOrder::Less
    } else if a[0] > b[0] {
        ByteOrder::Greater
    } else {
        lex_order(a.drop_first(), b.drop_first())
    }
}

/// `a` sorts strictly before `b`.
pub open spec fn bytes_lt(a: Seq<u8>, b: Seq<u8>) -> bool {
    lex_order(a, b) == ByteOrder::Less
}

/// Two byte strings compare equal exactly when they are equal.
pub proof fn lemma_lex_order_equal(a: Seq<u8>, b: Seq<u8>)
    ensures
        (lex_order(a, b) == ByteOrder::Equal) <==> (a == b),
    decreases a.len(),
{
    if a.len() > 0 && b.len() > 0 && a[0] == b[0] {
        lemma_lex_order_equal(a.drop_first(), b.drop_first());
        if a.drop_first() == b.drop_first() {
            assert(a =~= seq![a[0]] + a.drop_first());
            assert(b =~= seq![b[0]] + b.drop_first());
        }
    } else if a.len() > 0 && b.len() > 0 {
        assert(a[0] != b[0]);
    } else if a.len() == 0 && b.len() > 0 {
        assert(a.len() != b.len());
    } else if a.len() > 0 {
        assert(a.len() != b.len());
    } else {
        assert(a =~= b);
    }
}

/// Swapping the arguments reverses the order.
pub proof fn lemma_lex_order_flip(a: Seq<u8>, b: Seq<u8>)
    ensures
        (lex_order(a, b) == ByteOrder::Less) <==> (lex_order(b, a) == ByteOrder::Greater),
        (lex_order(a, b) == ByteOrder::Equal) <==> (lex_order(b, a) == ByteOrder::Equal),
    decreases a.len(),
{
    if a.len() > 0 && b.len() > 0 && a[0] == b[0] {
        lemma_lex_order_flip(a.drop_first(), b.drop_first());
    }
}

/// The strict order is transitive.
pub proof fn lemma_bytes_lt_transitive(a: Seq<u8>, b: Seq<u8>, c: Seq<u8>)
    requires
        bytes_lt(a, b),
        bytes_lt(b, c),
    ensures
        bytes_lt(a, c),
    decreases a.len(),
{
    if a.len() > 0 && b.len() > 0 && c.len() > 0 && a[0] == b[0] && b[0] == c[0] {
        lemma_bytes_lt_transitive(a.drop_first(), b.drop_first(), c.drop_first());
    }
}

/// Compares two byte strings lexicographically.
pub fn compare_bytes(a: &[u8], b: &[u8]) -> (r: ByteOrder)
    ensures
        r == lex_order(a@, b@),
{
    let mut i: usize = 0;
    assert(a@.skip(0) =~= a@);
    assert(b@.skip(0) =~= b@);
    while i < a.len() && i < b.len()
        invariant
            i <= a@.len(),
            i <= b@.len(),
            lex_order(a@, b@) == lex_order(a@.skip(i as int), b@.skip(i as int)),
        decreases a@.len() - i,
    {
        if a[i] < b[i] {
            return ByteOrder::Less;
        }
        if a[i] > b[i] {
            return ByteOrder::Greater;
        }
        assert(a@.skip(i as int).drop_first() =~= a@.skip(i + 1));
        assert(b@.skip(i as int).drop_first() =~= b@.skip(i + 1));
        i = i + 1;
    }
    if i < a.len() {
        ByteOrder::Greater
    } else if i < b.len() {
        ByteOrder::Less
    } else {
        ByteOrder::Equal
    }
}

/// Two strings are equal exactly when their Utf-8 encodings are.
pub proof fn lemma_encode_injective(a: Seq<char>, b: Seq<char>)
    ensures
        (vstd::utf8::encode_utf8(a) == vstd::utf8::encode_utf8(b)) <==> (a == b),
{
    vstd::utf8::encode_utf8_decode_utf8(a);
    vstd::utf8::encode_utf8_decode_utf8(b);
}

/// The Utf-8 encoding of two strings one after the other is the two encodings one after the
/// other.
pub proof fn lemma_encode_concat(a: Seq<char>, b: Seq<char>)
    ensures
        vstd::utf8::encode_utf8(a + b) == vstd::utf8::encode_utf8(a) + vstd::utf8::encode_utf8(b),
    decreases a.len(),
{
    if a.len() == 0 {
        assert(a + b =~= b);
        assert(vstd::utf8::encode_utf8(a) + vstd::utf8::encode_utf8(b) =~= vstd::utf8::encode_utf8(b));
    } else {
        lemma_encode_concat(a.drop_first(), b);
        assert((a + b).drop_first() =~= a.drop_first() + b);
        assert((a + b)[0] == a[0]);
        let e0 = vstd::utf8::encode_scalar(a[0] as u32);
        assert(e0 + (vstd::utf8::encode_utf8(a.drop_first()) + vstd::utf8::encode_utf8(b)) =~= (e0
            + vstd::utf8::encode_utf8(a.drop_first())) + vstd::utf8::encode_utf8(b));
    }
}

/// String equality, decided on the Utf-8 bytes.
pub fn str_eq(a: &str, b: &str) -> (r: bool)
    ensures
        r == (a@ == b@),
{
    let o = compare_bytes(a.as_bytes(), b.as_bytes());
    proof {
        lemma_lex_order_equal(a.spec_bytes(), b.spec_bytes());
        lemma_encode_injective(a@, b@);
    }
    o == ByteOrder::Equal
}


/// Appends the bytes of `src`.
pub fn extend_bytes(out: &mut Vec<u8>, src: &[u8])
    ensures
        final(out)@ == old(out)@ + src@,
{
    let mut i: usize = 0;
    while i < src.len()
        invariant
            i <= src@.len(),
            out@ == old(out)@ + src@.subrange(0, i as int),
        decreases src@.len() - i,
    {
        out.push(src[i]);
        i = i + 1;
        assert(out@ =~= old(out)@ + src@.subrange(0, i as int));
    }
    assert(src@.subrange(0, src@.len() as int) =~= src@);
}

/// `i` is the length of the longest prefix of `v` which is valid Utf-8.
pub open spec fn is_valid_up_to(v: Seq<u8>, i: int) -> bool {
    &&& 0 <= i <= v.len()
    &&& valid_utf8(v.subrange(0, i))
    &&& forall|j: int| i < j <= v.len() ==> !valid_utf8(#[trigger] v.subrange(0, j))
}

/// The length of the longest prefix of `v` which is valid Utf-8.
pub open spec fn valid_up_to(v: Seq<u8>) -> int {
    choose|i: int| is_valid_up_to(v, i)
}

/// There is one longest valid prefix.
pub proof fn lemma_valid_up_to_unique(v: Seq<u8>, i: int)
    requires
        is_valid_up_to(v, i),
    ensures
        valid_up_to(v) == i,
{
    let c = valid_up_to(v);
    assert(is_valid_up_to(v, c));
    if c < i {
        assert(!valid_utf8(v.subrange(0, i)));
    } else if c > i {
        assert(!valid_utf8(v.subrange(0, c)));
    }
}

/// Calls `std::str::from_utf8`, which accepts exactly the valid Utf-8 byte strings and
/// returns them as a string slice over the same bytes. On failure the `Utf8Error` is returned
/// together with its `valid_up_to()`, the length of the longest valid prefix of the input.
#[verifier::external_body]
pub(crate) fn str_from_utf8(v: &[u8]) -> (r: Result<&str, (Utf8Error, usize)>)
    ensures
        r is Ok <==> valid_utf8(v@),
        r matches Ok(s) ==> s.spec_bytes() == v@,
        r matches Err(e) ==> is_valid_up_to(v@, e.1 as int),
{
    match std::str::from_utf8(v) {
        Ok(s) => Ok(s),
        Err(e) => Err((e, e.valid_up_to())),
    }
}

/// A string slice whose bytes are `v`: the string that `v` decodes to.
pub proof fn lemma_str_of_bytes(s: &str, v: Seq<u8>)
    requires
        s.spec_bytes() == v,
    ensures
        s@ == decode_utf8(v),
        valid_utf8(v),
{
    vstd::utf8::encode_utf8_decode_utf8(s@);
    vstd::utf8::encode_utf8_valid_utf8(s@);
}

} // verus!
