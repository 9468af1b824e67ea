//! The byte encoding of the public transcript that the Fiat-Shamir challenge
//! is hashed from: four fields of one common width, each big-endian.

use crate::bignat::{be_value, BigNat};
use vstd::prelude::*;

verus! {

/// The least number of bytes that can hold `v`; zero takes none.
pub open spec fn byte_len(v: nat) -> nat
    decreases v,
{
    if v == 0 {
        0
    } else {
        1 + byte_len(v / 256)
    }
}

/// The lowest `w` bytes of `v`, big-endian: all of `v` where `byte_len(v) <= w`.
pub open spec fn be_bytes(v: nat, w: nat) -> Seq<u8>
    decreases w,
{
    if w == 0 {
        Seq::empty()
    } else {
        be_bytes(v / 256, (w - 1) as nat).push((v % 256) as u8)
    }
}

/// The larger of two numbers.
pub open spec fn max2(a: nat, b: nat) -> nat {
    if a >= b {
        a
    } else {
        b
    }
}

/// The width of each field: what the widest of the four values needs.
pub open spec fn transcript_width(g: nat, p: nat, y: nat, t: nat) -> nat {
    max2(max2(byte_len(g), byte_len(p)), max2(byte_len(y), byte_len(t)))
}

/// `encode(g) ++ encode(p) ++ encode(y) ++ encode(t)`, every field of the
/// transcript's width.
pub open spec fn transcript_bytes(g: nat, p: nat, y: nat, t: nat) -> Seq<u8> {
    let w = transcript_width(g, p, y, t);
    be_bytes(g, w) + be_bytes(p, w) + be_bytes(y, w) + be_bytes(t, w)
}

/// `s` cut or zero-padded at the front to `w` bytes.
pub open spec fn fixed_width(s: Seq<u8>, w: nat) -> Seq<u8> {
    Seq::new(
        w,
        |i: int|
            if i + s.len() < w {
                0u8
            } else {
                s[i + s.len() - w]
            },
    )
}

/// `be_bytes` has the length it is asked for.
pub proof fn lemma_be_bytes_len(v: nat, w: nat)
    ensures
        be_bytes(v, w).len() == w,
    decreases w,
{
    if w > 0 {
        lemma_be_bytes_len(v / 256, (w - 1) as nat);
    }
}

/// Where `v` fits in `w` bytes, its encoding denotes `v`.
pub proof fn lemma_be_bytes_value(v: nat, w: nat)
    requires
        byte_len(v) <= w,
    ensures
        be_value(be_bytes(v, w)) == v,
    decreases w,
{
    if w == 0 {
    } else {
        lemma_be_bytes_value(v / 256, (w - 1) as nat);
        crate::bignat::lemma_be_value_push(be_bytes(v / 256, (w - 1) as nat), (v % 256) as u8);
    }
}

/// Encoding the value of a byte string to `w` bytes cuts or pads the string.
pub proof fn lemma_be_bytes_of_value(s: Seq<u8>, w: nat)
    ensures
        be_bytes(be_value(s), w) == fixed_width(s, w),
    decreases w,
{
    if w == 0 {
        assert(be_bytes(be_value(s), w) =~= fixed_width(s, w));
    } else if s.len() == 0 {
        lemma_be_bytes_of_value(s, (w - 1) as nat);
        assert(be_bytes(be_value(s), w) =~= fixed_width(s, w));
    } else {
        let v = be_value(s);
        assert(v / 256 == be_value(s.drop_last()) && v % 256 == s.last() as nat);
        lemma_be_bytes_of_value(s.drop_last(), (w - 1) as nat);
        assert(be_bytes(be_value(s), w) =~= fixed_width(s, w));
    }
}

/// Leading zero bytes do not change the value.
pub proof fn lemma_leading_zeros(s: Seq<u8>, k: int)
    requires
        0 <= k <= s.len(),
        forall|i: int| 0 <= i < k ==> s[i] == 0,
    ensures
        be_value(s) == be_value(s.subrange(k, s.len() as int)),
    decreases s.len(),
{
    if s.len() == 0 {
        assert(s.subrange(k, s.len() as int) =~= s);
    } else if k == s.len() {
        lemma_leading_zeros(s.drop_last(), k - 1);
    } else {
        lemma_leading_zeros(s.drop_last(), k);
        assert(s.subrange(k, s.len() as int).drop_last() =~= s.drop_last().subrange(k, s.len() - 1));
    }
}

/// A byte string without a leading zero is as short as its value allows.
pub proof fn lemma_byte_len_canonical(s: Seq<u8>)
    requires
        s.len() == 0 || s[0] != 0,
    ensures
        byte_len(be_value(s)) == s.len(),
    decreases s.len(),
{
    if s.len() == 0 {
    } else if s.len() == 1 {
        assert(be_value(s.drop_last()) == 0);
        assert(byte_len(0) == 0);
        assert(byte_len(be_value(s)) == 1 + byte_len(be_value(s) / 256));
    } else {
        lemma_byte_len_canonical(s.drop_last());
        assert(be_value(s.drop_last()) > 0);
        assert(be_value(s) / 256 == be_value(s.drop_last()));
    }
}

/// The least number of bytes that hold `x`.
pub fn byte_length(x: &BigNat) -> (r: usize)
    ensures
        r == byte_len(x@),
{
    let bytes = x.raw_bytes();
    let mut k: usize = 0;
    while k < bytes.len() && bytes[k] == 0
        invariant
            k <= bytes@.len(),
            forall|i: int| 0 <= i < k ==> bytes@[i] == 0,
        decreases bytes@.len() - k,
    {
        k = k + 1;
    }
    proof {
        lemma_leading_zeros(bytes@, k as int);
        lemma_byte_len_canonical(bytes@.subrange(k as int, bytes@.len() as int));
    }
    bytes.len() - k
}

/// Appends to `out` the lowest `width` bytes of `x`, big-endian.
pub fn append_fixed(out: &mut Vec<u8>, x: &BigNat, width: usize)
    ensures
        final(out)@ == old(out)@ + be_bytes(x@, width as nat),
{
    let bytes = x.raw_bytes();
    let len = bytes.len();
    let ghost target = fixed_width(bytes@, width as nat);
    let ghost before = out@;
    proof {
        lemma_be_bytes_of_value(bytes@, width as nat);
    }
    let mut i: usize = 0;
    while i < width
        invariant
            i <= width,
            len == bytes@.len(),
            target == fixed_width(bytes@, width as nat),
            out@ == before + target.subrange(0, i as int),
        decreases width - i,
    {
        let b: u8 = if width >= len {
            if i < width - len {
                0
            } else {
                bytes[i - (width - len)]
            }
        } else {
            bytes[i + (len - width)]
        };
        out.push(b);
        proof {
            assert(target.subrange(0, i + 1) =~= target.subrange(0, i as int).push(b));
            assert(before + target.subrange(0, i + 1) =~= (before + target.subrange(0, i as int)).push(b));
        }
        i = i + 1;
    }
    proof {
        assert(target.subrange(0, width as int) =~= target);
    }
}

impl BigNat {
    /// The big-endian bytes of this number, without leading zeros; zero has none.
    pub fn to_bytes_be(&self) -> (r: Vec<u8>)
        ensures
            r@ == be_bytes(self@, byte_len(self@)),
    {
        let width = byte_length(self);
        let mut out: Vec<u8> = Vec::new();
        append_fixed(&mut out, self, width);
        assert(out@ =~= be_bytes(self@, byte_len(self@)));
        out
    }
}

/// The bytes that the Fiat-Shamir challenge is hashed from.
pub fn encode_transcript(g: &BigNat, p: &BigNat, y: &BigNat, t: &BigNat) -> (r: Vec<u8>)
    ensures
        r@ == transcript_bytes(g@, p@, y@, t@),
{
    let mut width = byte_length(g);
    let wp = byte_length(p);
    if wp > width {
        width = wp;
    }
    let mut rest = byte_length(y);
    let wt = byte_length(t);
    if wt > rest {
        rest = wt;
    }
    if rest > width {
        width = rest;
    }
    let mut out: Vec<u8> = Vec::new();
    append_fixed(&mut out, g, width);
    append_fixed(&mut out, p, width);
    append_fixed(&mut out, y, width);
    append_fixed(&mut out, t, width);
    assert(out@ =~= transcript_bytes(g@, p@, y@, t@));
    out
}

} // verus!
