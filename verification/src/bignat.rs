//! Arbitrary-size natural numbers, held as big-endian bytes.
//!
//! The arithmetic itself is done by `num_bigint::BigUint`; this module states
//! what each operation returns over the mathematical value of the bytes.

use num_bigint::BigUint;
use vstd::arithmetic::power::pow;
use vstd::prelude::*;

verus! {

/// The natural number that a big-endian byte string denotes.
pub open spec fn be_value(b: Seq<u8>) -> nat
    decreases b.len(),
{
    if b.len() == 0 {
        0
    } else {
        be_value(b.drop_last()) * 256 + b.last() as nat
    }
}

/// `base^exp mod m` on natural numbers, for `m > 0`.
pub open spec fn mod_exp(base: nat, exp: nat, m: nat) -> nat {
    (pow(base as int, exp) % (m as int)) as nat
}

/// Appending one byte shifts the value by eight bits and adds the byte.
pub proof fn lemma_be_value_push(s: Seq<u8>, b: u8)
    ensures
        be_value(s.push(b)) == be_value(s) * 256 + b as nat,
{
    assert(s.push(b).drop_last() =~= s);
}

/// A prefix of a byte string never denotes more than the whole string.
pub proof fn lemma_be_value_prefix(s: Seq<u8>, i: int)
    requires
        0 <= i <= s.len(),
    ensures
        be_value(s.subrange(0, i)) <= be_value(s),
    decreases s.len(),
{
    if i == s.len() {
        assert(s.subrange(0, i) =~= s);
    } else {
        lemma_be_value_prefix(s.drop_last(), i);
        assert(s.drop_last().subrange(0, i) =~= s.subrange(0, i));
    }
}

/// A natural number of any size.
#[derive(Debug)]
pub struct BigNat {
    pub(crate) bytes: Vec<u8>,
}

impl View for BigNat {
    type V = nat;

    closed spec fn view(&self) -> nat {
        be_value(self.bytes@)
    }
}

impl Clone for BigNat {
    fn clone(&self) -> (r: Self)
        ensures
            r@ == self@,
    {
        BigNat { bytes: self.bytes.clone() }
    }
}

impl BigNat {
    /// The number that the given big-endian bytes denote; leading zeros are allowed.
    pub fn from_bytes_be(bytes: Vec<u8>) -> (r: BigNat)
        ensures
            r@ == be_value(bytes@),
    {
        BigNat { bytes }
    }

    /// The bytes that this number is held in: big-endian, with any number
    /// of leading zeros.
    pub(crate) fn raw_bytes(&self) -> (r: &Vec<u8>)
        ensures
            be_value(r@) == self@,
    {
        &self.bytes
    }

    /// The given machine integer as a `BigNat`.
    pub fn from_u64(n: u64) -> (r: BigNat)
        ensures
            r@ == n as nat,
    {
        let mut bytes: Vec<u8> = Vec::new();
        let mut i: u64 = 0;
        assert(n >> 64u64 == 0) by (bit_vector);
        while i < 8
            invariant
                i <= 8,
                bytes@.len() == i,
                be_value(bytes@) == (n >> ((8 - i) * 8) as u64) as nat,
            decreases 8 - i,
        {
            let shift: u64 = (7 - i) * 8;
            let low: u64 = (n >> shift) & 0xff;
            proof {
                let above: u64 = (shift + 8) as u64;
                assert(low <= 255) by (bit_vector)
                    requires
                        low == (n >> shift) & 0xff,
                ;
                assert((n >> above) * 256 + low == (n >> shift)) by (bit_vector)
                    requires
                        shift <= 56,
                        above == shift + 8,
                        low == (n >> shift) & 0xff,
                ;
            }
            let b: u8 = low as u8;
            proof {
                lemma_be_value_push(bytes@, b);
            }
            bytes.push(b);
            i = i + 1;
        }
        assert(n >> 0u64 == n) by (bit_vector);
        BigNat { bytes }
    }

    /// This number as a machine integer, where it fits.
    pub fn to_u64(&self) -> (r: Option<u64>)
        ensures
            r is Some <==> self@ <= u64::MAX,
            r is Some ==> r->Some_0 as nat == self@,
    {
        let mut acc: u64 = 0;
        let mut i: usize = 0;
        while i < self.bytes.len()
            invariant
                i <= self.bytes@.len(),
                acc as nat == be_value(self.bytes@.subrange(0, i as int)),
            decreases self.bytes@.len() - i,
        {
            let b: u8 = self.bytes[i];
            proof {
                let next = self.bytes@.subrange(0, i + 1);
                assert(next.drop_last() =~= self.bytes@.subrange(0, i as int));
                assert(next.last() == b);
                lemma_be_value_prefix(self.bytes@, i + 1);
            }
            if acc > 0xff_ffff_ffff_ffff {
                return None;
            }
            acc = acc * 256 + b as u64;
            i = i + 1;
        }
        assert(self.bytes@.subrange(0, i as int) =~= self.bytes@);
        Some(acc)
    }

    /// Whether this number is zero.
    pub fn is_zero(&self) -> (r: bool)
        ensures
            r == (self@ == 0),
    {
        let mut i: usize = 0;
        while i < self.bytes.len()
            invariant
                i <= self.bytes@.len(),
                be_value(self.bytes@.subrange(0, i as int)) == 0,
            decreases self.bytes@.len() - i,
        {
            proof {
                let next = self.bytes@.subrange(0, i + 1);
                assert(next.drop_last() =~= self.bytes@.subrange(0, i as int));
                lemma_be_value_prefix(self.bytes@, i + 1);
            }
            if self.bytes[i] != 0 {
                return false;
            }
            i = i + 1;
        }
        assert(self.bytes@.subrange(0, i as int) =~= self.bytes@);
        true
    }

    /// Calls `BigUint`'s `+`: the result denotes the sum of the two numbers.
    #[verifier::external_body]
    pub(crate) fn plus(&self, other: &BigNat) -> (r: BigNat)
        ensures
            r@ == self@ + other@,
    {
        let a = BigUint::from_bytes_be(&self.bytes);
        let b = BigUint::from_bytes_be(&other.bytes);
        BigNat { bytes: (a + b).to_bytes_be() }
    }

    /// Calls `BigUint`'s `*`: the result denotes the product of the two numbers.
    #[verifier::external_body]
    pub(crate) fn times(&self, other: &BigNat) -> (r: BigNat)
        ensures
            r@ == self@ * other@,
    {
        let a = BigUint::from_bytes_be(&self.bytes);
        let b = BigUint::from_bytes_be(&other.bytes);
        BigNat { bytes: (a * b).to_bytes_be() }
    }

    /// Calls `BigUint`'s `%`, which panics on a zero divisor: for a divisor
    /// other than zero the result denotes the remainder of the division.
    #[verifier::external_body]
    pub(crate) fn rem(&self, m: &BigNat) -> (r: BigNat)
        requires
            m@ > 0,
        ensures
            r@ == self@ % m@,
    {
        let a = BigUint::from_bytes_be(&self.bytes);
        let b = BigUint::from_bytes_be(&m.bytes);
        BigNat { bytes: (a % b).to_bytes_be() }
    }

    /// Calls `BigUint::modpow`, which panics on a zero modulus: for a modulus
    /// other than zero the result denotes `self^exp mod m`.
    #[verifier::external_body]
    pub(crate) fn mod_pow(&self, exp: &BigNat, m: &BigNat) -> (r: BigNat)
        requires
            m@ > 0,
        ensures
            r@ == mod_exp(self@, exp@, m@),
    {
        let b = BigUint::from_bytes_be(&self.bytes);
        let e = BigUint::from_bytes_be(&exp.bytes);
        let n = BigUint::from_bytes_be(&m.bytes);
        BigNat { bytes: b.modpow(&e, &n).to_bytes_be() }
    }

    /// Calls `BigUint`'s `==`: true exactly when both denote the same number.
    #[verifier::external_body]
    pub(crate) fn equals(&self, other: &BigNat) -> (r: bool)
        ensures
            r == (self@ == other@),
    {
        BigUint::from_bytes_be(&self.bytes) == BigUint::from_bytes_be(&other.bytes)
    }

    /// Calls `BigUint`'s `<`: true exactly when this number is the smaller one.
    #[verifier::external_body]
    pub(crate) fn less_than(&self, other: &BigNat) -> (r: bool)
        ensures
            r == (self@ < other@),
    {
        BigUint::from_bytes_be(&self.bytes) < BigUint::from_bytes_be(&other.bytes)
    }
}

} // verus!
