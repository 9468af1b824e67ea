//! The randomness source that key generation, commitments and interactive
//! challenges draw from.

use crate::bignat::BigNat;
use crate::error::SchnorrError;
use num_bigint::{BigUint, RandBigInt};
use rand::rngs::{OsRng, StdRng};
use rand::SeedableRng;
use vstd::prelude::*;

verus! {

/// `rand`'s standard generator, carried as an opaque value.
#[verifier::external_type_specification]
#[verifier::external_body]
pub struct ExStdRng(rand::rngs::StdRng);

/// `rand`'s error, carried as an opaque value.
#[verifier::external_type_specification]
#[verifier::external_body]
pub struct ExRandError(rand::Error);

/// A cryptographically strong source of random numbers.
pub struct SecureRandom {
    rng: StdRng,
}

/// Calls `StdRng::from_rng` on `OsRng`: a generator seeded by the operating
/// system, or the error with which the system refused the seed.
#[verifier::external_body]
fn seed_from_system() -> (r: Result<StdRng, rand::Error>) {
    StdRng::from_rng(OsRng)
}

/// Calls `StdRng::from_seed`: the generator that the seed determines.
#[verifier::external_body]
fn seed_from_bytes(seed: [u8; 32]) -> (r: StdRng) {
    StdRng::from_seed(seed)
}

/// Calls `RandBigInt::gen_biguint_range`, which panics on an empty range:
/// for `lo < hi` the result lies in `[lo, hi)`, whatever the generator's state.
#[verifier::external_body]
fn draw_range(rng: &mut StdRng, lo: &BigNat, hi: &BigNat) -> (r: BigNat)
    requires
        lo@ < hi@,
    ensures
        lo@ <= r@ < hi@,
{
    let low = BigUint::from_bytes_be(&lo.bytes);
    let high = BigUint::from_bytes_be(&hi.bytes);
    BigNat { bytes: rng.gen_biguint_range(&low, &high).to_bytes_be() }
}

impl SecureRandom {
    /// A source seeded by the operating system. Fails with `RngError`, and
    /// with no other error, when the system gives no entropy. Whether it
    /// does is the system's to decide, and the generator that comes back is
    /// opaque: what is known of it is what holds of every draw.
    pub fn from_system() -> (r: Result<SecureRandom, SchnorrError>)
        ensures
            r is Err ==> r->Err_0 == SchnorrError::RngError,
    {
        match seed_from_system() {
            Ok(rng) => Ok(SecureRandom { rng }),
            Err(_) => Err(SchnorrError::RngError),
        }
    }

    /// A source that replays the sequence fixed by `seed`, for reproducible
    /// runs. The generator is opaque, so nothing is stated of it here; what
    /// holds of every draw from it, whatever its state, is stated where the
    /// draw is made.
    pub fn from_seed(seed: [u8; 32]) -> (r: SecureRandom) {
        SecureRandom { rng: seed_from_bytes(seed) }
    }

    /// A random number in `[1, bound - 1]`, for a bound of at least 2.
    pub fn sample_nonzero_below(&mut self, bound: &BigNat) -> (r: BigNat)
        requires
            bound@ >= 2,
        ensures
            1 <= r@ < bound@,
    {
        let one = BigNat::from_u64(1);
        draw_range(&mut self.rng, &one, bound)
    }

    /// A random number in `[1, bound - 1]`. Below a bound of 2 the range is
    /// empty, which is reported as an `InputError`.
    pub fn sample_below(&mut self, bound: &BigNat) -> (r: Result<BigNat, SchnorrError>)
        ensures
            bound@ >= 2 <==> r is Ok,
            r is Ok ==> 1 <= r->Ok_0@ < bound@,
            r is Err ==> r->Err_0 == SchnorrError::InputError,
    {
        let one = BigNat::from_u64(1);
        if one.less_than(bound) {
            Ok(self.sample_nonzero_below(bound))
        } else {
            Err(SchnorrError::InputError)
        }
    }
}

} // verus!
