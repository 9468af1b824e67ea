//! The verifier's side: the verification equation on one proof transcript.

use crate::bignat::{mod_exp, BigNat};
use crate::error::SchnorrError;
use crate::params::GroupParameters;
use crate::prover::Proof;
use vstd::prelude::*;

verus! {

/// The verification equation `g^s mod p == (t * y^e) mod p`.
pub open spec fn accepts(g: nat, s: nat, p: nat, t: nat, y: nat, e: nat) -> bool {
    mod_exp(g, s, p) == (t * mod_exp(y, e, p)) % p
}

/// Decides whether proof transcripts are accepted.
pub struct Verifier;

impl Verifier {
    /// Whether the transcript `(t, e, s)` proves knowledge of the logarithm
    /// of `y` to the base `g` modulo `p`. A rejected proof is `Ok(false)`; a
    /// zero modulus is reported as an `InputError` before any arithmetic.
    pub fn verify(g: &BigNat, s: &BigNat, p: &BigNat, t: &BigNat, y: &BigNat, e: &BigNat) -> (r: Result<bool, SchnorrError>)
        ensures
            p@ > 0 ==> r == Ok::<bool, SchnorrError>(accepts(g@, s@, p@, t@, y@, e@)),
            p@ == 0 ==> r == Err::<bool, SchnorrError>(SchnorrError::InputError),
    {
        if p.is_zero() {
            return Err(SchnorrError::InputError);
        }
        let left = g.mod_pow(s, p);
        let right = t.times(&y.mod_pow(e, p)).rem(p);
        Ok(left.equals(&right))
    }

    /// Whether `proof` proves knowledge of the logarithm of `public_key` in
    /// the group `params`.
    pub fn verify_proof(params: &GroupParameters, public_key: &BigNat, proof: &Proof) -> (r: bool)
        requires
            params.wf(),
        ensures
            r == accepts(params@.g, proof.s@, params@.p, proof.t@, public_key@, proof.e@),
    {
        let left = params.g().mod_pow(&proof.s, params.p());
        let right = proof.t.times(&public_key.mod_pow(&proof.e, params.p())).rem(params.p());
        left.equals(&right)
    }
}

} // verus!
