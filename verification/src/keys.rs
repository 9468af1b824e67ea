//! Key pairs: a secret exponent and the group element it is the logarithm of.

use crate::bignat::{mod_exp, BigNat};
use crate::error::SchnorrError;
use crate::params::GroupParameters;
use crate::random::SecureRandom;
use vstd::prelude::*;

verus! {

/// Whether `(x, y)` is a key pair of the group `(p, q, g)`: `x` in
/// `[1, q - 1]` and `y = g^x mod p`.
pub open spec fn valid_keypair(p: nat, q: nat, g: nat, x: nat, y: nat) -> bool {
    &&& 1 <= x < q
    &&& y == mod_exp(g, x, p)
}

/// The mathematical content of a `KeyPair`.
pub struct KeyView {
    pub private_key: nat,
    pub public_key: nat,
}

/// A secret `x` and the public `y = g^x mod p`.
pub struct KeyPair {
    private_key: BigNat,
    public_key: BigNat,
}

impl View for KeyPair {
    type V = KeyView;

    closed spec fn view(&self) -> KeyView {
        KeyView { private_key: self.private_key@, public_key: self.public_key@ }
    }
}

impl Clone for KeyPair {
    fn clone(&self) -> (r: Self)
        ensures
            r@ == self@,
    {
        KeyPair { private_key: self.private_key.clone(), public_key: self.public_key.clone() }
    }
}

impl KeyPair {
    /// Whether this is a key pair of the given group.
    pub open spec fn valid_for(&self, params: &GroupParameters) -> bool {
        valid_keypair(params@.p, params@.q, params@.g, self@.private_key, self@.public_key)
    }

    /// The key pair of the secret `x`. A secret outside `[1, q - 1]` is
    /// reported as an `InputError`.
    pub fn from_private(params: &GroupParameters, x: BigNat) -> (r: Result<KeyPair, SchnorrError>)
        requires
            params.wf(),
        ensures
            1 <= x@ < params@.q <==> r is Ok,
            r is Ok ==> r->Ok_0.valid_for(params) && r->Ok_0@.private_key == x@,
            r is Err ==> r->Err_0 == SchnorrError::InputError,
    {
        if x.is_zero() || !x.less_than(params.q()) {
            return Err(SchnorrError::InputError);
        }
        let public_key = params.g().mod_pow(&x, params.p());
        Ok(KeyPair { private_key: x, public_key })
    }

    /// The secret exponent `x`.
    pub fn private_key(&self) -> (r: &BigNat)
        ensures
            r@ == self@.private_key,
    {
        &self.private_key
    }

    /// The public element `y`.
    pub fn public_key(&self) -> (r: &BigNat)
        ensures
            r@ == self@.public_key,
    {
        &self.public_key
    }
}

/// Makes key pairs from fresh randomness.
pub struct KeyPairGenerator;

impl KeyPairGenerator {
    /// A key pair whose secret is drawn from the whole of `[1, q - 1]` with
    /// the given source.
    pub fn generate_with(params: &GroupParameters, rng: &mut SecureRandom) -> (r: KeyPair)
        requires
            params.wf(),
        ensures
            r.valid_for(params),
    {
        proof {
            lemma_order_at_least_two(params@.p, params@.q, params@.g);
        }
        let x = rng.sample_nonzero_below(params.q());
        let public_key = params.g().mod_pow(&x, params.p());
        KeyPair { private_key: x, public_key }
    }

    /// A key pair made with a source that the operating system seeds. The
    /// only failure is that of the source, an `RngError`.
    pub fn generate(params: &GroupParameters) -> (r: Result<KeyPair, SchnorrError>)
        requires
            params.wf(),
        ensures
            r is Ok ==> r->Ok_0.valid_for(params),
            r is Err ==> r->Err_0 == SchnorrError::RngError,
    {
        match SecureRandom::from_system() {
            Ok(mut rng) => Ok(KeyPairGenerator::generate_with(params, &mut rng)),
            Err(e) => Err(e),
        }
    }
}

/// In a valid group the order `q` is at least 2, so `[1, q - 1]` is not empty.
pub proof fn lemma_order_at_least_two(p: nat, q: nat, g: nat)
    requires
        crate::params::valid_group(p, q, g),
    ensures
        q >= 2,
{
    if q == 1 {
        vstd::arithmetic::power::lemma_pow1(g as int);
        vstd::arithmetic::div_mod::lemma_small_mod(g, p);
    }
}

} // verus!
