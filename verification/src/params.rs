//! The public parameters of the group in which proofs are made.

use crate::bignat::{mod_exp, BigNat};
use crate::error::SchnorrError;
use vstd::arithmetic::div_mod::{lemma_fundamental_div_mod, lemma_mod_multiples_vanish, lemma_small_mod};
use vstd::prelude::*;

verus! {

/// Whether `(p, q, g)` has the structure of a subgroup of order `q` modulo
/// `p` with generator `g`: `1 < g < p`, `q < p`, `q` divides `p - 1`, and
/// `g^q mod p == 1`. That `p` and `q` are prime is not part of it.
pub open spec fn valid_group(p: nat, q: nat, g: nat) -> bool {
    &&& 1 < g < p
    &&& 0 < q < p
    &&& (p - 1) % (q as int) == 0
    &&& mod_exp(g, q, p) == 1
}

/// The mathematical content of a `GroupParameters` value.
pub struct GroupView {
    pub p: nat,
    pub q: nat,
    pub g: nat,
}

/// Validated group parameters `(p, q, g)`; never changed after construction.
pub struct GroupParameters {
    p: BigNat,
    q: BigNat,
    g: BigNat,
}

impl View for GroupParameters {
    type V = GroupView;

    closed spec fn view(&self) -> GroupView {
        GroupView { p: self.p@, q: self.q@, g: self.g@ }
    }
}

impl Clone for GroupParameters {
    fn clone(&self) -> (r: Self)
        ensures
            r@ == self@,
    {
        GroupParameters { p: self.p.clone(), q: self.q.clone(), g: self.g.clone() }
    }
}

impl GroupParameters {
    /// The invariant of the type: the parameters form a valid group.
    pub open spec fn wf(&self) -> bool {
        valid_group(self@.p, self@.q, self@.g)
    }

    /// Accepts `(p, q, g)` exactly when it is a valid group, and reports a
    /// `ParameterError` otherwise.
    pub fn new(p: BigNat, q: BigNat, g: BigNat) -> (r: Result<GroupParameters, SchnorrError>)
        ensures
            valid_group(p@, q@, g@) <==> r is Ok,
            r is Ok ==> r->Ok_0.wf() && r->Ok_0@ == (GroupView { p: p@, q: q@, g: g@ }),
            r is Err ==> r->Err_0 == SchnorrError::ParameterError,
    {
        let one = BigNat::from_u64(1);
        if !one.less_than(&g) || !g.less_than(&p) {
            return Err(SchnorrError::ParameterError);
        }
        if q.is_zero() || !q.less_than(&p) {
            return Err(SchnorrError::ParameterError);
        }
        let p_rem = p.rem(&q);
        let one_rem = one.rem(&q);
        proof {
            lemma_divides_predecessor(p@, q@);
        }
        if !p_rem.equals(&one_rem) {
            return Err(SchnorrError::ParameterError);
        }
        let power = g.mod_pow(&q, &p);
        if !power.equals(&one) {
            return Err(SchnorrError::ParameterError);
        }
        Ok(GroupParameters { p, q, g })
    }

    /// The modulus `p`.
    pub fn p(&self) -> (r: &BigNat)
        ensures
            r@ == self@.p,
    {
        &self.p
    }

    /// The order `q` of the subgroup.
    pub fn q(&self) -> (r: &BigNat)
        ensures
            r@ == self@.q,
    {
        &self.q
    }

    /// The generator `g`.
    pub fn g(&self) -> (r: &BigNat)
        ensures
            r@ == self@.g,
    {
        &self.g
    }
}

/// `q` divides `p - 1` exactly when `p` and `1` leave the same remainder modulo `q`.
pub proof fn lemma_divides_predecessor(p: nat, q: nat)
    requires
        q > 0,
        p > 0,
    ensures
        ((p - 1) % (q as int) == 0) <==> (p % q == 1nat % q),
{
    let m = q as int;
    let d = p as int;
    lemma_fundamental_div_mod(d, m);
    lemma_fundamental_div_mod(d - 1, m);
    if q >= 2 {
        lemma_small_mod(1, q);
        lemma_mod_multiples_vanish((d - 1) / m, 1, m);
        lemma_mod_multiples_vanish(d / m, 0, m);
        lemma_small_mod(0, q);
    }
}

} // verus!
