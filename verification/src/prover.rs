//! The prover's side: one session of commitment and response.

use crate::bignat::{mod_exp, BigNat};
use crate::challenge::{ChallengeGenerator, Transcript};
use crate::error::SchnorrError;
use crate::keys::{KeyPair, KeyView};
use crate::params::{GroupParameters, GroupView};
use crate::random::SecureRandom;
use crate::verify::accepts;
use vstd::prelude::*;

verus! {

/// The response `s = (r + e * x) mod q` to the challenge `e`.
pub open spec fn response_value(r: nat, e: nat, x: nat, q: nat) -> nat {
    (r + e * x) % q
}

/// A proof transcript `(t, e, s)`: commitment, challenge and response.
pub struct Proof {
    pub t: BigNat,
    pub e: BigNat,
    pub s: BigNat,
}

/// Where a prover's session stands.
#[derive(Clone, Copy, Debug, PartialEq, Eq, Structural)]
pub enum ProverState {
    /// No commitment has been made yet.
    Idle,
    /// A commitment is out and its nonce waits for the challenge.
    Committed,
    /// The response is out and the nonce is gone.
    Responded,
}

/// The mathematical content of a `Prover`.
pub struct ProverView {
    pub params: GroupView,
    pub keys: KeyView,
    pub state: ProverState,
    pub nonce: Option<nat>,
}

/// A prover: the owner of a secret, in one proof session at a time.
pub struct Prover {
    params: GroupParameters,
    keys: KeyPair,
    state: ProverState,
    nonce: Option<BigNat>,
}

impl View for Prover {
    type V = ProverView;

    closed spec fn view(&self) -> ProverView {
        ProverView {
            params: self.params@,
            keys: self.keys@,
            state: self.state,
            nonce: match self.nonce {
                Some(r) => Some(r@),
                None => None,
            },
        }
    }
}

/// The invariant of a session: a valid group, a key pair of that group, and
/// a nonce in `[1, q - 1]` held exactly while the session is committed.
pub open spec fn valid_session(v: ProverView) -> bool {
    &&& crate::params::valid_group(v.params.p, v.params.q, v.params.g)
    &&& crate::keys::valid_keypair(v.params.p, v.params.q, v.params.g, v.keys.private_key, v.keys.public_key)
    &&& v.state == ProverState::Committed <==> v.nonce is Some
    &&& v.nonce is Some ==> 1 <= v.nonce->Some_0 < v.params.q
}

/// The session as `commit` leaves it, with the nonce `r` drawn.
pub open spec fn after_commit(v: ProverView, r: nat) -> ProverView {
    ProverView { state: ProverState::Committed, nonce: Some(r), ..v }
}

/// The session as `respond` leaves it: the nonce is gone.
pub open spec fn after_respond(v: ProverView) -> ProverView {
    ProverView { state: ProverState::Responded, nonce: None, ..v }
}

/// Whether `respond` with the nonce `r` is in order in the session `v`:
/// a commitment is out, and `r` is the nonce it was made with.
pub open spec fn may_respond(v: ProverView, r: nat) -> bool {
    v.state == ProverState::Committed && v.nonce == Some(r)
}

impl Prover {
    /// The invariant of the type.
    pub open spec fn wf(&self) -> bool {
        valid_session(self@)
    }

    /// The pure response formula `s = (r + e * x) mod q`. A zero `q` is
    /// reported as an `InputError` before any arithmetic.
    pub fn response(r: &BigNat, e: &BigNat, x: &BigNat, q: &BigNat) -> (s: Result<BigNat, SchnorrError>)
        ensures
            q@ > 0 <==> s is Ok,
            s is Ok ==> s->Ok_0@ == response_value(r@, e@, x@, q@),
            s is Err ==> s->Err_0 == SchnorrError::InputError,
    {
        if q.is_zero() {
            return Err(SchnorrError::InputError);
        }
        Ok(r.plus(&e.times(x)).rem(q))
    }

    /// A session in state `Idle` for the owner of `keys`. Keys that are not
    /// a key pair of `params` are reported as an `InputError`.
    pub fn new(params: GroupParameters, keys: KeyPair) -> (r: Result<Prover, SchnorrError>)
        requires
            params.wf(),
        ensures
            keys.valid_for(&params) <==> r is Ok,
            r is Ok ==> r->Ok_0.wf() && r->Ok_0@ == (ProverView {
                params: params@,
                keys: keys@,
                state: ProverState::Idle,
                nonce: None,
            }),
            r is Err ==> r->Err_0 == SchnorrError::InputError,
    {
        let x = keys.private_key();
        if x.is_zero() || !x.less_than(params.q()) {
            return Err(SchnorrError::InputError);
        }
        let y = params.g().mod_pow(x, params.p());
        if !y.equals(keys.public_key()) {
            return Err(SchnorrError::InputError);
        }
        Ok(Prover { params, keys, state: ProverState::Idle, nonce: None })
    }

    /// The group of this session.
    pub fn params(&self) -> (r: &GroupParameters)
        ensures
            r@ == self@.params,
    {
        &self.params
    }

    /// The public key `y` of this prover.
    pub fn public_key(&self) -> (r: &BigNat)
        ensures
            r@ == self@.keys.public_key,
    {
        self.keys.public_key()
    }

    /// Where the session stands.
    pub fn state(&self) -> (r: ProverState)
        ensures
            r == self@.state,
    {
        self.state
    }

    /// Starts a proof with the given nonce `r`, which must be fresh and
    /// uniformly drawn: keeps it for this session and returns the commitment
    /// `t = g^r mod p`. While a commitment is out, another is a
    /// `ProtocolViolation`; otherwise a nonce outside `[1, q - 1]` is an
    /// `InputError`. Either failure changes nothing.
    pub fn commit_nonce(&mut self, nonce: &BigNat) -> (t: Result<BigNat, SchnorrError>)
        requires
            old(self).wf(),
        ensures
            final(self).wf(),
            t is Ok <==> old(self)@.state != ProverState::Committed && 1 <= nonce@ < old(self)@.params.q,
            t is Ok ==> {
                &&& t->Ok_0@ == mod_exp(old(self)@.params.g, nonce@, old(self)@.params.p)
                &&& final(self)@ == after_commit(old(self)@, nonce@)
            },
            t is Err ==> final(self)@ == old(self)@ && t->Err_0 == (if old(self)@.state
                == ProverState::Committed {
                SchnorrError::ProtocolViolation
            } else {
                SchnorrError::InputError
            }),
    {
        if self.state == ProverState::Committed {
            return Err(SchnorrError::ProtocolViolation);
        }
        if nonce.is_zero() || !nonce.less_than(self.params.q()) {
            return Err(SchnorrError::InputError);
        }
        let t = self.params.g().mod_pow(nonce, self.params.p());
        self.nonce = Some(nonce.clone());
        self.state = ProverState::Committed;
        Ok(t)
    }

    /// Starts a proof: draws a nonce `r` from `[1, q - 1]` with the given
    /// source, keeps it for this session and returns `(r, t)` with
    /// `t = g^r mod p`. While a commitment is out, asking for another is a
    /// `ProtocolViolation` and changes nothing.
    pub fn commit_with(&mut self, rng: &mut SecureRandom) -> (r: Result<(BigNat, BigNat), SchnorrError>)
        requires
            old(self).wf(),
        ensures
            final(self).wf(),
            old(self)@.state != ProverState::Committed <==> r is Ok,
            r is Ok ==> {
                &&& 1 <= r->Ok_0.0@ < old(self)@.params.q
                &&& r->Ok_0.1@ == mod_exp(old(self)@.params.g, r->Ok_0.0@, old(self)@.params.p)
                &&& final(self)@ == after_commit(old(self)@, r->Ok_0.0@)
            },
            r is Err ==> r->Err_0 == SchnorrError::ProtocolViolation && final(self)@ == old(self)@,
    {
        if self.state == ProverState::Committed {
            return Err(SchnorrError::ProtocolViolation);
        }
        proof {
            crate::keys::lemma_order_at_least_two(self@.params.p, self@.params.q, self@.params.g);
        }
        let nonce = rng.sample_nonzero_below(self.params.q());
        match self.commit_nonce(&nonce) {
            Ok(t) => Ok((nonce, t)),
            Err(e) => Err(e),
        }
    }

    /// `commit_with` on a source that the operating system seeds. The order
    /// of the session is looked at first; a failure of the source is an
    /// `RngError`. Either failure changes nothing.
    pub fn commit(&mut self) -> (r: Result<(BigNat, BigNat), SchnorrError>)
        requires
            old(self).wf(),
        ensures
            final(self).wf(),
            old(self)@.state == ProverState::Committed <==> r == Err::<(BigNat, BigNat), SchnorrError>(
                SchnorrError::ProtocolViolation,
            ),
            r is Ok ==> {
                &&& 1 <= r->Ok_0.0@ < old(self)@.params.q
                &&& r->Ok_0.1@ == mod_exp(old(self)@.params.g, r->Ok_0.0@, old(self)@.params.p)
                &&& final(self)@ == after_commit(old(self)@, r->Ok_0.0@)
            },
            r is Err ==> final(self)@ == old(self)@ && (r->Err_0 == SchnorrError::ProtocolViolation
                || r->Err_0 == SchnorrError::RngError),
    {
        if self.state == ProverState::Committed {
            return Err(SchnorrError::ProtocolViolation);
        }
        match SecureRandom::from_system() {
            Ok(mut rng) => self.commit_with(&mut rng),
            Err(e) => Err(e),
        }
    }

    /// Answers the challenge `e` with `s = (r + e * x) mod q` and discards
    /// the nonce. It is in order only while a commitment is out and `nonce`
    /// is the nonce of that commitment; anything else, a second response to
    /// one commitment among it, is a `ProtocolViolation` and changes nothing.
    pub fn respond(&mut self, nonce: &BigNat, challenge: &BigNat) -> (s: Result<BigNat, SchnorrError>)
        requires
            old(self).wf(),
        ensures
            final(self).wf(),
            may_respond(old(self)@, nonce@) <==> s is Ok,
            s is Ok ==> {
                &&& s->Ok_0@ == response_value(nonce@, challenge@, old(self)@.keys.private_key, old(self)@.params.q)
                &&& final(self)@ == after_respond(old(self)@)
            },
            s is Err ==> s->Err_0 == SchnorrError::ProtocolViolation && final(self)@ == old(self)@,
    {
        if self.state != ProverState::Committed {
            return Err(SchnorrError::ProtocolViolation);
        }
        let same = match &self.nonce {
            Some(kept) => kept.equals(nonce),
            None => false,
        };
        if !same {
            return Err(SchnorrError::ProtocolViolation);
        }
        let s = nonce.plus(&challenge.times(self.keys.private_key())).rem(self.params.q());
        self.nonce = None;
        self.state = ProverState::Responded;
        Ok(s)
    }

    /// One whole honest proof: commits with a fresh nonce from `rng`, takes
    /// the challenge of `generator` for the transcript `(g, p, y, t)`, and
    /// responds. The proof that comes out is accepted by the verifier, in
    /// either mode. While a commitment is out this is a `ProtocolViolation`;
    /// otherwise a generator that is not usable is an `InputError`. Either
    /// failure changes nothing.
    pub fn prove_with(&mut self, generator: &ChallengeGenerator, rng: &mut SecureRandom) -> (r: Result<
        Proof,
        SchnorrError,
    >)
        requires
            old(self).wf(),
        ensures
            final(self).wf(),
            r is Ok <==> old(self)@.state != ProverState::Committed && generator.usable(),
            r is Ok ==> {
                let v = old(self)@;
                let proof_made = r->Ok_0;
                &&& accepts(v.params.g, proof_made.s@, v.params.p, proof_made.t@, v.keys.public_key, proof_made.e@)
                &&& generator.gives(v.params.g, v.params.p, v.keys.public_key, proof_made.t@, proof_made.e@)
                &&& final(self)@ == after_respond(v)
            },
            r is Err ==> final(self)@ == old(self)@ && r->Err_0 == (if old(self)@.state
                == ProverState::Committed {
                SchnorrError::ProtocolViolation
            } else {
                SchnorrError::InputError
            }),
    {
        if self.state == ProverState::Committed {
            return Err(SchnorrError::ProtocolViolation);
        }
        if !generator.is_usable() {
            return Err(SchnorrError::InputError);
        }
        let ghost before = self@;
        match self.commit_with(rng) {
            Ok((nonce, t)) => {
                let transcript = Transcript {
                    g: self.params.g().clone(),
                    p: self.params.p().clone(),
                    y: self.keys.public_key().clone(),
                    t,
                };
                match generator.produce_with(&transcript, rng) {
                    Ok(e) => {
                        match self.respond(&nonce, &e) {
                            Ok(s) => {
                                proof {
                                    crate::laws::lemma_completeness(
                                        before.params.p,
                                        before.params.q,
                                        before.params.g,
                                        before.keys.private_key,
                                        before.keys.public_key,
                                        nonce@,
                                        transcript.t@,
                                        e@,
                                        s@,
                                    );
                                }
                                Ok(Proof { t: transcript.t, e, s })
                            },
                            Err(err) => Err(err),
                        }
                    },
                    Err(err) => Err(err),
                }
            },
            Err(err) => Err(err),
        }
    }
}

} // verus!
