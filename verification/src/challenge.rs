//! Challenges: drawn at random by the verifier, or derived from the public
//! transcript by hashing.

use crate::bignat::{be_value, BigNat};
use crate::encoding::{encode_transcript, transcript_bytes};
use crate::error::SchnorrError;
use crate::random::SecureRandom;
use sha2::{Digest, Sha256};
use vstd::prelude::*;

verus! {

/// The SHA-256 digest of a byte string.
pub uninterp spec fn sha256_digest(data: Seq<u8>) -> Seq<u8>;

/// Calls `Sha256::digest`: the result is the SHA-256 digest of `data`, which
/// has 32 bytes.
#[verifier::external_body]
fn sha256(data: &Vec<u8>) -> (r: Vec<u8>)
    ensures
        r@ == sha256_digest(data@),
        r@.len() == 32,
{
    Sha256::digest(data).to_vec()
}

/// The number of digest bytes that a Fiat-Shamir challenge is made of unless
/// another width is asked for.
pub const DEFAULT_CHALLENGE_BYTES: usize = 4;

/// The number of bytes of a digest.
pub const DIGEST_BYTES: usize = 32;

/// The leading `width` bytes of a digest, read as a big-endian integer; the
/// whole digest where it has no more than `width` bytes.
pub open spec fn truncated_value(digest: Seq<u8>, width: nat) -> nat {
    if width <= digest.len() {
        be_value(digest.subrange(0, width as int))
    } else {
        be_value(digest)
    }
}

/// The Fiat-Shamir challenge of the public transcript `(g, p, y, t)`.
pub open spec fn fiat_shamir_value(g: nat, p: nat, y: nat, t: nat, width: nat) -> nat {
    truncated_value(sha256_digest(transcript_bytes(g, p, y, t)), width)
}

/// The public values that a challenge is bound to.
pub struct Transcript {
    pub g: BigNat,
    pub p: BigNat,
    pub y: BigNat,
    pub t: BigNat,
}

/// How challenges are made.
pub enum ChallengeGenerator {
    /// Drawn uniformly from `[1, bound - 1]`; `bound` should be the order `q`.
    Interactive { bound: BigNat },
    /// Derived from the transcript: the leading `width` bytes of its SHA-256 digest.
    FiatShamir { width: usize },
}

/// The challenge that a digest gives at the given width.
pub fn challenge_from_digest(digest: &Vec<u8>, width: usize) -> (e: BigNat)
    ensures
        e@ == truncated_value(digest@, width as nat),
{
    let mut lead: Vec<u8> = Vec::new();
    let mut i: usize = 0;
    while i < digest.len() && i < width
        invariant
            i <= digest@.len(),
            i <= width,
            lead@ == digest@.subrange(0, i as int),
        decreases digest@.len() - i,
    {
        lead.push(digest[i]);
        proof {
            assert(digest@.subrange(0, i + 1) =~= digest@.subrange(0, i as int).push(digest@[i as int]));
        }
        i = i + 1;
    }
    proof {
        if width > digest@.len() {
            assert(digest@.subrange(0, i as int) =~= digest@);
        }
    }
    BigNat::from_bytes_be(lead)
}

impl ChallengeGenerator {
    /// The Fiat-Shamir generator of the default width.
    pub fn fiat_shamir() -> (r: ChallengeGenerator)
        ensures
            r == (ChallengeGenerator::FiatShamir { width: DEFAULT_CHALLENGE_BYTES }),
    {
        ChallengeGenerator::FiatShamir { width: DEFAULT_CHALLENGE_BYTES }
    }

    /// Whether this generator can make a challenge at all: an interactive
    /// bound of at least 2, a Fiat-Shamir width from 1 to the digest's 32 bytes.
    pub open spec fn usable(&self) -> bool {
        match self {
            ChallengeGenerator::Interactive { bound } => bound@ >= 2,
            ChallengeGenerator::FiatShamir { width } => 1 <= *width <= DIGEST_BYTES,
        }
    }

    /// Whether `e` is a challenge that this generator may give for the
    /// transcript `(g, p, y, t)`.
    pub open spec fn gives(&self, g: nat, p: nat, y: nat, t: nat, e: nat) -> bool {
        match self {
            ChallengeGenerator::Interactive { bound } => 1 <= e < bound@,
            ChallengeGenerator::FiatShamir { width } => e == fiat_shamir_value(g, p, y, t, *width as nat),
        }
    }

    /// Whether this generator can make a challenge at all.
    pub fn is_usable(&self) -> (r: bool)
        ensures
            r == self.usable(),
    {
        match self {
            ChallengeGenerator::Interactive { bound } => BigNat::from_u64(1).less_than(bound),
            ChallengeGenerator::FiatShamir { width } => 1 <= *width && *width <= DIGEST_BYTES,
        }
    }

    /// The deterministic challenge of a transcript: the leading `width`
    /// bytes of the SHA-256 digest of its encoding. A width outside `1..=32`
    /// is reported as an `InputError`.
    pub fn derive(transcript: &Transcript, width: usize) -> (r: Result<BigNat, SchnorrError>)
        ensures
            1 <= width <= DIGEST_BYTES <==> r is Ok,
            r is Ok ==> r->Ok_0@ == fiat_shamir_value(
                transcript.g@,
                transcript.p@,
                transcript.y@,
                transcript.t@,
                width as nat,
            ),
            r is Err ==> r->Err_0 == SchnorrError::InputError,
    {
        if width < 1 || width > DIGEST_BYTES {
            return Err(SchnorrError::InputError);
        }
        let data = encode_transcript(&transcript.g, &transcript.p, &transcript.y, &transcript.t);
        let digest = sha256(&data);
        Ok(challenge_from_digest(&digest, width))
    }

    /// A challenge for the transcript, with the given source for the
    /// interactive mode. A generator that is not usable is reported as an
    /// `InputError`; there is no other failure.
    pub fn produce_with(&self, transcript: &Transcript, rng: &mut SecureRandom) -> (r: Result<BigNat, SchnorrError>)
        ensures
            self.usable() <==> r is Ok,
            r is Ok ==> self.gives(transcript.g@, transcript.p@, transcript.y@, transcript.t@, r->Ok_0@),
            r is Err ==> r->Err_0 == SchnorrError::InputError,
    {
        match self {
            ChallengeGenerator::Interactive { bound } => rng.sample_below(bound),
            ChallengeGenerator::FiatShamir { width } => ChallengeGenerator::derive(transcript, *width),
        }
    }

    /// A challenge for the transcript; the interactive mode draws from a
    /// source that the operating system seeds. A generator that is not usable
    /// is reported as an `InputError` before anything else is done; the
    /// Fiat-Shamir mode has no other failure, the interactive mode only that
    /// of the source, an `RngError`.
    pub fn produce(&self, transcript: &Transcript) -> (r: Result<BigNat, SchnorrError>)
        ensures
            r is Ok ==> self.gives(transcript.g@, transcript.p@, transcript.y@, transcript.t@, r->Ok_0@),
            !self.usable() <==> r == Err::<BigNat, SchnorrError>(SchnorrError::InputError),
            r is Err ==> r->Err_0 == SchnorrError::InputError || (self is Interactive && r->Err_0
                == SchnorrError::RngError),
    {
        match self {
            ChallengeGenerator::Interactive { bound } => {
                if !self.is_usable() {
                    return Err(SchnorrError::InputError);
                }
                match SecureRandom::from_system() {
                    Ok(mut rng) => rng.sample_below(bound),
                    Err(e) => Err(e),
                }
            },
            ChallengeGenerator::FiatShamir { width } => ChallengeGenerator::derive(transcript, *width),
        }
    }
}

/// Fiat-Shamir determinism: whatever a Fiat-Shamir generator gives twice for
/// one transcript is one and the same challenge.
pub proof fn lemma_fiat_shamir_deterministic(
    generator: ChallengeGenerator,
    g: nat,
    p: nat,
    y: nat,
    t: nat,
    first: nat,
    second: nat,
)
    requires
        generator is FiatShamir,
        generator.gives(g, p, y, t, first),
        generator.gives(g, p, y, t, second),
    ensures
        first == second,
{
}

} // verus!
