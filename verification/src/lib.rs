//! Schnorr proof of knowledge of a discrete logarithm over a prime-order
//! subgroup, in its interactive form and under the Fiat-Shamir transform.
//!
//! A prover who knows `x` with `y = g^x mod p` commits to a nonce by
//! `t = g^r mod p`, receives a challenge `e`, and answers with
//! `s = (r + e * x) mod q`; the verifier accepts when
//! `g^s mod p == (t * y^e) mod p`.

pub mod bignat;
pub mod challenge;
pub mod encoding;
pub mod error;
pub mod keys;
pub mod laws;
pub mod params;
pub mod prover;
pub mod random;
pub mod verify;
