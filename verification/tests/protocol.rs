use schnorr_zkp::bignat::BigNat;
use schnorr_zkp::challenge::{ChallengeGenerator, Transcript};
use schnorr_zkp::error::SchnorrError;
use schnorr_zkp::keys::{KeyPair, KeyPairGenerator};
use schnorr_zkp::params::GroupParameters;
use schnorr_zkp::prover::{Proof, Prover, ProverState};
use schnorr_zkp::random::SecureRandom;
use schnorr_zkp::verify::Verifier;

fn n(v: u64) -> BigNat {
    BigNat::from_u64(v)
}

fn val(b: &BigNat) -> u64 {
    b.to_u64().unwrap()
}

fn toy() -> GroupParameters {
    GroupParameters::new(n(23), n(11), n(4)).unwrap()
}

fn toy_prover(x: u64) -> Prover {
    let params = toy();
    let keys = KeyPair::from_private(&params, n(x)).unwrap();
    match Prover::new(params, keys) {
        Ok(p) => p,
        Err(e) => panic!("{:?}", e),
    }
}

fn verdict(g: u64, s: u64, p: u64, t: u64, y: u64, e: u64) -> Result<bool, SchnorrError> {
    Verifier::verify(&n(g), &n(s), &n(p), &n(t), &n(y), &n(e))
}

#[test]
fn toy_group_scenario() {
    let params = toy();
    let keys = KeyPair::from_private(&params, n(6)).unwrap();
    assert_eq!(val(keys.public_key()), 2);
    let y = keys.public_key().clone();
    let mut prover = match Prover::new(params, keys) {
        Ok(p) => p,
        Err(e) => panic!("{:?}", e),
    };
    let r = n(3);
    let t = prover.commit_nonce(&r).unwrap();
    assert_eq!(val(&t), 18);
    let e = n(5);
    let s = prover.respond(&r, &e).unwrap();
    assert_eq!(val(&s), 0);
    let params = toy();
    assert_eq!(Verifier::verify(params.g(), &s, params.p(), &t, &y, &e), Ok(true));
}

#[test]
fn response_formula_exact() {
    assert_eq!(val(&Prover::response(&n(3), &n(5), &n(6), &n(11)).unwrap()), 0);
    assert_eq!(val(&Prover::response(&n(3), &n(2), &n(6), &n(11)).unwrap()), 4);
    assert_eq!(val(&Prover::response(&n(10), &n(0), &n(6), &n(11)).unwrap()), 10);
    assert_eq!(val(&Prover::response(&n(7), &n(1000), &n(9), &n(1439)).unwrap()), 373);
}

#[test]
fn response_rejects_zero_order() {
    assert_eq!(Prover::response(&n(3), &n(5), &n(6), &n(0)).err(), Some(SchnorrError::InputError));
}

#[test]
fn verify_equation_exact() {
    assert_eq!(verdict(4, 0, 23, 18, 2, 5), Ok(true));
    assert_eq!(verdict(4, 1, 23, 18, 2, 5), Ok(false));
    assert_eq!(verdict(4, 0, 23, 17, 2, 5), Ok(false));
    assert_eq!(verdict(4, 0, 23, 18, 3, 5), Ok(false));
    assert_eq!(verdict(4, 0, 23, 18, 2, 6), Ok(false));
}

#[test]
fn verify_rejects_zero_modulus() {
    assert_eq!(verdict(4, 0, 0, 18, 2, 5), Err(SchnorrError::InputError));
}

#[test]
fn verify_modulus_one_accepts_everything() {
    assert_eq!(verdict(4, 3, 1, 18, 2, 5), Ok(true));
    assert_eq!(verdict(4, 0, 1, 18, 2, 0), Ok(true));
    assert_eq!(verdict(0, 0, 1, 0, 0, 0), Ok(true));
}

#[test]
fn verify_zero_exponents() {
    // g^0 == 1 on the left; y^0 == 1 on the right, so t decides.
    assert_eq!(verdict(4, 0, 23, 1, 2, 0), Ok(true));
    assert_eq!(verdict(4, 0, 23, 24, 2, 0), Ok(true));
    assert_eq!(verdict(4, 0, 23, 2, 2, 0), Ok(false));
    assert_eq!(verdict(4, 0, 22, 1, 2, 0), Ok(true));
    assert_eq!(verdict(3, 0, 2, 1, 5, 0), Ok(true));
    assert_eq!(verdict(3, 0, 2, 2, 5, 0), Ok(false));
}

#[test]
fn completeness_over_the_whole_toy_group() {
    let params = toy();
    for x in 1..11u64 {
        let keys = KeyPair::from_private(&params, n(x)).unwrap();
        for r in 1..11u64 {
            let t = KeyPair::from_private(&params, n(r)).unwrap().public_key().clone();
            for e in 0..25u64 {
                let s = Prover::response(&n(r), &n(e), &n(x), params.q()).unwrap();
                let ok = Verifier::verify(params.g(), &s, params.p(), &t, keys.public_key(), &n(e));
                assert_eq!(ok, Ok(true));
            }
        }
    }
}

#[test]
fn forged_response_is_rejected() {
    let params = toy();
    for forged in 1..11u64 {
        let ok = Verifier::verify(params.g(), &n(forged), params.p(), &n(18), &n(2), &n(5));
        assert_eq!(ok, Ok(false));
    }
    assert_eq!(Verifier::verify(params.g(), &n(0), params.p(), &n(18), &n(2), &n(5)), Ok(true));
}

#[test]
fn secret_recovered_from_two_responses() {
    let q = 11i64;
    let (x, r, e1, e2) = (6u64, 3u64, 5u64, 2u64);
    let s1 = val(&Prover::response(&n(r), &n(e1), &n(x), &n(11)).unwrap()) as i64;
    let s2 = val(&Prover::response(&n(r), &n(e2), &n(x), &n(11)).unwrap()) as i64;
    assert_eq!((s1, s2), (0, 4));
    let d = (e1 as i64 - e2 as i64).rem_euclid(q);
    let inv = (1..q).find(|i| (i * d) % q == 1).unwrap();
    assert_eq!(inv, 4);
    assert_eq!(((s1 - s2).rem_euclid(q) * inv) % q, x as i64);
}

#[test]
fn second_response_is_a_protocol_violation() {
    let mut prover = toy_prover(6);
    let r = n(3);
    prover.commit_nonce(&r).unwrap();
    assert_eq!(prover.state(), ProverState::Committed);
    assert!(prover.respond(&r, &n(5)).is_ok());
    assert_eq!(prover.state(), ProverState::Responded);
    assert_eq!(prover.respond(&r, &n(7)).err(), Some(SchnorrError::ProtocolViolation));
    assert_eq!(prover.state(), ProverState::Responded);
    let fresh = n(8);
    prover.commit_nonce(&fresh).unwrap();
    assert_eq!(prover.respond(&r, &n(7)).err(), Some(SchnorrError::ProtocolViolation));
    assert_eq!(val(&prover.respond(&fresh, &n(7)).unwrap()), (8 + 7 * 6) % 11);
}

#[test]
fn response_without_commitment_is_a_protocol_violation() {
    let mut prover = toy_prover(6);
    assert_eq!(prover.state(), ProverState::Idle);
    assert_eq!(prover.respond(&n(3), &n(5)).err(), Some(SchnorrError::ProtocolViolation));
    assert_eq!(prover.state(), ProverState::Idle);
}

#[test]
fn response_with_another_nonce_is_a_protocol_violation() {
    let mut prover = toy_prover(6);
    prover.commit_nonce(&n(3)).unwrap();
    assert_eq!(prover.respond(&n(4), &n(5)).err(), Some(SchnorrError::ProtocolViolation));
    assert_eq!(prover.state(), ProverState::Committed);
    assert_eq!(val(&prover.respond(&n(3), &n(5)).unwrap()), 0);
}

#[test]
fn commitment_while_committed_is_a_protocol_violation() {
    let mut prover = toy_prover(6);
    let mut rng = SecureRandom::from_seed([1u8; 32]);
    prover.commit_nonce(&n(3)).unwrap();
    assert_eq!(prover.commit_nonce(&n(4)).err(), Some(SchnorrError::ProtocolViolation));
    assert_eq!(prover.commit_with(&mut rng).err(), Some(SchnorrError::ProtocolViolation));
    assert_eq!(prover.commit().err(), Some(SchnorrError::ProtocolViolation));
    let generator = ChallengeGenerator::fiat_shamir();
    assert_eq!(prover.prove_with(&generator, &mut rng).err(), Some(SchnorrError::ProtocolViolation));
    assert_eq!(val(&prover.respond(&n(3), &n(5)).unwrap()), 0);
}

#[test]
fn commitment_rejects_nonce_out_of_range() {
    let mut prover = toy_prover(6);
    assert_eq!(prover.commit_nonce(&n(0)).err(), Some(SchnorrError::InputError));
    assert_eq!(prover.commit_nonce(&n(11)).err(), Some(SchnorrError::InputError));
    assert_eq!(prover.state(), ProverState::Idle);
    assert_eq!(val(&prover.commit_nonce(&n(10)).unwrap()), 6);
}

#[test]
fn random_commitment_is_in_range_and_consistent() {
    let params = toy();
    for seed in 0..40u8 {
        let mut prover = toy_prover(7);
        let mut rng = SecureRandom::from_seed([seed; 32]);
        let (r, t) = prover.commit_with(&mut rng).unwrap();
        let rv = val(&r);
        assert!(1 <= rv && rv <= 10);
        let expected = KeyPair::from_private(&params, n(rv)).unwrap();
        assert_eq!(val(&t), val(expected.public_key()));
        let s = prover.respond(&r, &n(9)).unwrap();
        assert_eq!(val(&s), (rv + 9 * 7) % 11);
    }
}

#[test]
fn whole_proof_is_accepted_in_both_modes() {
    let params = toy();
    for seed in 0..20u8 {
        let mut rng = SecureRandom::from_seed([seed; 32]);
        let keys = KeyPairGenerator::generate_with(&params, &mut rng);
        let y = keys.public_key().clone();
        let mut prover = match Prover::new(params.clone(), keys) {
            Ok(p) => p,
            Err(e) => panic!("{:?}", e),
        };
        let interactive = ChallengeGenerator::Interactive { bound: n(11) };
        let proof = prover.prove_with(&interactive, &mut rng).unwrap();
        let e = val(&proof.e);
        assert!(1 <= e && e <= 10);
        assert_eq!(Verifier::verify(params.g(), &proof.s, params.p(), &proof.t, &y, &proof.e), Ok(true));
        assert!(Verifier::verify_proof(&params, &y, &proof));
        assert_eq!(prover.state(), ProverState::Responded);

        let hashed = ChallengeGenerator::FiatShamir { width: 32 };
        let proof = prover.prove_with(&hashed, &mut rng).unwrap();
        assert_eq!(Verifier::verify(params.g(), &proof.s, params.p(), &proof.t, &y, &proof.e), Ok(true));
        let transcript = Transcript { g: n(4), p: n(23), y: y.clone(), t: proof.t.clone() };
        let again = ChallengeGenerator::derive(&transcript, 32).unwrap();
        assert_eq!(again.to_bytes_be(), proof.e.to_bytes_be());
    }
}

#[test]
fn whole_proof_rejects_unusable_generator() {
    let mut prover = toy_prover(6);
    let mut rng = SecureRandom::from_seed([3u8; 32]);
    let unusable = ChallengeGenerator::FiatShamir { width: 0 };
    assert_eq!(prover.prove_with(&unusable, &mut rng).err(), Some(SchnorrError::InputError));
    assert_eq!(prover.state(), ProverState::Idle);
}

#[test]
fn proof_in_a_larger_group() {
    let params = GroupParameters::new(n(2879), n(1439), n(4)).unwrap();
    let mut rng = SecureRandom::from_seed([9u8; 32]);
    let keys = KeyPairGenerator::generate_with(&params, &mut rng);
    let x = val(keys.private_key());
    assert!(1 <= x && x <= 1438);
    let y = keys.public_key().clone();
    let mut prover = match Prover::new(params.clone(), keys) {
        Ok(p) => p,
        Err(e) => panic!("{:?}", e),
    };
    let proof = prover.prove_with(&ChallengeGenerator::fiat_shamir(), &mut rng).unwrap();
    assert_eq!(Verifier::verify(params.g(), &proof.s, params.p(), &proof.t, &y, &proof.e), Ok(true));
    let forged = n((val(&proof.s) + 1) % 1439);
    assert_eq!(Verifier::verify(params.g(), &forged, params.p(), &proof.t, &y, &proof.e), Ok(false));
}

#[test]
fn system_seeded_operations() {
    let params = toy();
    match KeyPairGenerator::generate(&params) {
        Ok(keys) => {
            let x = val(keys.private_key());
            assert!(1 <= x && x <= 10);
            let expected = KeyPair::from_private(&params, n(x)).unwrap();
            assert_eq!(val(keys.public_key()), val(expected.public_key()));
        }
        Err(e) => assert_eq!(e, SchnorrError::RngError),
    }
    let mut prover = toy_prover(6);
    match prover.commit() {
        Ok((r, t)) => {
            let expected = KeyPair::from_private(&params, r.clone()).unwrap();
            assert_eq!(val(&t), val(expected.public_key()));
            assert_eq!(prover.state(), ProverState::Committed);
        }
        Err(e) => {
            assert_eq!(e, SchnorrError::RngError);
            assert_eq!(prover.state(), ProverState::Idle);
        }
    }
    let transcript = Transcript { g: n(4), p: n(23), y: n(2), t: n(18) };
    match (ChallengeGenerator::Interactive { bound: n(11) }).produce(&transcript) {
        Ok(e) => assert!(1 <= val(&e) && val(&e) <= 10),
        Err(e) => assert_eq!(e, SchnorrError::RngError),
    }
    match SecureRandom::from_system() {
        Ok(mut rng) => assert_eq!(val(&rng.sample_below(&n(2)).unwrap()), 1),
        Err(e) => assert_eq!(e, SchnorrError::RngError),
    }
}

#[test]
fn proof_transcripts_are_judged_as_the_equation_says() {
    let params = toy();
    let good = Proof { t: n(18), e: n(5), s: n(0) };
    assert!(Verifier::verify_proof(&params, &n(2), &good));
    let forged = Proof { t: n(18), e: n(5), s: n(1) };
    assert!(!Verifier::verify_proof(&params, &n(2), &forged));
    let other_key = Proof { t: n(18), e: n(5), s: n(0) };
    assert!(!Verifier::verify_proof(&params, &n(3), &other_key));
}
