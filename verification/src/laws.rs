//! What holds of the protocol as a whole: completeness, the recoverability
//! of the secret from two responses to one commitment, the single use of a
//! nonce, and the unambiguity of the transcript encoding.

use crate::bignat::mod_exp;
use crate::encoding::{be_bytes, lemma_be_bytes_len, lemma_be_bytes_value, transcript_bytes, transcript_width};
use crate::keys::valid_keypair;
use crate::params::valid_group;
use crate::prover::{after_commit, after_respond, may_respond, response_value, valid_session, ProverState, ProverView};
use crate::verify::accepts;
use vstd::arithmetic::div_mod::{
    lemma_fundamental_div_mod, lemma_mod_bound, lemma_mod_multiples_vanish, lemma_mul_mod_noop_general,
    lemma_small_mod, lemma_sub_mod_noop,
};
use vstd::arithmetic::power::{lemma1_pow, lemma_pow1, lemma_pow_adds, lemma_pow_mod_noop, lemma_pow_multiplies, pow};
use vstd::prelude::*;

verus! {

/// Exponents of an element whose `q`-th power is 1 modulo `p` count modulo
/// `q`: `g^n mod p == g^(n mod q) mod p`.
pub proof fn lemma_exponent_mod_order(g: int, n: nat, q: nat, p: int)
    requires
        p > 1,
        q > 0,
        pow(g, q) % p == 1,
    ensures
        pow(g, n) % p == pow(g, n % q) % p,
{
    let k = n / q;
    let rest = n % q;
    lemma_fundamental_div_mod(n as int, q as int);
    assert(n == q * k + rest);
    lemma_pow_adds(g, q * k, rest);
    lemma_pow_multiplies(g, q, k);
    let cycle = pow(pow(g, q), k);
    assert(pow(g, n) == cycle * pow(g, rest));
    lemma_pow_mod_noop(pow(g, q), k, p);
    lemma1_pow(k);
    lemma_small_mod(1, p as nat);
    assert(cycle % p == 1);
    lemma_mul_mod_noop_general(cycle, pow(g, rest), p);
    assert((cycle * pow(g, rest)) % p == (1 * pow(g, rest)) % p);
}

/// Completeness: in a valid group, for a key pair `(x, y)`, a nonce `r` with
/// commitment `t = g^r mod p`, and any challenge `e`, however it was made,
/// the response `s = (r + e * x) mod q` is accepted.
pub proof fn lemma_completeness(p: nat, q: nat, g: nat, x: nat, y: nat, r: nat, t: nat, e: nat, s: nat)
    requires
        valid_group(p, q, g),
        valid_keypair(p, q, g, x, y),
        1 <= r < q,
        t == mod_exp(g, r, p),
        s == response_value(r, e, x, q),
    ensures
        accepts(g, s, p, t, y, e),
{
    let gi = g as int;
    let pi = p as int;
    let total: nat = r + e * x;
    let yx = pow(gi, x);
    assert(x * e == e * x) by (nonlinear_arith);
    lemma_exponent_mod_order(gi, total, q, pi);
    lemma_pow_adds(gi, r, e * x);
    lemma_pow_multiplies(gi, x, e);
    assert(pow(gi, total) == pow(gi, r) * pow(yx, e));
    lemma_mod_bound(yx, pi);
    lemma_mod_bound(pow(gi, r), pi);
    lemma_mod_bound(pow(yx % pi, e), pi);
    lemma_mod_bound(pow(gi, s), pi);
    lemma_pow_mod_noop(yx, e, pi);
    assert(y as int == yx % pi);
    assert(mod_exp(y, e, p) as int == pow(yx, e) % pi);
    lemma_mul_mod_noop_general(pow(gi, r), pow(yx, e), pi);
    assert((t * mod_exp(y, e, p)) % p == ((pow(gi, r) % pi) * (pow(yx, e) % pi)) % pi);
}

/// Whether `n` is a prime number.
pub open spec fn is_prime(n: nat) -> bool {
    n >= 2 && forall|d: nat| 1 < d < n ==> #[trigger] (n % d) != 0
}

/// Congruent numbers stay congruent when both are multiplied by the same factor.
pub proof fn lemma_congruence_times(a: int, b: int, c: int, m: int)
    requires
        m > 0,
        a % m == b % m,
    ensures
        (a * c) % m == (b * c) % m,
{
    lemma_mul_mod_noop_general(a, c, m);
    lemma_mul_mod_noop_general(b, c, m);
}

/// An element whose `q`-th power is 1 for a prime `q`, and whose `d`-th
/// power is 1 for some `0 < d < q`, is itself 1 modulo `p`.
pub proof fn lemma_order_descent(g: int, d: nat, q: nat, p: int)
    requires
        p > 1,
        is_prime(q),
        0 < d < q,
        pow(g, q) % p == 1,
        pow(g, d) % p == 1,
    ensures
        g % p == 1,
    decreases d,
{
    if d == 1 {
        lemma_pow1(g);
    } else {
        let rest = q % d;
        assert(rest != 0);
        lemma_mod_bound(q as int, d as int);
        lemma_exponent_mod_order(g, q, d, p);
        lemma_order_descent(g, rest, q, p);
    }
}

/// In a subgroup of prime order `q`, exponents below `q` that differ give
/// powers that differ.
pub proof fn lemma_powers_distinct(g: int, a: nat, b: nat, q: nat, p: int)
    requires
        p > 1,
        is_prime(q),
        pow(g, q) % p == 1,
        g % p != 1,
        a < b < q,
    ensures
        pow(g, a) % p != pow(g, b) % p,
{
    if pow(g, a) % p == pow(g, b) % p {
        let d = (b - a) as nat;
        let c = (q - a) as nat;
        lemma_pow_adds(g, b, c);
        lemma_pow_adds(g, a, c);
        lemma_congruence_times(pow(g, a), pow(g, b), pow(g, c), p);
        assert(pow(g, b + c) % p == 1);
        lemma_exponent_mod_order(g, b + c, q, p);
        assert(b + c == q * 1 + d) by (nonlinear_arith)
            requires
                d == b - a,
                c == q - a,
        ;
        lemma_mod_multiples_vanish(1, d as int, q as int);
        lemma_small_mod(d, q);
        assert((b + c) % q == d);
        lemma_order_descent(g, d, q, p);
    }
}

/// A forged response is rejected: in a valid group of prime order, of the
/// responses below `q` to one commitment and one challenge at most one is
/// accepted.
pub proof fn lemma_forged_response_rejected(
    p: nat,
    q: nat,
    g: nat,
    t: nat,
    y: nat,
    e: nat,
    s: nat,
    forged: nat,
)
    requires
        valid_group(p, q, g),
        is_prime(q),
        s < q,
        forged < q,
        forged != s,
        accepts(g, s, p, t, y, e),
    ensures
        !accepts(g, forged, p, t, y, e),
{
    let gi = g as int;
    let pi = p as int;
    lemma_small_mod(g, p);
    lemma_mod_bound(pow(gi, s), pi);
    lemma_mod_bound(pow(gi, forged), pi);
    if s < forged {
        lemma_powers_distinct(gi, s, forged, q, pi);
    } else {
        lemma_powers_distinct(gi, forged, s, q, pi);
    }
}

/// Two accepted responses to one commitment bind the secret: where
/// `(t, e1, s1)` and `(t, e2, s2)` are both accepted for `y = g^x mod p` in
/// a valid group of prime order, `s1 + e2 * x` and `s2 + e1 * x` agree
/// modulo `q`.
pub proof fn lemma_two_responses_bind_secret(
    p: nat,
    q: nat,
    g: nat,
    x: nat,
    y: nat,
    t: nat,
    e1: nat,
    e2: nat,
    s1: nat,
    s2: nat,
)
    requires
        valid_group(p, q, g),
        is_prime(q),
        y == mod_exp(g, x, p),
        accepts(g, s1, p, t, y, e1),
        accepts(g, s2, p, t, y, e2),
    ensures
        (s1 + e2 * x) % q == (s2 + e1 * x) % q,
{
    let gi = g as int;
    let pi = p as int;
    let ti = t as int;
    let a1 = pow(gi, s1);
    let a2 = pow(gi, s2);
    let yx = pow(gi, x);
    let h1 = pow(gi, x * e1);
    let h2 = pow(gi, x * e2);
    lemma_mod_bound(yx, pi);
    lemma_mod_bound(a1, pi);
    lemma_mod_bound(a2, pi);
    lemma_mod_bound(pow(y as int, e1), pi);
    lemma_mod_bound(pow(y as int, e2), pi);
    // y^e is g^(x * e) modulo p.
    lemma_pow_mod_noop(yx, e1, pi);
    lemma_pow_mod_noop(yx, e2, pi);
    lemma_pow_multiplies(gi, x, e1);
    lemma_pow_multiplies(gi, x, e2);
    assert(mod_exp(y, e1, p) as int == h1 % pi);
    assert(mod_exp(y, e2, p) as int == h2 % pi);
    // g^s is t * g^(x * e) modulo p, for both transcripts.
    lemma_mul_mod_noop_general(ti, h1, pi);
    lemma_mul_mod_noop_general(ti, h2, pi);
    assert(a1 % pi == (ti * h1) % pi);
    assert(a2 % pi == (ti * h2) % pi);
    // Cross-multiplying removes t.
    lemma_congruence_times(a1, ti * h1, h2, pi);
    lemma_congruence_times(a2, ti * h2, h1, pi);
    assert((ti * h1) * h2 == (ti * h2) * h1) by (nonlinear_arith);
    assert((a1 * h2) % pi == (a2 * h1) % pi);
    lemma_pow_adds(gi, s1, x * e2);
    lemma_pow_adds(gi, s2, x * e1);
    assert(x * e1 == e1 * x && x * e2 == e2 * x) by (nonlinear_arith);
    let n1: nat = s1 + e2 * x;
    let n2: nat = s2 + e1 * x;
    assert(pow(gi, n1) % pi == pow(gi, n2) % pi);
    lemma_exponent_mod_order(gi, n1, q, pi);
    lemma_exponent_mod_order(gi, n2, q, pi);
    lemma_mod_bound(n1 as int, q as int);
    lemma_mod_bound(n2 as int, q as int);
    lemma_small_mod(g, p);
    let u = n1 % q;
    let v = n2 % q;
    if u < v {
        lemma_powers_distinct(gi, u, v, q, pi);
    } else if v < u {
        lemma_powers_distinct(gi, v, u, q, pi);
    }
}

/// The secret is recoverable from two accepted responses to one commitment:
/// where `(t, e1, s1)` and `(t, e2, s2)` are both accepted for
/// `y = g^x mod p` in a valid group of prime order and `inv` is an inverse
/// of `e1 - e2` modulo `q`, `(s1 - s2) * inv` is `x` modulo `q`.
pub proof fn lemma_secret_recoverable(
    p: nat,
    q: nat,
    g: nat,
    x: nat,
    y: nat,
    t: nat,
    e1: nat,
    e2: nat,
    s1: nat,
    s2: nat,
    inv: nat,
)
    requires
        valid_group(p, q, g),
        is_prime(q),
        y == mod_exp(g, x, p),
        accepts(g, s1, p, t, y, e1),
        accepts(g, s2, p, t, y, e2),
        (inv * (e1 - e2)) % (q as int) == 1,
    ensures
        ((s1 - s2) * inv) % (q as int) == x % q,
{
    lemma_two_responses_bind_secret(p, q, g, x, y, t, e1, e2, s1, s2);
    let m = q as int;
    let a: int = (s1 + e2 * x) as int;
    let b: int = (s2 + e1 * x) as int;
    let d: int = e1 - e2;
    let xi: int = x as int;
    // a and b agree modulo q, and a - b == (s1 - s2) - d * x.
    lemma_sub_mod_noop(a, b, m);
    lemma_small_mod(0, q);
    assert((a - b) % m == 0);
    assert(a - b == (s1 - s2) - d * xi) by (nonlinear_arith)
        requires
            a == s1 + e2 * x,
            b == s2 + e1 * x,
            d == e1 - e2,
            xi == x,
    ;
    lemma_sub_mod_noop(s1 - s2, d * xi, m);
    lemma_mod_bound(s1 - s2, m);
    lemma_mod_bound(d * xi, m);
    let u = (s1 - s2) % m;
    let v = (d * xi) % m;
    assert((u - v) % m == 0);
    assert(u == v) by {
        if u > v {
            lemma_small_mod((u - v) as nat, q);
        } else if v > u {
            lemma_small_mod((v - u) as nat, q);
            lemma_sub_mod_noop(0, v - u, m);
            lemma_fundamental_div_mod(u - v, m);
            assert(false) by (nonlinear_arith)
                requires
                    u - v == m * ((u - v) / m),
                    -m < u - v < 0,
            ;
        }
    }
    lemma_congruence_times(s1 - s2, d * xi, inv as int, m);
    assert((d * xi) * inv == (inv * d) * xi) by (nonlinear_arith);
    lemma_small_mod(1, q);
    assert((inv * d) % m == 1int % m);
    lemma_congruence_times(inv * d, 1, xi, m);
    assert(((inv * d) * xi) % m == (1 * xi) % m);
}

/// A nonce answers one challenge only: once a response is out, no response
/// is in order, whatever nonce is offered, until a fresh commitment is made.
pub proof fn lemma_nonce_single_use(v: ProverView, r: nat, again: nat)
    requires
        valid_session(v),
        may_respond(v, r),
    ensures
        valid_session(after_respond(v)),
        after_respond(v).state == ProverState::Responded,
        !may_respond(after_respond(v), again),
{
}

/// A fresh commitment puts a response in order again, for the new nonce and
/// for no other.
pub proof fn lemma_fresh_commit_reopens(v: ProverView, fresh: nat, offered: nat)
    requires
        valid_session(v),
        v.state != ProverState::Committed,
        1 <= fresh < v.params.q,
    ensures
        valid_session(after_commit(v, fresh)),
        may_respond(after_commit(v, fresh), offered) <==> offered == fresh,
{
}

/// The transcript encoding is unambiguous: two transcripts with the same
/// bytes have the same four values.
pub proof fn lemma_transcript_unambiguous(g1: nat, p1: nat, y1: nat, t1: nat, g2: nat, p2: nat, y2: nat, t2: nat)
    requires
        transcript_bytes(g1, p1, y1, t1) == transcript_bytes(g2, p2, y2, t2),
    ensures
        g1 == g2 && p1 == p2 && y1 == y2 && t1 == t2,
{
    let w1 = transcript_width(g1, p1, y1, t1);
    let w2 = transcript_width(g2, p2, y2, t2);
    let a = transcript_bytes(g1, p1, y1, t1);
    let b = transcript_bytes(g2, p2, y2, t2);
    lemma_be_bytes_len(g1, w1);
    lemma_be_bytes_len(p1, w1);
    lemma_be_bytes_len(y1, w1);
    lemma_be_bytes_len(t1, w1);
    lemma_be_bytes_len(g2, w2);
    lemma_be_bytes_len(p2, w2);
    lemma_be_bytes_len(y2, w2);
    lemma_be_bytes_len(t2, w2);
    assert(a.len() == 4 * w1 && b.len() == 4 * w2);
    let w = w1 as int;
    assert(a.subrange(0, w) =~= be_bytes(g1, w1));
    assert(a.subrange(w, 2 * w) =~= be_bytes(p1, w1));
    assert(a.subrange(2 * w, 3 * w) =~= be_bytes(y1, w1));
    assert(a.subrange(3 * w, 4 * w) =~= be_bytes(t1, w1));
    assert(b.subrange(0, w) =~= be_bytes(g2, w2));
    assert(b.subrange(w, 2 * w) =~= be_bytes(p2, w2));
    assert(b.subrange(2 * w, 3 * w) =~= be_bytes(y2, w2));
    assert(b.subrange(3 * w, 4 * w) =~= be_bytes(t2, w2));
    lemma_be_bytes_value(g1, w1);
    lemma_be_bytes_value(p1, w1);
    lemma_be_bytes_value(y1, w1);
    lemma_be_bytes_value(t1, w1);
    lemma_be_bytes_value(g2, w2);
    lemma_be_bytes_value(p2, w2);
    lemma_be_bytes_value(y2, w2);
    lemma_be_bytes_value(t2, w2);
}

} // verus!
