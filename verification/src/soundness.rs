//! Why a proof made from the wrong secret is refused.

use vstd::prelude::*;
use vstd::arithmetic::power::{pow, lemma_pow_adds, lemma_pow_mod_noop, lemma_pow_multiplies};
use vstd::arithmetic::div_mod::{lemma_mod_bound, lemma_mod_equivalence, lemma_mul_mod_noop_general, lemma_small_mod};
use vstd::arithmetic::mul::{lemma_mul_is_associative, lemma_mul_is_distributive_sub};
use crate::laws::{lemma_pow_period, lemma_response_matches};
use crate::zkp::{commitment_matches, mod_exp, proof_holds, response};

verus! {

/// `g` has order exactly `q` modulo `p`: its `q`-th power is 1 and no
/// smaller positive power is.
pub open spec fn has_order(g: nat, p: nat, q: nat) -> bool {
    &&& p > 1
    &&& q > 0
    &&& mod_exp(g, q, p) == 1
    &&& forall|e: nat| 0 < e < q ==> #[trigger] mod_exp(g, e, p) != 1
}

/// `q` divides a product only where it divides one of the factors, which is
/// what it means for a number above 1 to be prime.
pub open spec fn divides_only_factors(q: nat) -> bool {
    &&& q > 1
    &&& forall|a: int, b: int| #[trigger] ((a * b) % (q as int)) == 0 ==> a % (q as int) == 0 || b % (q as int) == 0
}

/// A power of an element of finite order can be cancelled from a congruence.
proof fn lemma_cancel_power(g: int, p: int, q: nat, a: nat, z1: int, z2: int)
    requires
        p > 1,
        q > 0,
        pow(g, q) % p == 1,
        (pow(g, a) * z1) % p == (pow(g, a) * z2) % p,
    ensures
        z1 % p == z2 % p,
{
    let b: nat = (q * a - a) as nat;
    assert(q * a >= a) by (nonlinear_arith)
        requires
            q >= 1,
    ;
    let inv = pow(g, b);
    let ga = pow(g, a);
    // inv * g^a is congruent to 1
    lemma_pow_adds(g, b, a);
    lemma_pow_period(g, p, q, 0, a);
    assert(pow(g, 0) == 1) by {
        reveal(pow);
    }
    lemma_small_mod(1, p as nat);
    assert(b + a == 0 + q * a);
    assert((inv * ga) % p == 1);
    lemma_cancel_step(inv, ga, z1, p);
    lemma_cancel_step(inv, ga, z2, p);
    lemma_mul_mod_noop_general(inv, ga * z1, p);
    lemma_mul_mod_noop_general(inv, ga * z2, p);
}

/// Where `inv * a` is congruent to 1, multiplying `a * z` by `inv` gives
/// `z` back.
proof fn lemma_cancel_step(inv: int, a: int, z: int, p: int)
    requires
        p > 1,
        (inv * a) % p == 1,
    ensures
        (inv * (a * z)) % p == z % p,
{
    lemma_mul_is_associative(inv, a, z);
    lemma_mul_mod_noop_general(inv * a, z, p);
    assert(1 * z == z);
}

/// Below the order, different exponents give different powers.
pub proof fn lemma_exponent_unique(g: nat, p: nat, q: nat, s1: nat, s2: nat)
    requires
        has_order(g, p, q),
        s1 <= s2 < q,
        mod_exp(g, s1, p) == mod_exp(g, s2, p),
    ensures
        s1 == s2,
{
    let gi = g as int;
    let pi = p as int;
    let d: nat = (s2 - s1) as nat;
    lemma_mod_bound(pow(gi, s1), pi);
    lemma_mod_bound(pow(gi, s2), pi);
    lemma_mod_bound(pow(gi, q), pi);
    lemma_mod_bound(pow(gi, d), pi);
    lemma_pow_adds(gi, s1, d);
    assert(s1 + d == s2);
    assert(pow(gi, s1) * 1 == pow(gi, s1));
    lemma_cancel_power(gi, pi, q, s1, pow(gi, d), 1);
    lemma_small_mod(1, p);
    if d > 0 {
        assert(mod_exp(g, d, p) != 1);
    }
}

/// To given commitments and a given challenge at most one response below
/// `q` passes the check.
pub proof fn lemma_response_unique(g: nat, p: nat, q: nat, r: nat, x: nat, c: nat, s1: nat, s2: nat)
    requires
        has_order(g, p, q),
        s1 < q,
        s2 < q,
        commitment_matches(g, p, r, mod_exp(g, x, p), c, s1),
        commitment_matches(g, p, r, mod_exp(g, x, p), c, s2),
    ensures
        s1 == s2,
{
    let gi = g as int;
    let pi = p as int;
    let y = mod_exp(g, x, p);
    let xc: nat = x * c;
    lemma_mod_bound(pow(gi, x), pi);
    lemma_mod_bound(pow(gi, q), pi);
    lemma_pow_mod_noop(pow(gi, x), c, pi);
    lemma_pow_multiplies(gi, x, c);
    assert(pow(y as int, c) % pi == pow(gi, xc) % pi);
    lemma_mul_mod_noop_general(pow(gi, s1), pow(y as int, c), pi);
    lemma_mul_mod_noop_general(pow(gi, s1), pow(gi, xc), pi);
    lemma_mul_mod_noop_general(pow(gi, s2), pow(y as int, c), pi);
    lemma_mul_mod_noop_general(pow(gi, s2), pow(gi, xc), pi);
    assert((pow(gi, s1) * pow(gi, xc)) % pi == (pow(gi, s2) * pow(gi, xc)) % pi);
    assert(pow(gi, s1) * pow(gi, xc) == pow(gi, xc) * pow(gi, s1)) by (nonlinear_arith);
    assert(pow(gi, s2) * pow(gi, xc) == pow(gi, xc) * pow(gi, s2)) by (nonlinear_arith);
    lemma_cancel_power(gi, pi, q, xc, pow(gi, s1), pow(gi, s2));
    lemma_mod_bound(pow(gi, s1), pi);
    lemma_mod_bound(pow(gi, s2), pi);
    if s1 <= s2 {
        lemma_exponent_unique(g, p, q, s1, s2);
    } else {
        lemma_exponent_unique(g, p, q, s2, s1);
    }
}

/// For a prime `q` and a challenge that is not a multiple of it, secrets
/// that differ modulo `q` give different responses.
pub proof fn lemma_responses_differ(q: nat, k: nat, c: nat, x: nat, x_fake: nat)
    requires
        divides_only_factors(q),
        c % q != 0,
        x % q != x_fake % q,
    ensures
        response(k, c, x, q) != response(k, c, x_fake, q),
{
    let qi = q as int;
    let a = k as int - c as int * x as int;
    let b = k as int - c as int * x_fake as int;
    lemma_mod_bound(a, qi);
    lemma_mod_bound(b, qi);
    if a % qi == b % qi {
        lemma_mod_equivalence(a, b, qi);
        lemma_mul_is_distributive_sub(c as int, x_fake as int, x as int);
        assert(a - b == c as int * (x_fake as int - x as int));
        assert((c as int * (x_fake as int - x as int)) % qi == 0);
        assert((c as int) % qi == 0 || (x_fake as int - x as int) % qi == 0);
        lemma_mod_equivalence(x_fake as int, x as int, qi);
        assert(false);
    }
}

/// Soundness against a wrong secret: in a group of prime order `q`, a
/// response computed from a secret other than the registered one, modulo
/// `q`, is refused, unless the challenge is a multiple of `q`. A challenge
/// drawn uniformly below `q` is such a multiple only when it is 0.
pub proof fn lemma_wrong_secret_rejected(
    alpha: nat,
    beta: nat,
    p: nat,
    q: nat,
    x: nat,
    x_fake: nat,
    k: nat,
    c: nat,
)
    requires
        has_order(alpha, p, q),
        divides_only_factors(q),
        c % q != 0,
        x % q != x_fake % q,
    ensures
        !proof_holds(
            alpha,
            beta,
            p,
            mod_exp(alpha, k, p),
            mod_exp(beta, k, p),
            mod_exp(alpha, x, p),
            mod_exp(beta, x, p),
            c,
            response(k, c, x_fake, q),
        ),
{
    let r1 = mod_exp(alpha, k, p);
    let s = response(k, c, x, q);
    let s_fake = response(k, c, x_fake, q);
    lemma_mod_bound(pow(alpha as int, q), p as int);
    lemma_response_matches(alpha, p, q, x, k, c);
    lemma_responses_differ(q, k, c, x, x_fake);
    lemma_mod_bound(k as int - c as int * x as int, q as int);
    lemma_mod_bound(k as int - c as int * x_fake as int, q as int);
    if commitment_matches(alpha, p, r1, mod_exp(alpha, x, p), c, s_fake) {
        lemma_response_unique(alpha, p, q, r1, x, c, s, s_fake);
    }
}

} // verus!
