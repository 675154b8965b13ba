//! What holds of the proof system as a whole.

use vstd::prelude::*;
use vstd::arithmetic::power::{pow, lemma1_pow, lemma_pow_adds, lemma_pow_mod_noop, lemma_pow_multiplies};
use vstd::arithmetic::div_mod::{lemma_fundamental_div_mod, lemma_mod_bound, lemma_mul_mod_noop_general, lemma_small_mod};
use crate::zkp::{commitment_matches, mod_exp, proof_holds, response, ZKP};
use crate::server::{identity_proves, with_challenge, with_response};
use crate::store::{fresh_identity, Identity};

verus! {

/// An element whose `q`-th power is 1 modulo `p` has exponents that count
/// modulo `q`: `g^(e + q*n)` and `g^e` are congruent modulo `p`.
pub proof fn lemma_pow_period(g: int, p: int, q: nat, e: nat, n: nat)
    requires
        p > 1,
        pow(g, q) % p == 1,
    ensures
        pow(g, e + q * n) % p == pow(g, e) % p,
{
    let qn: nat = q * n;
    lemma_pow_adds(g, e, qn);
    lemma_pow_multiplies(g, q, n);
    lemma_pow_mod_noop(pow(g, q), n, p);
    lemma1_pow(n);
    lemma_small_mod(1, p as nat);
    assert(pow(g, qn) % p == 1);
    lemma_mul_mod_noop_general(pow(g, e), pow(g, qn), p);
    assert(pow(g, e) * 1 == pow(g, e)) by (nonlinear_arith);
}

/// For a generator `g` of order `q` modulo `p`, the response to a challenge
/// `c`, computed from the nonce `k` and the secret `x`, satisfies the
/// verifier's equation for the commitments `g^k` and `g^x`.
pub proof fn lemma_response_matches(g: nat, p: nat, q: nat, x: nat, k: nat, c: nat)
    requires
        p > 1,
        q > 0,
        pow(g as int, q) % (p as int) == 1,
    ensures
        commitment_matches(g, p, mod_exp(g, k, p), mod_exp(g, x, p), c, response(k, c, x, q)),
{
    let gi = g as int;
    let pi = p as int;
    let qi = q as int;
    let s = response(k, c, x, q);
    let y = mod_exp(g, x, p);
    let xc: nat = x * c;
    let diff: int = k as int - c as int * x as int;
    lemma_mod_bound(diff, qi);
    lemma_fundamental_div_mod(diff, qi);
    let t: int = diff / qi;
    lemma_mod_bound(pow(gi, x), pi);
    lemma_mod_bound(pow(gi, k), pi);
    // y^c is congruent to g^(x*c)
    lemma_pow_mod_noop(pow(gi, x), c, pi);
    lemma_pow_multiplies(gi, x, c);
    assert(pow(y as int, c) % pi == pow(gi, xc) % pi);
    // so g^s * y^c is congruent to g^(s + x*c)
    lemma_mul_mod_noop_general(pow(gi, s), pow(y as int, c), pi);
    lemma_mul_mod_noop_general(pow(gi, s), pow(gi, xc), pi);
    lemma_pow_adds(gi, s, xc);
    let total: nat = s + xc;
    assert((pow(gi, s) * pow(y as int, c)) % pi == pow(gi, total) % pi);
    assert(c as int * x as int == xc as int) by (nonlinear_arith)
        requires
            xc == x * c,
    ;
    // and s + x*c differs from k by a multiple of q
    if t <= 0 {
        let n: nat = (-t) as nat;
        assert(total == k + q * n) by (nonlinear_arith)
            requires
                diff == qi * t + s as int,
                diff == k as int - xc as int,
                total == s + xc,
                n as int == -t,
                qi == q as int,
        ;
        lemma_pow_period(gi, pi, q, k, n);
    } else {
        let n: nat = t as nat;
        assert(k == total + q * n) by (nonlinear_arith)
            requires
                diff == qi * t + s as int,
                diff == k as int - xc as int,
                total == s + xc,
                n as int == t,
                qi == q as int,
        ;
        lemma_pow_period(gi, pi, q, total, n);
    }
}

/// Completeness: where both generators have order `q` modulo `p`, the proof
/// that an honest prover builds from a secret `x`, a nonce `k` and any
/// challenge `c` is accepted against the commitments made from `x` and `k`.
pub proof fn lemma_honest_proof_verifies(alpha: nat, beta: nat, p: nat, q: nat, x: nat, k: nat, c: nat)
    requires
        p > 1,
        q > 0,
        pow(alpha as int, q) % (p as int) == 1,
        pow(beta as int, q) % (p as int) == 1,
    ensures
        proof_holds(
            alpha,
            beta,
            p,
            mod_exp(alpha, k, p),
            mod_exp(beta, k, p),
            mod_exp(alpha, x, p),
            mod_exp(beta, x, p),
            c,
            response(k, c, x, q),
        ),
{
    lemma_response_matches(alpha, p, q, x, k, c);
    lemma_response_matches(beta, p, q, x, k, c);
}

/// The response always lies in `[0, q)`, whichever of `k` and `c * x` is the
/// larger.
pub proof fn lemma_response_in_range(k: nat, c: nat, x: nat, q: nat)
    requires
        q > 0,
    ensures
        response(k, c, x, q) < q,
{
    lemma_mod_bound(k as int - c as int * x as int, q as int);
}

/// A full round of an honest prover is accepted: after registering the
/// commitments to a secret `x`, receiving any challenge `c` for the
/// commitments made from a nonce `k`, and answering with the response
/// computed from `k`, `c` and `x`, the stored identity passes the check.
pub proof fn lemma_honest_round_accepted(
    group: ZKP,
    identities: Map<Seq<char>, Identity>,
    user: Seq<char>,
    x: nat,
    k: nat,
    c: nat,
)
    requires
        group.valid(),
    ensures
        ({
            let p = group.p@;
            let registered = identities.insert(
                user,
                fresh_identity(user, mod_exp(group.alpha@, x, p), mod_exp(group.beta@, x, p)),
            );
            let challenged = with_challenge(
                registered,
                user,
                mod_exp(group.alpha@, k, p),
                mod_exp(group.beta@, k, p),
                c,
            );
            let answered = with_response(challenged, user, response(k, c, x, group.q@));
            identity_proves(group, answered[user])
        }),
{
    lemma_honest_proof_verifies(group.alpha@, group.beta@, group.p@, group.q@, x, k, c);
}

/// A challenge or a response for one user leaves every other user's
/// identity as it was.
pub proof fn lemma_other_user_untouched(
    identities: Map<Seq<char>, Identity>,
    user: Seq<char>,
    other: Seq<char>,
    r1: nat,
    r2: nat,
    c: nat,
    s: nat,
)
    requires
        user != other,
    ensures
        with_challenge(identities, user, r1, r2, c).contains_key(other) == identities.contains_key(other),
        with_challenge(identities, user, r1, r2, c)[other] == identities[other],
        with_response(identities, user, s).contains_key(other) == identities.contains_key(other),
        with_response(identities, user, s)[other] == identities[other],
{
}

/// Rounds of two different users do not interfere: whether the second
/// user's challenge and response come after, between or before the steps of
/// the first, the identities end up the same, and the first user's identity
/// is what it would be had the second never called.
pub proof fn lemma_rounds_independent(
    identities: Map<Seq<char>, Identity>,
    u1: Seq<char>,
    r1a: nat,
    r2a: nat,
    ca: nat,
    sa: nat,
    u2: Seq<char>,
    r1b: nat,
    r2b: nat,
    cb: nat,
    sb: nat,
)
    requires
        u1 != u2,
    ensures
        ({
            let first = with_response(with_challenge(identities, u1, r1a, r2a, ca), u1, sa);
            let then_second = with_response(with_challenge(first, u2, r1b, r2b, cb), u2, sb);
            let second = with_response(with_challenge(identities, u2, r1b, r2b, cb), u2, sb);
            let then_first = with_response(with_challenge(second, u1, r1a, r2a, ca), u1, sa);
            let both_challenged = with_challenge(
                with_challenge(identities, u1, r1a, r2a, ca),
                u2,
                r1b,
                r2b,
                cb,
            );
            let interleaved = with_response(with_response(both_challenged, u1, sa), u2, sb);
            &&& then_second == then_first
            &&& interleaved == then_second
            &&& then_second[u1] == first[u1]
            &&& then_second[u2] == second[u2]
        }),
{
    let first = with_response(with_challenge(identities, u1, r1a, r2a, ca), u1, sa);
    let then_second = with_response(with_challenge(first, u2, r1b, r2b, cb), u2, sb);
    let second = with_response(with_challenge(identities, u2, r1b, r2b, cb), u2, sb);
    let then_first = with_response(with_challenge(second, u1, r1a, r2a, ca), u1, sa);
    let both_challenged = with_challenge(with_challenge(identities, u1, r1a, r2a, ca), u2, r1b, r2b, cb);
    let interleaved = with_response(with_response(both_challenged, u1, sa), u2, sb);
    assert(then_second =~= then_first);
    assert(interleaved =~= then_second);
}

/// Two challenges under different identifiers can be recorded in either
/// order.
pub proof fn lemma_sessions_independent(
    sessions: Map<Seq<char>, Seq<char>>,
    a1: Seq<char>,
    u1: Seq<char>,
    a2: Seq<char>,
    u2: Seq<char>,
)
    requires
        a1 != a2,
    ensures
        sessions.insert(a1, u1).insert(a2, u2) == sessions.insert(a2, u2).insert(a1, u1),
        sessions.insert(a1, u1).insert(a2, u2)[a1] == u1,
{
    assert(sessions.insert(a1, u1).insert(a2, u2) =~= sessions.insert(a2, u2).insert(a1, u1));
}

} // verus!
