//! The arithmetic of the Chaum-Pedersen proof: commitments, the prover's
//! response and the verifier's check.

use vstd::prelude::*;
use vstd::arithmetic::power::{pow, lemma_pow1};
use vstd::arithmetic::div_mod::{lemma_fundamental_div_mod, lemma_mod_multiples_vanish, lemma_mul_mod_noop, lemma_mod_bound};
use crate::natural::{lemma_be_value_positive, Natural};
use crate::foreign::{hex_bytes, is_alphanumeric, random_alphanumeric};
use crate::constants::{
    fixed_natural, generator_hex, generator_text, hex_value, modulus_hex, modulus_text, order_hex, order_text,
    trapdoor_hex, trapdoor_text,
};

verus! {

/// `base ^ exponent mod modulus`.
pub open spec fn mod_exp(base: nat, exponent: nat, modulus: nat) -> nat {
    (pow(base as int, exponent) % (modulus as int)) as nat
}

/// The prover's response `(k - c * x) mod q`, in `[0, q)`.
pub open spec fn response(k: nat, c: nat, x: nat, q: nat) -> nat {
    ((k as int - c as int * x as int) % (q as int)) as nat
}

/// One half of the verifier's check: `r == g^s * y^c mod p`.
pub open spec fn commitment_matches(g: nat, p: nat, r: nat, y: nat, c: nat, s: nat) -> bool {
    r as int == (pow(g as int, s) * pow(y as int, c)) % (p as int)
}

/// The verifier's check on both generators.
pub open spec fn proof_holds(
    alpha: nat,
    beta: nat,
    p: nat,
    r1: nat,
    r2: nat,
    y1: nat,
    y2: nat,
    c: nat,
    s: nat,
) -> bool {
    commitment_matches(alpha, p, r1, y1, c, s) && commitment_matches(beta, p, r2, y2, c, s)
}

/// The parameters of the group: the modulus `p`, the order `q` of the
/// subgroup, and its two generators.
pub struct ZKP {
    pub q: Natural,
    pub p: Natural,
    pub alpha: Natural,
    pub beta: Natural,
}

impl ZKP {
    /// Both moduli are positive, so every operation is defined.
    pub open spec fn usable(&self) -> bool {
        self.p@ > 0 && self.q@ > 0
    }

    /// What the protocol needs of a group: the modulus is more than 1, and
    /// both generators give 1 when raised to `q` modulo `p`. That `p` and `q`
    /// are prime is not part of it.
    pub open spec fn valid(&self) -> bool {
        &&& self.p@ > 1
        &&& self.q@ > 0
        &&& mod_exp(self.alpha@, self.q@, self.p@) == 1
        &&& mod_exp(self.beta@, self.q@, self.p@) == 1
    }

    /// Whether the group is valid, by raising both generators to `q`.
    pub fn is_valid(&self) -> (r: bool)
        ensures
            r == self.valid(),
    {
        let one = Natural::from_u32(1);
        if self.p.is_zero() || self.p.equals(&one) || self.q.is_zero() {
            return false;
        }
        let a = ZKP::exponentiate(&self.alpha, &self.q, &self.p);
        let b = ZKP::exponentiate(&self.beta, &self.q, &self.p);
        a.equals(&one) && b.equals(&one)
    }

    /// `n ^ exponent mod modulus`.
    pub fn exponentiate(n: &Natural, exponent: &Natural, modulus: &Natural) -> (r: Natural)
        requires
            modulus@ != 0,
        ensures
            r@ == mod_exp(n@, exponent@, modulus@),
            r@ < modulus@,
    {
        proof {
            lemma_mod_bound(pow(n@ as int, exponent@), modulus@ as int);
        }
        n.modpow(exponent, modulus)
    }

    /// The public commitments `(alpha^x mod p, beta^x mod p)` to a secret `x`.
    pub fn compute_commitments(&self, x: &Natural) -> (r: (Natural, Natural))
        requires
            self.p@ != 0,
        ensures
            r.0@ == mod_exp(self.alpha@, x@, self.p@),
            r.1@ == mod_exp(self.beta@, x@, self.p@),
    {
        let y1 = ZKP::exponentiate(&self.alpha, x, &self.p);
        let y2 = ZKP::exponentiate(&self.beta, x, &self.p);
        (y1, y2)
    }

    /// The prover's commitments `(alpha^k mod p, beta^k mod p)` to a nonce
    /// `k`, which is to be drawn afresh for every round.
    pub fn generate_commitment(&self, k: &Natural) -> (r: (Natural, Natural))
        requires
            self.p@ != 0,
        ensures
            r.0@ == mod_exp(self.alpha@, k@, self.p@),
            r.1@ == mod_exp(self.beta@, k@, self.p@),
    {
        self.compute_commitments(k)
    }

    /// The response `s = (k - c * x) mod q`. Where `c * x` exceeds `k` the
    /// difference is taken the other way round and subtracted from `q`.
    pub fn solve(&self, k: &Natural, c: &Natural, x: &Natural) -> (s: Natural)
        requires
            self.q@ != 0,
        ensures
            s@ == response(k@, c@, x@, self.q@),
            s@ < self.q@,
    {
        let one = Natural::from_u32(1);
        let cx = c.times(x);
        let ghost q = self.q@ as int;
        let ghost diff = k@ as int - c@ as int * x@ as int;
        proof {
            lemma_mod_bound(diff, q);
        }
        if k.at_least(&cx) {
            let d = k.minus(&cx);
            proof {
                lemma_pow1(d@ as int);
            }
            d.modpow(&one, &self.q)
        } else {
            let over = cx.minus(k);
            let rem = over.modpow(&one, &self.q);
            proof {
                lemma_pow1(over@ as int);
                lemma_mod_bound(over@ as int, q);
            }
            let back = self.q.minus(&rem);
            proof {
                lemma_pow1(back@ as int);
                lemma_fundamental_div_mod(over@ as int, q);
                let t = -(over@ as int / q) - 1;
                assert(q * t + back@ as int == diff) by (nonlinear_arith)
                    requires
                        over@ as int == q * (over@ as int / q) + rem@ as int,
                        back@ as int == q - rem@ as int,
                        diff == -(over@ as int),
                        t == -(over@ as int / q) - 1,
                ;
                lemma_mod_multiples_vanish(t, back@ as int, q);
            }
            back.modpow(&one, &self.q)
        }
    }

    /// Whether `r1 == alpha^s * y1^c mod p` and `r2 == beta^s * y2^c mod p`.
    pub fn verify(
        &self,
        r1: &Natural,
        r2: &Natural,
        y1: &Natural,
        y2: &Natural,
        c: &Natural,
        s: &Natural,
    ) -> (ok: bool)
        requires
            self.p@ != 0,
        ensures
            ok == proof_holds(self.alpha@, self.beta@, self.p@, r1@, r2@, y1@, y2@, c@, s@),
    {
        let cond1 = ZKP::matches(&self.alpha, &self.p, r1, y1, c, s);
        let cond2 = ZKP::matches(&self.beta, &self.p, r2, y2, c, s);
        cond1 && cond2
    }

    /// Whether `r == g^s * y^c mod p`.
    fn matches(g: &Natural, p: &Natural, r: &Natural, y: &Natural, c: &Natural, s: &Natural) -> (ok: bool)
        requires
            p@ != 0,
        ensures
            ok == commitment_matches(g@, p@, r@, y@, c@, s@),
    {
        let one = Natural::from_u32(1);
        let left = g.modpow(s, p);
        let right = y.modpow(c, p);
        let product = left.times(&right);
        let reduced = product.modpow(&one, p);
        proof {
            lemma_pow1(product@ as int);
            lemma_mul_mod_noop(pow(g@ as int, s@), pow(y@ as int, c@), p@ as int);
        }
        r.equals(&reduced)
    }

    /// A number in `[0, limit)`, drawn at random.
    pub fn generate_random_below(limit: &Natural) -> (r: Natural)
        requires
            limit@ != 0,
        ensures
            r@ < limit@,
    {
        Natural::random_below(limit)
    }

    /// The fixed group: `(alpha, beta, p, q)`, where `beta` is `alpha` raised
    /// to a fixed exponent modulo `p`.
    pub fn get_constants() -> (r: (Natural, Natural, Natural, Natural))
        ensures
            r.0@ == hex_value(generator_hex()),
            r.1@ == mod_exp(hex_value(generator_hex()), hex_value(trapdoor_hex()), hex_value(modulus_hex())),
            r.2@ == hex_value(modulus_hex()),
            r.3@ == hex_value(order_hex()),
            r.2@ > 0,
            r.3@ > 0,
    {
        let p = fixed_natural(modulus_text());
        let q = fixed_natural(order_text());
        let alpha = fixed_natural(generator_text());
        let exp = fixed_natural(trapdoor_text());
        proof {
            lemma_be_value_positive(hex_bytes(modulus_hex()));
            lemma_be_value_positive(hex_bytes(order_hex()));
        }
        let beta = alpha.modpow(&exp, &p);
        (alpha, beta, p, q)
    }

    /// A string of `size` letters and digits, drawn at random.
    pub fn generate_random_string(size: usize) -> (r: String)
        ensures
            r@.len() == size,
            forall|i: int| 0 <= i < r@.len() ==> is_alphanumeric(#[trigger] r@[i]),
    {
        random_alphanumeric(size)
    }
}

} // verus!
