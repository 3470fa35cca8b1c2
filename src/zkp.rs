//! The proof system: public group parameters and the operations of the
//! commit / challenge / response exchange.
use crate::bignat::{big_eq, big_ge, big_modpow, big_mul, big_random_below, big_sub, BigNat};
use crate::modular::{
    divides, has_order, is_prime, lemma_pow_below_order_injective, lemma_pow_mod_period,
    lemma_prime_divides_product,
};
use vstd::arithmetic::div_mod::*;
use vstd::arithmetic::power::*;
use vstd::prelude::*;

verus! {

/// The response `(k - c * x) mod q`, taken into `[0, q)` for every sign of
/// `k - c * x`.
pub open spec fn response(k: nat, c: nat, x: nat, q: nat) -> nat {
    ((k - c * x) % (q as int)) as nat
}

/// `r == g^s * y^c (mod p)`, each power reduced modulo `p` before the product.
pub open spec fn relation_holds(g: nat, y: nat, r: nat, s: nat, c: nat, p: nat) -> bool {
    r as int == (pow(g as int, s) % (p as int)) * (pow(y as int, c) % (p as int)) % (p as int)
}

/// `g^e mod p`, as a natural number.
pub open spec fn power_mod(g: nat, e: nat, p: nat) -> nat {
    (pow(g as int, e) % (p as int)) as nat
}

/// Public parameters: the modulus `p`, the order `q` of the subgroup, and its
/// two generators `alpha` and `beta`.
pub struct ZKP {
    pub p: BigNat,
    pub q: BigNat,
    pub alpha: BigNat,
    pub beta: BigNat,
}

impl ZKP {
    /// The parameters form a group fit for the proof: `p` and `q` are prime,
    /// `q` divides `p - 1`, and `alpha` and `beta` are distinct elements of
    /// order `q` modulo `p`.
    pub open spec fn valid(&self) -> bool {
        &&& is_prime(self.p@)
        &&& is_prime(self.q@)
        &&& divides(self.q@, (self.p@ - 1) as nat)
        &&& has_order(self.alpha@, self.q@, self.p@)
        &&& has_order(self.beta@, self.q@, self.p@)
        &&& self.alpha@ != self.beta@
    }

    /// The verifier's two checks: `r1 == alpha^s * y1^c` and
    /// `r2 == beta^s * y2^c`, modulo `p`.
    pub open spec fn accepts(&self, r1: nat, r2: nat, y1: nat, y2: nat, s: nat, c: nat) -> bool {
        &&& relation_holds(self.alpha@, y1, r1, s, c, self.p@)
        &&& relation_holds(self.beta@, y2, r2, s, c, self.p@)
    }

    /// `n^exponent mod p`.
    pub fn exponetiate(n: &BigNat, exponent: &BigNat, p: &BigNat) -> (r: BigNat)
        requires
            p@ > 1,
        ensures
            r@ == power_mod(n@, exponent@, p@),
            r@ < p@,
            exponent@ == 0 ==> r@ == 1,
    {
        let r = big_modpow(n, exponent, p);
        proof {
            lemma_pow0(n@ as int);
            lemma_small_mod(1, p@);
        }
        r
    }

    /// The prover's response `s = (k - c * x) mod q`, in `[0, q)`.
    pub fn solve(&self, k: &BigNat, c: &BigNat, x: &BigNat) -> (s: BigNat)
        requires
            self.q@ > 1,
        ensures
            s@ == response(k@, c@, x@, self.q@),
            s@ < self.q@,
    {
        let q = &self.q;
        let one = BigNat::from_u32(1);
        let cx = big_mul(c, x);
        if big_ge(k, &cx) {
            let d = big_sub(k, &cx);
            let s = big_modpow(&d, &one, q);
            proof {
                lemma_pow1(d@ as int);
            }
            s
        } else {
            let d = big_sub(&cx, k);
            let m = big_modpow(&d, &one, q);
            proof {
                lemma_pow1(d@ as int);
            }
            let zero = BigNat::from_u32(0);
            if big_eq(&m, &zero) {
                proof {
                    let t = (d@ as int) / (q@ as int);
                    lemma_fundamental_div_mod(d@ as int, q@ as int);
                    let qi = q@ as int;
                    assert(k@ - cx@ == (-t) * qi + 0) by (nonlinear_arith)
                        requires
                            d@ == qi * t + 0,
                            d@ == cx@ - k@,
                    ;
                    lemma_fundamental_div_mod_converse_mod(k@ - cx@, qi, -t, 0);
                }
                zero
            } else {
                let s = big_sub(q, &m);
                proof {
                    let t = (d@ as int) / (q@ as int);
                    lemma_fundamental_div_mod(d@ as int, q@ as int);
                    let qi = q@ as int;
                    assert(k@ - cx@ == (-t - 1) * qi + s@) by (nonlinear_arith)
                        requires
                            d@ == qi * t + m@,
                            d@ == cx@ - k@,
                            s@ == qi - m@,
                    ;
                    lemma_fundamental_div_mod_converse_mod(k@ - cx@, qi, -t - 1, s@ as int);
                }
                s
            }
        }
    }

    /// Whether `(r1, r2, y1, y2, s, c)` passes both of the verifier's checks.
    pub fn verify(
        &self,
        r1: &BigNat,
        r2: &BigNat,
        y1: &BigNat,
        y2: &BigNat,
        s: &BigNat,
        c: &BigNat,
    ) -> (ok: bool)
        requires
            self.p@ > 1,
        ensures
            ok == self.accepts(r1@, r2@, y1@, y2@, s@, c@),
    {
        let cond1 = check_relation(&self.alpha, y1, r1, s, c, &self.p);
        let cond2 = check_relation(&self.beta, y2, r2, s, c, &self.p);
        cond1 && cond2
    }

    /// A number drawn uniformly from `[0, bound)`.
    pub fn generate_random_below(bound: &BigNat) -> (r: BigNat)
        requires
            bound@ > 0,
        ensures
            r@ < bound@,
    {
        big_random_below(bound)
    }
}

/// Whether `r == g^s * y^c (mod p)`.
fn check_relation(g: &BigNat, y: &BigNat, r: &BigNat, s: &BigNat, c: &BigNat, p: &BigNat) -> (ok:
    bool)
    requires
        p@ > 1,
    ensures
        ok == relation_holds(g@, y@, r@, s@, c@, p@),
{
    let a = big_modpow(g, s, p);
    let b = big_modpow(y, c, p);
    let product = big_mul(&a, &b);
    let one = BigNat::from_u32(1);
    let reduced = big_modpow(&product, &one, p);
    proof {
        lemma_pow1(product@ as int);
    }
    big_eq(r, &reduced)
}

/// For `g` of order `q` modulo `p`, with `y = g^x` and `r = g^k`, the relation
/// `r == g^s * y^c (mod p)` holds exactly when `s + c * x` and `k` agree
/// modulo `q`.
pub proof fn lemma_relation_holds_iff(g: nat, q: nat, p: nat, x: nat, k: nat, s: nat, c: nat)
    requires
        p > 1,
        has_order(g, q, p),
    ensures
        relation_holds(g, power_mod(g, x, p), power_mod(g, k, p), s, c, p) <==> ((s + c * x) as int) % (
        q as int) == (k as int) % (q as int),
{
    let gi = g as int;
    let pi = p as int;
    let xc = (x * c) as nat;
    let e = (s + xc) as nat;
    lemma_pow_mod_noop(pow(gi, x), c, pi);
    lemma_pow_multiplies(gi, x, c);
    lemma_mul_mod_noop(pow(gi, s), pow(gi, xc), pi);
    lemma_pow_adds(gi, s, xc);
    lemma_pow_mod_period(gi, q, pi, e);
    lemma_pow_mod_period(gi, q, pi, k);
    assert(relation_holds(g, power_mod(g, x, p), power_mod(g, k, p), s, c, p) <==> pow(gi, e % q)
        % pi == pow(gi, k % q) % pi);
    if pow(gi, e % q) % pi == pow(gi, k % q) % pi {
        lemma_pow_below_order_injective(g, q, p, e % q, k % q);
    }
}

/// `(k - c * x') mod q + c * x` agrees with `k + c * (x - x')` modulo `q`.
proof fn lemma_response_shift(k: nat, c: nat, x: nat, x_used: nat, q: nat)
    requires
        q > 0,
    ensures
        ((response(k, c, x_used, q) + c * x) as int) % (q as int) == (k + c * (x - x_used)) % (
            q as int),
{
    let qi = q as int;
    let a = k - c * x_used;
    lemma_add_mod_noop(a % qi, (c * x) as int, qi);
    lemma_mod_twice(a, qi);
    lemma_add_mod_noop(a, (c * x) as int, qi);
    assert(a + c * x == k + c * (x - x_used)) by (nonlinear_arith)
        requires
            a == k - c * x_used,
    ;
}

/// Completeness: for valid parameters and every `x, k, c`, the commitment
/// `(alpha^k, beta^k)`, the public values `(alpha^x, beta^x)` and the response
/// `(k - c * x) mod q` pass both checks.
pub proof fn lemma_honest_proof_verifies(zkp: &ZKP, x: nat, k: nat, c: nat)
    requires
        zkp.valid(),
    ensures
        zkp.accepts(
            power_mod(zkp.alpha@, k, zkp.p@),
            power_mod(zkp.beta@, k, zkp.p@),
            power_mod(zkp.alpha@, x, zkp.p@),
            power_mod(zkp.beta@, x, zkp.p@),
            response(k, c, x, zkp.q@),
            c,
        ),
{
    let s = response(k, c, x, zkp.q@);
    lemma_response_shift(k, c, x, x, zkp.q@);
    assert(k + c * (x - x) == k) by (nonlinear_arith);
    lemma_relation_holds_iff(zkp.alpha@, zkp.q@, zkp.p@, x, k, s, c);
    lemma_relation_holds_iff(zkp.beta@, zkp.q@, zkp.p@, x, k, s, c);
}

/// Soundness against a wrong secret: a response computed from `x_used` does not
/// pass the checks for public values made from `x`, whenever the two secrets
/// differ modulo `q` and the challenge is not a multiple of `q`.
pub proof fn lemma_wrong_secret_rejected(zkp: &ZKP, x: nat, x_used: nat, k: nat, c: nat)
    requires
        zkp.valid(),
        x % zkp.q@ != x_used % zkp.q@,
        c % zkp.q@ != 0,
    ensures
        !zkp.accepts(
            power_mod(zkp.alpha@, k, zkp.p@),
            power_mod(zkp.beta@, k, zkp.p@),
            power_mod(zkp.alpha@, x, zkp.p@),
            power_mod(zkp.beta@, x, zkp.p@),
            response(k, c, x_used, zkp.q@),
            c,
        ),
{
    let q = zkp.q@;
    let qi = q as int;
    let s = response(k, c, x_used, q);
    let diff = x - x_used;
    lemma_response_shift(k, c, x, x_used, q);
    lemma_relation_holds_iff(zkp.alpha@, q, zkp.p@, x, k, s, c);
    lemma_mod_equivalence(x as int, x_used as int, qi);
    lemma_prime_divides_product(q, c as int, diff);
    lemma_mod_equivalence(k + c * diff, k as int, qi);
}

/// A changed response is rejected: for public values and a commitment made
/// from `x` and `k`, the only responses that pass are those that agree with
/// `(k - c * x) mod q` modulo `q`.
pub proof fn lemma_only_honest_response_accepted(zkp: &ZKP, x: nat, k: nat, c: nat, s: nat)
    requires
        zkp.valid(),
        zkp.accepts(
            power_mod(zkp.alpha@, k, zkp.p@),
            power_mod(zkp.beta@, k, zkp.p@),
            power_mod(zkp.alpha@, x, zkp.p@),
            power_mod(zkp.beta@, x, zkp.p@),
            s,
            c,
        ),
    ensures
        s % zkp.q@ == response(k, c, x, zkp.q@),
{
    let qi = zkp.q@ as int;
    lemma_relation_holds_iff(zkp.alpha@, zkp.q@, zkp.p@, x, k, s, c);
    lemma_mod_equivalence((s + c * x) as int, k as int, qi);
    lemma_mod_equivalence(s as int, k - c * x, qi);
    lemma_mod_twice(k - c * x, qi);
}

/// A changed challenge is rejected: an honest response to `c` does not pass
/// the checks under a challenge `c_used` that differs from `c` modulo `q`,
/// whenever the secret is not a multiple of `q`.
pub proof fn lemma_changed_challenge_rejected(zkp: &ZKP, x: nat, k: nat, c: nat, c_used: nat)
    requires
        zkp.valid(),
        x % zkp.q@ != 0,
        c % zkp.q@ != c_used % zkp.q@,
    ensures
        !zkp.accepts(
            power_mod(zkp.alpha@, k, zkp.p@),
            power_mod(zkp.beta@, k, zkp.p@),
            power_mod(zkp.alpha@, x, zkp.p@),
            power_mod(zkp.beta@, x, zkp.p@),
            response(k, c, x, zkp.q@),
            c_used,
        ),
{
    let q = zkp.q@;
    let qi = q as int;
    let s = response(k, c, x, q);
    let a = k - c * x;
    lemma_relation_holds_iff(zkp.alpha@, q, zkp.p@, x, k, s, c_used);
    lemma_add_mod_noop(a % qi, (c_used * x) as int, qi);
    lemma_mod_twice(a, qi);
    lemma_add_mod_noop(a, (c_used * x) as int, qi);
    let diff = c_used - c;
    assert(a + c_used * x == k + diff * x) by (nonlinear_arith)
        requires
            a == k - c * x,
            diff == c_used - c,
    ;
    lemma_mod_equivalence(c_used as int, c as int, qi);
    lemma_prime_divides_product(q, diff, x as int);
    lemma_mod_equivalence(k + diff * x, k as int, qi);
}

} // verus!
