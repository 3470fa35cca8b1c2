//! Facts about powers modulo `p` of an element whose order is `q`.
use vstd::arithmetic::div_mod::*;
use vstd::arithmetic::power::*;
use vstd::prelude::*;

verus! {

/// `d` divides `n`.
pub open spec fn divides(d: nat, n: nat) -> bool {
    n % d == 0
}

/// `n` is a prime number.
pub open spec fn is_prime(n: nat) -> bool {
    &&& n > 1
    &&& forall|d: nat| 1 < d < n ==> !#[trigger] divides(d, n)
}

/// `g` has order exactly `q` in the multiplicative group modulo `p`: `q` is
/// the least positive exponent that takes `g` to one.
pub open spec fn has_order(g: nat, q: nat, p: nat) -> bool {
    &&& q > 0
    &&& pow(g as int, q) % (p as int) == 1
    &&& forall|j: nat| 0 < j < q ==> #[trigger] pow(g as int, j) % (p as int) != 1
}

/// Where `g^q` is one modulo `p`, powers of `g` modulo `p` repeat with period `q`.
pub proof fn lemma_pow_mod_period(g: int, q: nat, p: int, e: nat)
    requires
        p > 1,
        q > 0,
        pow(g, q) % p == 1,
    ensures
        pow(g, e) % p == pow(g, e % q) % p,
{
    let t = e / q;
    let r = e % q;
    lemma_fundamental_div_mod(e as int, q as int);
    let qt = (q * t) as nat;
    assert(e == qt + r);
    lemma_pow_adds(g, qt, r);
    lemma_pow_multiplies(g, q, t);
    lemma_pow_mod_noop(pow(g, q), t, p);
    lemma1_pow(t);
    lemma_small_mod(1, p as nat);
    assert(pow(g, qt) % p == 1);
    lemma_mul_mod_noop_general(pow(g, qt), pow(g, r), p);
    lemma_mod_twice(pow(g, r), p);
}

proof fn lemma_pow_below_order_ordered(g: nat, q: nat, p: nat, a: nat, b: nat)
    requires
        p > 1,
        has_order(g, q, p),
        a < b < q,
    ensures
        pow(g as int, a) % (p as int) != pow(g as int, b) % (p as int),
{
    let gi = g as int;
    let pi = p as int;
    let d = (q - b) as nat;
    if pow(gi, a) % pi == pow(gi, b) % pi {
        lemma_pow_adds(gi, a, d);
        lemma_pow_adds(gi, b, d);
        assert((b + d) as nat == q);
        lemma_mul_mod_noop_general(pow(gi, a), pow(gi, d), pi);
        lemma_mul_mod_noop_general(pow(gi, b), pow(gi, d), pi);
        assert(pow(gi, (a + d) as nat) % pi == 1);
        assert(0 < a + d < q);
    }
}

/// Below its order, distinct exponents take `g` to distinct residues modulo `p`.
pub proof fn lemma_pow_below_order_injective(g: nat, q: nat, p: nat, a: nat, b: nat)
    requires
        p > 1,
        has_order(g, q, p),
        a < q,
        b < q,
        pow(g as int, a) % (p as int) == pow(g as int, b) % (p as int),
    ensures
        a == b,
{
    if a < b {
        lemma_pow_below_order_ordered(g, q, p, a, b);
    } else if b < a {
        lemma_pow_below_order_ordered(g, q, p, b, a);
    }
}

proof fn lemma_prime_product_below(q: nat, a: nat, b: nat)
    requires
        is_prime(q),
        0 < a < q,
        0 < b < q,
    ensures
        (a * b) % q != 0,
    decreases a,
{
    if a == 1 {
        lemma_small_mod(b, q);
    } else {
        assert(!divides(a, q));
        let r = q % a;
        let t = q / a;
        lemma_fundamental_div_mod(q as int, a as int);
        lemma_prime_product_below(q, r, b);
        if (a * b) % q == 0 {
            let m = (a * b) / q;
            lemma_fundamental_div_mod((a * b) as int, q as int);
            let w = b - t * m;
            assert(r * b == w * q) by (nonlinear_arith)
                requires
                    q == a * t + r,
                    a * b == q * m,
                    w == b - t * m,
            ;
            lemma_mod_multiples_basic(w, q as int);
        }
    }
}

/// A prime divides a product only where it divides one of the factors.
pub proof fn lemma_prime_divides_product(q: nat, a: int, b: int)
    requires
        is_prime(q),
        a % (q as int) != 0,
        b % (q as int) != 0,
    ensures
        (a * b) % (q as int) != 0,
{
    let qi = q as int;
    lemma_mul_mod_noop_general(a, b, qi);
    lemma_prime_product_below(q, (a % qi) as nat, (b % qi) as nat);
}

} // verus!
