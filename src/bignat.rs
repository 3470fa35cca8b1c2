//! Arbitrary-precision natural numbers, held as base-2^32 digits, least
//! significant digit first. The arithmetic itself is done by `num-bigint`.
use num_bigint::BigUint;
use vstd::arithmetic::power::pow;
use vstd::prelude::*;

verus! {

/// The value of a sequence of base-2^32 digits, least significant first.
pub open spec fn digits_value(d: Seq<u32>) -> nat
    decreases d.len(),
{
    if d.len() == 0 {
        0
    } else {
        d[0] as nat + 0x1_0000_0000 * digits_value(d.drop_first())
    }
}

/// The value of a sequence of bytes, most significant first.
pub open spec fn be_bytes_value(b: Seq<u8>) -> nat
    decreases b.len(),
{
    if b.len() == 0 {
        0
    } else {
        be_bytes_value(b.drop_last()) * 256 + b.last() as nat
    }
}

/// A natural number of any size.
#[derive(Clone, Debug)]
pub struct BigNat {
    digits: Vec<u32>,
}

impl View for BigNat {
    type V = nat;

    closed spec fn view(&self) -> nat {
        digits_value(self.digits@)
    }
}

impl BigNat {
    /// The number `v`.
    pub fn from_u32(v: u32) -> (r: BigNat)
        ensures
            r@ == v as nat,
    {
        let r = BigNat { digits: vec![v] };
        proof {
            reveal_with_fuel(digits_value, 2);
        }
        r
    }

    /// The number whose big-endian bytes are `bytes`; no bytes stand for zero.
    pub fn from_bytes_be(bytes: &[u8]) -> (r: BigNat)
        ensures
            r@ == be_bytes_value(bytes@),
    {
        big_from_bytes_be(bytes)
    }
}

/// Relies on `BigUint::from_bytes_be`, which reads big-endian bytes, and on
/// `BigUint::to_u32_digits`, which gives base-2^32 digits, least significant first.
#[verifier::external_body]
fn big_from_bytes_be(bytes: &[u8]) -> (r: BigNat)
    ensures
        r@ == be_bytes_value(bytes@),
{
    BigNat { digits: BigUint::from_bytes_be(bytes).to_u32_digits() }
}

/// Relies on `BigUint::modpow`: `(b ^ e) % m`. It panics on a zero modulus,
/// and is only asked here for moduli above one. Digits go in through
/// `BigUint::new` and come out through `BigUint::to_u32_digits`.
#[verifier::external_body]
pub(crate) fn big_modpow(b: &BigNat, e: &BigNat, m: &BigNat) -> (r: BigNat)
    requires
        m@ > 1,
    ensures
        r@ == pow(b@ as int, e@) % (m@ as int),
{
    let m = BigUint::new(m.digits.clone());
    let r = BigUint::new(b.digits.clone()).modpow(&BigUint::new(e.digits.clone()), &m);
    BigNat { digits: r.to_u32_digits() }
}

/// Relies on `Mul` for `&BigUint`: the exact product.
#[verifier::external_body]
pub(crate) fn big_mul(a: &BigNat, b: &BigNat) -> (r: BigNat)
    ensures
        r@ == a@ * b@,
{
    let r = &BigUint::new(a.digits.clone()) * &BigUint::new(b.digits.clone());
    BigNat { digits: r.to_u32_digits() }
}

/// Relies on `Sub` for `&BigUint`: the exact difference; it panics when `b`
/// is larger than `a`.
#[verifier::external_body]
pub(crate) fn big_sub(a: &BigNat, b: &BigNat) -> (r: BigNat)
    requires
        a@ >= b@,
    ensures
        r@ == a@ - b@,
{
    let r = &BigUint::new(a.digits.clone()) - &BigUint::new(b.digits.clone());
    BigNat { digits: r.to_u32_digits() }
}

/// Relies on `PartialOrd` for `BigUint`: `>=` compares the values.
#[verifier::external_body]
pub(crate) fn big_ge(a: &BigNat, b: &BigNat) -> (r: bool)
    ensures
        r == (a@ >= b@),
{
    BigUint::new(a.digits.clone()) >= BigUint::new(b.digits.clone())
}

/// Relies on `PartialEq` for `BigUint`: `==` compares the values.
#[verifier::external_body]
pub(crate) fn big_eq(a: &BigNat, b: &BigNat) -> (r: bool)
    ensures
        r == (a@ == b@),
{
    BigUint::new(a.digits.clone()) == BigUint::new(b.digits.clone())
}

/// Relies on `RandBigInt::gen_biguint_below` over `rand::thread_rng()`: a
/// number below the bound, drawn by rejection; it panics on a zero bound.
#[verifier::external_body]
pub(crate) fn big_random_below(bound: &BigNat) -> (r: BigNat)
    requires
        bound@ > 0,
    ensures
        r@ < bound@,
{
    let bound = BigUint::new(bound.digits.clone());
    let r = num_bigint::RandBigInt::gen_biguint_below(&mut rand::thread_rng(), &bound);
    BigNat { digits: r.to_u32_digits() }
}

impl PartialEq for BigNat {
    fn eq(&self, other: &BigNat) -> (r: bool) {
        big_eq(self, other)
    }
}

impl vstd::std_specs::cmp::PartialEqSpecImpl for BigNat {
    open spec fn obeys_eq_spec() -> bool {
        true
    }

    open spec fn eq_spec(&self, other: &BigNat) -> bool {
        self@ == other@
    }
}

} // verus!
