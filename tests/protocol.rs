use chaum_pedersen::bignat::BigNat;
use chaum_pedersen::zkp::ZKP;

fn n(v: u32) -> BigNat {
    BigNat::from_u32(v)
}

fn toy_group() -> ZKP {
    ZKP { p: n(23), q: n(11), alpha: n(4), beta: n(9) }
}

#[test]
fn test_example() {
    let alpha = n(4);
    let beta = n(9);
    let p = n(23);
    let q = n(11);

    let zkp = ZKP { p: p.clone(), q, alpha: alpha.clone(), beta: beta.clone() };

    let x = n(6);
    let k = n(7);

    let c = n(4);

    let y1 = ZKP::exponetiate(&alpha, &x, &p);
    let y2 = ZKP::exponetiate(&beta, &x, &p);
    assert_eq!(y1, n(2));
    assert_eq!(y2, n(3));

    let r1 = ZKP::exponetiate(&alpha, &k, &p);
    let r2 = ZKP::exponetiate(&beta, &k, &p);
    assert_eq!(r1, n(8));
    assert_eq!(r2, n(4));

    let s = zkp.solve(&k, &c, &x);
    assert_eq!(s, n(5));

    let result = zkp.verify(&r1, &r2, &y1, &y2, &s, &c);
    assert!(result);

    // A response made with another secret.
    let x_fake = n(7);
    let s_fake = zkp.solve(&k, &c, &x_fake);

    let result = zkp.verify(&r1, &r2, &y1, &y2, &s_fake, &c);
    assert!(!result);
}

#[test]
fn test_example_with_random_numbers() {
    let alpha = n(4);
    let beta = n(9);
    let p = n(23);
    let q = n(11);

    let zkp = ZKP { p: p.clone(), q: q.clone(), alpha: alpha.clone(), beta: beta.clone() };

    let x = n(6);
    let k = ZKP::generate_random_below(&q);

    let c = ZKP::generate_random_below(&q);

    let y1 = ZKP::exponetiate(&alpha, &x, &p);
    let y2 = ZKP::exponetiate(&beta, &x, &p);
    assert_eq!(y1, n(2));
    assert_eq!(y2, n(3));

    let r1 = ZKP::exponetiate(&alpha, &k, &p);
    let r2 = ZKP::exponetiate(&beta, &k, &p);

    let s = zkp.solve(&k, &c, &x);

    let result = zkp.verify(&r1, &r2, &y1, &y2, &s, &c);
    assert!(result);
}

fn from_hex(s: &str) -> BigNat {
    BigNat::from_bytes_be(&hex::decode(s).unwrap())
}

#[test]
fn test_1024_bits_constant() {
    // The 1024-bit MODP group with a 160-bit prime-order subgroup of RFC 5114.
    let p = from_hex("B10B8F96A080E01DDE92DE5EAE5D54EC52C99FBCFB06A3C69A6A9DCA52D23B616073E28675A23D189838EF1E2EE652C013ECB4AEA906112324975C3CD49B83BFACCBDD7D90C4BD7098488E9C219A73724EFFD6FAE5644738FAA31A4FF55BCCC0A151AF5F0DC8B4BD45BF37DF365C1A65E68CFDA76D4DA708DF1FB2BC2E4A4371");
    let q = from_hex("F518AA8781A8DF278ABA4E7D64B7CB9D49462353");

    let alpha = from_hex("A4D1CBD5C3FD34126765A442EFB99905F8104DD258AC507FD6406CFF14266D31266FEA1E5C41564B777E690F5504F213160217B4B01B886A5E91547F9E2749F4D7FBD7D3B9A92EE1909D0D2263F80A76A6A24C087A091F531DBF0A0169B6A28AD662A4D18E73AFA32D779D5918D08BC8858F4DCEF97C2A24855E6EEB22B3B2E5");

    // beta = alpha^i is also a generator
    let beta = ZKP::exponetiate(&alpha, &ZKP::generate_random_below(&q), &p);

    let zkp = ZKP { p: p.clone(), q: q.clone(), alpha: alpha.clone(), beta: beta.clone() };

    let x = ZKP::generate_random_below(&q);
    let k = ZKP::generate_random_below(&q);

    let c = ZKP::generate_random_below(&q);

    let y1 = ZKP::exponetiate(&alpha, &x, &p);
    let y2 = ZKP::exponetiate(&beta, &x, &p);

    let r1 = ZKP::exponetiate(&alpha, &k, &p);
    let r2 = ZKP::exponetiate(&beta, &k, &p);

    let s = zkp.solve(&k, &c, &x);

    let result = zkp.verify(&r1, &r2, &y1, &y2, &s, &c);
    assert!(result);
}

#[test]
fn response_is_always_below_q() {
    let zkp = toy_group();
    let q = n(11);
    for k in 0..30u32 {
        for c in 0..15u32 {
            for x in [0u32, 1, 6, 10, 11, 12, 50] {
                let s = zkp.solve(&n(k), &n(c), &n(x));
                let expected = (k as i64 - (c as i64) * (x as i64)).rem_euclid(11) as u32;
                assert_eq!(s, n(expected));
                assert!(ZKP::generate_random_below(&q) != q);
            }
        }
    }
}

#[test]
fn response_with_zero_remainder_is_zero() {
    let zkp = toy_group();
    // k - c * x = 1 - 12 = -11, a multiple of q: the response is 0, not q.
    let s = zkp.solve(&n(1), &n(1), &n(12));
    assert_eq!(s, n(0));
    assert!(s != n(11));
    // k - c * x = 22 - 0: a non-negative multiple of q.
    assert_eq!(zkp.solve(&n(22), &n(0), &n(5)), n(0));
}

#[test]
fn response_on_multi_digit_numbers() {
    let zkp = ZKP { p: n(2000007), q: n(1000003), alpha: n(2), beta: n(3) };
    // 2^64 + 5 and 2^40 + 3.
    let a = from_hex("010000000000000005");
    let b = from_hex("010000000003");
    assert_eq!(zkp.solve(&a, &b, &b), n(820894));
    assert_eq!(zkp.solve(&a, &n(1), &b), n(21437));
}

#[test]
fn exponentiate_with_zero_exponent_is_one() {
    for base in [0u32, 1, 2, 22, 23, 1000] {
        for p in [2u32, 3, 23, 1000003] {
            assert_eq!(ZKP::exponetiate(&n(base), &n(0), &n(p)), n(1));
        }
    }
}

#[test]
fn exponentiate_is_below_modulus() {
    for base in [0u32, 1, 5, 22, 23, 24, 4000000000] {
        for e in [1u32, 2, 7, 100] {
            for p in [2u32, 23, 1000] {
                let r = ZKP::exponetiate(&n(base), &n(e), &n(p));
                let mut expected: u64 = 1;
                for _ in 0..e {
                    expected = expected * (base as u64 % p as u64) % p as u64;
                }
                assert_eq!(r, n(expected as u32));
            }
        }
    }
}

#[test]
fn exponentiate_exact_values() {
    assert_eq!(ZKP::exponetiate(&n(3), &n(200), &n(1000003)), n(333986));
    // 2^100 modulo the Mersenne prime 2^89 - 1 is 2^11.
    let m89 = from_hex("01ffffffffffffffffffffff");
    assert_eq!(ZKP::exponetiate(&n(2), &n(100), &m89), n(2048));
}

#[test]
fn randomized_honest_proofs_verify_and_changed_ones_do_not() {
    let zkp = toy_group();
    let (p, q) = (n(23), n(11));
    let x = n(6);
    let y1 = ZKP::exponetiate(&zkp.alpha, &x, &p);
    let y2 = ZKP::exponetiate(&zkp.beta, &x, &p);
    for _ in 0..200 {
        let k = ZKP::generate_random_below(&q);
        let c = ZKP::generate_random_below(&q);
        let r1 = ZKP::exponetiate(&zkp.alpha, &k, &p);
        let r2 = ZKP::exponetiate(&zkp.beta, &k, &p);
        let s = zkp.solve(&k, &c, &x);
        assert!(zkp.verify(&r1, &r2, &y1, &y2, &s, &c));

        // Any other response below q is rejected.
        for other in 0..11u32 {
            let other = n(other);
            if other != s {
                assert!(!zkp.verify(&r1, &r2, &y1, &y2, &other, &c));
            }
        }
        // Any other challenge below q is rejected.
        for other in 0..11u32 {
            let other = n(other);
            if other != c {
                assert!(!zkp.verify(&r1, &r2, &y1, &y2, &s, &other));
            }
        }
    }
}

#[test]
fn random_numbers_stay_below_the_bound() {
    for _ in 0..100 {
        assert_eq!(ZKP::generate_random_below(&n(1)), n(0));
        let r = ZKP::generate_random_below(&n(3));
        assert!(r == n(0) || r == n(1) || r == n(2));
    }
    let big = from_hex("F518AA8781A8DF278ABA4E7D64B7CB9D49462353");
    for _ in 0..20 {
        let r = ZKP::generate_random_below(&big);
        assert!(r != big);
    }
}

#[test]
fn numbers_from_bytes() {
    assert_eq!(BigNat::from_bytes_be(&[]), n(0));
    assert_eq!(BigNat::from_bytes_be(&[1, 0]), n(256));
    assert_eq!(BigNat::from_bytes_be(&[0, 0, 1, 2]), n(258));
    assert_eq!(BigNat::from_bytes_be(&[0xff, 0xff, 0xff, 0xff]), n(u32::MAX));
    assert!(BigNat::from_bytes_be(&[1, 0, 0, 0, 0]) != n(0));
}

#[test]
fn standard_group_runs_a_full_exchange() {
    let q = from_hex("F518AA8781A8DF278ABA4E7D64B7CB9D49462353");
    let i = ZKP::generate_random_below(&q);
    let zkp = ZKP::rfc5114_1024_160(&i);
    assert!(zkp.p == from_hex("B10B8F96A080E01DDE92DE5EAE5D54EC52C99FBCFB06A3C69A6A9DCA52D23B616073E28675A23D189838EF1E2EE652C013ECB4AEA906112324975C3CD49B83BFACCBDD7D90C4BD7098488E9C219A73724EFFD6FAE5644738FAA31A4FF55BCCC0A151AF5F0DC8B4BD45BF37DF365C1A65E68CFDA76D4DA708DF1FB2BC2E4A4371"));
    assert!(zkp.q == q);
    assert!(zkp.alpha == from_hex("A4D1CBD5C3FD34126765A442EFB99905F8104DD258AC507FD6406CFF14266D31266FEA1E5C41564B777E690F5504F213160217B4B01B886A5E91547F9E2749F4D7FBD7D3B9A92EE1909D0D2263F80A76A6A24C087A091F531DBF0A0169B6A28AD662A4D18E73AFA32D779D5918D08BC8858F4DCEF97C2A24855E6EEB22B3B2E5"));
    assert!(zkp.beta == ZKP::exponetiate(&zkp.alpha, &i, &zkp.p));

    // The generator has order q: alpha^q = 1 modulo p.
    assert_eq!(ZKP::exponetiate(&zkp.alpha, &zkp.q, &zkp.p), n(1));

    let x = ZKP::generate_random_below(&zkp.q);
    let k = ZKP::generate_random_below(&zkp.q);
    let c = ZKP::generate_random_below(&zkp.q);
    let y1 = ZKP::exponetiate(&zkp.alpha, &x, &zkp.p);
    let y2 = ZKP::exponetiate(&zkp.beta, &x, &zkp.p);
    let r1 = ZKP::exponetiate(&zkp.alpha, &k, &zkp.p);
    let r2 = ZKP::exponetiate(&zkp.beta, &k, &zkp.p);
    let s = zkp.solve(&k, &c, &x);
    assert!(zkp.verify(&r1, &r2, &y1, &y2, &s, &c));
}
