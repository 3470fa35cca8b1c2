//! The 1024-bit group with a 160-bit prime-order subgroup of RFC 5114,
//! section 2.1, as a ready parameter set.
use crate::bignat::{be_bytes_value, BigNat};
use crate::zkp::{power_mod, ZKP};
use vstd::prelude::*;

verus! {

/// The 1024-bit prime modulus `p`, big-endian.
pub open spec fn standard_modulus() -> Seq<u8> {
    seq![
        0xb1, 0x0b, 0x8f, 0x96, 0xa0, 0x80, 0xe0, 0x1d, 0xde, 0x92, 0xde, 0x5e,
        0xae, 0x5d, 0x54, 0xec, 0x52, 0xc9, 0x9f, 0xbc, 0xfb, 0x06, 0xa3, 0xc6,
        0x9a, 0x6a, 0x9d, 0xca, 0x52, 0xd2, 0x3b, 0x61, 0x60, 0x73, 0xe2, 0x86,
        0x75, 0xa2, 0x3d, 0x18, 0x98, 0x38, 0xef, 0x1e, 0x2e, 0xe6, 0x52, 0xc0,
        0x13, 0xec, 0xb4, 0xae, 0xa9, 0x06, 0x11, 0x23, 0x24, 0x97, 0x5c, 0x3c,
        0xd4, 0x9b, 0x83, 0xbf, 0xac, 0xcb, 0xdd, 0x7d, 0x90, 0xc4, 0xbd, 0x70,
        0x98, 0x48, 0x8e, 0x9c, 0x21, 0x9a, 0x73, 0x72, 0x4e, 0xff, 0xd6, 0xfa,
        0xe5, 0x64, 0x47, 0x38, 0xfa, 0xa3, 0x1a, 0x4f, 0xf5, 0x5b, 0xcc, 0xc0,
        0xa1, 0x51, 0xaf, 0x5f, 0x0d, 0xc8, 0xb4, 0xbd, 0x45, 0xbf, 0x37, 0xdf,
        0x36, 0x5c, 0x1a, 0x65, 0xe6, 0x8c, 0xfd, 0xa7, 0x6d, 0x4d, 0xa7, 0x08,
        0xdf, 0x1f, 0xb2, 0xbc, 0x2e, 0x4a, 0x43, 0x71,
    ]
}

fn standard_modulus_bytes() -> (r: Vec<u8>)
    ensures
        r@ == standard_modulus(),
{
    let r: Vec<u8> = vec![
        0xb1, 0x0b, 0x8f, 0x96, 0xa0, 0x80, 0xe0, 0x1d, 0xde, 0x92, 0xde, 0x5e,
        0xae, 0x5d, 0x54, 0xec, 0x52, 0xc9, 0x9f, 0xbc, 0xfb, 0x06, 0xa3, 0xc6,
        0x9a, 0x6a, 0x9d, 0xca, 0x52, 0xd2, 0x3b, 0x61, 0x60, 0x73, 0xe2, 0x86,
        0x75, 0xa2, 0x3d, 0x18, 0x98, 0x38, 0xef, 0x1e, 0x2e, 0xe6, 0x52, 0xc0,
        0x13, 0xec, 0xb4, 0xae, 0xa9, 0x06, 0x11, 0x23, 0x24, 0x97, 0x5c, 0x3c,
        0xd4, 0x9b, 0x83, 0xbf, 0xac, 0xcb, 0xdd, 0x7d, 0x90, 0xc4, 0xbd, 0x70,
        0x98, 0x48, 0x8e, 0x9c, 0x21, 0x9a, 0x73, 0x72, 0x4e, 0xff, 0xd6, 0xfa,
        0xe5, 0x64, 0x47, 0x38, 0xfa, 0xa3, 0x1a, 0x4f, 0xf5, 0x5b, 0xcc, 0xc0,
        0xa1, 0x51, 0xaf, 0x5f, 0x0d, 0xc8, 0xb4, 0xbd, 0x45, 0xbf, 0x37, 0xdf,
        0x36, 0x5c, 0x1a, 0x65, 0xe6, 0x8c, 0xfd, 0xa7, 0x6d, 0x4d, 0xa7, 0x08,
        0xdf, 0x1f, 0xb2, 0xbc, 0x2e, 0x4a, 0x43, 0x71,
    ];
    assert(r@ =~= standard_modulus());
    r
}

/// The 160-bit prime order `q` of the subgroup, big-endian.
pub open spec fn standard_order() -> Seq<u8> {
    seq![
        0xf5, 0x18, 0xaa, 0x87, 0x81, 0xa8, 0xdf, 0x27, 0x8a, 0xba, 0x4e, 0x7d,
        0x64, 0xb7, 0xcb, 0x9d, 0x49, 0x46, 0x23, 0x53,
    ]
}

fn standard_order_bytes() -> (r: Vec<u8>)
    ensures
        r@ == standard_order(),
{
    let r: Vec<u8> = vec![
        0xf5, 0x18, 0xaa, 0x87, 0x81, 0xa8, 0xdf, 0x27, 0x8a, 0xba, 0x4e, 0x7d,
        0x64, 0xb7, 0xcb, 0x9d, 0x49, 0x46, 0x23, 0x53,
    ];
    assert(r@ =~= standard_order());
    r
}

/// The generator `g` of the subgroup of order `q`, big-endian.
pub open spec fn standard_generator() -> Seq<u8> {
    seq![
        0xa4, 0xd1, 0xcb, 0xd5, 0xc3, 0xfd, 0x34, 0x12, 0x67, 0x65, 0xa4, 0x42,
        0xef, 0xb9, 0x99, 0x05, 0xf8, 0x10, 0x4d, 0xd2, 0x58, 0xac, 0x50, 0x7f,
        0xd6, 0x40, 0x6c, 0xff, 0x14, 0x26, 0x6d, 0x31, 0x26, 0x6f, 0xea, 0x1e,
        0x5c, 0x41, 0x56, 0x4b, 0x77, 0x7e, 0x69, 0x0f, 0x55, 0x04, 0xf2, 0x13,
        0x16, 0x02, 0x17, 0xb4, 0xb0, 0x1b, 0x88, 0x6a, 0x5e, 0x91, 0x54, 0x7f,
        0x9e, 0x27, 0x49, 0xf4, 0xd7, 0xfb, 0xd7, 0xd3, 0xb9, 0xa9, 0x2e, 0xe1,
        0x90, 0x9d, 0x0d, 0x22, 0x63, 0xf8, 0x0a, 0x76, 0xa6, 0xa2, 0x4c, 0x08,
        0x7a, 0x09, 0x1f, 0x53, 0x1d, 0xbf, 0x0a, 0x01, 0x69, 0xb6, 0xa2, 0x8a,
        0xd6, 0x62, 0xa4, 0xd1, 0x8e, 0x73, 0xaf, 0xa3, 0x2d, 0x77, 0x9d, 0x59,
        0x18, 0xd0, 0x8b, 0xc8, 0x85, 0x8f, 0x4d, 0xce, 0xf9, 0x7c, 0x2a, 0x24,
        0x85, 0x5e, 0x6e, 0xeb, 0x22, 0xb3, 0xb2, 0xe5,
    ]
}

fn standard_generator_bytes() -> (r: Vec<u8>)
    ensures
        r@ == standard_generator(),
{
    let r: Vec<u8> = vec![
        0xa4, 0xd1, 0xcb, 0xd5, 0xc3, 0xfd, 0x34, 0x12, 0x67, 0x65, 0xa4, 0x42,
        0xef, 0xb9, 0x99, 0x05, 0xf8, 0x10, 0x4d, 0xd2, 0x58, 0xac, 0x50, 0x7f,
        0xd6, 0x40, 0x6c, 0xff, 0x14, 0x26, 0x6d, 0x31, 0x26, 0x6f, 0xea, 0x1e,
        0x5c, 0x41, 0x56, 0x4b, 0x77, 0x7e, 0x69, 0x0f, 0x55, 0x04, 0xf2, 0x13,
        0x16, 0x02, 0x17, 0xb4, 0xb0, 0x1b, 0x88, 0x6a, 0x5e, 0x91, 0x54, 0x7f,
        0x9e, 0x27, 0x49, 0xf4, 0xd7, 0xfb, 0xd7, 0xd3, 0xb9, 0xa9, 0x2e, 0xe1,
        0x90, 0x9d, 0x0d, 0x22, 0x63, 0xf8, 0x0a, 0x76, 0xa6, 0xa2, 0x4c, 0x08,
        0x7a, 0x09, 0x1f, 0x53, 0x1d, 0xbf, 0x0a, 0x01, 0x69, 0xb6, 0xa2, 0x8a,
        0xd6, 0x62, 0xa4, 0xd1, 0x8e, 0x73, 0xaf, 0xa3, 0x2d, 0x77, 0x9d, 0x59,
        0x18, 0xd0, 0x8b, 0xc8, 0x85, 0x8f, 0x4d, 0xce, 0xf9, 0x7c, 0x2a, 0x24,
        0x85, 0x5e, 0x6e, 0xeb, 0x22, 0xb3, 0xb2, 0xe5,
    ];
    assert(r@ =~= standard_generator());
    r
}

/// A number of two or more big-endian bytes whose first byte is not zero is at
/// least 256.
proof fn lemma_leading_byte_bound(b: Seq<u8>)
    requires
        b.len() >= 1,
        b[0] > 0,
    ensures
        be_bytes_value(b) >= 1,
        b.len() >= 2 ==> be_bytes_value(b) >= 256,
    decreases b.len(),
{
    if b.len() == 1 {
        assert(b.drop_last().len() == 0);
    } else {
        let t = b.drop_last();
        assert(t[0] == b[0]);
        lemma_leading_byte_bound(t);
    }
}

impl ZKP {
    /// The 1024-bit group of RFC 5114 with its 160-bit subgroup: `alpha` is the
    /// group's generator and `beta = alpha^i mod p`.
    pub fn rfc5114_1024_160(i: &BigNat) -> (z: ZKP)
        ensures
            z.p@ == be_bytes_value(standard_modulus()),
            z.q@ == be_bytes_value(standard_order()),
            z.alpha@ == be_bytes_value(standard_generator()),
            z.beta@ == power_mod(z.alpha@, i@, z.p@),
    {
        let p = BigNat::from_bytes_be(standard_modulus_bytes().as_slice());
        let q = BigNat::from_bytes_be(standard_order_bytes().as_slice());
        let alpha = BigNat::from_bytes_be(standard_generator_bytes().as_slice());
        proof {
            lemma_leading_byte_bound(standard_modulus());
        }
        let beta = ZKP::exponetiate(&alpha, i, &p);
        ZKP { p, q, alpha, beta }
    }
}

} // verus!
