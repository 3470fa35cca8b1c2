//! The Chaum-Pedersen proof of equality of discrete logarithms over a
//! prime-order subgroup, on arbitrary-precision natural numbers.
pub mod bignat;
pub mod modular;
pub mod rfc5114;
pub mod zkp;
