//! Scheme parameters: ring degree, modulus, noise widths and byte layouts.

use vstd::prelude::*;

verus! {

/// Ring degree n: number of coefficients in a polynomial.
pub const KYBER_N: usize = 256;

/// Prime modulus q of the coefficient field.
pub const KYBER_Q: u16 = 3329;

/// Noise width for the first centered-binomial sampler.
pub const KYBER_ETA1: usize = 3;

/// Noise width for the second centered-binomial sampler.
pub const KYBER_ETA2: usize = 2;

/// Bytes in a serialized polynomial: 12 bits per coefficient.
pub const KYBER_POLY_BYTES: usize = 384;

/// Bytes in a seed for the noise sampler.
pub const KYBER_SYM_BYTES: usize = 32;

/// Bytes in an encoded message: one bit per coefficient.
pub const KYBER_MSG_BYTES: usize = 32;

/// Compressed size giving 4 bits per coefficient.
pub const COMPRESSED_BYTES_D4: usize = 128;

/// Compressed size giving 5 bits per coefficient.
pub const COMPRESSED_BYTES_D5: usize = 160;

} // verus!
