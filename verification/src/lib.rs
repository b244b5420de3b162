//! Polynomial-ring arithmetic for a Kyber-style (ML-KEM) key-encapsulation
//! mechanism: elements of Z_q[X]/(X^n + 1) with n = 256 and q = 3329, their
//! serialization and lossy compression codecs, message encoding, noise
//! sampling, and the number-theoretic-transform (NTT) domain operations.

use vstd::prelude::*;

pub mod codec;
pub mod compress;
pub mod msg;
pub mod noise;
pub mod ntt;
pub mod params;
pub mod poly;
pub mod reduce;

verus! {

} // verus!
