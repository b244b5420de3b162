//! Noise sampling: a seed and a one-byte nonce are expanded by SHAKE-256
//! into a byte buffer, which the centered-binomial-distribution (CBD)
//! samplers turn into a polynomial with coefficients in [-eta, eta].

use vstd::prelude::*;

use sha3::digest::{ExtendableOutput, Update, XofReader};

use crate::poly::Poly;

verus! {

/// What SHAKE-256 returns on seed || nonce, read to `len` bytes: a pure
/// function of its inputs, named rather than spelled out.
pub uninterp spec fn prf_bytes(seed: Seq<u8>, nonce: u8, len: nat) -> Seq<u8>;

/// Relies on sha3::Shake256: the extendable output stream is a deterministic
/// function of the absorbed bytes alone, and `read` fills the whole buffer.
#[verifier::external_body]
fn prf(seed: &Vec<u8>, nonce: u8, outlen: usize) -> (r: Vec<u8>)
    ensures
        r@.len() == outlen,
        r@ == prf_bytes(seed@, nonce, outlen as nat),
{
    let mut st = sha3::Shake256::default();
    st.update(seed.as_slice());
    st.update(&[nonce]);
    let mut rd = st.finalize_xof();
    let mut out = vec![0u8; outlen];
    rd.read(&mut out);
    out
}

/// Four buffer bytes loaded as a little-endian 32-bit word.
pub open spec fn load32(b: Seq<u8>, g: int) -> u32 {
    (b[4 * g] as u32) | ((b[4 * g + 1] as u32) << 8) | ((b[4 * g + 2] as u32) << 16) | ((b[4 * g
        + 3] as u32) << 24)
}

/// Three buffer bytes loaded as a little-endian 24-bit word.
pub open spec fn load24(b: Seq<u8>, g: int) -> u32 {
    (b[3 * g] as u32) | ((b[3 * g + 1] as u32) << 8) | ((b[3 * g + 2] as u32) << 16)
}

/// Bit `k` of a 32-bit word.
pub open spec fn bit32(t: u32, k: u32) -> u32 {
    (t >> k) & 1
}

/// Coefficient `i` sampled at eta = 2: the difference of two 2-bit
/// hamming weights drawn from consecutive bits of the buffer word.
pub open spec fn cbd2_coeff(b: Seq<u8>, i: int) -> int {
    let t = load32(b, i / 8);
    bit32(t, (4 * (i % 8)) as u32) + bit32(t, (4 * (i % 8) + 1) as u32) - bit32(
        t,
        (4 * (i % 8) + 2) as u32,
    ) - bit32(t, (4 * (i % 8) + 3) as u32)
}

/// Coefficient `i` sampled at eta = 3: the difference of two 3-bit
/// hamming weights.
pub open spec fn cbd3_coeff(b: Seq<u8>, i: int) -> int {
    let t = load24(b, i / 4);
    bit32(t, (6 * (i % 4)) as u32) + bit32(t, (6 * (i % 4) + 1) as u32) + bit32(
        t,
        (6 * (i % 4) + 2) as u32,
    ) - bit32(t, (6 * (i % 4) + 3) as u32) - bit32(t, (6 * (i % 4) + 4) as u32) - bit32(
        t,
        (6 * (i % 4) + 5) as u32,
    )
}

/// Fills a polynomial from a 128-byte buffer with the eta = 2 centered
/// binomial sampler: every coefficient lies in [-2, 2] and equals
/// `cbd2_coeff` of the buffer.
pub fn poly_cbd_eta2(r: &mut Poly, buf: &Vec<u8>)
    requires
        old(r).wf(),
        buf@.len() == 128,
    ensures
        final(r).wf(),
        forall|i: int| 0 <= i < 256 ==> final(r).coeffs@[i] as int == cbd2_coeff(buf@, i),
        forall|i: int| 0 <= i < 256 ==> -2 <= #[trigger] final(r).coeffs@[i] <= 2,
{
    let mut g: usize = 0;
    while g < 32
        invariant
            g <= 32,
            r.wf(),
            buf@.len() == 128,
            forall|m: int| 0 <= m < 8 * g ==> r.coeffs@[m] as int == cbd2_coeff(buf@, m) && -2
                <= #[trigger] r.coeffs@[m] <= 2,
        decreases 32 - g,
    {
        let t: u32 = (buf[4 * g] as u32) | ((buf[4 * g + 1] as u32) << 8) | ((buf[4 * g
            + 2] as u32) << 16) | ((buf[4 * g + 3] as u32) << 24);
        proof {
            assert((t & 0x55555555) <= 0x55555555 && ((t >> 1) & 0x55555555) <= 0x55555555)
                by (bit_vector);
        }
        let d: u32 = (t & 0x55555555) + ((t >> 1) & 0x55555555);
        let mut j: usize = 0;
        while j < 8
            invariant
                g < 32,
                j <= 8,
                r.wf(),
                buf@.len() == 128,
                t == load32(buf@, g as int),
                d == (t & 0x55555555) + ((t >> 1) & 0x55555555),
                forall|m: int| 0 <= m < 8 * g + j ==> r.coeffs@[m] as int == cbd2_coeff(buf@, m)
                    && -2 <= #[trigger] r.coeffs@[m] <= 2,
            decreases 8 - j,
        {
            let sh: u32 = 4 * (j as u32);
            let va: u32 = (d >> sh) & 3;
            let vb: u32 = (d >> (sh + 2)) & 3;
            proof {
                assert(va == bit32(t, sh) + bit32(t, (sh + 1) as u32) && vb == bit32(
                    t,
                    (sh + 2) as u32,
                ) + bit32(t, (sh + 3) as u32) && va <= 2 && vb <= 2) by (bit_vector)
                    requires
                        sh < 32,
                        sh % 4 == 0,
                        d == (t & 0x55555555) + ((t >> 1) & 0x55555555),
                        va == (d >> sh) & 3,
                        vb == (d >> (sh + 2)) & 3,
                ;
                assert((8 * g + j) / 8 == g && (8 * g + j) % 8 == j);
            }
            let c: i16 = (va as i16) - (vb as i16);
            r.coeffs[8 * g + j] = c;
            j += 1;
        }
        g += 1;
    }
}

/// Fills a polynomial from a 192-byte buffer with the eta = 3 centered
/// binomial sampler: every coefficient lies in [-3, 3] and equals
/// `cbd3_coeff` of the buffer.
pub fn poly_cbd_eta1(r: &mut Poly, buf: &Vec<u8>)
    requires
        old(r).wf(),
        buf@.len() == 192,
    ensures
        final(r).wf(),
        forall|i: int| 0 <= i < 256 ==> final(r).coeffs@[i] as int == cbd3_coeff(buf@, i),
        forall|i: int| 0 <= i < 256 ==> -3 <= #[trigger] final(r).coeffs@[i] <= 3,
{
    let mut g: usize = 0;
    while g < 64
        invariant
            g <= 64,
            r.wf(),
            buf@.len() == 192,
            forall|m: int| 0 <= m < 4 * g ==> r.coeffs@[m] as int == cbd3_coeff(buf@, m) && -3
                <= #[trigger] r.coeffs@[m] <= 3,
        decreases 64 - g,
    {
        let x0: u8 = buf[3 * g];
        let x1: u8 = buf[3 * g + 1];
        let x2: u8 = buf[3 * g + 2];
        let t: u32 = (x0 as u32) | ((x1 as u32) << 8) | ((x2 as u32) << 16);
        proof {
            assert((t & 0x249249) <= 0x249249 && ((t >> 1) & 0x249249) <= 0x249249 && ((t >> 2)
                & 0x249249) <= 0x249249) by (bit_vector);
            assert(t < 0x1000000) by (bit_vector)
                requires
                    t == (x0 as u32) | ((x1 as u32) << 8) | ((x2 as u32) << 16),
            ;
        }
        let d: u32 = (t & 0x249249) + ((t >> 1) & 0x249249) + ((t >> 2) & 0x249249);
        let mut j: usize = 0;
        while j < 4
            invariant
                g < 64,
                j <= 4,
                r.wf(),
                buf@.len() == 192,
                t == load24(buf@, g as int),
                t < 0x1000000,
                d == (t & 0x249249) + ((t >> 1) & 0x249249) + ((t >> 2) & 0x249249),
                forall|m: int| 0 <= m < 4 * g + j ==> r.coeffs@[m] as int == cbd3_coeff(buf@, m)
                    && -3 <= #[trigger] r.coeffs@[m] <= 3,
            decreases 4 - j,
        {
            let sh: u32 = 6 * (j as u32);
            let va: u32 = (d >> sh) & 7;
            let vb: u32 = (d >> (sh + 3)) & 7;
            proof {
                assert(va == bit32(t, sh) + bit32(t, (sh + 1) as u32) + bit32(t, (sh + 2) as u32)
                    && vb == bit32(t, (sh + 3) as u32) + bit32(t, (sh + 4) as u32) + bit32(
                    t,
                    (sh + 5) as u32,
                ) && va <= 3 && vb <= 3) by (bit_vector)
                    requires
                        sh < 24,
                        sh % 6 == 0,
                        t < 0x1000000,
                        d == (t & 0x249249) + ((t >> 1) & 0x249249) + ((t >> 2) & 0x249249),
                        va == (d >> sh) & 7,
                        vb == (d >> (sh + 3)) & 7,
                ;
                assert((4 * g + j) / 4 == g && (4 * g + j) % 4 == j);
            }
            let c: i16 = (va as i16) - (vb as i16);
            r.coeffs[4 * g + j] = c;
            j += 1;
        }
        g += 1;
    }
}

/// Derives an eta = 3 noise polynomial deterministically from a 32-byte seed
/// and a nonce: SHAKE-256(seed || nonce) supplies 192 bytes to the eta = 3
/// CBD sampler.
pub fn poly_getnoise_eta1(r: &mut Poly, seed: &Vec<u8>, nonce: u8)
    requires
        old(r).wf(),
        seed@.len() == 32,
    ensures
        final(r).wf(),
        forall|i: int| 0 <= i < 256 ==> final(r).coeffs@[i] as int == cbd3_coeff(
            prf_bytes(seed@, nonce, 192),
            i,
        ),
        forall|i: int| 0 <= i < 256 ==> -3 <= #[trigger] final(r).coeffs@[i] <= 3,
{
    let buf: Vec<u8> = prf(seed, nonce, 192);
    poly_cbd_eta1(r, &buf);
}

/// Derives an eta = 2 noise polynomial deterministically from a 32-byte seed
/// and a nonce: SHAKE-256(seed || nonce) supplies 128 bytes to the eta = 2
/// CBD sampler.
pub fn poly_getnoise_eta2(r: &mut Poly, seed: &Vec<u8>, nonce: u8)
    requires
        old(r).wf(),
        seed@.len() == 32,
    ensures
        final(r).wf(),
        forall|i: int| 0 <= i < 256 ==> final(r).coeffs@[i] as int == cbd2_coeff(
            prf_bytes(seed@, nonce, 128),
            i,
        ),
        forall|i: int| 0 <= i < 256 ==> -2 <= #[trigger] final(r).coeffs@[i] <= 2,
{
    let buf: Vec<u8> = prf(seed, nonce, 128);
    poly_cbd_eta2(r, &buf);
}

} // verus!
