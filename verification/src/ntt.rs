//! Number-theoretic-transform domain: the table of twiddle factors (powers
//! of the primitive 256th root of unity 17 in Montgomery form, in bit-reversed
//! order), the in-place forward and inverse negacyclic transforms, and the
//! twisted pointwise base multiplication of two NTT-representation
//! polynomials.

use vstd::prelude::*;

use crate::poly::{poly_reduce, Poly};
use crate::reduce::{barrett_reduce, congq, fqmul, lemma_congq_add, lemma_congq_scale,
    lemma_congq_trans};

verus! {

/// e-th power of the primitive root 17, reduced modulo q at every step.
pub open spec fn pow17(e: nat) -> nat
    decreases e,
{
    if e == 0 {
        1nat
    } else {
        ((17 * pow17((e - 1) as nat)) % 3329) as nat
    }
}

/// The 7-bit reversal of an index in [0, 128).
pub open spec fn brv7(k: int) -> int {
    (k % 2) * 64 + ((k / 2) % 2) * 32 + ((k / 4) % 2) * 16 + ((k / 8) % 2) * 8 + ((k / 16) % 2) * 4
        + ((k / 32) % 2) * 2 + (k / 64) % 2
}

/// Twiddle factor k: 17^brv7(k) lifted to Montgomery form (times 2^16),
/// as its canonical residue modulo q.
pub open spec fn zeta_spec(k: int) -> int {
    (pow17(brv7(k) as nat) as int * 65536) % 3329
}

/// The 7-bit reversal, computed by masking and recombining the bits.
fn bitrev7(k: u32) -> (e: u32)
    requires
        k < 128,
    ensures
        e as int == brv7(k as int),
        e < 128,
{
    let e: u32 = ((k & 1) << 6) | ((k & 2) << 4) | ((k & 4) << 2) | (k & 8) | ((k & 16) >> 2) | ((k
        & 32) >> 4) | ((k & 64) >> 6);
    proof {
        assert(e == (k % 2) * 64 + ((k / 2) % 2) * 32 + ((k / 4) % 2) * 16 + ((k / 8) % 2) * 8 + ((k
            / 16) % 2) * 4 + ((k / 32) % 2) * 2 + (k / 64) % 2 && e < 128) by (bit_vector)
            requires
                k < 128,
                e == ((k & 1) << 6) | ((k & 2) << 4) | ((k & 4) << 2) | (k & 8) | ((k & 16) >> 2)
                    | ((k & 32) >> 4) | ((k & 64) >> 6),
        ;
    }
    e
}

/// 17^e times 2^16 modulo q, by repeated modular multiplication.
fn pow17_mont(e: u32) -> (z: u16)
    requires
        e < 128,
    ensures
        z as int == (pow17(e as nat) * 65536) % 3329,
        z < 3329,
{
    let mut acc: u32 = 1;
    let mut t: u32 = 0;
    while t < e
        invariant
            t <= e,
            acc < 3329,
            acc as int == pow17(t as nat),
        decreases e - t,
    {
        acc = (acc * 17) % 3329;
        t = t + 1;
    }
    ((acc * 65536) % 3329) as u16
}

/// The full table of 128 twiddle factors, in canonical form.
pub fn zetas() -> (z: Vec<i16>)
    ensures
        z@.len() == 128,
        forall|k: int| 0 <= k < 128 ==> 0 <= #[trigger] z@[k] < 3329 && z@[k] as int == zeta_spec(
            k,
        ),
{
    let mut z: Vec<i16> = Vec::new();
    let mut k: usize = 0;
    while k < 128
        invariant
            k <= 128,
            z@.len() == k,
            forall|m: int| 0 <= m < k ==> 0 <= #[trigger] z@[m] < 3329 && z@[m] as int == zeta_spec(
                m,
            ),
        decreases 128 - k,
    {
        let e: u32 = bitrev7(k as u32);
        let v: u16 = pow17_mont(e);
        z.push(v as i16);
        k += 1;
    }
    z
}

/// The product of two values within the given magnitude bounds stays within
/// the Montgomery reduction's input range.
proof fn lemma_mul_in_range(a: int, b: int, am: int, bm: int)
    by (nonlinear_arith)
    requires
        -am <= a <= am,
        -bm <= b <= bm,
        0 <= am,
        0 <= bm,
        am * bm < 3329 * 32768,
    ensures
        -(3329 * 32768) < a * b,
        a * b < 3329 * 32768,
{
}

/// The contract of one twisted base-multiplication block on the pair
/// (a0 + a1 X)(b0 + b1 X) modulo X^2 - zeta, stated as congruences modulo q
/// with the Montgomery scale factors made explicit.
pub open spec fn basemul_ok(r: Seq<i16>, a: Seq<i16>, b: Seq<i16>, i: int) -> bool {
    let z = zeta_spec(64 + i);
    congq(
        r[4 * i] as int * 4294967296,
        a[4 * i + 1] as int * b[4 * i + 1] as int * z + a[4 * i] as int * b[4 * i] as int * 65536,
    ) && congq(
        r[4 * i + 1] as int * 65536,
        a[4 * i] as int * b[4 * i + 1] as int + a[4 * i + 1] as int * b[4 * i] as int,
    ) && congq(
        r[4 * i + 2] as int * 4294967296,
        a[4 * i + 3] as int * b[4 * i + 3] as int * (-z) + a[4 * i + 2] as int * b[4 * i
            + 2] as int * 65536,
    ) && congq(
        r[4 * i + 3] as int * 65536,
        a[4 * i + 2] as int * b[4 * i + 3] as int + a[4 * i + 3] as int * b[4 * i + 2] as int,
    )
}

/// One degree-1 multiplication modulo X^2 - zeta: r0 + r1 X =
/// (a0 + a1 X)(b0 + b1 X), with each product folded by Montgomery reduction.
fn basemul_pair(a0: i16, a1: i16, b0: i16, b1: i16, zeta: i16) -> (r: (i16, i16))
    requires
        -4096 < a0 < 4096,
        -4096 < a1 < 4096,
        -4096 < b0 < 4096,
        -4096 < b1 < 4096,
        -3329 < zeta < 3329,
    ensures
        -6658 < r.0 < 6658,
        -6658 < r.1 < 6658,
        congq(
            r.0 as int * 4294967296,
            a1 as int * b1 as int * (zeta as int) + a0 as int * b0 as int * 65536,
        ),
        congq(r.1 as int * 65536, a0 as int * b1 as int + a1 as int * b0 as int),
{
    proof {
        lemma_mul_in_range(a1 as int, b1 as int, 4095, 4095);
        lemma_mul_in_range(a0 as int, b0 as int, 4095, 4095);
        lemma_mul_in_range(a0 as int, b1 as int, 4095, 4095);
        lemma_mul_in_range(a1 as int, b0 as int, 4095, 4095);
    }
    let m1: i16 = fqmul(a1, b1);
    proof {
        lemma_mul_in_range(m1 as int, zeta as int, 3328, 3328);
    }
    let m2: i16 = fqmul(m1, zeta);
    let m3: i16 = fqmul(a0, b0);
    let n1: i16 = fqmul(a0, b1);
    let n2: i16 = fqmul(a1, b0);
    let r0: i16 = m2 + m3;
    let r1: i16 = n1 + n2;
    proof {
        let ai0 = a0 as int;
        let ai1 = a1 as int;
        let bi0 = b0 as int;
        let bi1 = b1 as int;
        let zi = zeta as int;
        // m2 * 2^32 is congruent to m1 * zeta * 2^16, which is congruent to
        // a1 * b1 * zeta.
        lemma_congq_scale(m2 as int * 65536, m1 as int * zi, 65536);
        assert(m2 as int * 65536 * 65536 == m2 as int * 4294967296) by (nonlinear_arith);
        lemma_congq_scale(m1 as int * 65536, ai1 * bi1, zi);
        assert(m1 as int * 65536 * zi == m1 as int * zi * 65536) by (nonlinear_arith);
        lemma_congq_trans(m2 as int * 4294967296, m1 as int * zi * 65536, ai1 * bi1 * zi);
        // m3 * 2^32 is congruent to a0 * b0 * 2^16.
        lemma_congq_scale(m3 as int * 65536, ai0 * bi0, 65536);
        assert(m3 as int * 65536 * 65536 == m3 as int * 4294967296) by (nonlinear_arith);
        // Sum the two halves.
        lemma_congq_add(
            m2 as int * 4294967296,
            ai1 * bi1 * zi,
            m3 as int * 4294967296,
            ai0 * bi0 * 65536,
        );
        assert(m2 as int * 4294967296 + m3 as int * 4294967296 == (m2 + m3) as int * 4294967296)
            by (nonlinear_arith)
            requires
                r0 == m2 + m3,
                -6658 < m2 + m3 < 6658,
        ;
        // The odd coefficient: n1 * 2^16 + n2 * 2^16 == r1 * 2^16.
        lemma_congq_add(n1 as int * 65536, ai0 * bi1, n2 as int * 65536, ai1 * bi0);
        assert(n1 as int * 65536 + n2 as int * 65536 == (n1 + n2) as int * 65536)
            by (nonlinear_arith)
            requires
                r1 == n1 + n2,
                -6658 < n1 + n2 < 6658,
        ;
    }
    (r0, r1)
}

/// Multiplies two NTT-representation polynomials pointwise, four coefficients
/// (two degree-1 blocks, with opposite twists) at a time. The exact value of
/// every output coefficient is pinned down modulo q by `basemul_ok`.
pub fn poly_basemul(r: &mut Poly, a: &Poly, b: &Poly)
    requires
        old(r).wf(),
        a.wf(),
        b.wf(),
        forall|i: int| 0 <= i < 256 ==> -4096 < #[trigger] a.coeffs@[i] < 4096,
        forall|i: int| 0 <= i < 256 ==> -4096 < #[trigger] b.coeffs@[i] < 4096,
    ensures
        final(r).wf(),
        forall|i: int| 0 <= i < 64 ==> #[trigger] basemul_ok(final(r).coeffs@, a.coeffs@,
            b.coeffs@, i),
        forall|i: int| 0 <= i < 256 ==> -6658 < #[trigger] final(r).coeffs@[i] < 6658,
{
    let z: Vec<i16> = zetas();
    let mut i: usize = 0;
    while i < 64
        invariant
            i <= 64,
            r.wf(),
            a.wf(),
            b.wf(),
            z@.len() == 128,
            forall|k: int| 0 <= k < 128 ==> 0 <= #[trigger] z@[k] < 3329 && z@[k] as int
                == zeta_spec(k),
            forall|j: int| 0 <= j < 256 ==> -4096 < #[trigger] a.coeffs@[j] < 4096,
            forall|j: int| 0 <= j < 256 ==> -4096 < #[trigger] b.coeffs@[j] < 4096,
            forall|j: int| 0 <= j < i ==> #[trigger] basemul_ok(r.coeffs@, a.coeffs@, b.coeffs@, j),
            forall|j: int| 0 <= j < 4 * i ==> -6658 < #[trigger] r.coeffs@[j] < 6658,
        decreases 64 - i,
    {
        let zeta: i16 = z[64 + i];
        let (r0, r1): (i16, i16) = basemul_pair(
            a.coeffs[4 * i],
            a.coeffs[4 * i + 1],
            b.coeffs[4 * i],
            b.coeffs[4 * i + 1],
            zeta,
        );
        let (r2, r3): (i16, i16) = basemul_pair(
            a.coeffs[4 * i + 2],
            a.coeffs[4 * i + 3],
            b.coeffs[4 * i + 2],
            b.coeffs[4 * i + 3],
            -zeta,
        );
        let ghost prev = r.coeffs@;
        r.coeffs[4 * i] = r0;
        r.coeffs[4 * i + 1] = r1;
        r.coeffs[4 * i + 2] = r2;
        r.coeffs[4 * i + 3] = r3;
        proof {
            assert(basemul_ok(r.coeffs@, a.coeffs@, b.coeffs@, i as int));
            assert forall|j: int| 0 <= j < i implies #[trigger] basemul_ok(
                r.coeffs@,
                a.coeffs@,
                b.coeffs@,
                j,
            ) by {
                assert(basemul_ok(prev, a.coeffs@, b.coeffs@, j));
                assert(r.coeffs@[4 * j] == prev[4 * j] && r.coeffs@[4 * j + 1] == prev[4 * j + 1]
                    && r.coeffs@[4 * j + 2] == prev[4 * j + 2] && r.coeffs@[4 * j + 3] == prev[4 * j
                    + 3]);
            }
        }
        i += 1;
    }
}


/// The layer number of the forward transform at butterfly span `len`.
pub open spec fn ntt_layer(len: int) -> int {
    if len == 128 {
        0
    } else if len == 64 {
        1
    } else if len == 32 {
        2
    } else if len == 16 {
        3
    } else if len == 8 {
        4
    } else if len == 4 {
        5
    } else if len == 2 {
        6
    } else {
        7
    }
}

/// In-place forward negacyclic NTT: input in standard coefficient order
/// (lazy range, magnitudes below 4096), output in bit-reversed point-value
/// order with every coefficient returned to the canonical range [0, q) by a
/// final reduction pass.
pub fn poly_ntt(r: &mut Poly)
    requires
        old(r).wf(),
        forall|i: int| 0 <= i < 256 ==> -4096 < #[trigger] old(r).coeffs@[i] < 4096,
    ensures
        final(r).wf(),
        forall|i: int| 0 <= i < 256 ==> 0 <= #[trigger] final(r).coeffs@[i] < 3329,
{
    let z: Vec<i16> = zetas();
    let mut len: usize = 128;
    let mut k: usize = 1;
    let ghost mut bound: int = 4095;
    while len >= 2
        invariant
            r.wf(),
            z@.len() == 128,
            forall|m: int| 0 <= m < 128 ==> 0 <= #[trigger] z@[m] < 3329,
            len == 128 || len == 64 || len == 32 || len == 16 || len == 8 || len == 4 || len == 2
                || len == 1,
            k * 2 * len == 256,
            bound == 4095 + 3328 * ntt_layer(len as int),
            forall|m: int| 0 <= m < 256 ==> -bound <= #[trigger] r.coeffs@[m] <= bound,
        decreases len,
    {
        let ghost layer_bound = bound;
        let mut start: usize = 0;
        while start < 256
            invariant
                r.wf(),
                z@.len() == 128,
                forall|m: int| 0 <= m < 128 ==> 0 <= #[trigger] z@[m] < 3329,
                len == 128 || len == 64 || len == 32 || len == 16 || len == 8 || len == 4 || len
                    == 2,
                k * 2 * len == 256 + start,
                start <= 256,
                4095 <= layer_bound <= 24063,
                forall|m: int| 0 <= m < start ==> -(layer_bound + 3328) <= #[trigger] r.coeffs@[m]
                    <= layer_bound + 3328,
                forall|m: int| start <= m < 256 ==> -layer_bound <= #[trigger] r.coeffs@[m]
                    <= layer_bound,
            decreases 256 - start,
        {
            let zeta: i16 = z[k];
            k += 1;
            let mut j: usize = start;
            while j < start + len
                invariant
                    r.wf(),
                    start <= j <= start + len,
                    start + 2 * len <= 256,
                    0 <= zeta < 3329,
                    4095 <= layer_bound <= 24063,
                    forall|m: int| 0 <= m < start ==> -(layer_bound + 3328)
                        <= #[trigger] r.coeffs@[m] <= layer_bound + 3328,
                    forall|m: int| start <= m < j ==> -(layer_bound + 3328)
                        <= #[trigger] r.coeffs@[m] <= layer_bound + 3328,
                    forall|m: int| j <= m < start + len ==> -layer_bound <= #[trigger] r.coeffs@[m]
                        <= layer_bound,
                    forall|m: int| start + len <= m < j + len ==> -(layer_bound + 3328)
                        <= #[trigger] r.coeffs@[m] <= layer_bound + 3328,
                    forall|m: int| j + len <= m < 256 ==> -layer_bound <= #[trigger] r.coeffs@[m]
                        <= layer_bound,
                decreases start + len - j,
            {
                proof {
                    lemma_mul_in_range(zeta as int, r.coeffs@[j + len] as int, 3328, 24063);
                }
                let t: i16 = fqmul(zeta, r.coeffs[j + len]);
                let cj: i16 = r.coeffs[j];
                r.coeffs[j + len] = cj - t;
                r.coeffs[j] = cj + t;
                j += 1;
            }
            start = j + len;
        }
        len = len / 2;
        proof {
            bound = bound + 3328;
        }
    }
    poly_reduce(r);
}

/// In-place inverse negacyclic NTT: input in bit-reversed point-value order
/// with magnitudes below 2q (as base multiplication produces), output in
/// standard order, left in the Montgomery domain with magnitudes below q.
/// No reduction pass follows: the next consumer reduces when it needs
/// canonical values.
pub fn poly_invntt_tomont(r: &mut Poly)
    requires
        old(r).wf(),
        forall|i: int| 0 <= i < 256 ==> -6658 < #[trigger] old(r).coeffs@[i] < 6658,
    ensures
        final(r).wf(),
        forall|i: int| 0 <= i < 256 ==> -3329 < #[trigger] final(r).coeffs@[i] < 3329,
{
    let z: Vec<i16> = zetas();
    let mut len: usize = 2;
    let mut k: usize = 127;
    while len <= 128
        invariant
            r.wf(),
            z@.len() == 128,
            forall|m: int| 0 <= m < 128 ==> 0 <= #[trigger] z@[m] < 3329,
            len == 2 || len == 4 || len == 8 || len == 16 || len == 32 || len == 64 || len == 128
                || len == 256,
            (k + 1) * len == 256,
            forall|m: int| 0 <= m < 256 ==> -6658 < #[trigger] r.coeffs@[m] < 6658,
            len > 2 ==> forall|m: int| 0 <= m < 256 ==> -3329 < #[trigger] r.coeffs@[m] < 3329,
        decreases 256 - len,
    {
        let mut start: usize = 0;
        while start < 256
            invariant
                r.wf(),
                z@.len() == 128,
                forall|m: int| 0 <= m < 128 ==> 0 <= #[trigger] z@[m] < 3329,
                len == 2 || len == 4 || len == 8 || len == 16 || len == 32 || len == 64 || len
                    == 128,
                (k + 1) * 2 * len == 512 - start,
                start <= 256,
                forall|m: int| 0 <= m < start ==> -3329 < #[trigger] r.coeffs@[m] < 3329,
                forall|m: int| 0 <= m < 256 ==> -6658 < #[trigger] r.coeffs@[m] < 6658,
            decreases 256 - start,
        {
            let zeta: i16 = z[k];
            k -= 1;
            let mut j: usize = start;
            while j < start + len
                invariant
                    r.wf(),
                    start <= j <= start + len,
                    start + 2 * len <= 256,
                    0 <= zeta < 3329,
                    forall|m: int| 0 <= m < j ==> -3329 < #[trigger] r.coeffs@[m] < 3329,
                    forall|m: int| start + len <= m < j + len ==> -3329 < #[trigger] r.coeffs@[m]
                        < 3329,
                    forall|m: int| 0 <= m < 256 ==> -6658 < #[trigger] r.coeffs@[m] < 6658,
                decreases start + len - j,
            {
                let t: i16 = r.coeffs[j];
                let s: i16 = t + r.coeffs[j + len];
                let br: i16 = barrett_reduce(s);
                r.coeffs[j] = br;
                let d: i16 = r.coeffs[j + len] - t;
                proof {
                    lemma_mul_in_range(zeta as int, d as int, 3328, 13315);
                }
                let f: i16 = fqmul(zeta, d);
                r.coeffs[j + len] = f;
                j += 1;
            }
            start = j + len;
        }
        len = len * 2;
    }
    // Multiply by 1441 == 2^32 / 128 mod q to fold the transform's scale
    // factor of 128 and lift the result into the Montgomery domain.
    let mont_f: i16 = 1441;
    let mut j: usize = 0;
    while j < 256
        invariant
            r.wf(),
            mont_f == 1441i16,
            forall|m: int| 0 <= m < j ==> -3329 < #[trigger] r.coeffs@[m] < 3329,
            forall|m: int| j <= m < 256 ==> -3329 < #[trigger] r.coeffs@[m] < 3329,
        decreases 256 - j,
    {
        proof {
            lemma_mul_in_range(r.coeffs@[j as int] as int, 1441, 3328, 1441);
        }
        let f: i16 = fqmul(r.coeffs[j], mont_f);
        r.coeffs[j] = f;
        j += 1;
    }
}

} // verus!
