//! Lossy compression codec: quantizes each coefficient to d bits
//! (d = 4 or d = 5, selected by the compressed byte width) with
//! round-to-nearest fixed-point arithmetic, and bit-packs the results.
//! Only the widths 128 (d = 4) and 160 (d = 5) are supported.

use vstd::prelude::*;

use crate::codec::{canon, to_standard};
use crate::poly::Poly;
use crate::reduce::modq;

verus! {

/// Round-to-nearest quantization of a canonical coefficient to 4 bits:
/// round((16 / q) * x) mod 16.
pub open spec fn compress4(x: int) -> int {
    ((x * 16 + 1664) / 3329) % 16
}

/// Round-to-nearest quantization of a canonical coefficient to 5 bits.
pub open spec fn compress5(x: int) -> int {
    ((x * 32 + 1664) / 3329) % 32
}

/// Inverse quantization of a 4-bit value: round((q / 16) * y).
pub open spec fn decompress4(y: int) -> int {
    (y * 3329 + 8) / 16
}

/// Inverse quantization of a 5-bit value.
pub open spec fn decompress5(y: int) -> int {
    (y * 3329 + 16) / 32
}

/// Byte `k` of the 4-bit compression: two nibbles, low nibble first.
pub open spec fn compress4_byte(p: Seq<i16>, k: int) -> u8 {
    (compress4(canon(p[2 * k])) + 16 * compress4(canon(p[2 * k + 1]))) as u8
}

/// The 128-byte compression of `p` at 4 bits per coefficient.
pub open spec fn compress4_spec(p: Seq<i16>) -> Seq<u8> {
    Seq::new(128, |k: int| compress4_byte(p, k))
}

/// The 5-bit field of coefficient `8 * g + j` of `p`.
pub open spec fn cfield5(p: Seq<i16>, g: int, j: int) -> int {
    compress5(canon(p[8 * g + j]))
}

/// Byte `k` of the 5-bit compression: eight 5-bit fields span five bytes,
/// low bits first.
pub open spec fn compress5_byte(p: Seq<i16>, k: int) -> u8 {
    let g = k / 5;
    if k % 5 == 0 {
        (cfield5(p, g, 0) + 32 * (cfield5(p, g, 1) % 8)) as u8
    } else if k % 5 == 1 {
        (cfield5(p, g, 1) / 8 + 4 * cfield5(p, g, 2) + 128 * (cfield5(p, g, 3) % 2)) as u8
    } else if k % 5 == 2 {
        (cfield5(p, g, 3) / 2 + 16 * (cfield5(p, g, 4) % 16)) as u8
    } else if k % 5 == 3 {
        (cfield5(p, g, 4) / 16 + 2 * cfield5(p, g, 5) + 64 * (cfield5(p, g, 6) % 4)) as u8
    } else {
        (cfield5(p, g, 6) / 4 + 8 * cfield5(p, g, 7)) as u8
    }
}

/// The 160-byte compression of `p` at 5 bits per coefficient.
pub open spec fn compress5_spec(p: Seq<i16>) -> Seq<u8> {
    Seq::new(160, |k: int| compress5_byte(p, k))
}

/// Coefficient `i` of the 4-bit decompression of `b`.
pub open spec fn decompress4_coeff(b: Seq<u8>, i: int) -> i16 {
    let y = if i % 2 == 0 {
        b[i / 2] as int % 16
    } else {
        b[i / 2] as int / 16
    };
    decompress4(y) as i16
}

/// The polynomial decompressed from a 128-byte buffer.
pub open spec fn decompress4_spec(b: Seq<u8>) -> Seq<i16> {
    Seq::new(256, |i: int| decompress4_coeff(b, i))
}

/// The 5-bit field holding coefficient `i` in the packed buffer `b`.
pub open spec fn dec5_field(b: Seq<u8>, i: int) -> int {
    let s = 5 * (i / 8);
    if i % 8 == 0 {
        b[s] as int % 32
    } else if i % 8 == 1 {
        b[s] as int / 32 + 8 * (b[s + 1] as int % 4)
    } else if i % 8 == 2 {
        (b[s + 1] as int / 4) % 32
    } else if i % 8 == 3 {
        b[s + 1] as int / 128 + 2 * (b[s + 2] as int % 16)
    } else if i % 8 == 4 {
        b[s + 2] as int / 16 + 16 * (b[s + 3] as int % 2)
    } else if i % 8 == 5 {
        (b[s + 3] as int / 2) % 32
    } else if i % 8 == 6 {
        b[s + 3] as int / 64 + 4 * (b[s + 4] as int % 8)
    } else {
        b[s + 4] as int / 8
    }
}

/// Coefficient `i` of the 5-bit decompression of `b`.
pub open spec fn decompress5_coeff(b: Seq<u8>, i: int) -> i16 {
    decompress5(dec5_field(b, i)) as i16
}

/// The polynomial decompressed from a 160-byte buffer.
pub open spec fn decompress5_spec(b: Seq<u8>) -> Seq<i16> {
    Seq::new(256, |i: int| decompress5_coeff(b, i))
}

/// Fixed-point 4-bit quantizer: the multiplier 315 / 2^20 approximates 1 / q
/// closely enough that the masked result equals true rounded division for
/// every canonical input.
fn compress4_coeff(u: u16) -> (t: u8)
    requires
        u < 3329,
    ensures
        t as int == compress4(u as int),
        t < 16,
{
    let sh: u32 = (u as u32) << 4;
    proof {
        assert(sh <= 53248) by (bit_vector)
            requires
                u < 3329,
                sh == (u as u32) << 4,
        ;
    }
    let v: u32 = (sh + 1664) * 315;
    let tmp: u32 = v >> 20;
    proof {
        assert((tmp & 15) == ((u * 16 + 1664) / 3329) % 16 && (tmp & 15) < 16) by (bit_vector)
            requires
                u < 3329,
                sh == (u as u32) << 4,
                v == (sh + 1664) * 315,
                tmp == v >> 20,
        ;
    }
    (tmp & 15) as u8
}

/// Fixed-point 5-bit quantizer with the same 315 / 2^20 multiplier.
fn compress5_coeff(u: u16) -> (t: u8)
    requires
        u < 3329,
    ensures
        t as int == compress5(u as int),
        t < 32,
{
    let sh: u32 = (u as u32) << 5;
    proof {
        assert(sh <= 106496) by (bit_vector)
            requires
                u < 3329,
                sh == (u as u32) << 5,
        ;
    }
    let v: u32 = (sh + 1664) * 315;
    let tmp: u32 = v >> 20;
    proof {
        assert((tmp & 31) == ((u * 32 + 1664) / 3329) % 32 && (tmp & 31) < 32) by (bit_vector)
            requires
                u < 3329,
                sh == (u as u32) << 5,
                v == (sh + 1664) * 315,
                tmp == v >> 20,
        ;
    }
    (tmp & 31) as u8
}

/// Inverse 4-bit quantization of one field.
fn decompress4_step(y: u8) -> (c: i16)
    requires
        y < 16,
    ensures
        c as int == decompress4(y as int),
        0 <= c < 3329,
{
    let v: u32 = (y as u32) * 3329 + 8;
    let w: u32 = v >> 4;
    proof {
        assert(w == (y * 3329 + 8) / 16 && w < 3329) by (bit_vector)
            requires
                y < 16,
                v == (y as u32) * 3329 + 8,
                w == v >> 4,
        ;
    }
    w as i16
}

/// Inverse 5-bit quantization of one field.
fn decompress5_step(y: u8) -> (c: i16)
    requires
        y < 32,
    ensures
        c as int == decompress5(y as int),
        0 <= c < 3329,
{
    let v: u32 = (y as u32) * 3329 + 16;
    let w: u32 = v >> 5;
    proof {
        assert(w == (y * 3329 + 16) / 32 && w < 3329) by (bit_vector)
            requires
                y < 32,
                v == (y as u32) * 3329 + 16,
                w == v >> 5,
        ;
    }
    w as i16
}

/// Compresses and serializes a polynomial at the width `cbytes`, which must
/// be one of the two supported widths: any other width is a fatal
/// configuration error and is excluded by precondition (`poly_compress_checked`
/// rejects it at run time). Coefficients must be in the lazy range (-q, q).
pub fn poly_compress(a: &Poly, cbytes: usize) -> (r: Vec<u8>)
    requires
        a.wf(),
        forall|i: int| 0 <= i < 256 ==> -3329 < #[trigger] a.coeffs@[i] < 3329,
        cbytes == 128 || cbytes == 160,
    ensures
        r@.len() == cbytes,
        cbytes == 128 ==> r@ == compress4_spec(a.coeffs@),
        cbytes == 160 ==> r@ == compress5_spec(a.coeffs@),
{
    let mut r: Vec<u8> = Vec::new();
    if cbytes == 128 {
        let mut k: usize = 0;
        while k < 128
            invariant
                k <= 128,
                a.wf(),
                forall|j: int| 0 <= j < 256 ==> -3329 < #[trigger] a.coeffs@[j] < 3329,
                r@.len() == k,
                forall|m: int| 0 <= m < k ==> r@[m] == compress4_byte(a.coeffs@, m),
            decreases 128 - k,
        {
            let t0: u8 = compress4_coeff(to_standard(a.coeffs[2 * k]));
            let t1: u8 = compress4_coeff(to_standard(a.coeffs[2 * k + 1]));
            proof {
                assert(t0 < 16 && t1 < 16 ==> (t0 | (t1 << 4)) == t0 + 16 * t1) by (bit_vector);
            }
            r.push(t0 | (t1 << 4));
            k += 1;
        }
        proof {
            assert(r@ =~= compress4_spec(a.coeffs@));
        }
    } else {
        let mut g: usize = 0;
        while g < 32
            invariant
                g <= 32,
                a.wf(),
                forall|j: int| 0 <= j < 256 ==> -3329 < #[trigger] a.coeffs@[j] < 3329,
                r@.len() == 5 * g,
                forall|m: int| 0 <= m < 5 * g ==> r@[m] == compress5_byte(a.coeffs@, m),
            decreases 32 - g,
        {
            let t0: u8 = compress5_coeff(to_standard(a.coeffs[8 * g]));
            let t1: u8 = compress5_coeff(to_standard(a.coeffs[8 * g + 1]));
            let t2: u8 = compress5_coeff(to_standard(a.coeffs[8 * g + 2]));
            let t3: u8 = compress5_coeff(to_standard(a.coeffs[8 * g + 3]));
            let t4: u8 = compress5_coeff(to_standard(a.coeffs[8 * g + 4]));
            let t5: u8 = compress5_coeff(to_standard(a.coeffs[8 * g + 5]));
            let t6: u8 = compress5_coeff(to_standard(a.coeffs[8 * g + 6]));
            let t7: u8 = compress5_coeff(to_standard(a.coeffs[8 * g + 7]));
            proof {
                assert((t0 | (t1 << 5)) == t0 + 32 * (t1 % 8) && ((t1 >> 3) | (t2 << 2) | (t3 << 7))
                    == t1 / 8 + 4 * t2 + 128 * (t3 % 2) && ((t3 >> 1) | (t4 << 4)) == t3 / 2 + 16 * (
                t4 % 16) && ((t4 >> 4) | (t5 << 1) | (t6 << 6)) == t4 / 16 + 2 * t5 + 64 * (t6 % 4)
                    && ((t6 >> 2) | (t7 << 3)) == t6 / 4 + 8 * t7) by (bit_vector)
                    requires
                        t0 < 32,
                        t1 < 32,
                        t2 < 32,
                        t3 < 32,
                        t4 < 32,
                        t5 < 32,
                        t6 < 32,
                        t7 < 32,
                ;
                assert((5 * g) / 5 == g && (5 * g + 1) / 5 == g && (5 * g + 2) / 5 == g && (5 * g
                    + 3) / 5 == g && (5 * g + 4) / 5 == g);
                assert((5 * g) % 5 == 0 && (5 * g + 1) % 5 == 1 && (5 * g + 2) % 5 == 2 && (5 * g
                    + 3) % 5 == 3 && (5 * g + 4) % 5 == 4);
            }
            r.push(t0 | (t1 << 5));
            r.push((t1 >> 3) | (t2 << 2) | (t3 << 7));
            r.push((t3 >> 1) | (t4 << 4));
            r.push((t4 >> 4) | (t5 << 1) | (t6 << 6));
            r.push((t6 >> 2) | (t7 << 3));
            g += 1;
        }
        proof {
            assert(r@ =~= compress5_spec(a.coeffs@));
        }
    }
    r
}

/// De-serializes and decompresses a polynomial; the width is read off the
/// buffer length, which must be one of the two supported sizes. All output
/// coefficients are canonical.
pub fn poly_decompress(r: &mut Poly, a: &Vec<u8>)
    requires
        old(r).wf(),
        a@.len() == 128 || a@.len() == 160,
    ensures
        final(r).wf(),
        a@.len() == 128 ==> final(r).coeffs@ == decompress4_spec(a@),
        a@.len() == 160 ==> final(r).coeffs@ == decompress5_spec(a@),
        forall|i: int| 0 <= i < 256 ==> 0 <= #[trigger] final(r).coeffs@[i] < 3329,
{
    if a.len() == 128 {
        let mut k: usize = 0;
        while k < 128
            invariant
                k <= 128,
                r.wf(),
                a@.len() == 128,
                forall|j: int| 0 <= j < 2 * k ==> r.coeffs@[j] == decompress4_coeff(a@, j) && 0
                    <= #[trigger] r.coeffs@[j] < 3329,
            decreases 128 - k,
        {
            let x: u8 = a[k];
            proof {
                assert((x & 15) < 16 && (x >> 4) < 16 && (x & 15) == x % 16 && (x >> 4) == x / 16)
                    by (bit_vector);
                assert((2 * k) / 2 == k && (2 * k + 1) / 2 == k);
                assert((2 * k) % 2 == 0 && (2 * k + 1) % 2 == 1);
            }
            let c0: i16 = decompress4_step(x & 15);
            let c1: i16 = decompress4_step(x >> 4);
            r.coeffs[2 * k] = c0;
            r.coeffs[2 * k + 1] = c1;
            k += 1;
        }
        proof {
            assert(r.coeffs@ =~= decompress4_spec(a@));
        }
    } else {
        let mut g: usize = 0;
        while g < 32
            invariant
                g <= 32,
                r.wf(),
                a@.len() == 160,
                forall|j: int| 0 <= j < 8 * g ==> r.coeffs@[j] == decompress5_coeff(a@, j) && 0
                    <= #[trigger] r.coeffs@[j] < 3329,
            decreases 32 - g,
        {
            let b0: u8 = a[5 * g];
            let b1: u8 = a[5 * g + 1];
            let b2: u8 = a[5 * g + 2];
            let b3: u8 = a[5 * g + 3];
            let b4: u8 = a[5 * g + 4];
            let t0: u8 = b0;
            let t1: u8 = (b0 >> 5) | (b1 << 3);
            let t2: u8 = b1 >> 2;
            let t3: u8 = (b1 >> 7) | (b2 << 1);
            let t4: u8 = (b2 >> 4) | (b3 << 4);
            let t5: u8 = b3 >> 1;
            let t6: u8 = (b3 >> 6) | (b4 << 2);
            let t7: u8 = b4 >> 3;
            proof {
                assert((t0 & 31) == b0 % 32 && (t1 & 31) == b0 / 32 + 8 * (b1 % 4) && (t2 & 31) == (
                b1 / 4) % 32 && (t3 & 31) == b1 / 128 + 2 * (b2 % 16) && (t4 & 31) == b2 / 16 + 16
                    * (b3 % 2) && (t5 & 31) == (b3 / 2) % 32 && (t6 & 31) == b3 / 64 + 4 * (b4 % 8)
                    && (t7 & 31) == b4 / 8) by (bit_vector)
                    requires
                        t0 == b0,
                        t1 == (b0 >> 5) | (b1 << 3),
                        t2 == b1 >> 2,
                        t3 == (b1 >> 7) | (b2 << 1),
                        t4 == (b2 >> 4) | (b3 << 4),
                        t5 == b3 >> 1,
                        t6 == (b3 >> 6) | (b4 << 2),
                        t7 == b4 >> 3,
                ;
                assert(forall|u: u8| (u & 31) < 32) by (bit_vector);
                assert((8 * g) / 8 == g && (8 * g + 1) / 8 == g && (8 * g + 2) / 8 == g && (8 * g
                    + 3) / 8 == g && (8 * g + 4) / 8 == g && (8 * g + 5) / 8 == g && (8 * g + 6) / 8
                    == g && (8 * g + 7) / 8 == g);
                assert((8 * g) % 8 == 0 && (8 * g + 1) % 8 == 1 && (8 * g + 2) % 8 == 2 && (8 * g
                    + 3) % 8 == 3 && (8 * g + 4) % 8 == 4 && (8 * g + 5) % 8 == 5 && (8 * g + 6) % 8
                    == 6 && (8 * g + 7) % 8 == 7);
            }
            let c0: i16 = decompress5_step(t0 & 31);
            let c1: i16 = decompress5_step(t1 & 31);
            let c2: i16 = decompress5_step(t2 & 31);
            let c3: i16 = decompress5_step(t3 & 31);
            let c4: i16 = decompress5_step(t4 & 31);
            let c5: i16 = decompress5_step(t5 & 31);
            let c6: i16 = decompress5_step(t6 & 31);
            let c7: i16 = decompress5_step(t7 & 31);
            r.coeffs[8 * g] = c0;
            r.coeffs[8 * g + 1] = c1;
            r.coeffs[8 * g + 2] = c2;
            r.coeffs[8 * g + 3] = c3;
            r.coeffs[8 * g + 4] = c4;
            r.coeffs[8 * g + 5] = c5;
            r.coeffs[8 * g + 6] = c6;
            r.coeffs[8 * g + 7] = c7;
            g += 1;
        }
        proof {
            assert(r.coeffs@ =~= decompress5_spec(a@));
        }
    }
}

/// Compression at a run-time-checked width: `None` exactly on the widths
/// that the codec does not support, mirroring the fatal configuration error.
pub fn poly_compress_checked(a: &Poly, cbytes: usize) -> (r: Option<Vec<u8>>)
    requires
        a.wf(),
        forall|i: int| 0 <= i < 256 ==> -3329 < #[trigger] a.coeffs@[i] < 3329,
    ensures
        r is Some <==> (cbytes == 128 || cbytes == 160),
        cbytes == 128 ==> (r matches Some(v) && v@ == compress4_spec(a.coeffs@)),
        cbytes == 160 ==> (r matches Some(v) && v@ == compress5_spec(a.coeffs@)),
{
    if cbytes == 128 || cbytes == 160 {
        Some(poly_compress(a, cbytes))
    } else {
        None
    }
}

/// Decompression at a run-time-checked width: `None` exactly when the buffer
/// length is not one of the two supported compressed sizes.
pub fn poly_decompress_checked(a: &Vec<u8>) -> (r: Option<Poly>)
    ensures
        r is Some <==> (a@.len() == 128 || a@.len() == 160),
        a@.len() == 128 ==> (r matches Some(p) && p.wf() && p.coeffs@ == decompress4_spec(a@)),
        a@.len() == 160 ==> (r matches Some(p) && p.wf() && p.coeffs@ == decompress5_spec(a@)),
{
    if a.len() == 128 || a.len() == 160 {
        let mut p = Poly::new();
        poly_decompress(&mut p, a);
        Some(p)
    } else {
        None
    }
}

/// Quantization error bound at 4 bits: decompression after compression moves
/// a canonical coefficient by at most ceil(q / 2^5) = 105, measured modulo q.
pub proof fn lemma_compress_error4(x: u16)
    requires
        x < 3329,
    ensures
        modq(decompress4(compress4(x as int)) - x as int) <= 105 || modq(
            x as int - decompress4(compress4(x as int)),
        ) <= 105,
{
    let y: u16 = compress4(x as int) as u16;
    let z: u16 = decompress4(y as int) as u16;
    assert(y == ((x * 16 + 1664) / 3329) % 16 && z == (y * 3329 + 8) / 16 ==> (z + 3329 - x) % 3329
        <= 105 || (x + 3329 - z) % 3329 <= 105) by (bit_vector)
        requires
            x < 3329,
    ;
    vstd::arithmetic::div_mod::lemma_mod_multiples_vanish(1, z - x, 3329);
    vstd::arithmetic::div_mod::lemma_mod_multiples_vanish(1, x as int - z, 3329);
}

/// Quantization error bound at 5 bits: at most ceil(q / 2^6) = 53 modulo q.
pub proof fn lemma_compress_error5(x: u16)
    requires
        x < 3329,
    ensures
        modq(decompress5(compress5(x as int)) - x as int) <= 53 || modq(
            x as int - decompress5(compress5(x as int)),
        ) <= 53,
{
    let y: u16 = compress5(x as int) as u16;
    let z: u16 = decompress5(y as int) as u16;
    assert(y == ((x * 32 + 1664) / 3329) % 32 && z == (y * 3329 + 16) / 32 ==> (z + 3329 - x) % 3329
        <= 53 || (x + 3329 - z) % 3329 <= 53) by (bit_vector)
        requires
            x < 3329,
    ;
    vstd::arithmetic::div_mod::lemma_mod_multiples_vanish(1, z - x, 3329);
    vstd::arithmetic::div_mod::lemma_mod_multiples_vanish(1, x as int - z, 3329);
}

/// Grid-point idempotence at 4 bits: compression is the exact inverse of
/// decompression, so decompress-compress round-trips are the identity on the
/// 4-bit quantization grid.
pub proof fn lemma_compress_grid4(y: u16)
    requires
        y < 16,
    ensures
        compress4(decompress4(y as int)) == y,
        decompress4(compress4(decompress4(y as int))) == decompress4(y as int),
{
    assert(((((y * 3329 + 8) / 16) * 16 + 1664) / 3329) % 16 == y) by (bit_vector)
        requires
            y < 16,
    ;
}

/// Grid-point idempotence at 5 bits.
pub proof fn lemma_compress_grid5(y: u16)
    requires
        y < 32,
    ensures
        compress5(decompress5(y as int)) == y,
        decompress5(compress5(decompress5(y as int))) == decompress5(y as int),
{
    assert(((((y * 3329 + 16) / 32) * 32 + 1664) / 3329) % 32 == y) by (bit_vector)
        requires
            y < 32,
    ;
}

} // verus!
