//! Serialization codec: 256 coefficients packed 12 bits each, two
//! coefficients into three bytes, low bits first.

use vstd::prelude::*;

use crate::poly::Poly;

verus! {

/// The positive standard representative of a lazily-reduced coefficient in
/// (-q, q): negative values are shifted up by q.
pub open spec fn canon(c: i16) -> int {
    if c < 0 {
        c + 3329
    } else {
        c as int
    }
}

/// Byte `k` of the 384-byte serialization of coefficient sequence `p`.
pub open spec fn tobytes_byte(p: Seq<i16>, k: int) -> u8 {
    let c0 = canon(p[2 * (k / 3)]);
    let c1 = canon(p[2 * (k / 3) + 1]);
    if k % 3 == 0 {
        (c0 % 256) as u8
    } else if k % 3 == 1 {
        (c0 / 256 + 16 * (c1 % 16)) as u8
    } else {
        (c1 / 16) as u8
    }
}

/// The 384-byte serialization of `p`.
pub open spec fn tobytes_spec(p: Seq<i16>) -> Seq<u8> {
    Seq::new(384, |k: int| tobytes_byte(p, k))
}

/// Coefficient `i` recovered from serialized bytes `b`: 12 low-first bits.
pub open spec fn frombytes_coeff(b: Seq<u8>, i: int) -> i16 {
    let g = i / 2;
    if i % 2 == 0 {
        (b[3 * g] as int + 256 * (b[3 * g + 1] as int % 16)) as i16
    } else {
        (b[3 * g + 1] as int / 16 + 16 * b[3 * g + 2] as int) as i16
    }
}

/// The 256 coefficients deserialized from a 384-byte buffer.
pub open spec fn frombytes_spec(b: Seq<u8>) -> Seq<i16> {
    Seq::new(256, |i: int| frombytes_coeff(b, i))
}

/// Branchless map of a lazily-reduced coefficient to its positive standard
/// representative: adds q masked by the sign bit, with no data-dependent
/// branch.
pub(crate) fn to_standard(u: i16) -> (r: u16)
    requires
        -3329 < u < 3329,
    ensures
        r as int == canon(u),
        r < 3329,
{
    proof {
        assert(0 <= u + ((u >> 15) & 3329) < 3329 && u + ((u >> 15) & 3329) == (if u < 0 {
            u + 3329
        } else {
            u as int
        })) by (bit_vector)
            requires
                -3329 < u < 3329,
        ;
    }
    let v: i16 = u + ((u >> 15) & 3329);
    v as u16
}

/// Serializes a polynomial: the byte layout is exactly `tobytes_spec` of the
/// coefficients. Coefficients must be in the sign-fixable lazy range (-q, q).
pub fn poly_tobytes(a: &Poly) -> (r: Vec<u8>)
    requires
        a.wf(),
        forall|i: int| 0 <= i < 256 ==> -3329 < #[trigger] a.coeffs@[i] < 3329,
    ensures
        r@.len() == 384,
        r@ == tobytes_spec(a.coeffs@),
{
    let mut r: Vec<u8> = Vec::new();
    let mut i: usize = 0;
    while i < 128
        invariant
            i <= 128,
            a.wf(),
            forall|j: int| 0 <= j < 256 ==> -3329 < #[trigger] a.coeffs@[j] < 3329,
            r@.len() == 3 * i,
            forall|k: int| 0 <= k < 3 * i ==> r@[k] == tobytes_byte(a.coeffs@, k),
        decreases 128 - i,
    {
        let t0: u16 = to_standard(a.coeffs[2 * i]);
        let t1: u16 = to_standard(a.coeffs[2 * i + 1]);
        let b0: u8 = t0 as u8;
        let b1: u8 = ((t0 >> 8) | (t1 << 4)) as u8;
        let b2: u8 = (t1 >> 4) as u8;
        proof {
            assert(t0 as u8 == (t0 as int) % 256 && ((t0 >> 8) | (t1 << 4)) as u8 == (t0 as int)
                / 256 + 16 * ((t1 as int) % 16) && (t1 >> 4) as u8 == (t1 as int) / 16)
                by (bit_vector)
                requires
                    t0 < 3329,
                    t1 < 3329,
            ;
            assert((3 * i) / 3 == i && (3 * i + 1) / 3 == i && (3 * i + 2) / 3 == i);
            assert((3 * i) % 3 == 0 && (3 * i + 1) % 3 == 1 && (3 * i + 2) % 3 == 2);
        }
        r.push(b0);
        r.push(b1);
        r.push(b2);
        i += 1;
    }
    proof {
        assert(r@ =~= tobytes_spec(a.coeffs@));
    }
    r
}

/// Deserializes a polynomial: the exact inverse of the 12-bit packing.
/// Output coefficients lie in [0, 4096); canonicalization modulo q is the
/// caller's responsibility.
pub fn poly_frombytes(r: &mut Poly, a: &Vec<u8>)
    requires
        old(r).wf(),
        a@.len() == 384,
    ensures
        final(r).wf(),
        final(r).coeffs@ == frombytes_spec(a@),
        forall|i: int| 0 <= i < 256 ==> 0 <= #[trigger] final(r).coeffs@[i] < 4096,
{
    let mut i: usize = 0;
    while i < 128
        invariant
            i <= 128,
            r.wf(),
            a@.len() == 384,
            forall|j: int| 0 <= j < 2 * i ==> r.coeffs@[j] == frombytes_coeff(a@, j) && 0
                <= #[trigger] r.coeffs@[j] < 4096,
        decreases 128 - i,
    {
        let x: u8 = a[3 * i];
        let y: u8 = a[3 * i + 1];
        let z: u8 = a[3 * i + 2];
        proof {
            assert(((x as u16) | (((y as u16) << 8) & 0xFFF)) == x as int + 256 * ((y as int) % 16)
                && ((x as u16) | (((y as u16) << 8) & 0xFFF)) < 4096 && (((y >> 4) as u16) | (((
            z as u16) << 4) & 0xFFF)) == (y as int) / 16 + 16 * (z as int) && (((y >> 4) as u16) | (
            ((z as u16) << 4) & 0xFFF)) < 4096) by (bit_vector);
            assert((2 * i) / 2 == i && (2 * i + 1) / 2 == i);
            assert((2 * i) % 2 == 0 && (2 * i + 1) % 2 == 1);
        }
        let c0: i16 = ((x as u16) | (((y as u16) << 8) & 0xFFF)) as i16;
        let c1: i16 = (((y >> 4) as u16) | (((z as u16) << 4) & 0xFFF)) as i16;
        r.coeffs[2 * i] = c0;
        r.coeffs[2 * i + 1] = c1;
        i += 1;
    }
    proof {
        assert(r.coeffs@ =~= frombytes_spec(a@));
    }
}

/// One 12-bit pair survives packing and unpacking unchanged.
proof fn lemma_pack12_roundtrip(c0: u16, c1: u16)
    requires
        c0 < 4096,
        c1 < 4096,
    ensures
        c0 % 256 + 256 * ((c0 / 256 + 16 * (c1 % 16)) % 16) == c0,
        (c0 / 256 + 16 * (c1 % 16)) / 16 + 16 * (c1 / 16) == c1,
{
    assert(c0 % 256 + 256 * ((c0 / 256 + 16 * (c1 % 16)) % 16) == c0 && (c0 / 256 + 16 * (c1 % 16))
        / 16 + 16 * (c1 / 16) == c1) by (bit_vector)
        requires
            c0 < 4096,
            c1 < 4096,
    ;
}

/// Serialization round-trip law: deserializing the serialization of any
/// canonical polynomial (all coefficients in [0, q)) returns it unchanged.
pub proof fn lemma_serialize_roundtrip(p: Seq<i16>)
    requires
        p.len() == 256,
        forall|i: int| 0 <= i < 256 ==> 0 <= #[trigger] p[i] < 3329,
    ensures
        frombytes_spec(tobytes_spec(p)) == p,
{
    let b = tobytes_spec(p);
    assert forall|i: int| 0 <= i < 256 implies frombytes_spec(b)[i] == p[i] by {
        let g = i / 2;
        assert((3 * g) / 3 == g && (3 * g + 1) / 3 == g && (3 * g + 2) / 3 == g);
        assert((3 * g) % 3 == 0 && (3 * g + 1) % 3 == 1 && (3 * g + 2) % 3 == 2);
        let c0 = p[2 * g];
        let c1 = p[2 * g + 1];
        lemma_pack12_roundtrip(c0 as u16, c1 as u16);
        if i % 2 == 0 {
            assert(i == 2 * g);
        } else {
            assert(i == 2 * g + 1);
        }
    }
    assert(frombytes_spec(tobytes_spec(p)) =~= p);
}

} // verus!
