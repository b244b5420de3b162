//! Message encoding: one bit per coefficient, eight coefficients per message
//! byte, low bit first. Encoding maps a bit to 0 or ceil(q / 2) = 1665;
//! decoding is a constant-time nearest-neighbor decision between those two
//! symbols, computed with fixed-point arithmetic instead of a comparison so
//! that no branch depends on secret-derived data.

use vstd::prelude::*;

use crate::poly::Poly;
use crate::reduce::modq;

verus! {

/// Bit `j` of message byte `m`.
pub open spec fn byte_bit(m: u8, j: u32) -> u8 {
    (m >> j) & 1
}

/// The coefficient encoding message bit `i`: 1665 for a set bit, 0 otherwise.
pub open spec fn frommsg_coeff(m: Seq<u8>, i: int) -> i16 {
    if byte_bit(m[i / 8], (i % 8) as u32) == 1 {
        1665i16
    } else {
        0i16
    }
}

/// The polynomial encoding a 32-byte message.
pub open spec fn frommsg_spec(m: Seq<u8>) -> Seq<i16> {
    Seq::new(256, |i: int| frommsg_coeff(m, i))
}

/// The bit decoded from a canonical coefficient: 1 exactly when the
/// coefficient is nearer to 1665 than to 0 modulo q, that is in [833, 2496].
pub open spec fn msg_bit(c: int) -> int {
    if 833 <= c <= 2496 {
        1
    } else {
        0
    }
}

/// Message byte `k` decoded from coefficients `8k` through `8k + 7`.
pub open spec fn tomsg_byte(p: Seq<i16>, k: int) -> u8 {
    (msg_bit(p[8 * k] as int) + 2 * msg_bit(p[8 * k + 1] as int) + 4 * msg_bit(p[8 * k + 2] as int)
        + 8 * msg_bit(p[8 * k + 3] as int) + 16 * msg_bit(p[8 * k + 4] as int) + 32 * msg_bit(
        p[8 * k + 5] as int,
    ) + 64 * msg_bit(p[8 * k + 6] as int) + 128 * msg_bit(p[8 * k + 7] as int)) as u8
}

/// The 32-byte message decoded from a canonical polynomial.
pub open spec fn tomsg_spec(p: Seq<i16>) -> Seq<u8> {
    Seq::new(32, |k: int| tomsg_byte(p, k))
}

/// Decodes one canonical coefficient to its message bit with the fixed-point
/// nearest-neighbor test (((c << 1) + 1665) * 80635) >> 28, avoiding any
/// data-dependent branch.
fn decode_bit(c: i16) -> (t: u8)
    requires
        0 <= c < 3329,
    ensures
        t as int == msg_bit(c as int),
        t <= 1,
{
    let x: u32 = c as u32;
    proof {
        assert(x << 1 <= 6656 && (x << 1) == 2 * x) by (bit_vector)
            requires
                x < 3329,
        ;
    }
    let s: u32 = (x << 1) + 1665;
    let v: u32 = s * 80635;
    let w: u32 = v >> 28;
    proof {
        assert((w & 1) == (if 833 <= x && x <= 2496 {
            1u32
        } else {
            0u32
        }) && (w & 1) <= 1) by (bit_vector)
            requires
                x < 3329,
                s == 2 * x + 1665,
                v == s * 80635,
                w == v >> 28,
        ;
    }
    (w & 1) as u8
}

/// Expands one message bit to a full coefficient mask branchlessly: the bit
/// is negated in two's complement to give all-ones or all-zero, then masked
/// with 1665.
fn expand_bit(m: u8, j: u32) -> (c: i16)
    requires
        j < 8,
    ensures
        c == 0i16 || c == 1665i16,
        c as int == 1665 * byte_bit(m, j),
{
    let bit: u16 = ((m >> j) & 1) as u16;
    proof {
        assert(((m >> j) & 1) <= 1) by (bit_vector);
    }
    let mask: u16 = 0u16.wrapping_sub(bit);
    proof {
        assert((65535u16 & 1665) == 1665 && (0u16 & 1665) == 0) by (bit_vector);
    }
    (mask & 1665) as i16
}

/// Encodes a 32-byte message into a polynomial: coefficient `8i + j` is 1665
/// when bit `j` of byte `i` is set and 0 otherwise.
pub fn poly_frommsg(r: &mut Poly, msg: &Vec<u8>)
    requires
        old(r).wf(),
        msg@.len() == 32,
    ensures
        final(r).wf(),
        final(r).coeffs@ == frommsg_spec(msg@),
        forall|i: int| 0 <= i < 256 ==> (final(r).coeffs@[i] == 0i16 || final(r).coeffs@[i]
            == 1665i16),
{
    let mut i: usize = 0;
    while i < 32
        invariant
            i <= 32,
            r.wf(),
            msg@.len() == 32,
            forall|t: int| 0 <= t < 8 * i ==> r.coeffs@[t] == frommsg_coeff(msg@, t),
        decreases 32 - i,
    {
        let m: u8 = msg[i];
        let mut j: usize = 0;
        while j < 8
            invariant
                i < 32,
                j <= 8,
                r.wf(),
                msg@.len() == 32,
                m == msg@[i as int],
                forall|t: int| 0 <= t < 8 * i + j ==> r.coeffs@[t] == frommsg_coeff(msg@, t),
            decreases 8 - j,
        {
            let c: i16 = expand_bit(m, j as u32);
            r.coeffs[8 * i + j] = c;
            proof {
                assert((8 * i + j) / 8 == i && (8 * i + j) % 8 == j);
            }
            j += 1;
        }
        i += 1;
    }
    proof {
        assert(r.coeffs@ =~= frommsg_spec(msg@));
    }
}

/// Decodes a canonical polynomial to a 32-byte message by the constant-time
/// nearest-neighbor test on each coefficient.
pub fn poly_tomsg(a: &Poly) -> (r: Vec<u8>)
    requires
        a.wf(),
        forall|i: int| 0 <= i < 256 ==> 0 <= #[trigger] a.coeffs@[i] < 3329,
    ensures
        r@.len() == 32,
        r@ == tomsg_spec(a.coeffs@),
{
    let mut r: Vec<u8> = Vec::new();
    let mut k: usize = 0;
    while k < 32
        invariant
            k <= 32,
            a.wf(),
            forall|j: int| 0 <= j < 256 ==> 0 <= #[trigger] a.coeffs@[j] < 3329,
            r@.len() == k,
            forall|m: int| 0 <= m < k ==> r@[m] == tomsg_byte(a.coeffs@, m),
        decreases 32 - k,
    {
        let t0: u8 = decode_bit(a.coeffs[8 * k]);
        let t1: u8 = decode_bit(a.coeffs[8 * k + 1]);
        let t2: u8 = decode_bit(a.coeffs[8 * k + 2]);
        let t3: u8 = decode_bit(a.coeffs[8 * k + 3]);
        let t4: u8 = decode_bit(a.coeffs[8 * k + 4]);
        let t5: u8 = decode_bit(a.coeffs[8 * k + 5]);
        let t6: u8 = decode_bit(a.coeffs[8 * k + 6]);
        let t7: u8 = decode_bit(a.coeffs[8 * k + 7]);
        proof {
            assert((t0 | (t1 << 1) | (t2 << 2) | (t3 << 3) | (t4 << 4) | (t5 << 5) | (t6 << 6) | (
            t7 << 7)) == t0 + 2 * t1 + 4 * t2 + 8 * t3 + 16 * t4 + 32 * t5 + 64 * t6 + 128 * t7)
                by (bit_vector)
                requires
                    t0 <= 1,
                    t1 <= 1,
                    t2 <= 1,
                    t3 <= 1,
                    t4 <= 1,
                    t5 <= 1,
                    t6 <= 1,
                    t7 <= 1,
            ;
        }
        let b: u8 = t0 | (t1 << 1) | (t2 << 2) | (t3 << 3) | (t4 << 4) | (t5 << 5) | (t6 << 6) | (
        t7 << 7);
        r.push(b);
        k += 1;
    }
    proof {
        assert(r@ =~= tomsg_spec(a.coeffs@));
    }
    r
}

/// Message round-trip law under zero noise: decoding the encoding of any
/// 32-byte message returns the message unchanged.
pub proof fn lemma_message_roundtrip(m: Seq<u8>)
    requires
        m.len() == 32,
    ensures
        tomsg_spec(frommsg_spec(m)) == m,
{
    let p = frommsg_spec(m);
    assert forall|k: int| 0 <= k < 32 implies tomsg_spec(p)[k] == m[k] by {
        let b = m[k];
        assert((8 * k) / 8 == k && (8 * k + 1) / 8 == k && (8 * k + 2) / 8 == k && (8 * k + 3) / 8
            == k && (8 * k + 4) / 8 == k && (8 * k + 5) / 8 == k && (8 * k + 6) / 8 == k && (8 * k
            + 7) / 8 == k);
        assert((8 * k) % 8 == 0 && (8 * k + 1) % 8 == 1 && (8 * k + 2) % 8 == 2 && (8 * k + 3) % 8
            == 3 && (8 * k + 4) % 8 == 4 && (8 * k + 5) % 8 == 5 && (8 * k + 6) % 8 == 6 && (8 * k
            + 7) % 8 == 7);
        assert(byte_bit(b, 0) <= 1 && byte_bit(b, 1) <= 1 && byte_bit(b, 2) <= 1 && byte_bit(b, 3)
            <= 1 && byte_bit(b, 4) <= 1 && byte_bit(b, 5) <= 1 && byte_bit(b, 6) <= 1 && byte_bit(
        b, 7) <= 1) by (bit_vector);
        assert(byte_bit(b, 0) + 2 * byte_bit(b, 1) + 4 * byte_bit(b, 2) + 8 * byte_bit(b, 3) + 16
            * byte_bit(b, 4) + 32 * byte_bit(b, 5) + 64 * byte_bit(b, 6) + 128 * byte_bit(b, 7)
            == b) by (bit_vector);
    }
    assert(tomsg_spec(frommsg_spec(m)) =~= m);
}

/// Message robustness law: a symbol coefficient (0 or 1665) perturbed by at
/// most floor(q / 4) - 1 = 831 modulo q still decodes to the same bit.
pub proof fn lemma_message_robust(s: int, e: int)
    requires
        s == 0 || s == 1665,
        -831 <= e <= 831,
    ensures
        msg_bit(modq(s + e)) == msg_bit(s),
{
    if s + e >= 0 {
        vstd::arithmetic::div_mod::lemma_small_mod((s + e) as nat, 3329);
    } else {
        vstd::arithmetic::div_mod::lemma_mod_multiples_vanish(1, s + e, 3329);
        vstd::arithmetic::div_mod::lemma_small_mod((3329 + s + e) as nat, 3329);
    }
}

} // verus!
