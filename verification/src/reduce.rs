//! Scalar reduction primitives: Barrett reduction to the canonical range
//! [0, q) and Montgomery reduction with the factor R = 2^16, together with
//! the congruence lemmas that the polynomial operations build on.

use vstd::prelude::*;

verus! {

/// The canonical residue of `x` modulo q = 3329, in [0, q).
pub open spec fn modq(x: int) -> int {
    x % 3329
}

/// `x` and `y` are congruent modulo q = 3329.
pub open spec fn congq(x: int, y: int) -> bool {
    (x - y) % 3329 == 0
}

/// A multiple of q stays a multiple of q when scaled.
pub proof fn lemma_multiple_scaled(x: int, c: int)
    requires
        x % 3329 == 0,
    ensures
        (x * c) % 3329 == 0,
{
    vstd::arithmetic::div_mod::lemma_fundamental_div_mod(x, 3329);
    let k = x / 3329;
    assert(x * c == 3329 * (k * c)) by (nonlinear_arith)
        requires
            x == 3329 * k,
    ;
    vstd::arithmetic::div_mod::lemma_mod_multiples_vanish(k * c, 0, 3329);
}

/// Congruence modulo q is preserved by scaling both sides.
pub proof fn lemma_congq_scale(x: int, y: int, c: int)
    requires
        congq(x, y),
    ensures
        congq(x * c, y * c),
{
    lemma_multiple_scaled(x - y, c);
    assert((x - y) * c == x * c - y * c) by (nonlinear_arith);
}

/// Congruence modulo q is preserved by adding congruent terms.
pub proof fn lemma_congq_add(x1: int, y1: int, x2: int, y2: int)
    requires
        congq(x1, y1),
        congq(x2, y2),
    ensures
        congq(x1 + x2, y1 + y2),
{
    vstd::arithmetic::div_mod::lemma_add_mod_noop(x1 - y1, x2 - y2, 3329);
}

/// Congruence modulo q is transitive.
pub proof fn lemma_congq_trans(x: int, y: int, z: int)
    requires
        congq(x, y),
        congq(y, z),
    ensures
        congq(x, z),
{
    vstd::arithmetic::div_mod::lemma_add_mod_noop(x - y, y - z, 3329);
}

/// q = 3329 does not divide R = 2^16, so a congruence can be cancelled by R:
/// 65536 * 169 == 3329 * 3327 + 1.
pub proof fn lemma_congq_cancel_r(x: int)
    requires
        (x * 65536) % 3329 == 0,
    ensures
        x % 3329 == 0,
{
    lemma_multiple_scaled(x * 65536, 169);
    assert(x * 65536 * 169 == 3329 * (3327 * x) + x) by (nonlinear_arith);
    vstd::arithmetic::div_mod::lemma_mod_multiples_vanish(3327 * x, x, 3329);
    assert((3329 * (3327 * x) + x) % 3329 == x % 3329);
}

/// Barrett reduction: the canonical residue modulo q of any 16-bit value,
/// computed by a multiply-and-shift quotient estimate followed by a
/// branchless conditional add of q.
pub fn barrett_reduce(a: i16) -> (r: i16)
    ensures
        0 <= r < 3329,
        r as int == modq(a as int),
{
    let prod: i32 = 20159 * (a as i32) + 0x200_0000;
    let t: i32 = prod >> 26;
    proof {
        assert(-10 <= t <= 10 && -3329 < (a as i32) - t * 3329 < 3329) by (bit_vector)
            requires
                t == prod >> 26,
                prod == 20159 * (a as i32) + 0x200_0000,
        ;
    }
    let r0: i32 = (a as i32) - t * 3329;
    let r1: i16 = r0 as i16;
    proof {
        assert(0 <= r1 + ((r1 >> 15) & 3329) < 3329 && r1 + ((r1 >> 15) & 3329)
            == (if r1 < 0 {
                r1 + 3329
            } else {
                r1 as int
            })) by (bit_vector)
            requires
                -3329 < r1 < 3329,
        ;
    }
    let r: i16 = r1 + ((r1 >> 15) & 3329);
    proof {
        let k: int = if r1 < 0 {
            t - 1
        } else {
            t as int
        };
        assert(a as int == 3329 * k + r);
        vstd::arithmetic::div_mod::lemma_mod_multiples_vanish(k, r as int, 3329);
        vstd::arithmetic::div_mod::lemma_small_mod(r as nat, 3329);
    }
    r
}

/// Montgomery reduction: given `a` with |a| < q * 2^15, returns r with
/// |r| < q and r * 2^16 congruent to `a` modulo q.
pub fn montgomery_reduce(a: i32) -> (r: i16)
    requires
        -(3329 * 32768) < (a as int),
        (a as int) < 3329 * 32768,
    ensures
        -3329 < r < 3329,
        congq(r as int * 65536, a as int),
{
    let u: i16 = ((a as i64) * 62209) as i16;
    let t: i32 = a - (u as i32) * 3329;
    proof {
        assert(t == (t >> 16) * 65536 && -3329 < (t >> 16) < 3329) by (bit_vector)
            requires
                u == ((a as i64) * 62209) as i16,
                t == a - (u as i32) * 3329,
                -(3329 * 32768) < a < 3329 * 32768,
        ;
    }
    let r: i16 = (t >> 16) as i16;
    proof {
        assert(r as int * 65536 - a as int == 3329 * (-(u as int)));
        vstd::arithmetic::div_mod::lemma_mod_multiples_vanish(-(u as int), 0, 3329);
    }
    r
}

/// Multiplication followed by Montgomery reduction: r * 2^16 is congruent
/// to a * b modulo q.
pub fn fqmul(a: i16, b: i16) -> (r: i16)
    requires
        -(3329 * 32768) < (a as int) * (b as int),
        (a as int) * (b as int) < 3329 * 32768,
    ensures
        -3329 < r < 3329,
        congq(r as int * 65536, a as int * b as int),
{
    montgomery_reduce((a as i32) * (b as i32))
}

} // verus!
