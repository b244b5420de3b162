//! The polynomial type: an element of Z_q[X]/(X^256 + 1) held as 256 signed
//! 16-bit coefficients, with the coefficient-wise arithmetic operations.
//! Addition and subtraction are lazy (no reduction); `poly_reduce` returns
//! every coefficient to the canonical range [0, q).

use vstd::prelude::*;

use crate::reduce::{barrett_reduce, congq, modq, montgomery_reduce};
use crate::reduce::{lemma_congq_cancel_r, lemma_congq_trans, lemma_multiple_scaled};

verus! {

/// A ring element: exactly 256 coefficients. Whether an instance is in the
/// standard domain, the Montgomery domain, or NTT representation is a
/// caller-tracked convention, not a stored tag.
#[derive(Clone)]
pub struct Poly {
    pub coeffs: Vec<i16>,
}

impl Poly {
    /// Well-formedness: the coefficient vector has the full ring degree.
    pub open spec fn wf(&self) -> bool {
        self.coeffs@.len() == 256
    }

    /// The zero polynomial.
    pub fn new() -> (r: Poly)
        ensures
            r.wf(),
            forall|i: int| 0 <= i < 256 ==> r.coeffs@[i] == 0i16,
    {
        let mut v: Vec<i16> = Vec::new();
        let mut i: usize = 0;
        while i < 256
            invariant
                i <= 256,
                v@.len() == i,
                forall|j: int| 0 <= j < i ==> v@[j] == 0i16,
            decreases 256 - i,
        {
            v.push(0i16);
            i += 1;
        }
        Poly { coeffs: v }
    }
}

impl Default for Poly {
    /// The zero polynomial.
    fn default() -> (r: Poly)
        ensures
            r.wf(),
            forall|i: int| 0 <= i < 256 ==> r.coeffs@[i] == 0i16,
    {
        Poly::new()
    }
}

/// Coefficient-wise sum into `r`; no reduction is performed, so every sum
/// must fit the 16-bit lazy range.
pub fn poly_add(r: &mut Poly, b: &Poly)
    requires
        old(r).wf(),
        b.wf(),
        forall|i: int| 0 <= i < 256 ==> -32768 <= (#[trigger] old(r).coeffs@[i]) + b.coeffs@[i]
            <= 32767,
    ensures
        final(r).wf(),
        forall|i: int| 0 <= i < 256 ==> final(r).coeffs@[i] as int == old(r).coeffs@[i]
            + b.coeffs@[i],
{
    let mut i: usize = 0;
    while i < 256
        invariant
            i <= 256,
            r.wf(),
            b.wf(),
            forall|j: int| 0 <= j < 256 ==> -32768 <= (#[trigger] old(r).coeffs@[j]) + b.coeffs@[j]
                <= 32767,
            forall|j: int| 0 <= j < i ==> r.coeffs@[j] as int == old(r).coeffs@[j] + b.coeffs@[j],
            forall|j: int| i <= j < 256 ==> r.coeffs@[j] == old(r).coeffs@[j],
        decreases 256 - i,
    {
        let s: i16 = r.coeffs[i] + b.coeffs[i];
        r.coeffs[i] = s;
        i += 1;
    }
}

/// Coefficient-wise difference `a - r` written into `r` (note the asymmetric
/// argument order); no reduction is performed.
pub fn poly_sub(r: &mut Poly, a: &Poly)
    requires
        old(r).wf(),
        a.wf(),
        forall|i: int| 0 <= i < 256 ==> -32768 <= (#[trigger] a.coeffs@[i]) - old(r).coeffs@[i]
            <= 32767,
    ensures
        final(r).wf(),
        forall|i: int| 0 <= i < 256 ==> final(r).coeffs@[i] as int == a.coeffs@[i] - old(
            r,
        ).coeffs@[i],
{
    let mut i: usize = 0;
    while i < 256
        invariant
            i <= 256,
            r.wf(),
            a.wf(),
            forall|j: int| 0 <= j < 256 ==> -32768 <= (#[trigger] a.coeffs@[j]) - old(r).coeffs@[j]
                <= 32767,
            forall|j: int| 0 <= j < i ==> r.coeffs@[j] as int == a.coeffs@[j] - old(r).coeffs@[j],
            forall|j: int| i <= j < 256 ==> r.coeffs@[j] == old(r).coeffs@[j],
        decreases 256 - i,
    {
        let d: i16 = a.coeffs[i] - r.coeffs[i];
        r.coeffs[i] = d;
        i += 1;
    }
}

/// Barrett-reduces every coefficient to its canonical residue in [0, q).
pub fn poly_reduce(r: &mut Poly)
    requires
        old(r).wf(),
    ensures
        final(r).wf(),
        forall|i: int| 0 <= i < 256 ==> final(r).coeffs@[i] as int == modq(
            old(r).coeffs@[i] as int,
        ),
        forall|i: int| 0 <= i < 256 ==> 0 <= #[trigger] final(r).coeffs@[i] < 3329,
{
    let mut i: usize = 0;
    while i < 256
        invariant
            i <= 256,
            r.wf(),
            forall|j: int| 0 <= j < i ==> r.coeffs@[j] as int == modq(old(r).coeffs@[j] as int)
                && 0 <= r.coeffs@[j] < 3329,
            forall|j: int| i <= j < 256 ==> r.coeffs@[j] == old(r).coeffs@[j],
        decreases 256 - i,
    {
        let c: i16 = barrett_reduce(r.coeffs[i]);
        r.coeffs[i] = c;
        i += 1;
    }
}

/// Lifting a congruence through the Montgomery factor: if m * 2^16 is
/// congruent to c * 2^32 modulo q (with 2^32 appearing as its residue 1353),
/// then m is congruent to c * 2^16.
proof fn lemma_tomont_cong(m: int, c: int)
    requires
        congq(m * 65536, c * 1353),
    ensures
        congq(m, c * 65536),
{
    assert(c * 1353 - c * 65536 * 65536 == 3329 * (-1290167 * c)) by (nonlinear_arith);
    lemma_multiple_scaled(3329, -1290167 * c);
    assert(congq(c * 1353, c * 65536 * 65536)) by {
        assert((c * 1353 - c * 65536 * 65536) % 3329 == (3329 * (-1290167 * c)) % 3329);
    }
    lemma_congq_trans(m * 65536, c * 1353, c * 65536 * 65536);
    assert(m * 65536 - c * 65536 * 65536 == (m - c * 65536) * 65536) by (nonlinear_arith);
    lemma_congq_cancel_r(m - c * 65536);
}

/// Converts every coefficient into the Montgomery domain: the new value is
/// congruent to the old value times 2^16 modulo q, and lies in (-q, q).
pub fn poly_tomont(r: &mut Poly)
    requires
        old(r).wf(),
    ensures
        final(r).wf(),
        forall|i: int| 0 <= i < 256 ==> -3329 < #[trigger] final(r).coeffs@[i] < 3329,
        forall|i: int| 0 <= i < 256 ==> congq(
            final(r).coeffs@[i] as int,
            old(r).coeffs@[i] as int * 65536,
        ),
{
    // 1353 == 2^32 mod q, as a signed 16-bit value.
    let f: i16 = 1353;
    let mut i: usize = 0;
    while i < 256
        invariant
            i <= 256,
            f == 1353i16,
            r.wf(),
            forall|j: int| 0 <= j < i ==> -3329 < r.coeffs@[j] < 3329 && congq(
                r.coeffs@[j] as int,
                old(r).coeffs@[j] as int * 65536,
            ),
            forall|j: int| i <= j < 256 ==> r.coeffs@[j] == old(r).coeffs@[j],
        decreases 256 - i,
    {
        let c: i16 = r.coeffs[i];
        let m: i16 = montgomery_reduce((c as i32) * (f as i32));
        proof {
            lemma_tomont_cong(m as int, c as int);
        }
        r.coeffs[i] = m;
        i += 1;
    }
}

/// Additive homomorphism law: if `s` is the lazy coefficient-wise sum of `a`
/// and `b` (what `poly_add` produces) and `r` is its Barrett reduction (what
/// `poly_reduce` produces), then every coefficient of `r` is the canonical
/// residue of the corresponding coefficient sum.
pub proof fn lemma_additive_homomorphism(a: Seq<i16>, b: Seq<i16>, s: Seq<i16>, r: Seq<i16>)
    requires
        a.len() == 256,
        b.len() == 256,
        s.len() == 256,
        r.len() == 256,
        forall|i: int| 0 <= i < 256 ==> #[trigger] s[i] as int == a[i] + b[i],
        forall|i: int| 0 <= i < 256 ==> #[trigger] r[i] as int == modq(s[i] as int),
    ensures
        forall|i: int| 0 <= i < 256 ==> #[trigger] r[i] as int == modq(a[i] + b[i]),
{
}

} // verus!
