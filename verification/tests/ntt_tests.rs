//! Arithmetic, NTT-domain and noise-sampling behaviour on concrete values.

use kyber_poly::noise::{poly_cbd_eta1, poly_cbd_eta2, poly_getnoise_eta1, poly_getnoise_eta2};
use kyber_poly::ntt::{poly_basemul, poly_invntt_tomont, poly_ntt, zetas};
use kyber_poly::params::{KYBER_ETA1, KYBER_ETA2, KYBER_N, KYBER_Q, KYBER_SYM_BYTES};
use kyber_poly::poly::{poly_add, poly_reduce, poly_sub, poly_tomont, Poly};
use kyber_poly::reduce::{barrett_reduce, fqmul, montgomery_reduce};

const Q: i64 = 3329;

fn poly_from_fn(mut f: impl FnMut(usize) -> i16) -> Poly {
    let mut p = Poly::new();
    for i in 0..256 {
        p.coeffs[i] = f(i);
    }
    p
}

/// A small deterministic generator for test inputs.
fn lcg_poly(seed: u64, modulus: i64) -> Poly {
    let mut state = seed;
    poly_from_fn(|_| {
        state = state.wrapping_mul(6364136223846793005).wrapping_add(1442695040888963407);
        ((state >> 33) as i64 % modulus) as i16
    })
}

#[test]
fn parameter_set_is_consistent() {
    assert_eq!(KYBER_Q as i64, Q);
    assert_eq!(KYBER_N, 256);
    // The noise expansions read eta * n / 4 bytes.
    assert_eq!(KYBER_ETA1 * KYBER_N / 4, 192);
    assert_eq!(KYBER_ETA2 * KYBER_N / 4, 128);
}

#[test]
fn new_is_zero() {
    let p = Poly::new();
    let d = Poly::default();
    for i in 0..256 {
        assert_eq!(p.coeffs[i], 0);
        assert_eq!(d.coeffs[i], 0);
    }
}

#[test]
fn barrett_reduce_known_values() {
    assert_eq!(barrett_reduce(0), 0);
    assert_eq!(barrett_reduce(3328), 3328);
    assert_eq!(barrett_reduce(3329), 0);
    assert_eq!(barrett_reduce(-1), 3328);
    assert_eq!(barrett_reduce(-32768), 522);
    assert_eq!(barrett_reduce(32767), 2806);
    for x in [-32768i16, -6658, -1, 0, 1, 3328, 3329, 6657, 32767] {
        assert_eq!(barrett_reduce(x) as i64, (x as i64).rem_euclid(Q));
    }
}

#[test]
fn montgomery_reduce_congruence() {
    for &a in &[0i32, 1, -1, 3329, -3329, 65536, 109_084_671, -109_084_671] {
        let r = montgomery_reduce(a) as i64;
        assert!((r * 65536 - a as i64) % Q == 0);
        assert!(-Q < r && r < Q);
    }
    // fqmul(a, b) * 2^16 is congruent to a * b.
    let r = fqmul(1234, 2345) as i64;
    assert_eq!((r * 65536).rem_euclid(Q), (1234i64 * 2345).rem_euclid(Q));
}

#[test]
fn add_reduce_homomorphism() {
    let mut r = poly_from_fn(|i| ((i as i64 * 13) % Q) as i16);
    let a = r.coeffs.clone();
    let b = poly_from_fn(|i| ((i as i64 * 29 + 2500) % Q) as i16);
    poly_add(&mut r, &b);
    for i in 0..256 {
        assert_eq!(r.coeffs[i] as i64, a[i] as i64 + b.coeffs[i] as i64);
    }
    poly_reduce(&mut r);
    for i in 0..256 {
        assert_eq!(r.coeffs[i] as i64, (a[i] as i64 + b.coeffs[i] as i64) % Q);
    }
}

#[test]
fn sub_computes_a_minus_r() {
    let mut r = poly_from_fn(|i| (i as i64 % Q) as i16);
    let orig = r.coeffs.clone();
    let a = poly_from_fn(|i| ((i as i64 * 3 + 7) % Q) as i16);
    poly_sub(&mut r, &a);
    for i in 0..256 {
        assert_eq!(
            r.coeffs[i] as i64,
            a.coeffs[i] as i64 - orig[i] as i64,
            "asymmetric argument order: result must be a - r"
        );
    }
}

#[test]
fn tomont_scales_by_two_to_sixteen() {
    let mut r = poly_from_fn(|i| ((i as i64 * 511) % Q) as i16);
    let orig = r.coeffs.clone();
    poly_tomont(&mut r);
    for i in 0..256 {
        let got = r.coeffs[i] as i64;
        assert!((got - orig[i] as i64 * 65536) % Q == 0);
        assert!(-Q < got && got < Q);
    }
}

#[test]
fn zetas_match_root_powers() {
    // Independent recomputation: zetas[k] == 17^bitrev7(k) * 2^16 mod q.
    let z = zetas();
    assert_eq!(z.len(), 128);
    for k in 0..128usize {
        let mut e = 0usize;
        for b in 0..7 {
            if k & (1 << b) != 0 {
                e |= 64 >> b;
            }
        }
        let mut acc: i64 = 1;
        for _ in 0..e {
            acc = acc * 17 % Q;
        }
        let want = acc * 65536 % Q;
        assert_eq!(z[k] as i64, want, "twiddle index {}", k);
    }
}

#[test]
fn ntt_invntt_roundtrip_scales_by_montgomery_constant() {
    // P: invntt_tomont(ntt(p)) == p * 2^16 mod q, coefficient-wise.
    let p = lcg_poly(42, Q);
    let mut r = poly_from_fn(|i| p.coeffs[i]);
    poly_ntt(&mut r);
    for i in 0..256 {
        assert!(0 <= r.coeffs[i] && (r.coeffs[i] as i64) < Q);
    }
    poly_invntt_tomont(&mut r);
    for i in 0..256 {
        let got = (r.coeffs[i] as i64).rem_euclid(Q);
        let want = (p.coeffs[i] as i64 * 65536).rem_euclid(Q);
        assert_eq!(got, want, "coefficient {}", i);
    }
}

/// Naive negacyclic convolution modulo q, the multiplication oracle.
fn naive_negacyclic_mul(a: &Poly, b: &Poly) -> Vec<i64> {
    let mut c = vec![0i64; 256];
    for i in 0..256 {
        for j in 0..256 {
            let prod = a.coeffs[i] as i64 * b.coeffs[j] as i64 % Q;
            let k = (i + j) % 256;
            if i + j < 256 {
                c[k] = (c[k] + prod).rem_euclid(Q);
            } else {
                c[k] = (c[k] - prod).rem_euclid(Q);
            }
        }
    }
    c
}

#[test]
fn basemul_matches_naive_convolution() {
    // P: invntt_tomont(basemul(ntt(a), ntt(b))) equals the negacyclic
    // convolution of a and b modulo q (the Montgomery factors of the
    // pointwise multiplication and of the inverse transform cancel).
    let a = lcg_poly(7, 5);
    let b = lcg_poly(99, 5);
    let want = naive_negacyclic_mul(&a, &b);
    let mut ahat = poly_from_fn(|i| a.coeffs[i]);
    let mut bhat = poly_from_fn(|i| b.coeffs[i]);
    poly_ntt(&mut ahat);
    poly_ntt(&mut bhat);
    let mut r = Poly::new();
    poly_basemul(&mut r, &ahat, &bhat);
    poly_invntt_tomont(&mut r);
    for i in 0..256 {
        assert_eq!(
            (r.coeffs[i] as i64).rem_euclid(Q),
            want[i],
            "coefficient {}",
            i
        );
    }
}

#[test]
fn cbd_known_buffers() {
    // All-zero randomness gives the zero polynomial.
    let mut p = Poly::new();
    poly_cbd_eta2(&mut p, &vec![0u8; 128]);
    assert!(p.coeffs.iter().all(|&c| c == 0));
    poly_cbd_eta1(&mut p, &vec![0u8; 192]);
    assert!(p.coeffs.iter().all(|&c| c == 0));
    // A single low bit set gives +1 in the first coefficient only.
    let mut buf2 = vec![0u8; 128];
    buf2[0] = 1;
    poly_cbd_eta2(&mut p, &buf2);
    assert_eq!(p.coeffs[0], 1);
    assert!(p.coeffs[1..].iter().all(|&c| c == 0));
    // Bit 2 is the first negative-side bit at eta 2.
    let mut buf2n = vec![0u8; 128];
    buf2n[0] = 4;
    poly_cbd_eta2(&mut p, &buf2n);
    assert_eq!(p.coeffs[0], -1);
    // At eta 3, bits 0..2 count up and bits 3..5 count down.
    let mut buf3 = vec![0u8; 192];
    buf3[0] = 0b0000_0111;
    poly_cbd_eta1(&mut p, &buf3);
    assert_eq!(p.coeffs[0], 3);
    buf3[0] = 0b0011_1000;
    poly_cbd_eta1(&mut p, &buf3);
    assert_eq!(p.coeffs[0], -3);
}

#[test]
fn getnoise_is_deterministic_and_nonce_sensitive() {
    let seed: Vec<u8> = (0..KYBER_SYM_BYTES).map(|i| i as u8).collect();
    let mut p1 = Poly::new();
    let mut p2 = Poly::new();
    let mut p3 = Poly::new();
    poly_getnoise_eta1(&mut p1, &seed, 0);
    poly_getnoise_eta1(&mut p2, &seed, 0);
    poly_getnoise_eta1(&mut p3, &seed, 1);
    assert_eq!(p1.coeffs, p2.coeffs);
    assert_ne!(p1.coeffs, p3.coeffs);
    assert!(p1.coeffs.iter().any(|&c| c != 0));
    assert!(p1.coeffs.iter().all(|&c| -3 <= c && c <= 3));
    let mut p4 = Poly::new();
    let mut p5 = Poly::new();
    poly_getnoise_eta2(&mut p4, &seed, 0);
    poly_getnoise_eta2(&mut p5, &seed, 0);
    assert_eq!(p4.coeffs, p5.coeffs);
    assert!(p4.coeffs.iter().any(|&c| c != 0));
    assert!(p4.coeffs.iter().all(|&c| -2 <= c && c <= 2));
    // The two samplers read different-length expansions and differ.
    assert_ne!(p1.coeffs, p4.coeffs);
}
