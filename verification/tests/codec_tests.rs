//! Serialization, compression and message-codec behaviour on concrete values.

use kyber_poly::codec::{poly_frombytes, poly_tobytes};
use kyber_poly::compress::{poly_compress, poly_compress_checked, poly_decompress,
    poly_decompress_checked};
use kyber_poly::msg::{poly_frommsg, poly_tomsg};
use kyber_poly::params::{COMPRESSED_BYTES_D4, COMPRESSED_BYTES_D5, KYBER_MSG_BYTES,
    KYBER_POLY_BYTES};
use kyber_poly::poly::Poly;

const Q: i64 = 3329;

fn poly_from_fn(f: impl Fn(usize) -> i16) -> Poly {
    let mut p = Poly::new();
    for i in 0..256 {
        p.coeffs[i] = f(i);
    }
    p
}

#[test]
fn tobytes_frombytes_roundtrip() {
    let p = poly_from_fn(|i| ((i as i64 * 7 + 1) % Q) as i16);
    let bytes = poly_tobytes(&p);
    assert_eq!(bytes.len(), KYBER_POLY_BYTES);
    let mut r = Poly::new();
    poly_frombytes(&mut r, &bytes);
    for i in 0..256 {
        assert_eq!(r.coeffs[i], p.coeffs[i]);
    }
}

#[test]
fn tobytes_roundtrip_edge_values() {
    let mut p = Poly::new();
    p.coeffs[0] = 0;
    p.coeffs[1] = 3328;
    p.coeffs[2] = 1;
    p.coeffs[255] = 3328;
    let bytes = poly_tobytes(&p);
    let mut r = Poly::new();
    poly_frombytes(&mut r, &bytes);
    for i in 0..256 {
        assert_eq!(r.coeffs[i], p.coeffs[i]);
    }
}

#[test]
fn tobytes_exact_layout() {
    // Coefficients 1 and 2 pack as 0x001 and 0x002, 12 bits each, low first.
    let mut p = Poly::new();
    p.coeffs[0] = 1;
    p.coeffs[1] = 2;
    let bytes = poly_tobytes(&p);
    assert_eq!(bytes[0], 1);
    assert_eq!(bytes[1], 0x20);
    assert_eq!(bytes[2], 0);
    assert!(bytes[3..].iter().all(|&b| b == 0));
}

#[test]
fn compress_decompress_exact_values() {
    // compress4(1664) == round(16 * 1664 / q) == 8; decompress4(8) == 1665.
    let p = poly_from_fn(|_| 1664);
    let c = poly_compress(&p, 128);
    assert_eq!(c[0], 8 | (8 << 4));
    let mut r = Poly::new();
    poly_decompress(&mut r, &c);
    assert_eq!(r.coeffs[0], 1665);
    // compress5(1664) == round(32 * 1664 / q) == 16; decompress5(16) == 1665.
    let c5 = poly_compress(&p, 160);
    assert_eq!(c5[0] & 31, 16);
    let mut r5 = Poly::new();
    poly_decompress(&mut r5, &c5);
    assert_eq!(r5.coeffs[0], 1665);
}

#[test]
fn tobytes_canonicalizes_negative_representatives() {
    // -1 and 3328 are the same residue; serialization must agree on them.
    let neg = poly_from_fn(|_| -1);
    let pos = poly_from_fn(|_| 3328);
    assert_eq!(poly_tobytes(&neg), poly_tobytes(&pos));
}

#[test]
fn frombytes_stays_below_4096() {
    let bytes: Vec<u8> = (0..384).map(|i| (i * 37 % 256) as u8).collect();
    let mut r = Poly::new();
    poly_frombytes(&mut r, &bytes);
    for i in 0..256 {
        assert!(0 <= r.coeffs[i] && r.coeffs[i] < 4096);
    }
}

#[test]
fn compress_zero_roundtrips_both_widths() {
    for &w in &[COMPRESSED_BYTES_D4, COMPRESSED_BYTES_D5] {
        let p = Poly::new();
        let c = poly_compress(&p, w);
        assert_eq!(c.len(), w);
        assert!(c.iter().all(|&b| b == 0));
        let mut r = Poly::new();
        poly_decompress(&mut r, &c);
        for i in 0..256 {
            assert_eq!(r.coeffs[i], 0);
        }
    }
}

#[test]
fn compress_matches_rounded_division_everywhere() {
    // The fixed-point multiplier must agree with true rounded division for
    // every canonical coefficient, at both widths.
    for x in 0..3329i64 {
        let p = poly_from_fn(|_| x as i16);
        let c4 = poly_compress(&p, 128);
        let want4 = (((x * 16 + 1664) / Q) % 16) as u8;
        assert_eq!(c4[0] & 15, want4, "width 4, x = {}", x);
        let c5 = poly_compress(&p, 160);
        let want5 = (((x * 32 + 1664) / Q) % 32) as u8;
        assert_eq!(c5[0] & 31, want5, "width 5, x = {}", x);
    }
}

#[test]
fn compress_error_bound_both_widths() {
    for x in 0..3329i64 {
        let p = poly_from_fn(|_| x as i16);
        for &(w, bound) in &[(128usize, 105i64), (160usize, 53i64)] {
            let c = poly_compress(&p, w);
            let mut r = Poly::new();
            poly_decompress(&mut r, &c);
            let z = r.coeffs[0] as i64;
            let d1 = (z - x).rem_euclid(Q);
            let d2 = (x - z).rem_euclid(Q);
            assert!(
                d1 <= bound || d2 <= bound,
                "width {}: x = {}, z = {}",
                w,
                x,
                z
            );
        }
    }
}

#[test]
fn decompress_compress_is_identity_on_grid() {
    // Decompressed values are exact grid points: recompressing returns the
    // original compressed bytes, so decompress-compress round-trips fix them.
    for &w in &[128usize, 160usize] {
        let bytes: Vec<u8> = (0..w).map(|i| (i * 89 + 3) as u8).collect();
        let mut p = Poly::new();
        poly_decompress(&mut p, &bytes);
        let again = poly_compress(&p, w);
        assert_eq!(again, bytes);
        let mut p2 = Poly::new();
        poly_decompress(&mut p2, &again);
        for i in 0..256 {
            assert_eq!(p2.coeffs[i], p.coeffs[i]);
        }
    }
}

#[test]
fn unsupported_width_is_rejected() {
    let p = Poly::new();
    for &w in &[0usize, 96, 127, 129, 159, 161, 192, 384] {
        assert!(poly_compress_checked(&p, w).is_none());
        let buf = vec![0u8; w];
        assert!(poly_decompress_checked(&buf).is_none());
    }
    assert!(poly_compress_checked(&p, 128).is_some());
    assert!(poly_compress_checked(&p, 160).is_some());
    assert!(poly_decompress_checked(&vec![0u8; 128]).is_some());
    assert!(poly_decompress_checked(&vec![0u8; 160]).is_some());
}

#[test]
fn message_roundtrip_zero_noise() {
    let msgs: [Vec<u8>; 3] = [
        vec![0u8; KYBER_MSG_BYTES],
        vec![0xFFu8; KYBER_MSG_BYTES],
        (0..KYBER_MSG_BYTES).map(|i| (i * 41 + 5) as u8).collect(),
    ];
    for m in msgs.iter() {
        let mut p = Poly::new();
        poly_frommsg(&mut p, m);
        for i in 0..256 {
            assert!(p.coeffs[i] == 0 || p.coeffs[i] == 1665);
        }
        let out = poly_tomsg(&p);
        assert_eq!(&out, m);
    }
}

#[test]
fn message_roundtrip_bounded_noise() {
    let m: Vec<u8> = (0..32).map(|i| (i * 123 + 7) as u8).collect();
    let mut p = Poly::new();
    poly_frommsg(&mut p, &m);
    // Perturb every coefficient by the worst tolerated noise, alternating
    // sign, reduced to the canonical range.
    for i in 0..256 {
        let e: i64 = if i % 2 == 0 { 831 } else { -831 };
        let c = (p.coeffs[i] as i64 + e).rem_euclid(Q);
        p.coeffs[i] = c as i16;
    }
    let out = poly_tomsg(&p);
    assert_eq!(out, m);
}

#[test]
fn tomsg_decision_boundaries() {
    let mut p = Poly::new();
    p.coeffs[0] = 832;
    p.coeffs[1] = 833;
    p.coeffs[2] = 2496;
    p.coeffs[3] = 2497;
    p.coeffs[4] = 0;
    p.coeffs[5] = 1665;
    p.coeffs[6] = 3328;
    let out = poly_tomsg(&p);
    assert_eq!(out[0] & 1, 0);
    assert_eq!((out[0] >> 1) & 1, 1);
    assert_eq!((out[0] >> 2) & 1, 1);
    assert_eq!((out[0] >> 3) & 1, 0);
    assert_eq!((out[0] >> 4) & 1, 0);
    assert_eq!((out[0] >> 5) & 1, 1);
    assert_eq!((out[0] >> 6) & 1, 0);
}
