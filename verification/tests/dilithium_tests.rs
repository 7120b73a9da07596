use pqkms::dilithium::keys::keygen;
use pqkms::dilithium::params::DilithiumParams;
use pqkms::dilithium::poly::Polynomial;
use pqkms::dilithium::sign::{hash_poly_and_message, rejection_sample, sign_message};
use pqkms::dilithium::verify::verify_signature;

#[test]
fn test_toy_scheme_round_trip() {
    let params = DilithiumParams::default();
    let (pk, sk) = keygen(&params);
    assert_eq!(pk.poly.coeff.len(), params.n);
    assert_eq!(sk.poly.coeff.len(), params.n);
    for c in pk.poly.coeff.iter() {
        assert!(0 <= *c && *c < params.q);
    }
    for c in sk.poly.coeff.iter() {
        assert!(-params.eta <= *c && *c <= params.eta);
    }

    let msg = b"toy message";
    let sig = sign_message(&sk, msg, &params);
    assert_eq!(sig.z.coeff.len(), params.n);
    assert_eq!(sig.c.len(), 32);
    for c in sig.z.coeff.iter() {
        assert!(0 <= *c && *c < params.q);
    }

    assert!(verify_signature(&pk, msg, &sig, &params));
    assert!(!verify_signature(&pk, b"other message", &sig, &params));
}

#[test]
fn test_polynomial_new_is_zero() {
    let p = Polynomial::new(5);
    assert_eq!(p.coeff, vec![0i64; 5]);
}

#[test]
fn test_polynomial_mul_exact() {
    // In a ring of size 2 modulo 17: cell 0 collects a0*b0 + a1*b1 and
    // cell 1 collects a0*b1 + a1*b0.
    let params = DilithiumParams { k: 1, l: 1, n: 2, q: 17, eta: 2 };
    let a = Polynomial { coeff: vec![1, 2] };
    let b = Polynomial { coeff: vec![3, 4] };
    let r = a.mul(&b, &params);
    assert_eq!(r.coeff, vec![11, 10]);

    // Negative coefficients reduce to the least non-negative residue.
    let c = Polynomial { coeff: vec![-1, 0] };
    let d = Polynomial { coeff: vec![5, 0] };
    let r2 = c.mul(&d, &params);
    assert_eq!(r2.coeff, vec![12, 0]);
}

#[test]
fn test_challenge_hash_known_vector() {
    // With no coefficients and an empty message the challenge digest is
    // the first 32 bytes of SHAKE256 of the empty string.
    let empty = Polynomial::new(0);
    let digest = hash_poly_and_message(&empty, b"");
    let expected: [u8; 32] = [
        0x46, 0xb9, 0xdd, 0x2b, 0x0b, 0xa8, 0x8d, 0x13, 0x23, 0x3b, 0x3f, 0xeb, 0x74, 0x3e,
        0xeb, 0x24, 0x3f, 0xcd, 0x52, 0xea, 0x62, 0xb8, 0x1b, 0x82, 0xb5, 0x0c, 0x27, 0x64,
        0x6e, 0xd5, 0x76, 0x2f,
    ];
    assert_eq!(digest, expected.to_vec());

    // The digest depends on the absorbed bytes.
    let other = hash_poly_and_message(&empty, b"x");
    assert_ne!(other, expected.to_vec());
}

#[test]
fn test_rejection_sample_accepts() {
    let params = DilithiumParams::default();
    let p = Polynomial::new(params.n);
    assert!(rejection_sample(&p, &params));
}
