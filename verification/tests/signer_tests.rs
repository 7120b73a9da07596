use pqkms::api::{handle_sign, handle_verify, public_key_response, SignRequest, Verify, VerifyRequest};
use pqkms::signer::{generate_keypair, sign_message, verify_signature};

#[test]
fn test_valid_signature() {
    let (pk, sk) = generate_keypair();
    assert_eq!(pk.len(), 1952);
    assert_eq!(sk.len(), 4032);
    let msg = b"quantum test";
    let sig = sign_message(msg, &sk);
    assert!(verify_signature(msg, &sig, &pk));
}

#[test]
fn test_signature_rejection_on_tamper() {
    let (pk, sk) = generate_keypair();
    let msg = b"legit";
    let sig = sign_message(msg, &sk);
    let fake = b"forged";
    assert!(!verify_signature(fake, &sig, &pk));
}

#[test]
fn test_invalid_base64_signature() {
    let (pk, _) = generate_keypair();
    let bad_sig = "!!!not_base64$$$";
    let valid = verify_signature(b"any", bad_sig, &pk);
    assert!(!valid);
}

#[test]
fn test_wrong_key_rejects() {
    let (_, sk) = generate_keypair();
    let (other_pk, _) = generate_keypair();
    let sig = sign_message(b"hello", &sk);
    assert!(!verify_signature(b"hello", &sig, &other_pk));
    // A key of the wrong size is refused outright.
    assert!(!verify_signature(b"hello", &sig, &[0u8; 5]));
}

#[test]
fn test_handlers_round_trip() {
    let (pk, sk) = generate_keypair();
    let pk_b64 = public_key_response(&pk).public_key;

    let signed = handle_sign(
        &sk,
        &SignRequest { message: "hello world".to_string() },
    );

    let verdict = handle_verify(&VerifyRequest {
        message: "hello world".to_string(),
        signature: signed.signature.clone(),
        pk: pk_b64.clone(),
    })
    .unwrap();
    assert!(verdict.valid);

    let tampered = handle_verify(&VerifyRequest {
        message: "hello  world".to_string(),
        signature: signed.signature,
        pk: pk_b64,
    })
    .unwrap();
    assert!(!tampered.valid);
}

#[test]
fn test_handle_verify_rejects_bad_pk_base64() {
    let r = handle_verify(&VerifyRequest {
        message: "m".to_string(),
        signature: "AAAA".to_string(),
        pk: "!!!".to_string(),
    });
    assert!(r.is_err());
}

#[test]
fn test_base64_exact_encoding() {
    // A fixed vector: [1, 2, 3] encodes to "AQID" in standard Base64.
    assert_eq!(public_key_response(&[1u8, 2u8, 3u8]).public_key, "AQID");
    assert_eq!(public_key_response(&[]).public_key, "");
}

#[test]
fn test_verify_facade() {
    let (pk, sk) = generate_keypair();
    let pk_b64 = public_key_response(&pk).public_key;

    let verifier = Verify::from_base64_pk(&pk_b64).unwrap();
    let sig = sign_message(b"payload", &sk);
    assert_eq!(verifier.verify_signature(b"payload", &sig).unwrap(), true);
    assert_eq!(verifier.verify_signature(b"other", &sig).unwrap(), false);
    assert!(verifier.verify_signature(b"payload", "###").is_err());

    // Malformed or wrong-sized keys are refused.
    assert!(Verify::from_base64_pk("!!!").is_err());
    assert!(Verify::from_base64_pk("AQID").is_err());
}
