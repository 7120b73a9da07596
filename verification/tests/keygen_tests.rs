use pqkms::entropy::entropy_millibits;
use pqkms::keygen::{KeyGenerator, KeygenError};

#[test]
fn test_keypair_generation() {
    let mut keygen = KeyGenerator::new();

    // An n-byte sample scores at most log2(n) bits/byte, so 32-byte
    // material can never reach the 7.5 bits/byte gate: the request is
    // accepted but its material always fails validation.
    let result = keygen.generate_keypair(32);
    assert!(matches!(result, Err(KeygenError::InsufficientEntropy)));

    // A size whose material can reach the threshold succeeds.
    let result = keygen.generate_keypair(1024);
    assert!(result.is_ok());

    let keypair = result.unwrap();
    assert_eq!(keypair.public_key.len(), 1024);
    assert_eq!(keypair.private_key.len(), 1024);
}

#[test]
fn test_entropy_validation() {
    let keygen = KeyGenerator::new();

    // Test low entropy data
    let low_entropy = vec![0u8; 32];
    assert!(!keygen.validate_entropy(&low_entropy));

    // 32 random bytes top out at 5 bits/byte, below the 7.5 gate.
    let mut short_sample = vec![0u8; 32];
    rand::fill(&mut short_sample[..]);
    assert!(!keygen.validate_entropy(&short_sample));

    // Test high entropy data
    let mut high_entropy = vec![0u8; 1024];
    rand::fill(&mut high_entropy[..]);
    assert!(keygen.validate_entropy(&high_entropy));

    // The boundary itself is admitted: a perfectly uniform histogram
    // scores exactly 8 bits/byte.
    let mut uniform = Vec::new();
    for i in 0..1024usize {
        uniform.push((i % 256) as u8);
    }
    assert!(keygen.validate_entropy(&uniform));
}

#[test]
fn test_invalid_key_sizes_refused() {
    let mut keygen = KeyGenerator::new();
    assert!(matches!(keygen.generate_keypair(0), Err(KeygenError::InvalidKeySize)));
    assert!(matches!(keygen.generate_keypair(1025), Err(KeygenError::InvalidKeySize)));
    assert!(keygen.generate_keypair(1024).is_ok());
}

#[test]
fn test_public_key_is_wrapped_increment() {
    let mut keygen = KeyGenerator::new();
    let kp = keygen.generate_keypair(1024).unwrap();
    assert_eq!(kp.public_key.len(), kp.private_key.len());
    for (p, s) in kp.public_key.iter().zip(kp.private_key.iter()) {
        assert_eq!(*p, s.wrapping_add(1));
    }
}

#[test]
fn test_entropy_exact_values() {
    // Exact millibit scores of small hand-built histograms.
    assert_eq!(entropy_millibits(&[]), 0);
    assert_eq!(entropy_millibits(&[0u8; 32]), 0);
    // Two distinct bytes: 1 bit/byte.
    assert_eq!(entropy_millibits(&[0u8, 1u8]), 1000);
    // Four distinct bytes: 2 bits/byte.
    assert_eq!(entropy_millibits(&[0u8, 1u8, 2u8, 3u8]), 2000);
    // Two values twice each over four bytes: 1 bit/byte.
    assert_eq!(entropy_millibits(&[5u8, 5u8, 9u8, 9u8]), 1000);
    // All 256 values once: 8 bits/byte, the top of the scale.
    let mut all = Vec::new();
    for i in 0..256usize {
        all.push(i as u8);
    }
    assert_eq!(entropy_millibits(&all), 8000);
}
