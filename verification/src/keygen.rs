//! Entropy-gated generation of raw keypairs.
//!
//! The generator fills a secret key with thread-local randomness, validates
//! its Shannon score against the global 7.5 bits/byte admission gate, and
//! derives a toy public key by incrementing each byte.  Because an n-byte
//! sample can never score above log2(n) bits per byte, only keys of at
//! least 182 bytes can ever reach the threshold; shorter requests are
//! accepted as input but their material always fails validation.

use vstd::prelude::*;
use crate::entropy::{entropy_millibits, entropy_millibits_spec};
use crate::config::MIN_ENTROPY_MILLIBITS;
use crate::random::thread_random_bytes;

verus! {

/// Why keypair generation was refused.
#[derive(Clone, Copy, Debug, PartialEq, Eq, Structural)]
pub enum KeygenError {
    /// The generated material scored below the validation threshold.
    InsufficientEntropy,
    /// The requested key size is zero or above the supported maximum.
    InvalidKeySize,
    /// Reserved for randomness sources that report failure; the
    /// thread-local source aborts instead of reporting.
    RandomGenerationFailed,
}

/// A raw keypair: opaque byte strings.
#[derive(Debug)]
pub struct KeyPair {
    pub public_key: Vec<u8>,
    pub private_key: Vec<u8>,
}

/// A sample passes validation when it is non-empty and scores at or above
/// the global 7.5 bits/byte admission threshold; scores below it are
/// rejected and the threshold itself is admitted.
pub open spec fn validate_entropy_spec(data: Seq<u8>) -> bool {
    data.len() > 0 && entropy_millibits_spec(data) >= MIN_ENTROPY_MILLIBITS as int
}

/// The toy public-key derivation: each secret byte incremented, wrapping.
pub open spec fn wrap_inc(b: u8) -> u8 {
    if b == 255 {
        0
    } else {
        (b + 1) as u8
    }
}

/// Generator of entropy-validated raw keypairs, drawing from the
/// thread-local randomness source.
pub struct KeyGenerator {}

impl KeyGenerator {
    /// A fresh generator.
    pub fn new() -> (r: KeyGenerator) {
        KeyGenerator {}
    }

    /// Whether a byte sample passes the 7.5 bits/byte entropy validation.
    pub fn validate_entropy(&self, data: &[u8]) -> (r: bool)
        requires
            data@.len() < 0x1_0000_0000,
        ensures
            r == validate_entropy_spec(data@),
    {
        if data.len() == 0 {
            return false;
        }
        let score = entropy_millibits(data);
        score >= MIN_ENTROPY_MILLIBITS
    }

    /// Generate a keypair of the requested size.
    ///
    /// Sizes of zero or above 1024 bytes are refused outright; generated
    /// material that fails entropy validation is discarded and reported as
    /// `InsufficientEntropy`.  On success the secret key has the requested
    /// size and the public key is its byte-wise wrapped increment.
    pub fn generate_keypair(&mut self, key_size: usize) -> (r: Result<KeyPair, KeygenError>)
        ensures
            (r == Err::<KeyPair, KeygenError>(KeygenError::InvalidKeySize)) <==> (key_size == 0
                || key_size > 1024),
            r matches Err(e) ==> (e == KeygenError::InvalidKeySize || e
                == KeygenError::InsufficientEntropy),
            r matches Ok(kp) ==> {
                &&& kp.private_key@.len() == key_size
                &&& validate_entropy_spec(kp.private_key@)
                &&& kp.public_key@ == kp.private_key@.map_values(|b: u8| wrap_inc(b))
            },
    {
        if key_size == 0 || key_size > 1024 {
            return Err(KeygenError::InvalidKeySize);
        }

        let private_key = thread_random_bytes(key_size);

        if !self.validate_entropy(private_key.as_slice()) {
            return Err(KeygenError::InsufficientEntropy);
        }

        let mut public_key: Vec<u8> = Vec::new();
        let mut i: usize = 0;
        while i < private_key.len()
            invariant
                i <= private_key@.len(),
                public_key@.len() == i,
                forall|j: int| 0 <= j < i ==> public_key@[j] == wrap_inc(private_key@[j]),
            decreases private_key@.len() - i,
        {
            let b = private_key[i];
            if b == 255 {
                public_key.push(0);
            } else {
                public_key.push(b + 1);
            }
            i = i + 1;
        }
        proof {
            assert(public_key@ =~= private_key@.map_values(|b: u8| wrap_inc(b)));
        }

        Ok(KeyPair { public_key, private_key })
    }
}

} // verus!
