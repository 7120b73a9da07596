//! Verification in the toy scheme: recompute the challenge digest and
//! compare it to the one carried by the signature.

use vstd::prelude::*;
use crate::dilithium::params::DilithiumParams;
use crate::dilithium::keys::PublicKey;
use crate::dilithium::sign::{Signature, hash_poly_and_message, hash_input, shake256_32_of};

verus! {

/// Byte-for-byte equality of two byte strings.
pub fn bytes_eq(a: &[u8], b: &[u8]) -> (r: bool)
    ensures
        r == (a@ == b@),
{
    if a.len() != b.len() {
        proof {
            assert(a@.len() != b@.len());
        }
        return false;
    }
    let mut i: usize = 0;
    while i < a.len()
        invariant
            a@.len() == b@.len(),
            i <= a@.len(),
            forall|j: int| 0 <= j < i ==> a@[j] == b@[j],
        decreases a@.len() - i,
    {
        if a[i] != b[i] {
            return false;
        }
        i = i + 1;
    }
    proof {
        assert(a@ =~= b@);
    }
    true
}

/// Check a signature against a message: true exactly when the carried
/// challenge digest matches the one recomputed from `z` and the message.
/// The toy scheme's check does not consult the public key.
pub fn verify_signature(
    _pk: &PublicKey,
    message: &[u8],
    sig: &Signature,
    _params: &DilithiumParams,
) -> (r: bool)
    ensures
        r == (shake256_32_of(hash_input(sig.z.coeff@, message@)) == sig.c@),
{
    let c_recomputed = hash_poly_and_message(&sig.z, message);
    bytes_eq(c_recomputed.as_slice(), sig.c.as_slice())
}

} // verus!
