//! Secure randomness for key material generation.
//!
//! Fresh key bytes come from the operating system (via `getrandom`) or the
//! thread-local generator (via `rand`).  The wrappers promise nothing about
//! the values drawn — every caller is verified for every possible outcome —
//! only about lengths and ranges, which the crates' documentation states.

use vstd::prelude::*;
use crate::errors::KmsError;

verus! {

/// The error type of the `getrandom` crate, opaque to the verifier.
#[verifier::external_type_specification]
#[verifier::external_body]
pub struct ExGetrandomError(getrandom::Error);

/// Relies on `getrandom::fill`: on success the whole buffer is filled with
/// bytes from the operating system's secure source.
#[verifier::external_body]
fn os_fill_bytes(len: usize) -> (r: Result<Vec<u8>, getrandom::Error>)
    ensures
        r matches Ok(v) ==> v@.len() == len,
{
    let mut buf = vec![0u8; len];
    match getrandom::fill(&mut buf) {
        Ok(()) => Ok(buf),
        Err(e) => Err(e),
    }
}

/// `len` bytes from the operating system's secure randomness source, or
/// `RandomGenerationFailure` when the source is unavailable.
pub fn secure_random_bytes(len: usize) -> (r: Result<Vec<u8>, KmsError>)
    ensures
        r matches Ok(v) ==> v@.len() == len,
        r matches Err(e) ==> e == KmsError::RandomGenerationFailure,
{
    match os_fill_bytes(len) {
        Ok(v) => Ok(v),
        Err(_) => Err(KmsError::RandomGenerationFailure),
    }
}

/// Relies on `rand::fill`: fills the slice from the thread-local generator,
/// which reseeds itself from the operating system and aborts only if that
/// source is unavailable.
#[verifier::external_body]
pub(crate) fn thread_random_bytes(len: usize) -> (r: Vec<u8>)
    ensures
        r@.len() == len,
{
    let mut buf = vec![0u8; len];
    rand::fill(&mut buf[..]);
    buf
}

/// Relies on `rand::random_range`: a sample from the inclusive range
/// `lo..=hi`, uniformly distributed; panics only on an empty range, which
/// the precondition rules out.
#[verifier::external_body]
pub(crate) fn random_i64_inclusive(lo: i64, hi: i64) -> (r: i64)
    requires
        lo <= hi,
    ensures
        lo <= r <= hi,
{
    rand::random_range(lo..=hi)
}

} // verus!
