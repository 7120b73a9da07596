//! Error taxonomy of the key-management core.
//!
//! Policy and validation failures are decided and returned without any
//! mutation of dependent state.  The in-memory core holds each component
//! behind a single consistency boundary, so the lock-acquisition failures
//! of a shared-state deployment do not arise here; serializing access is
//! the embedding application's concern.

use vstd::prelude::*;

verus! {

/// Why a key-management operation was refused.
#[derive(Clone, Copy, Debug, PartialEq, Eq, Structural)]
pub enum KmsError {
    /// The key id is unknown to the store.
    NotFound,
    /// The rotation policy gate refused the request; carries the number of
    /// whole days remaining until rotation becomes due.
    RotationNotDue(i64),
    /// Candidate material scored below the admission threshold; carries the
    /// measured score in millibits of Shannon entropy per byte.
    InsufficientEntropy(u32),
    /// The key id is already present and the store refuses to overwrite a
    /// live version history.
    KeyExists,
    /// The secure randomness source failed to produce material.
    RandomGenerationFailure,
    /// The version counter cannot be incremented further.
    VersionOverflow,
}

impl KmsError {
    /// A short human-readable description of the error.
    pub fn message(&self) -> (r: &'static str)
    {
        match self {
            KmsError::NotFound => "Key not found",
            KmsError::RotationNotDue(_) => "Key rotation not yet due",
            KmsError::InsufficientEntropy(_) => "Insufficient entropy in generated key",
            KmsError::KeyExists => "Key already exists",
            KmsError::RandomGenerationFailure => "Failed to generate random data",
            KmsError::VersionOverflow => "Key version counter exhausted",
        }
    }
}

} // verus!
