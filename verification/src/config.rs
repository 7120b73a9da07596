//! Tunable policy knobs of the key-management core.

use vstd::prelude::*;

verus! {

/// Admission threshold for new key material, in millibits of Shannon
/// entropy per byte (7.5 bits/byte).
pub const MIN_ENTROPY_MILLIBITS: u32 = 7500;

/// Default policy interval between rotations of one key, in days.
pub const ROTATION_INTERVAL_DAYS: i64 = 30;

/// Default time-to-live of an ephemeral secret, in seconds (24 hours).
pub const EPHEMERAL_TTL_SECONDS: i64 = 86400;

/// Default length of freshly generated key material, in bytes.
///
/// The Shannon score of an n-byte sample can never exceed log2(n) bits per
/// byte, so the sample must comfortably exceed 182 bytes for the default
/// 7.5 bits/byte gate to be reachable at all; 1024 random bytes score about
/// 7.8 bits/byte.
pub const MATERIAL_LEN: usize = 1024;

/// Configuration consulted by the key-creating components.
#[derive(Clone, Copy, Debug)]
pub struct KmsConfig {
    /// Admission threshold in millibits of Shannon entropy per byte.
    pub min_entropy_millibits: u32,
    /// Days that must elapse between unforced rotations of one key.
    pub rotation_interval_days: i64,
    /// Age in seconds past which an ephemeral secret is regenerated.
    pub ephemeral_ttl_seconds: i64,
    /// Length in bytes of freshly generated key material.
    pub material_len: usize,
}

impl KmsConfig {
    /// A configuration is usable when its numeric knobs are non-negative and
    /// the material length is within the entropy scorer's input bound.
    pub open spec fn wf(self) -> bool {
        &&& self.rotation_interval_days >= 0
        &&& self.ephemeral_ttl_seconds >= 0
        &&& 0 < self.material_len < 0x1_0000_0000
    }
}

impl KmsConfig {
    /// The default policy values.
    pub open spec fn spec_default() -> KmsConfig {
        KmsConfig {
            min_entropy_millibits: MIN_ENTROPY_MILLIBITS,
            rotation_interval_days: ROTATION_INTERVAL_DAYS,
            ephemeral_ttl_seconds: EPHEMERAL_TTL_SECONDS,
            material_len: MATERIAL_LEN,
        }
    }
}

impl Default for KmsConfig {
    /// The default policy: 7.5 bits/byte admission gate, 30-day rotation
    /// interval, 24-hour ephemeral TTL, 1024-byte generated material.
    fn default() -> (r: Self)
        ensures
            r == KmsConfig::spec_default(),
            r.wf(),
    {
        KmsConfig {
            min_entropy_millibits: MIN_ENTROPY_MILLIBITS,
            rotation_interval_days: ROTATION_INTERVAL_DAYS,
            ephemeral_ttl_seconds: EPHEMERAL_TTL_SECONDS,
            material_len: MATERIAL_LEN,
        }
    }
}

} // verus!
