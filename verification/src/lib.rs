//! Key-lifecycle management for a post-quantum signing service.
//!
//! The crate manages versioned key material with an append-only history
//! (`store`), policy-gated rotation (`rotate`), entropy-gated admission of
//! new material (`entropy`, `keygen`), TTL-driven ephemeral secrets
//! (`ephemeral`), and an append-only audit trail (`audit`).  A toy
//! lattice-based signature sketch lives in `dilithium`; the production
//! signing path (`signer`, `api`) rides on the `pqcrypto` crates.

pub mod errors;
pub mod config;
pub mod time;
pub mod random;
pub mod entropy;
pub mod store;
pub mod audit;
pub mod rotate;
pub mod ephemeral;
pub mod keygen;
pub mod dilithium;
pub mod signer;
pub mod api;
