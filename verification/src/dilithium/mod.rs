//! A toy lattice-signature sketch: ring polynomials over Z_q, ranged key
//! sampling, and a SHAKE256-based challenge hash.  It illustrates the shape
//! of the scheme; the production signing path lives in `signer`.

pub mod params;
pub mod poly;
pub mod keys;
pub mod sign;
pub mod verify;
