//! Parameter set of the toy lattice scheme.

use vstd::prelude::*;

verus! {

/// Ring and sampling parameters: `n` coefficients per polynomial, modulus
/// `q`, and secret coefficients drawn from `[-eta, eta]`.
#[derive(Clone, Copy, Debug)]
pub struct DilithiumParams {
    pub k: usize,
    pub l: usize,
    pub n: usize,
    pub q: i64,
    pub eta: i64,
}

impl DilithiumParams {
    /// Usable parameters: a non-trivial ring of bounded size, a positive
    /// modulus that fits the fixed-width arithmetic, and a non-negative
    /// sampling bound below the modulus.
    pub open spec fn wf(self) -> bool {
        &&& 0 < self.n <= 0x10000
        &&& 1 <= self.q <= 0x8000_0000
        &&& 0 <= self.eta < self.q
    }

    /// The default parameter values.
    pub open spec fn spec_default() -> DilithiumParams {
        DilithiumParams { k: 4, l: 4, n: 256, q: 8380417, eta: 2 }
    }
}

impl Default for DilithiumParams {
    /// The standard toy parameter set.
    fn default() -> (r: Self)
        ensures
            r == DilithiumParams::spec_default(),
            r.wf(),
    {
        DilithiumParams { k: 4, l: 4, n: 256, q: 8380417, eta: 2 }
    }
}

} // verus!
