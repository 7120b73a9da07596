//! Ranged random sampling of the toy scheme's keypair.

use vstd::prelude::*;
use crate::dilithium::params::DilithiumParams;
use crate::dilithium::poly::Polynomial;
use crate::random::random_i64_inclusive;

verus! {

/// The public polynomial, uniform over `[0, q)`.
#[derive(Debug)]
pub struct PublicKey {
    pub poly: Polynomial,
}

/// The secret polynomial, with small coefficients in `[-eta, eta]`.
#[derive(Debug)]
pub struct SecretKey {
    pub poly: Polynomial,
}

/// Sample a keypair: `n` secret coefficients from `[-eta, eta]` and `n`
/// public coefficients from `[0, q)`.
pub fn keygen(params: &DilithiumParams) -> (r: (PublicKey, SecretKey))
    requires
        params.wf(),
    ensures
        r.0.poly.coeff@.len() == params.n,
        forall|i: int| 0 <= i < params.n ==> 0 <= #[trigger] r.0.poly.coeff@[i] < params.q,
        r.1.poly.coeff@.len() == params.n,
        forall|i: int|
            0 <= i < params.n ==> -params.eta <= #[trigger] r.1.poly.coeff@[i] <= params.eta,
{
    let n = params.n;

    let mut secret: Vec<i64> = Vec::new();
    while secret.len() < n
        invariant
            params.wf(),
            secret@.len() <= n,
            forall|i: int| 0 <= i < secret@.len() ==> -params.eta <= #[trigger] secret@[i]
                <= params.eta,
        decreases n - secret@.len(),
    {
        secret.push(random_i64_inclusive(-params.eta, params.eta));
    }

    let mut public: Vec<i64> = Vec::new();
    while public.len() < n
        invariant
            params.wf(),
            public@.len() <= n,
            forall|i: int| 0 <= i < public@.len() ==> 0 <= #[trigger] public@[i] < params.q,
        decreases n - public@.len(),
    {
        public.push(random_i64_inclusive(0, params.q - 1));
    }

    (PublicKey { poly: Polynomial { coeff: public } }, SecretKey {
        poly: Polynomial { coeff: secret },
    })
}

} // verus!
