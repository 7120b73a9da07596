//! Signing in the toy scheme: mask the secret with a fresh small
//! polynomial and bind the result to the message through SHAKE256.

use vstd::prelude::*;
use crate::dilithium::params::DilithiumParams;
use crate::dilithium::poly::{Polynomial, mod_q};
use crate::dilithium::keys::SecretKey;
use crate::random::random_i64_inclusive;
use sha3::digest::{Update, ExtendableOutput, XofReader};

verus! {

/// A signature: the masked polynomial and the 32-byte challenge digest.
#[derive(Debug)]
pub struct Signature {
    pub z: Polynomial,
    pub c: Vec<u8>,
}

/// The 32-byte SHAKE256 digest of a byte string.  Named, not defined: the
/// digest is a pure function of its input that no short formula states.
pub uninterp spec fn shake256_32_of(data: Seq<u8>) -> Seq<u8>;

/// Relies on sha3's `Shake256`: absorbing `data` and squeezing 32 bytes
/// yields the 32-byte SHAKE256 digest of `data`, a function of `data`
/// alone.
#[verifier::external_body]
fn shake256_32(data: &[u8]) -> (r: Vec<u8>)
    ensures
        r@ == shake256_32_of(data@),
        r@.len() == 32,
{
    let mut hasher = sha3::Shake256::default();
    hasher.update(data);
    let mut reader = hasher.finalize_xof();
    let mut output = vec![0u8; 32];
    reader.read(&mut output);
    output
}

/// The `i`-th little-endian byte of `x`'s two's-complement representation.
pub open spec fn le_byte_at(x: i64, i: int) -> u8
    decreases i when i >= 0
{
    if i <= 0 {
        (x as u64 % 256) as u8
    } else {
        le_byte_at(((x as u64) / 256) as i64, i - 1)
    }
}

/// The eight little-endian bytes of one coefficient.
pub open spec fn le8(x: i64) -> Seq<u8> {
    Seq::new(8, |i: int| le_byte_at(x, i))
}

/// A coefficient vector flattened to little-endian bytes, in order.
pub open spec fn coeff_bytes(coeffs: Seq<i64>) -> Seq<u8>
    decreases coeffs.len(),
{
    if coeffs.len() == 0 {
        Seq::empty()
    } else {
        coeff_bytes(coeffs.drop_last()) + le8(coeffs.last())
    }
}

proof fn lemma_le_byte_shift(v: u64, j: int)
    requires
        j >= 1,
    ensures
        le_byte_at(v as i64, j) == le_byte_at((v / 256) as i64, j - 1),
{
    assert((v as i64) as u64 == v) by (bit_vector);
    assert(((v / 256) as i64) as u64 == v / 256) by (bit_vector);
}

fn push_le8(out: &mut Vec<u8>, x: i64)
    ensures
        final(out)@ == old(out)@ + le8(x),
{
    let ghost x0 = x;
    let mut v: u64 = x as u64;
    let mut i: usize = 0;
    proof {
        assert((x0 as u64) as i64 as u64 == x0 as u64) by (bit_vector);
        assert(le_byte_at(v as i64, 0) == (v % 256) as u8) by {
            assert((v as i64) as u64 == v) by (bit_vector);
        }
    }
    while i < 8
        invariant
            i <= 8,
            out@.len() == old(out)@.len() + i,
            out@.subrange(0, old(out)@.len() as int) == old(out)@,
            forall|j: int| 0 <= j < i ==> out@[old(out)@.len() + j] == le_byte_at(x0, j),
            forall|j: int| i <= j < 8 ==> le_byte_at(x0, j) == le_byte_at(v as i64, j - i),
        decreases 8 - i,
    {
        proof {
            assert((v as i64) as u64 == v) by (bit_vector);
            assert(le_byte_at(v as i64, 0) == (v % 256) as u8);
        }
        let ghost v_old = v;
        out.push((v % 256) as u8);
        v = v / 256;
        i = i + 1;
        proof {
            assert(out@.subrange(0, old(out)@.len() as int) =~= old(out)@);
            assert(le_byte_at(x0, i - 1) == le_byte_at(v_old as i64, 0));
            assert forall|j: int| i <= j < 8 implies le_byte_at(x0, j) == le_byte_at(
                v as i64,
                j - i,
            ) by {
                lemma_le_byte_shift(v_old, j - (i - 1));
            }
        }
    }
    proof {
        assert(out@ =~= old(out)@ + le8(x0));
    }
}

/// The byte string that the challenge hash absorbs: every coefficient in
/// little-endian order, then the message.
pub open spec fn hash_input(coeffs: Seq<i64>, msg: Seq<u8>) -> Seq<u8> {
    coeff_bytes(coeffs) + msg
}

/// The challenge digest of a polynomial and a message.
pub fn hash_poly_and_message(poly: &Polynomial, message: &[u8]) -> (r: Vec<u8>)
    ensures
        r@ == shake256_32_of(hash_input(poly.coeff@, message@)),
        r@.len() == 32,
{
    let mut buf: Vec<u8> = Vec::new();
    let mut i: usize = 0;
    proof {
        assert(buf@ =~= coeff_bytes(poly.coeff@.take(0)));
    }
    while i < poly.coeff.len()
        invariant
            i <= poly.coeff@.len(),
            buf@ == coeff_bytes(poly.coeff@.take(i as int)),
        decreases poly.coeff@.len() - i,
    {
        let ghost pre = poly.coeff@.take(i as int);
        push_le8(&mut buf, poly.coeff[i]);
        proof {
            assert(poly.coeff@.take(i + 1).drop_last() =~= pre);
            assert(poly.coeff@.take(i + 1).last() == poly.coeff@[i as int]);
        }
        i = i + 1;
    }
    proof {
        assert(poly.coeff@.take(poly.coeff@.len() as int) =~= poly.coeff@);
    }
    let mut j: usize = 0;
    while j < message.len()
        invariant
            j <= message@.len(),
            buf@ == coeff_bytes(poly.coeff@) + message@.take(j as int),
        decreases message@.len() - j,
    {
        buf.push(message[j]);
        proof {
            assert(coeff_bytes(poly.coeff@) + message@.take(j + 1) =~= (coeff_bytes(poly.coeff@)
                + message@.take(j as int)).push(message@[j as int]));
        }
        j = j + 1;
    }
    proof {
        assert(buf@ =~= hash_input(poly.coeff@, message@));
    }
    shake256_32(buf.as_slice())
}

/// The rejection-sampling bound check; the toy scheme accepts every
/// candidate.
pub fn rejection_sample(_poly: &Polynomial, _params: &DilithiumParams) -> (r: bool)
    ensures
        r == true,
{
    true
}

/// Sign a message: mask the secret with a fresh polynomial of small random
/// coefficients, reduce modulo `q`, and bind the result to the message.
///
/// The returned `z` has `n` coefficients in `[0, q)` and `c` is exactly the
/// challenge digest of `z` and the message.
pub fn sign_message(sk: &SecretKey, message: &[u8], params: &DilithiumParams) -> (sig: Signature)
    requires
        params.wf(),
        sk.poly.coeff@.len() == params.n,
        forall|i: int|
            0 <= i < params.n ==> -params.eta <= #[trigger] sk.poly.coeff@[i] <= params.eta,
    ensures
        sig.z.coeff@.len() == params.n,
        forall|i: int| 0 <= i < params.n ==> 0 <= #[trigger] sig.z.coeff@[i] < params.q,
        sig.c@ == shake256_32_of(hash_input(sig.z.coeff@, message@)),
        sig.c@.len() == 32,
{
    let n = params.n;

    let mut z_coeff: Vec<i64> = Vec::new();
    let mut i: usize = 0;
    while i < n
        invariant
            params.wf(),
            n == params.n,
            sk.poly.coeff@.len() == n,
            forall|t: int|
                0 <= t < params.n ==> -params.eta <= #[trigger] sk.poly.coeff@[t] <= params.eta,
            i <= n,
            z_coeff@.len() == i,
            forall|t: int| 0 <= t < i ==> 0 <= #[trigger] z_coeff@[t] < params.q,
        decreases n - i,
    {
        let mask = random_i64_inclusive(-params.eta, params.eta);
        let z = mod_q(sk.poly.coeff[i] + mask, params.q);
        z_coeff.push(z);
        i = i + 1;
    }
    let z = Polynomial { coeff: z_coeff };

    let c = hash_poly_and_message(&z, message);

    let accepted = rejection_sample(&z, params);
    assert(accepted);

    Signature { z, c }
}

} // verus!
