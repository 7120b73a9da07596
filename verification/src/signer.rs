//! The production signing path: ML-DSA (Dilithium3) keypairs, attached
//! signatures, and Base64 transport encoding.
//!
//! The signature scheme itself is a capability supplied by the `pqcrypto`
//! crates; this module fixes what crosses the boundary — plain byte strings
//! and Base64 text — and verifies everything around the calls.

use vstd::prelude::*;
use crate::dilithium::verify::bytes_eq;

verus! {

/// Size in bytes of a Dilithium3 public key, as fixed by `pqcrypto`.
pub const DILITHIUM3_PUBLIC_KEY_BYTES: usize = 1952;

/// Size in bytes of a Dilithium3 secret key, as fixed by `pqcrypto`.
pub const DILITHIUM3_SECRET_KEY_BYTES: usize = 4032;

/// The standard padded Base64 encoding of a byte string.  Named, not
/// defined: the encoding is a pure function of its input.
pub uninterp spec fn b64_of(data: Seq<u8>) -> Seq<char>;

/// The result of standard padded Base64 decoding: the decoded bytes, or
/// `None` for text the decoder rejects.  A pure function of its input.
pub uninterp spec fn b64_decode_of(s: Seq<char>) -> Option<Seq<u8>>;

/// The Dilithium3 signed message (signature followed by the message) for
/// given message and secret-key bytes.  Named, not defined: PQClean's
/// signing is deterministic, so it is a pure function of its inputs.
pub uninterp spec fn dilithium3_signed_of(msg: Seq<u8>, sk: Seq<u8>) -> Seq<u8>;

/// The result of opening a Dilithium3 signed message against public-key
/// bytes: the recovered message when verification succeeds, `None`
/// otherwise.  A pure function of its inputs.
pub uninterp spec fn dilithium3_opened_of(sm: Seq<u8>, pk: Seq<u8>) -> Option<Seq<u8>>;

/// Relies on base64's `Engine::encode` with the standard padded alphabet.
#[verifier::external_body]
pub(crate) fn b64_encode(data: &[u8]) -> (r: String)
    ensures
        r@ == b64_of(data@),
{
    base64::Engine::encode(&base64::engine::general_purpose::STANDARD, data)
}

/// Relies on base64's `Engine::decode` with the standard padded alphabet;
/// `None` exactly on text the decoder rejects.
#[verifier::external_body]
pub(crate) fn b64_decode(s: &str) -> (r: Option<Vec<u8>>)
    ensures
        r matches Some(v) ==> b64_decode_of(s@) == Some(v@),
        r is None ==> b64_decode_of(s@) is None,
{
    match base64::Engine::decode(&base64::engine::general_purpose::STANDARD, s) {
        Ok(v) => Some(v),
        Err(_) => None,
    }
}

/// Relies on pqcrypto's `dilithium3::keypair`: a freshly sampled keypair
/// whose byte encodings have the scheme's fixed sizes.  Nothing further
/// can be promised of freshly drawn key material.
#[verifier::external_body]
fn dilithium3_keypair_bytes() -> (r: (Vec<u8>, Vec<u8>))
    ensures
        r.0@.len() == DILITHIUM3_PUBLIC_KEY_BYTES,
        r.1@.len() == DILITHIUM3_SECRET_KEY_BYTES,
{
    let (pk, sk) = pqcrypto_dilithium::dilithium3::keypair();
    (
        pqcrypto_traits::sign::PublicKey::as_bytes(&pk).to_vec(),
        pqcrypto_traits::sign::SecretKey::as_bytes(&sk).to_vec(),
    )
}

/// Relies on pqcrypto's `dilithium3::sign`: the attached signed message,
/// which PQClean computes deterministically from the message and key; and
/// on `SecretKey::from_bytes`, which accepts exactly the fixed size.
#[verifier::external_body]
fn dilithium3_sign_bytes(message: &[u8], sk: &[u8]) -> (r: Vec<u8>)
    requires
        sk@.len() == DILITHIUM3_SECRET_KEY_BYTES,
    ensures
        r@ == dilithium3_signed_of(message@, sk@),
{
    let secret =
        <pqcrypto_dilithium::dilithium3::SecretKey as pqcrypto_traits::sign::SecretKey>::from_bytes(
            sk,
        ).unwrap();
    let sm = pqcrypto_dilithium::dilithium3::sign(message, &secret);
    pqcrypto_traits::sign::SignedMessage::as_bytes(&sm).to_vec()
}

/// Relies on pqcrypto's `dilithium3::open`: the recovered message when the
/// signed message verifies under the key, `None` otherwise; and on
/// `PublicKey::from_bytes`, which accepts exactly the fixed size.
#[verifier::external_body]
fn dilithium3_open_bytes(sm: &[u8], pk: &[u8]) -> (r: Option<Vec<u8>>)
    requires
        pk@.len() == DILITHIUM3_PUBLIC_KEY_BYTES,
    ensures
        r matches Some(v) ==> dilithium3_opened_of(sm@, pk@) == Some(v@),
        r is None ==> dilithium3_opened_of(sm@, pk@) is None,
{
    let public =
        <pqcrypto_dilithium::dilithium3::PublicKey as pqcrypto_traits::sign::PublicKey>::from_bytes(
            pk,
        ).unwrap();
    let smsg =
        <pqcrypto_dilithium::dilithium3::SignedMessage as pqcrypto_traits::sign::SignedMessage>::from_bytes(
            sm,
        ).unwrap();
    match pqcrypto_dilithium::dilithium3::open(&smsg, &public) {
        Ok(m) => Some(m),
        Err(_) => None,
    }
}

/// A fresh Dilithium3 keypair as (public, secret) byte strings.
///
/// Relies on pqcrypto's keypair sampling; only the fixed encoded sizes can
/// be promised of fresh key material.
pub fn generate_keypair() -> (r: (Vec<u8>, Vec<u8>))
    ensures
        r.0@.len() == DILITHIUM3_PUBLIC_KEY_BYTES,
        r.1@.len() == DILITHIUM3_SECRET_KEY_BYTES,
{
    dilithium3_keypair_bytes()
}

/// Sign a message with secret-key bytes: the Base64 encoding of the
/// attached Dilithium3 signed message.
pub fn sign_message(message: &[u8], sk: &[u8]) -> (r: String)
    requires
        sk@.len() == DILITHIUM3_SECRET_KEY_BYTES,
    ensures
        r@ == b64_of(dilithium3_signed_of(message@, sk@)),
{
    let sm = dilithium3_sign_bytes(message, sk);
    b64_encode(sm.as_slice())
}

/// Whether `sig_b64` is a valid Base64-encoded Dilithium3 signed message
/// under public-key bytes `pk` whose recovered content is exactly `msg`.
pub open spec fn signature_valid(msg: Seq<u8>, sig_b64: Seq<char>, pk: Seq<u8>) -> bool {
    &&& pk.len() == DILITHIUM3_PUBLIC_KEY_BYTES
    &&& match b64_decode_of(sig_b64) {
        Some(sm) => dilithium3_opened_of(sm, pk) == Some(msg),
        None => false,
    }
}

/// Whether opening a signed message under public-key bytes recovers
/// exactly the given message.
pub fn open_matches(sm: &[u8], pk: &[u8], message: &[u8]) -> (r: bool)
    requires
        pk@.len() == DILITHIUM3_PUBLIC_KEY_BYTES,
    ensures
        r == (dilithium3_opened_of(sm@, pk@) == Some(message@)),
{
    match dilithium3_open_bytes(sm, pk) {
        None => false,
        Some(recovered) => bytes_eq(recovered.as_slice(), message),
    }
}

/// Check a Base64 signed message against a message and public-key bytes;
/// malformed Base64, a key of the wrong size, or a failed verification all
/// yield `false`.
pub fn verify_signature(message: &[u8], signature_b64: &str, pk: &[u8]) -> (r: bool)
    ensures
        r == signature_valid(message@, signature_b64@, pk@),
{
    if pk.len() != DILITHIUM3_PUBLIC_KEY_BYTES {
        return false;
    }
    match b64_decode(signature_b64) {
        None => false,
        Some(sm) => open_matches(sm.as_slice(), pk, message),
    }
}

} // verus!
