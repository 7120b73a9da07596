//! The service boundary's data model and the pure part of each handler.
//!
//! The HTTP transport, routing and serialization live outside the library;
//! what stands here is the request/response data and the computation each
//! handler performs on it, verified against the signing contracts.

use vstd::prelude::*;
use crate::signer::{
    sign_message, verify_signature, b64_encode, b64_decode, b64_of, b64_decode_of,
    dilithium3_signed_of, dilithium3_opened_of, signature_valid, DILITHIUM3_SECRET_KEY_BYTES,
    DILITHIUM3_PUBLIC_KEY_BYTES,
};

verus! {

/// A request to sign a message.
pub struct SignRequest {
    pub message: String,
}

/// The Base64-encoded signed message produced for a sign request.
pub struct SignResponse {
    pub signature: String,
}

/// A request to verify a Base64 signature under a Base64 public key.
pub struct VerifyRequest {
    pub message: String,
    pub signature: String,
    pub pk: String,
}

/// The verdict of a verify request.
pub struct VerifyResponse {
    pub valid: bool,
}

/// The service's public key, Base64-encoded.
pub struct PublicKeyResponse {
    pub public_key: String,
}

/// Why an API request was refused.
#[derive(Debug)]
pub enum ApiError {
    SignatureError(String),
    VerificationError(String),
    BadRequest(String),
    Unauthorized,
    InternalServerError(String),
}

/// The UTF-8 bytes of a string value, which the handlers sign and verify.
pub open spec fn utf8_bytes(s: Seq<char>) -> Seq<u8> {
    vstd::utf8::encode_utf8(s)
}

/// The pure part of the sign handler: sign the request's message bytes
/// with the service's secret key.
pub fn handle_sign(sk: &[u8], req: &SignRequest) -> (r: SignResponse)
    requires
        sk@.len() == DILITHIUM3_SECRET_KEY_BYTES,
    ensures
        r.signature@ == b64_of(dilithium3_signed_of(utf8_bytes(req.message@), sk@)),
{
    let signature = sign_message(req.message.as_str().as_bytes(), sk);
    SignResponse { signature }
}

/// The pure part of the verify handler: decode the Base64 public key and
/// check the Base64 signed message against the request's message bytes.
/// A public key that is not valid Base64 is refused as a verification
/// error; everything else, including a key of the wrong size, yields a
/// verdict.
pub fn handle_verify(req: &VerifyRequest) -> (r: Result<VerifyResponse, ApiError>)
    ensures
        match r {
            Ok(resp) => {
                &&& crate::signer::b64_decode_of(req.pk@) matches Some(pk_bytes)
                &&& resp.valid == signature_valid(
                    utf8_bytes(req.message@),
                    req.signature@,
                    pk_bytes,
                )
            },
            Err(e) => e is VerificationError && crate::signer::b64_decode_of(req.pk@) is None,
        },
{
    let pk_bytes = match crate::signer::b64_decode(req.pk.as_str()) {
        Some(b) => b,
        None => {
            return Err(
                ApiError::VerificationError(String::from_str("Invalid public key Base64")),
            );
        },
    };
    let valid = verify_signature(
        req.message.as_str().as_bytes(),
        req.signature.as_str(),
        pk_bytes.as_slice(),
    );
    Ok(VerifyResponse { valid })
}

/// The pure part of the public-key handler: the service's public key,
/// Base64-encoded.
pub fn public_key_response(pk: &[u8]) -> (r: PublicKeyResponse)
    ensures
        r.public_key@ == b64_of(pk@),
{
    PublicKeyResponse { public_key: b64_encode(pk) }
}

/// A verifier bound to one public key.
pub struct Verify {
    public_key: Vec<u8>,
}

impl Verify {
    /// The key this verifier checks against.
    pub closed spec fn spec_pk(self) -> Seq<u8> {
        self.public_key@
    }

    /// The held key has the scheme's fixed size.
    pub open spec fn wf(self) -> bool {
        self.spec_pk().len() == DILITHIUM3_PUBLIC_KEY_BYTES
    }

    /// A verifier over the given public-key bytes.
    pub fn new(public_key: Vec<u8>) -> (r: Verify)
        requires
            public_key@.len() == DILITHIUM3_PUBLIC_KEY_BYTES,
        ensures
            r.wf(),
            r.spec_pk() == public_key@,
    {
        Verify { public_key }
    }

    /// A verifier from a Base64-encoded public key; text that is not valid
    /// Base64, or that decodes to the wrong size, is refused as a bad
    /// request.
    pub fn from_base64_pk(pk_b64: &str) -> (r: Result<Verify, ApiError>)
        ensures
            match r {
                Ok(v) => {
                    &&& v.wf()
                    &&& b64_decode_of(pk_b64@) == Some(v.spec_pk())
                },
                Err(e) => e is BadRequest && match b64_decode_of(pk_b64@) {
                    Some(b) => b.len() != DILITHIUM3_PUBLIC_KEY_BYTES,
                    None => true,
                },
            },
    {
        let bytes = match b64_decode(pk_b64) {
            Some(b) => b,
            None => {
                return Err(ApiError::BadRequest(String::from_str("Invalid public key Base64")));
            },
        };
        if bytes.len() != DILITHIUM3_PUBLIC_KEY_BYTES {
            return Err(ApiError::BadRequest(String::from_str("Invalid public key bytes")));
        }
        Ok(Verify { public_key: bytes })
    }

    /// Check a Base64 signed message against a message under the held key;
    /// text that is not valid Base64 is refused as a verification error.
    pub fn verify_signature(&self, message: &[u8], signature_b64: &str) -> (r: Result<
        bool,
        ApiError,
    >)
        requires
            self.wf(),
        ensures
            match r {
                Ok(valid) => {
                    &&& b64_decode_of(signature_b64@) matches Some(sm)
                    &&& valid == (dilithium3_opened_of(sm, self.spec_pk()) == Some(message@))
                },
                Err(e) => e is VerificationError && b64_decode_of(signature_b64@) is None,
            },
    {
        let sm = match b64_decode(signature_b64) {
            Some(b) => b,
            None => {
                return Err(
                    ApiError::VerificationError(String::from_str("Invalid signature Base64")),
                );
            },
        };
        Ok(crate::signer::open_matches(sm.as_slice(), self.public_key.as_slice(), message))
    }
}

} // verus!
