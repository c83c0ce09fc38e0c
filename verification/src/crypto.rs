//! Base64, SHA-256 and Ed25519 verification, wrapped for verified callers.
//!
//! The outside calls are named rather than re-stated: `base64_of`,
//! `sha256_of`, `ed25519_key_ok` and `ed25519_verifies` stand for what the
//! respective functions return, and every contract here speaks through those
//! names.

use vstd::prelude::*;

use base64::Engine;
use ed25519_dalek::Verifier;
use sha2::Digest;

use crate::errors::HubError;
use crate::text::to_owned_string;

verus! {

/// The standard-alphabet, padded base64 encoding of a byte string.
pub uninterp spec fn base64_of(b: Seq<u8>) -> Seq<char>;

/// The SHA-256 digest of a byte string.
pub uninterp spec fn sha256_of(b: Seq<u8>) -> Seq<u8>;

/// Whether 32 bytes are a well-formed Ed25519 verifying key.
pub uninterp spec fn ed25519_key_ok(pk: Seq<u8>) -> bool;

/// Whether an Ed25519 signature verifies for the given key and message.
pub uninterp spec fn ed25519_verifies(pk: Seq<u8>, msg: Seq<u8>, sig: Seq<u8>) -> bool;

/// Whether `s` is the base64 encoding of any byte string at all.
pub open spec fn b64_decodable(s: Seq<char>) -> bool {
    exists|b: Seq<u8>| base64_of(b) == s
}

/// Whether `s` base64-decodes to a well-formed Ed25519 verifying key.
pub open spec fn spec_key_acceptable(s: Seq<char>) -> bool {
    exists|b: Seq<u8>| base64_of(b) == s && b.len() == 32 && ed25519_key_ok(b)
}

/// Relies on `base64::engine::general_purpose::STANDARD.encode`: the
/// standard-alphabet, padded encoding of the input bytes.
#[verifier::external_body]
pub fn b64_encode(bytes: &[u8]) -> (r: String)
    ensures
        r@ == base64_of(bytes@),
{
    base64::engine::general_purpose::STANDARD.encode(bytes)
}

/// Relies on `base64::engine::general_purpose::STANDARD.decode`: it inverts
/// the (injective) canonical encoding and rejects every other input.
#[verifier::external_body]
pub fn b64_decode(s: &str) -> (r: Option<Vec<u8>>)
    ensures
        match r {
            Some(b) => base64_of(b@) == s@ && forall|b2: Seq<u8>|
                base64_of(b2) == s@ ==> b2 == b@,
            None => forall|b2: Seq<u8>| base64_of(b2) != s@,
        },
{
    base64::engine::general_purpose::STANDARD.decode(s).ok()
}

/// Relies on `sha2::Sha256`: the 32-byte SHA-256 digest of the input.
#[verifier::external_body]
pub fn sha256(bytes: &[u8]) -> (r: Vec<u8>)
    ensures
        r@ == sha256_of(bytes@),
        r@.len() == 32,
{
    let mut hasher = sha2::Sha256::new();
    hasher.update(bytes);
    hasher.finalize().to_vec()
}

/// Relies on `ed25519_dalek::VerifyingKey::from_bytes`: whether the bytes
/// form a well-formed verifying key.
#[verifier::external_body]
pub fn ed25519_key_valid(pk: &[u8]) -> (r: bool)
    requires
        pk@.len() == 32,
    ensures
        r == ed25519_key_ok(pk@),
{
    let arr: &[u8; 32] = match pk.try_into() {
        Ok(a) => a,
        Err(_) => return false,
    };
    ed25519_dalek::VerifyingKey::from_bytes(arr).is_ok()
}

/// Relies on `ed25519_dalek::VerifyingKey::verify` (and `from_bytes` to
/// parse the key, which the precondition makes infallible): whether the
/// signature verifies for this key and message.
#[verifier::external_body]
pub fn ed25519_verify(pk: &[u8], msg: &[u8], sig: &[u8]) -> (r: bool)
    requires
        pk@.len() == 32,
        ed25519_key_ok(pk@),
        sig@.len() == 64,
    ensures
        r == ed25519_verifies(pk@, msg@, sig@),
{
    let key_arr: &[u8; 32] = match pk.try_into() {
        Ok(a) => a,
        Err(_) => return false,
    };
    let sig_arr: &[u8; 64] = match sig.try_into() {
        Ok(a) => a,
        Err(_) => return false,
    };
    match ed25519_dalek::VerifyingKey::from_bytes(key_arr) {
        Ok(key) => key.verify(msg, &ed25519_dalek::Signature::from_bytes(sig_arr)).is_ok(),
        Err(_) => false,
    }
}

/// Relies on `uuid::Uuid::new_v4`: a random identifier, about which nothing
/// is promised.
#[verifier::external_body]
pub fn fresh_uuid() -> (r: String) {
    uuid::Uuid::new_v4().to_string()
}

/// Relies on `std::time::SystemTime::now`: the wall clock in milliseconds
/// since the Unix epoch, about which nothing is promised beyond its sign.
#[verifier::external_body]
pub fn now_millis() -> (r: i64)
    ensures
        r >= 0,
{
    match std::time::SystemTime::now().duration_since(std::time::UNIX_EPOCH) {
        Ok(d) => i64::try_from(d.as_millis()).unwrap_or(i64::MAX),
        Err(_) => 0,
    }
}

/// What a successfully verified signature means, all base64 decoding spelled
/// out: the key text decodes to a well-formed 32-byte key, the signature
/// text decodes to 64 bytes, and Ed25519 verification holds over `msg`.
pub open spec fn spec_signature_checks(pk_b64: Seq<char>, msg: Seq<u8>, sig_b64: Seq<char>) -> bool {
    exists|pk: Seq<u8>, sig: Seq<u8>|
        base64_of(pk) == pk_b64 && pk.len() == 32 && ed25519_key_ok(pk) && base64_of(sig) == sig_b64
            && sig.len() == 64 && ed25519_verifies(pk, msg, sig)
}

/// Verify a base64 signature over `data` with a base64-encoded public key.
///
/// Key problems are errors; a signature of the wrong length is merely a
/// failed verification, as is a signature the key does not accept.
pub fn verify_with_key(public_key_b64: &str, data: &[u8], signature_b64: &str) -> (r: Result<
    bool,
    HubError,
>)
    ensures
        match r {
            Ok(v) => spec_key_acceptable(public_key_b64@) && b64_decodable(signature_b64@) && v
                == spec_signature_checks(public_key_b64@, data@, signature_b64@),
            Err(e) => match e {
                HubError::InvalidPublicKey(_) => !spec_key_acceptable(public_key_b64@),
                HubError::CryptoError(_) => spec_key_acceptable(public_key_b64@) && !b64_decodable(
                    signature_b64@,
                ),
                _ => false,
            },
        },
{
    let pk = match b64_decode(public_key_b64) {
        Some(b) => b,
        None => {
            return Err(HubError::InvalidPublicKey(to_owned_string("invalid base64")));
        },
    };
    if pk.len() != 32 {
        return Err(HubError::InvalidPublicKey(to_owned_string("key must be 32 bytes")));
    }
    if !ed25519_key_valid(pk.as_slice()) {
        return Err(HubError::InvalidPublicKey(to_owned_string("not a valid key")));
    }
    let sig = match b64_decode(signature_b64) {
        Some(b) => b,
        None => {
            return Err(HubError::CryptoError(to_owned_string("invalid signature base64")));
        },
    };
    if sig.len() != 64 {
        return Ok(false);
    }
    let v = ed25519_verify(pk.as_slice(), data, sig.as_slice());
    proof {
        if v {
            assert(spec_signature_checks(public_key_b64@, data@, signature_b64@));
        } else {
            if spec_signature_checks(public_key_b64@, data@, signature_b64@) {
                let (pk2, sig2) = choose|pk2: Seq<u8>, sig2: Seq<u8>|
                    base64_of(pk2) == public_key_b64@ && pk2.len() == 32 && ed25519_key_ok(pk2)
                        && base64_of(sig2) == signature_b64@ && sig2.len() == 64
                        && ed25519_verifies(pk2, data@, sig2);
                assert(pk2 == pk@);
                assert(sig2 == sig@);
            }
        }
    }
    Ok(v)
}

} // verus!
