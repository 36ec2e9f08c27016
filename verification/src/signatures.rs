//! Ed25519 signatures on byte strings.

use crate::bytes::Digest32;
use ed25519_dalek::Signer;
use vstd::prelude::*;

verus! {

/// Whether 32 bytes decode to an Ed25519 public key.
pub uninterp spec fn ed25519_key_decodes(key: Seq<u8>) -> bool;

/// Whether strict verification accepts a signature on a message under a key.
pub uninterp spec fn ed25519_accepts(key: Seq<u8>, message: Seq<u8>, signature: Seq<u8>) -> bool;

/// The public key that belongs to a secret key.
pub uninterp spec fn ed25519_public(secret: Seq<u8>) -> Seq<u8>;

/// The deterministic signature of a message under a secret key.
pub uninterp spec fn ed25519_signature(secret: Seq<u8>, message: Seq<u8>) -> Seq<u8>;

/// Calls `ed25519_dalek::VerifyingKey::from_bytes` and tells whether the key
/// was accepted.
#[verifier::external_body]
pub(crate) fn key_decodes(key: &Digest32) -> (valid: bool)
    ensures
        valid == ed25519_key_decodes(key@),
{
    ed25519_dalek::VerifyingKey::from_bytes(key).is_ok()
}

/// Calls `ed25519_dalek::VerifyingKey::verify_strict` on the decoded key and
/// signature. A key or a signature that does not decode is not accepted.
#[verifier::external_body]
pub(crate) fn verify_strict(key: &Digest32, message: &[u8], signature: &[u8]) -> (valid: bool)
    ensures
        valid == ed25519_accepts(key@, message@, signature@),
{
    match (
        ed25519_dalek::VerifyingKey::from_bytes(key),
        ed25519_dalek::Signature::try_from(signature),
    ) {
        (Ok(key), Ok(signature)) => key.verify_strict(message, &signature).is_ok(),
        _ => false,
    }
}

/// Calls `ed25519_dalek::SigningKey::verifying_key`.
#[verifier::external_body]
pub(crate) fn public_key(secret: &Digest32) -> (key: Digest32)
    ensures
        key@ == ed25519_public(secret@),
{
    ed25519_dalek::SigningKey::from_bytes(secret).verifying_key().to_bytes()
}

/// Calls `ed25519_dalek::SigningKey::sign`, whose result is fixed by the key
/// and the message and is 64 bytes long.
#[verifier::external_body]
pub(crate) fn sign(secret: &Digest32, message: &[u8]) -> (signature: Vec<u8>)
    ensures
        signature@ == ed25519_signature(secret@, message@),
        signature@.len() == 64,
{
    ed25519_dalek::SigningKey::from_bytes(secret).sign(message).to_bytes().to_vec()
}

} // verus!
