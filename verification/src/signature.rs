//! Signatures.
use ed25519_dalek::{Signature, Verifier, VerifyingKey};
use vstd::prelude::*;

verus! {

/// Whether `signature` is an Ed25519 signature of `message` under `key`.
pub uninterp spec fn ed25519_signed(key: Seq<u8>, message: Seq<u8>, signature: Seq<u8>) -> bool;

/// Calls `<ed25519_dalek::VerifyingKey as Verifier>::verify` with the key that
/// `VerifyingKey::from_bytes` reads from `key`, and the signature that
/// `Signature::from_bytes` reads from `signature`: whether the signature is
/// accepted. Bytes that are no key accept none. Of the answer only that it is a
/// function of the three byte strings is claimed.
#[verifier::external_body]
fn ed25519_verify(key: &[u8; 32], message: &[u8], signature: &[u8; 64]) -> (r: bool)
    ensures
        r == ed25519_signed(key@, message@, signature@),
{
    match VerifyingKey::from_bytes(key) {
        Ok(key) => key.verify(message, &Signature::from_bytes(signature)).is_ok(),
        Err(_) => false,
    }
}

/// Whether `signature` is an Ed25519 signature of `message` under `key`.
pub fn is_signed(key: &[u8; 32], message: &[u8; 32], signature: &[u8; 64]) -> (r: bool)
    ensures
        r == ed25519_signed(key@, message@, signature@),
{
    ed25519_verify(key, message.as_slice(), signature)
}

} // verus!
