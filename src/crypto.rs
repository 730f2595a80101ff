//! The cryptographic primitives: SHA-256, and ECDSA over NIST P-256 with
//! SHA-256 pre-hashing and untagged 64-byte signatures (r then s, big-endian).

use vstd::prelude::*;
use p256_cortex_m4::{PublicKey, SecretKey, Signature};
use rand_chacha::rand_core::{RngCore, SeedableRng};
use rand_chacha::ChaCha20Rng;
use sha2::Digest;

verus! {

/// The SHA-256 digest of a message.
pub uninterp spec fn sha256_of(message: Seq<u8>) -> Seq<u8>;

/// Whether the untagged public key accepts the untagged signature over the
/// 32-byte digest. A key or signature that does not decode is not accepted.
pub uninterp spec fn ecdsa_accepts(public: Seq<u8>, digest: Seq<u8>, signature: Seq<u8>) -> bool;

/// Whether `SecretKey::from_bytes` accepts the bytes as a P-256 secret scalar:
/// 32 bytes holding a big-endian integer below the group order.
pub uninterp spec fn secret_key_valid(secret: Seq<u8>) -> bool;

#[verifier::external_type_specification]
#[verifier::external_body]
pub struct ExChaCha20Rng(ChaCha20Rng);

/// Relies on `sha2::Sha256` (`new`, `update`, `finalize`): the SHA-256 digest of
/// the message, a function of its bytes alone.
#[verifier::external_body]
pub fn sha256(message: &[u8]) -> (r: [u8; 32])
    ensures
        r@ == sha256_of(message@),
{
    let mut hash = sha2::Sha256::new();
    hash.update(message);
    hash.finalize().into()
}

/// Relies on `p256_cortex_m4::PublicKey::verify_prehashed`, after decoding the key
/// with `PublicKey::from_untagged_bytes` and the signature with
/// `Signature::from_untagged_bytes`; a decoding error counts as a rejection.
#[verifier::external_body]
fn verify_prehashed(public: &[u8], digest: &[u8; 32], signature: &[u8]) -> (r: bool)
    ensures
        r == ecdsa_accepts(public@, digest@, signature@),
{
    match (PublicKey::from_untagged_bytes(public), Signature::from_untagged_bytes(signature)) {
        (Ok(key), Ok(sig)) => key.verify_prehashed(&digest[..], &sig),
        _ => false,
    }
}

/// Relies on `p256_cortex_m4::SecretKey::from_bytes` to decode the scalar and on
/// `SecretKey::sign_prehashed`, whose per-signature scalar is
/// drawn from `rng`; the signature is returned by `Signature::to_untagged_bytes`.
#[verifier::external_body]
fn sign_prehashed(secret: &[u8], digest: &[u8; 32], rng: &mut ChaCha20Rng) -> (r: Option<
    [u8; 64],
>)
    ensures
        r.is_some() == secret_key_valid(secret@),
{
    match SecretKey::from_bytes(secret) {
        Ok(key) => Some(key.sign_prehashed(&digest[..], rng).to_untagged_bytes()),
        Err(_) => None,
    }
}

/// Relies on `rand_chacha`'s `SeedableRng::from_seed` for `ChaCha20Rng`.
#[verifier::external_body]
pub(crate) fn seeded_rng(seed: [u8; 32]) -> (r: ChaCha20Rng) {
    ChaCha20Rng::from_seed(seed)
}

/// Relies on `RngCore::next_u64` of `ChaCha20Rng`; nothing is known of the value.
#[verifier::external_body]
pub(crate) fn next_u64(rng: &mut ChaCha20Rng) -> (r: u64) {
    rng.next_u64()
}

/// Signs SHA-256(`message`) with the secret scalar; `None` when the secret is not
/// a valid scalar.
pub fn sign(secret: &[u8], message: &[u8], rng: &mut ChaCha20Rng) -> (r: Option<[u8; 64]>)
    ensures
        r.is_some() == secret_key_valid(secret@),
{
    let digest = sha256(message);
    sign_prehashed(secret, &digest, rng)
}

/// Checks a signature over SHA-256(`message`) against an untagged public key.
pub fn verify(public: &[u8], message: &[u8], signature: &[u8]) -> (r: bool)
    ensures
        r == ecdsa_accepts(public@, sha256_of(message@), signature@),
{
    let digest = sha256(message);
    verify_prehashed(public, &digest, signature)
}

} // verus!
