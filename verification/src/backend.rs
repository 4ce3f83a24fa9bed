//! Software cryptography backend.
//!
//! On the device, key derivation and signing are syscalls into the
//! hardware coprocessor. This backend simulates them in software:
//! deterministic key material is drawn from a ChaCha8 stream seeded by
//! the derivation path, and the curve arithmetic is done by the k256,
//! p256 and ed25519-dalek crates. Each call is deterministic in its
//! arguments, so its result carries a name that the engine's contracts
//! speak of.

use vstd::prelude::*;
use sha2::Digest;
use rand_chacha::rand_core::{RngCore, SeedableRng};
use k256::ecdsa::signature::Signer;

verus! {

/// The secp256k1 signing key drawn from a 32-byte seed.
pub uninterp spec fn secp256k1_key_of(seed: Seq<u8>) -> Seq<u8>;

/// The secp256r1 signing key drawn from a 32-byte seed.
pub uninterp spec fn secp256r1_key_of(seed: Seq<u8>) -> Seq<u8>;

/// The Ed25519 signing key drawn from a 32-byte seed.
pub uninterp spec fn ed25519_key_of(seed: Seq<u8>) -> Seq<u8>;

/// The uncompressed SEC1 encoding of the secp256k1 public key of a key.
pub uninterp spec fn secp256k1_public_of(key: Seq<u8>) -> Seq<u8>;

/// The uncompressed SEC1 encoding of the secp256r1 public key of a key.
pub uninterp spec fn secp256r1_public_of(key: Seq<u8>) -> Seq<u8>;

/// The Ed25519 public key of a key.
pub uninterp spec fn ed25519_public_of(key: Seq<u8>) -> Seq<u8>;

/// The DER-encoded RFC6979-deterministic secp256k1 ECDSA signature.
pub uninterp spec fn secp256k1_sig_of(key: Seq<u8>, msg: Seq<u8>) -> Seq<u8>;

/// The DER-encoded RFC6979-deterministic secp256r1 ECDSA signature.
pub uninterp spec fn secp256r1_sig_of(key: Seq<u8>, msg: Seq<u8>) -> Seq<u8>;

/// The Ed25519 signature of a message under a key.
pub uninterp spec fn ed25519_sig_of(key: Seq<u8>, msg: Seq<u8>) -> Seq<u8>;

/// The SHA-256 digest of a byte sequence.
pub uninterp spec fn sha256_of(data: Seq<u8>) -> Seq<u8>;

/// Relies on sha2::Sha256::digest: the 32-byte digest depends on the
/// input bytes alone.
#[verifier::external_body]
pub(crate) fn sha256(data: &[u8]) -> (r: Vec<u8>)
    ensures
        r@ == sha256_of(data@),
        r@.len() == 32,
{
    sha2::Sha256::digest(data).to_vec()
}

/// Relies on k256::ecdsa::SigningKey::random: drawing from the ChaCha8
/// stream of `seed` is deterministic, and to_bytes yields the 32-byte
/// scalar.
#[verifier::external_body]
pub(crate) fn secp256k1_derive(seed: &[u8]) -> (r: Vec<u8>)
    requires
        seed@.len() == 32,
    ensures
        r@ == secp256k1_key_of(seed@),
        r@.len() == 32,
{
    let mut fixed = [0u8; 32];
    fixed.copy_from_slice(seed);
    let mut rng = rand_chacha::ChaCha8Rng::from_seed(fixed);
    let key = k256::ecdsa::SigningKey::random(&mut rng);
    key.to_bytes().to_vec()
}

/// Relies on p256::ecdsa::SigningKey::random, as the secp256k1 twin.
#[verifier::external_body]
pub(crate) fn secp256r1_derive(seed: &[u8]) -> (r: Vec<u8>)
    requires
        seed@.len() == 32,
    ensures
        r@ == secp256r1_key_of(seed@),
        r@.len() == 32,
{
    let mut fixed = [0u8; 32];
    fixed.copy_from_slice(seed);
    let mut rng = rand_chacha::ChaCha8Rng::from_seed(fixed);
    let key = p256::ecdsa::SigningKey::random(&mut rng);
    key.to_bytes().to_vec()
}

/// Relies on rand_chacha::ChaCha8Rng::fill_bytes: the 32 bytes drawn
/// from the stream of `seed` are deterministic; any 32 bytes form an
/// Ed25519 signing key.
#[verifier::external_body]
pub(crate) fn ed25519_derive(seed: &[u8]) -> (r: Vec<u8>)
    requires
        seed@.len() == 32,
    ensures
        r@ == ed25519_key_of(seed@),
        r@.len() == 32,
{
    let mut fixed = [0u8; 32];
    fixed.copy_from_slice(seed);
    let mut rng = rand_chacha::ChaCha8Rng::from_seed(fixed);
    let mut bytes = [0u8; 32];
    rng.fill_bytes(&mut bytes);
    bytes.to_vec()
}

/// Relies on k256::ecdsa::VerifyingKey::to_encoded_point(false): the
/// uncompressed SEC1 point is 65 bytes starting with the tag 0x04; None
/// exactly when from_slice rejects the key bytes as a scalar.
#[verifier::external_body]
pub(crate) fn secp256k1_public(key: &[u8]) -> (r: Option<Vec<u8>>)
    ensures
        r matches Some(v) ==> v@ == secp256k1_public_of(key@) && v@.len() == 65 && v@[0] == 4u8,
{
    let sk = k256::ecdsa::SigningKey::from_slice(key).ok()?;
    let point = sk.verifying_key().to_encoded_point(false);
    Some(point.as_bytes().to_vec())
}

/// Relies on p256::ecdsa::VerifyingKey::to_encoded_point(false), as the
/// secp256k1 twin.
#[verifier::external_body]
pub(crate) fn secp256r1_public(key: &[u8]) -> (r: Option<Vec<u8>>)
    ensures
        r matches Some(v) ==> v@ == secp256r1_public_of(key@) && v@.len() == 65 && v@[0] == 4u8,
{
    let sk = p256::ecdsa::SigningKey::from_slice(key).ok()?;
    let point = sk.verifying_key().to_encoded_point(false);
    Some(point.as_bytes().to_vec())
}

/// Relies on ed25519_dalek::SigningKey::verifying_key: the public key is
/// 32 bytes and a function of the 32 key bytes.
#[verifier::external_body]
pub(crate) fn ed25519_public(key: &[u8]) -> (r: Vec<u8>)
    requires
        key@.len() == 32,
    ensures
        r@ == ed25519_public_of(key@),
        r@.len() == 32,
{
    let mut fixed = [0u8; 32];
    fixed.copy_from_slice(key);
    let sk = ed25519_dalek::SigningKey::from_bytes(&fixed);
    sk.verifying_key().to_bytes().to_vec()
}

/// Relies on k256's Signer::sign and Signature::to_der: RFC6979 signing
/// is deterministic in key and message; None exactly when from_slice
/// rejects the key bytes.
#[verifier::external_body]
pub(crate) fn secp256k1_sign(key: &[u8], msg: &[u8]) -> (r: Option<Vec<u8>>)
    ensures
        r matches Some(v) ==> v@ == secp256k1_sig_of(key@, msg@),
{
    let sk = k256::ecdsa::SigningKey::from_slice(key).ok()?;
    let sig: k256::ecdsa::Signature = sk.sign(msg);
    Some(sig.to_der().as_bytes().to_vec())
}

/// Relies on p256's Signer::sign and Signature::to_der, as the
/// secp256k1 twin.
#[verifier::external_body]
pub(crate) fn secp256r1_sign(key: &[u8], msg: &[u8]) -> (r: Option<Vec<u8>>)
    ensures
        r matches Some(v) ==> v@ == secp256r1_sig_of(key@, msg@),
{
    let sk = p256::ecdsa::SigningKey::from_slice(key).ok()?;
    let sig: p256::ecdsa::Signature = sk.sign(msg);
    Some(sig.to_der().as_bytes().to_vec())
}

/// Relies on ed25519_dalek's Signer::sign: Ed25519 signatures are
/// deterministic, 64 bytes long.
#[verifier::external_body]
pub(crate) fn ed25519_sign(key: &[u8], msg: &[u8]) -> (r: Vec<u8>)
    requires
        key@.len() == 32,
    ensures
        r@ == ed25519_sig_of(key@, msg@),
        r@.len() == 64,
{
    let mut fixed = [0u8; 32];
    fixed.copy_from_slice(key);
    let sk = ed25519_dalek::SigningKey::from_bytes(&fixed);
    sk.sign(msg).to_bytes().to_vec()
}

} // verus!
