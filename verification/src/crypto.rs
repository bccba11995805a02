//! Digests and signatures, as the cryptographic crates compute them.

use ed25519_dalek::pkcs8::{DecodePublicKey, EncodePrivateKey, EncodePublicKey};
use ed25519_dalek::{Signature, Signer, SigningKey, VerifyingKey};
use sha2::{Digest, Sha256};
use vstd::prelude::*;

use crate::text::hex_text;

verus! {

/// The SHA-256 digest of some bytes.
pub uninterp spec fn sha256_digest(data: Seq<u8>) -> Seq<u8>;

/// The Ed25519 public key of a 32-byte seed.
pub uninterp spec fn ed25519_public(seed: Seq<u8>) -> Seq<u8>;

/// The Ed25519 signature that a 32-byte seed makes on a message.
pub uninterp spec fn ed25519_signature(seed: Seq<u8>, message: Seq<u8>) -> Seq<u8>;

/// Whether 32 bytes are the encoding of a curve point.
pub uninterp spec fn ed25519_point(key: Seq<u8>) -> bool;

/// Whether strict Ed25519 verification accepts a signature.
pub uninterp spec fn ed25519_accepts(key: Seq<u8>, message: Seq<u8>, signature: Seq<u8>) -> bool;

/// Whether a curve point has small order.
pub uninterp spec fn ed25519_weak(key: Seq<u8>) -> bool;

/// Neither the signer's public key nor the signature's nonce point has small order.
pub open spec fn sturdy(seed: Seq<u8>, signature: Seq<u8>) -> bool {
    !ed25519_weak(ed25519_public(seed)) && !ed25519_weak(signature.take(32))
}

/// The public key in a `SubjectPublicKeyInfo`, or what is wrong with it.
pub uninterp spec fn ed25519_der_key(der: Seq<u8>) -> Result<Seq<u8>, Seq<char>>;

/// The PKCS#8 document of a 32-byte seed, or what is wrong with it.
pub uninterp spec fn ed25519_pkcs8(seed: Seq<u8>) -> Result<Seq<u8>, Seq<char>>;

/// The bytes before an Ed25519 key in its `SubjectPublicKeyInfo`.
pub open spec fn spki_prefix() -> Seq<u8> {
    seq![48u8, 42u8, 48u8, 5u8, 6u8, 3u8, 43u8, 101u8, 112u8, 3u8, 33u8, 0u8]
}

/// An Ed25519 public key as a `SubjectPublicKeyInfo`.
pub open spec fn spki(key: Seq<u8>) -> Seq<u8> {
    spki_prefix() + key
}

/// `sha2::Sha256::digest`: the digest depends on the bytes alone and has 32 bytes.
#[verifier::external_body]
pub(crate) fn sha256(data: &[u8]) -> (digest: Vec<u8>)
    ensures
        digest@ == sha256_digest(data@),
        digest@.len() == 32,
{
    Sha256::digest(data).to_vec()
}

/// A digest under way.
#[verifier::external_body]
pub struct Hasher {
    inner: Sha256,
}

/// The bytes that a digest under way has taken in.
pub uninterp spec fn hashed(hasher: Hasher) -> Seq<u8>;

impl Hasher {
    /// `sha2::Sha256::new`: nothing taken in yet.
    #[verifier::external_body]
    pub(crate) fn start() -> (hasher: Hasher)
        ensures
            hashed(hasher) == Seq::<u8>::empty(),
    {
        Hasher { inner: Sha256::new() }
    }

    /// `sha2::Sha256::update`: the bytes come after those taken in before.
    #[verifier::external_body]
    pub(crate) fn update(&mut self, bytes: &[u8])
        ensures
            hashed(*final(self)) == hashed(*old(self)) + bytes@,
    {
        self.inner.update(bytes);
    }

    /// `sha2::Sha256::finalize`, on a copy: the digest of everything taken in.
    #[verifier::external_body]
    pub(crate) fn digest(&self) -> (digest: Vec<u8>)
        ensures
            digest@ == sha256_digest(hashed(*self)),
            digest@.len() == 32,
    {
        self.inner.clone().finalize().to_vec()
    }

    /// The digest of everything taken in, as 64 hexadecimal digits.
    pub fn text(&self) -> (text: String)
        ensures
            text@ == digest_text(hashed(*self)),
    {
        hex_text(&self.digest())
    }
}

/// `ed25519_dalek::SigningKey::from_bytes` and its `verifying_key`: the public
/// key depends on the seed alone and has 32 bytes.
#[verifier::external_body]
pub(crate) fn public_key_of(seed: &[u8]) -> (key: Vec<u8>)
    requires
        seed@.len() == 32,
    ensures
        key@ == ed25519_public(seed@),
        key@.len() == 32,
{
    SigningKey::from_bytes(seed.try_into().unwrap()).verifying_key().to_bytes().to_vec()
}

/// `ed25519_dalek::SigningKey::sign`: the signature depends on the seed and the
/// message alone and has 64 bytes. Strict verification under the seed's own
/// public key accepts it, unless the public key or the nonce point in the
/// signature's first half has small order.
#[verifier::external_body]
pub(crate) fn sign(seed: &[u8], message: &[u8]) -> (signature: Vec<u8>)
    requires
        seed@.len() == 32,
    ensures
        signature@ == ed25519_signature(seed@, message@),
        signature@.len() == 64,
        sturdy(seed@, signature@) ==> ed25519_public(seed@).len() == 32 && ed25519_point(
            ed25519_public(seed@),
        ) && ed25519_accepts(ed25519_public(seed@), message@, signature@),
{
    SigningKey::from_bytes(seed.try_into().unwrap()).sign(message).to_bytes().to_vec()
}

/// `ed25519_dalek::VerifyingKey::from_bytes` succeeds exactly on curve points.
#[verifier::external_body]
pub(crate) fn key_is_point(key: &[u8]) -> (valid: bool)
    requires
        key@.len() == 32,
    ensures
        valid == ed25519_point(key@),
{
    VerifyingKey::from_bytes(key.try_into().unwrap()).is_ok()
}

/// `ed25519_dalek::VerifyingKey::verify_strict`: the verdict depends on the key,
/// the message and the signature alone.
#[verifier::external_body]
pub(crate) fn verify_strict(key: &[u8], message: &[u8], signature: &[u8]) -> (accepted: bool)
    requires
        key@.len() == 32,
        ed25519_point(key@),
        signature@.len() == 64,
    ensures
        accepted == ed25519_accepts(key@, message@, signature@),
{
    let key = VerifyingKey::from_bytes(key.try_into().unwrap()).unwrap();
    key.verify_strict(message, &Signature::from_slice(signature).unwrap()).is_ok()
}

/// `ed25519_dalek::VerifyingKey::is_weak`: the verdict depends on the key alone.
#[verifier::external_body]
pub(crate) fn key_is_weak(key: &[u8]) -> (weak: bool)
    requires
        key@.len() == 32,
        ed25519_point(key@),
    ensures
        weak == ed25519_weak(key@),
{
    VerifyingKey::from_bytes(key.try_into().unwrap()).unwrap().is_weak()
}

/// `to_public_key_der` of an `ed25519_dalek::VerifyingKey`: a fixed header and
/// the key's bytes. Reading it back gives the key.
#[verifier::external_body]
pub(crate) fn key_to_der(key: &[u8]) -> (der: Vec<u8>)
    requires
        key@.len() == 32,
        ed25519_point(key@),
    ensures
        der@ == spki(key@),
        ed25519_der_key(der@) is Ok && ed25519_der_key(der@)->Ok_0 == key@,
{
    let key = VerifyingKey::from_bytes(key.try_into().unwrap()).unwrap();
    key.to_public_key_der().unwrap().as_bytes().to_vec()
}

/// `from_public_key_der` of `ed25519_dalek::VerifyingKey`: the key or the error
/// depends on the bytes alone; a key has 32 bytes.
#[verifier::external_body]
pub(crate) fn key_from_der(der: &[u8]) -> (read: Result<Vec<u8>, String>)
    ensures
        (match read {
            Ok(key) => ed25519_der_key(der@) == Ok::<Seq<u8>, Seq<char>>(key@) && key@.len() == 32,
            Err(e) => ed25519_der_key(der@) == Err::<Seq<u8>, Seq<char>>(e@),
        }),
{
    match VerifyingKey::from_public_key_der(der) {
        Ok(key) => Ok(key.to_bytes().to_vec()),
        Err(e) => Err(e.to_string()),
    }
}

/// `to_pkcs8_der` of `ed25519_dalek::SigningKey`: the document or the error
/// depends on the seed alone.
#[verifier::external_body]
pub(crate) fn seed_to_pkcs8(seed: &[u8]) -> (document: Result<Vec<u8>, String>)
    requires
        seed@.len() == 32,
    ensures
        (match document {
            Ok(bytes) => ed25519_pkcs8(seed@) == Ok::<Seq<u8>, Seq<char>>(bytes@),
            Err(e) => ed25519_pkcs8(seed@) == Err::<Seq<u8>, Seq<char>>(e@),
        }),
{
    match SigningKey::from_bytes(seed.try_into().unwrap()).to_pkcs8_der() {
        Ok(document) => Ok(document.as_bytes().to_vec()),
        Err(e) => Err(e.to_string()),
    }
}

/// A digest as 64 hexadecimal digits.
pub open spec fn digest_text(data: Seq<u8>) -> Seq<char> {
    crate::text::hex(sha256_digest(data))
}

pub fn hash(bytes: &[u8]) -> (text: String)
    ensures
        text@ == digest_text(bytes@),
        text@.len() == 64,
{
    let digest = sha256(bytes);
    hex_text(&digest)
}

} // verus!
