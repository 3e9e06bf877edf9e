//! Trusted facade over the cryptographic primitives: X25519, Ed25519,
//! XChaCha20-Poly1305, Argon2id, LZ4 framing, SHA3-512 and the CSPRNG.
//!
//! Every function here is `external_body`: its contract is believed, not
//! proved.  Results that are pure functions of the arguments are given
//! uninterpreted names (`ed25519_sig_of`, `seal_of`, ...) so that verified
//! callers can state exact relationships — in particular the round trips that
//! the underlying crates document.  Nothing is promised about random output
//! beyond its length.

use vstd::prelude::*;

use chacha20poly1305::aead::generic_array::GenericArray;
use chacha20poly1305::{AeadInPlace, KeyInit, XChaCha20Poly1305};
use ed25519_dalek::pkcs8::{DecodePrivateKey, DecodePublicKey, EncodePrivateKey, EncodePublicKey};
use ed25519_dalek::Signer as DalekSigner;
use ed25519_dalek::Verifier;
use rand_chacha::rand_core::{RngCore, SeedableRng};
use sha3::Digest;

verus! {

/// The Ed25519 verifying key derived from a 32-byte signing seed.
pub uninterp spec fn ed25519_vk_of(seed: Seq<u8>) -> Seq<u8>;

/// The (deterministic) Ed25519 signature of `msg` under the key with seed `seed`.
pub uninterp spec fn ed25519_sig_of(seed: Seq<u8>, msg: Seq<u8>) -> Seq<u8>;

/// Whether `sig` verifies over `msg` under the verifying key bytes `vk`
/// (false as well when `vk` is not a valid Ed25519 point encoding).
pub uninterp spec fn ed25519_ok(vk: Seq<u8>, msg: Seq<u8>, sig: Seq<u8>) -> bool;

/// Like [`ed25519_ok`], under `verify_strict` (rejects small-order components).
pub uninterp spec fn ed25519_strict_ok(vk: Seq<u8>, msg: Seq<u8>, sig: Seq<u8>) -> bool;

/// The X25519 public key of a 32-byte scalar.
pub uninterp spec fn x25519_pub_of(scalar: Seq<u8>) -> Seq<u8>;

/// The X25519 shared secret of a 32-byte scalar and a peer public key.
pub uninterp spec fn x25519_shared_of(scalar: Seq<u8>, peer_pub: Seq<u8>) -> Seq<u8>;

/// The 32-byte Argon2id key derived from a password and a salt
/// (default parameters of the `argon2` crate: Argon2id v19).
pub uninterp spec fn kdf_of(password: Seq<u8>, salt: Seq<u8>) -> Seq<u8>;

/// Ciphertext-with-tag of XChaCha20-Poly1305 over the given key, nonce,
/// associated data and plaintext.
pub uninterp spec fn seal_of(key: Seq<u8>, nonce: Seq<u8>, aad: Seq<u8>, pt: Seq<u8>) -> Seq<u8>;

/// Result of opening an XChaCha20-Poly1305 ciphertext-with-tag; `None` when
/// authentication fails.
pub uninterp spec fn open_of(key: Seq<u8>, nonce: Seq<u8>, aad: Seq<u8>, ct: Seq<u8>) -> Option<
    Seq<u8>,
>;

/// The size-prefixed LZ4 frame of a byte string.
pub uninterp spec fn lz4_of(data: Seq<u8>) -> Seq<u8>;

/// Result of decoding a size-prefixed LZ4 frame; `None` on a malformed frame.
pub uninterp spec fn unlz4_of(data: Seq<u8>) -> Option<Seq<u8>>;

/// The PKCS#8 DER document of the Ed25519 signing key with the given seed.
pub uninterp spec fn pkcs8_of(seed: Seq<u8>) -> Seq<u8>;

/// The signing seed recovered from a PKCS#8 DER document; `None` when the
/// document does not parse as an Ed25519 private key.
pub uninterp spec fn pkcs8_seed_of(der: Seq<u8>) -> Option<Seq<u8>>;

/// The SPKI DER document of an Ed25519 verifying key.
pub uninterp spec fn spki_of(vk: Seq<u8>) -> Seq<u8>;

/// The verifying key recovered from an SPKI DER document; `None` when the
/// document does not parse as a valid Ed25519 public key.
pub uninterp spec fn spki_vk_of(der: Seq<u8>) -> Option<Seq<u8>>;

/// The SHA3-512 digest of a message.
pub uninterp spec fn sha3_512_of(msg: Seq<u8>) -> Seq<u8>;

/// Whether 32 bytes are a valid Ed25519 point encoding.
pub uninterp spec fn ed25519_point_valid(vk: Seq<u8>) -> bool;

/// A 32-byte scalar whose Diffie-Hellman outcome agrees with every peer:
/// combining it with any other party's public key yields the same secret on
/// both sides.  Every scalar drawn by [`x25519_keypair`] has this property.
pub open spec fn dh_agrees(scalar: Seq<u8>) -> bool {
    forall|other: Seq<u8>|
        other.len() == 32 ==> #[trigger] x25519_shared_of(scalar, x25519_pub_of(other))
            == x25519_shared_of(other, x25519_pub_of(scalar))
}

/// Relies on `rand_chacha::ChaCha20Rng::from_entropy` (an OS-seeded CSPRNG):
/// fills a fresh buffer of the requested length.  Nothing is promised about
/// the contents.
#[verifier::external_body]
pub(crate) fn random_bytes(n: usize) -> (r: Vec<u8>)
    ensures
        r@.len() == n,
{
    let mut rng = rand_chacha::ChaCha20Rng::from_entropy();
    let mut buf = vec![0u8; n];
    rng.fill_bytes(&mut buf);
    buf
}

/// Relies on `ed25519_dalek::SigningKey::verifying_key`: derives the public
/// half of the signing key with the given seed.  A derived key is a valid
/// curve point, so its encoding parses back (`from_bytes` accepts it).
#[verifier::external_body]
pub(crate) fn ed25519_derive_vk(seed: &[u8]) -> (r: Vec<u8>)
    requires
        seed@.len() == 32,
    ensures
        r@.len() == 32,
        r@ == ed25519_vk_of(seed@),
        ed25519_point_valid(r@),
{
    let sk = ed25519_dalek::SigningKey::from_bytes(seed.try_into().unwrap());
    sk.verifying_key().to_bytes().to_vec()
}

/// Relies on `ed25519_dalek::SigningKey::sign`: Ed25519 signatures are
/// deterministic, 64 bytes wide, and verify under the signer's own
/// verifying key.
#[verifier::external_body]
pub(crate) fn ed25519_sign(seed: &[u8], msg: &[u8]) -> (r: Vec<u8>)
    requires
        seed@.len() == 32,
    ensures
        r@.len() == 64,
        r@ == ed25519_sig_of(seed@, msg@),
        ed25519_ok(ed25519_vk_of(seed@), msg@, r@),
{
    let sk = ed25519_dalek::SigningKey::from_bytes(seed.try_into().unwrap());
    sk.sign(msg).to_bytes().to_vec()
}

/// Relies on `ed25519_dalek::VerifyingKey::verify`: true exactly when `vk`
/// parses as an Ed25519 point and the signature verifies over `msg`.
#[verifier::external_body]
pub(crate) fn ed25519_verify(vk: &[u8], msg: &[u8], sig: &[u8]) -> (r: bool)
    requires
        vk@.len() == 32,
        sig@.len() == 64,
    ensures
        r == ed25519_ok(vk@, msg@, sig@),
{
    match ed25519_dalek::VerifyingKey::from_bytes(vk.try_into().unwrap()) {
        Ok(k) => k.verify(msg, &ed25519_dalek::Signature::from_bytes(sig.try_into().unwrap()))
            .is_ok(),
        Err(_) => false,
    }
}

/// Relies on `ed25519_dalek::VerifyingKey::verify_strict`: as
/// [`ed25519_verify`], additionally rejecting keys and signatures with
/// small-order components.
#[verifier::external_body]
pub(crate) fn ed25519_verify_strict(vk: &[u8], msg: &[u8], sig: &[u8]) -> (r: bool)
    requires
        vk@.len() == 32,
        sig@.len() == 64,
    ensures
        r == ed25519_strict_ok(vk@, msg@, sig@),
{
    match ed25519_dalek::VerifyingKey::from_bytes(vk.try_into().unwrap()) {
        Ok(k) => k.verify_strict(
            msg,
            &ed25519_dalek::Signature::from_bytes(sig.try_into().unwrap()),
        ).is_ok(),
        Err(_) => false,
    }
}

/// Relies on `x25519_dalek::StaticSecret::random_from_rng` and
/// `PublicKey::from`: draws a fresh scalar and derives its public key.  The
/// crate's Diffie-Hellman contract is that both parties compute the same
/// shared secret, stated here as [`dh_agrees`] of the drawn scalar.
#[verifier::external_body]
pub(crate) fn x25519_keypair() -> (r: (Vec<u8>, Vec<u8>))
    ensures
        r.0@.len() == 32,
        r.1@.len() == 32,
        r.1@ == x25519_pub_of(r.0@),
        dh_agrees(r.0@),
{
    let rng = rand_chacha::ChaCha20Rng::from_entropy();
    let secret = x25519_dalek::StaticSecret::random_from_rng(rng);
    let public = x25519_dalek::PublicKey::from(&secret);
    (secret.to_bytes().to_vec(), public.to_bytes().to_vec())
}

/// Relies on `x25519_dalek::StaticSecret::diffie_hellman`: the shared secret
/// is a pure function of the scalar and the peer's public key.
#[verifier::external_body]
pub(crate) fn x25519_dh(scalar: &[u8], peer_pub: &[u8]) -> (r: Vec<u8>)
    requires
        scalar@.len() == 32,
        peer_pub@.len() == 32,
    ensures
        r@.len() == 32,
        r@ == x25519_shared_of(scalar@, peer_pub@),
{
    let sk = x25519_dalek::StaticSecret::from(<[u8; 32]>::try_from(scalar).unwrap());
    let pk = x25519_dalek::PublicKey::from(<[u8; 32]>::try_from(peer_pub).unwrap());
    sk.diffie_hellman(&pk).to_bytes().to_vec()
}

/// Relies on `argon2::Argon2::hash_password_into` with the crate's default
/// parameters (Argon2id v19): deterministic in password and salt; the source
/// accepts any password up to 2^32 - 1 bytes with a 16-byte salt and a
/// 32-byte output.
#[verifier::external_body]
pub(crate) fn argon2id_derive(password: &[u8], salt: &[u8]) -> (r: Vec<u8>)
    requires
        salt@.len() == 16,
        password@.len() < 0x1_0000_0000,
    ensures
        r@.len() == 32,
        r@ == kdf_of(password@, salt@),
{
    let mut out = [0u8; 32];
    argon2::Argon2::default().hash_password_into(password, salt, &mut out).unwrap();
    out.to_vec()
}

/// Relies on `chacha20poly1305::XChaCha20Poly1305::encrypt_in_place`: appends
/// the 16-byte Poly1305 tag, is deterministic in key, nonce, associated data
/// and plaintext, succeeds for any plaintext under 2^32 bytes, and — the
/// AEAD round trip the crate documents — opens back to the plaintext under
/// the same key, nonce and associated data.
#[verifier::external_body]
pub(crate) fn aead_seal(key: &[u8], nonce: &[u8], aad: &[u8], pt: Vec<u8>) -> (r: Vec<u8>)
    requires
        key@.len() == 32,
        nonce@.len() == 24,
        pt@.len() < 0x1_0000_0000,
    ensures
        r@.len() == pt@.len() + 16,
        r@ == seal_of(key@, nonce@, aad@, pt@),
        open_of(key@, nonce@, aad@, r@) == Some(pt@),
{
    let cipher = XChaCha20Poly1305::new(GenericArray::from_slice(key));
    let mut buf = pt;
    cipher.encrypt_in_place(GenericArray::from_slice(nonce), aad, &mut buf).unwrap();
    buf
}

/// Relies on `chacha20poly1305::XChaCha20Poly1305::decrypt_in_place`:
/// deterministic in its inputs; `None` exactly when authentication fails.
#[verifier::external_body]
pub(crate) fn aead_open(key: &[u8], nonce: &[u8], aad: &[u8], ct: Vec<u8>) -> (r: Option<Vec<u8>>)
    requires
        key@.len() == 32,
        nonce@.len() == 24,
    ensures
        match r {
            Some(p) => open_of(key@, nonce@, aad@, ct@) == Some(p@) && p@.len() + 16 == ct@.len(),
            None => open_of(key@, nonce@, aad@, ct@) is None,
        },
{
    let cipher = XChaCha20Poly1305::new(GenericArray::from_slice(key));
    let mut buf = ct;
    match cipher.decrypt_in_place(GenericArray::from_slice(nonce), aad, &mut buf) {
        Ok(()) => Some(buf),
        Err(_) => None,
    }
}

/// Relies on `lz4_flex::compress_prepend_size`: deterministic, never fails,
/// output within the crate's documented maximum (20 bytes plus ten percent
/// overhead), and — the round trip the crate documents —
/// `decompress_size_prepended` inverts it.  The frame stores the
/// uncompressed size as a `u32`, so the round trip holds only for inputs
/// under 2^32 bytes; larger inputs are excluded.
#[verifier::external_body]
pub(crate) fn lz4_compress(data: &[u8]) -> (r: Vec<u8>)
    requires
        data@.len() < 0x1_0000_0000,
    ensures
        r@ == lz4_of(data@),
        r@.len() <= 20 + data@.len() + data@.len() / 10,
        unlz4_of(r@) == Some(data@),
{
    lz4_flex::compress_prepend_size(data)
}

/// Relies on `lz4_flex::decompress_size_prepended`: deterministic; `None`
/// exactly on a malformed size-prefixed frame.
#[verifier::external_body]
pub(crate) fn lz4_decompress(data: &[u8]) -> (r: Option<Vec<u8>>)
    ensures
        match r {
            Some(p) => unlz4_of(data@) == Some(p@),
            None => unlz4_of(data@) is None,
        },
{
    match lz4_flex::decompress_size_prepended(data) {
        Ok(v) => Some(v),
        Err(_) => None,
    }
}

/// Relies on `ed25519_dalek`'s PKCS#8 support (`EncodePrivateKey`): the
/// document of a fixed-size Ed25519 keypair has a fixed small size (under
/// 128 bytes) and so never exceeds DER limits and never fails to encode; it
/// is deterministic in the seed, and `DecodePrivateKey` inverts it.
#[verifier::external_body]
pub(crate) fn pkcs8_encode(seed: &[u8]) -> (r: Vec<u8>)
    requires
        seed@.len() == 32,
    ensures
        r@ == pkcs8_of(seed@),
        r@.len() <= 128,
        pkcs8_seed_of(r@) == Some(seed@),
{
    let sk = ed25519_dalek::SigningKey::from_bytes(seed.try_into().unwrap());
    sk.to_pkcs8_der().unwrap().as_bytes().to_vec()
}

/// Relies on `ed25519_dalek`'s `DecodePrivateKey::from_pkcs8_der`:
/// deterministic; `None` exactly when the document does not parse as an
/// Ed25519 private key (a mismatched embedded public key included).
#[verifier::external_body]
pub(crate) fn pkcs8_decode(der: &[u8]) -> (r: Option<Vec<u8>>)
    ensures
        match r {
            Some(s) => s@.len() == 32 && pkcs8_seed_of(der@) == Some(s@),
            None => pkcs8_seed_of(der@) is None,
        },
{
    match ed25519_dalek::SigningKey::from_pkcs8_der(der) {
        Ok(k) => Some(k.to_bytes().to_vec()),
        Err(_) => None,
    }
}

/// Relies on `ed25519_dalek`'s `EncodePublicKey`: encoding an Ed25519
/// verifying key that was derived from some seed never fails and yields a
/// fixed small document (under 64 bytes); it is deterministic, and
/// `DecodePublicKey` inverts it.
#[verifier::external_body]
pub(crate) fn spki_encode(vk: &[u8]) -> (r: Vec<u8>)
    requires
        vk@.len() == 32,
        exists|s: Seq<u8>| vk@ == ed25519_vk_of(s),
    ensures
        r@ == spki_of(vk@),
        r@.len() <= 64,
        spki_vk_of(r@) == Some(vk@),
{
    let k = ed25519_dalek::VerifyingKey::from_bytes(vk.try_into().unwrap()).unwrap();
    k.to_public_key_der().unwrap().as_bytes().to_vec()
}

/// Relies on `ed25519_dalek`'s `DecodePublicKey::from_public_key_der`:
/// deterministic; `None` exactly when the document does not parse as a valid
/// Ed25519 public key.
#[verifier::external_body]
pub(crate) fn spki_decode(der: &[u8]) -> (r: Option<Vec<u8>>)
    ensures
        match r {
            Some(v) => v@.len() == 32 && spki_vk_of(der@) == Some(v@),
            None => spki_vk_of(der@) is None,
        },
{
    match ed25519_dalek::VerifyingKey::from_public_key_der(der) {
        Ok(k) => Some(k.to_bytes().to_vec()),
        Err(_) => None,
    }
}

/// Relies on `ed25519_dalek::VerifyingKey::from_bytes`: true exactly when
/// the bytes decompress to a curve point.
#[verifier::external_body]
pub(crate) fn ed25519_vk_check(vk: &[u8]) -> (r: bool)
    requires
        vk@.len() == 32,
    ensures
        r == ed25519_point_valid(vk@),
{
    ed25519_dalek::VerifyingKey::from_bytes(vk.try_into().unwrap()).is_ok()
}

/// Relies on `sha3::Sha3_512::digest`: a deterministic 64-byte digest.
#[verifier::external_body]
pub(crate) fn sha3_512(msg: &[u8]) -> (r: Vec<u8>)
    ensures
        r@.len() == 64,
        r@ == sha3_512_of(msg@),
{
    sha3::Sha3_512::digest(msg).to_vec()
}

} // verus!
