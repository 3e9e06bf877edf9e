//! The classical signing backend: Ed25519 over a SHA3-512 message digest,
//! with algorithm-prefixed key export and import.

use vstd::prelude::*;

use crate::errors::{CodecError, CryptoError};
use crate::helpers::{spec_unwrap_key, spec_wrap_key, algorithm_name, validate_key_algorithm};
use crate::primitives::{ed25519_derive_vk, ed25519_ok, ed25519_point_valid, ed25519_sig_of,
    ed25519_sign, ed25519_strict_ok, ed25519_verify, ed25519_verify_strict, ed25519_vk_check,
    ed25519_vk_of, random_bytes, sha3_512, sha3_512_of};

verus! {

/// A signing key: the verifying half always, the secret seed when signing
/// is possible.
pub struct SigningKey {
    public_key: Vec<u8>,
    secret_key: Option<Vec<u8>>,
}

impl SigningKey {
    #[verifier::type_invariant]
    spec fn inv(self) -> bool {
        &&& self.public_key@.len() == 32
        &&& ed25519_point_valid(self.public_key@)
        &&& match self.secret_key {
            Some(s) => s@.len() == 32 && self.public_key@ == ed25519_vk_of(s@),
            None => true,
        }
    }

    /// The verifying key bytes.
    pub closed spec fn spec_public_key(self) -> Seq<u8> {
        self.public_key@
    }

    /// The secret seed, when present.
    pub closed spec fn spec_secret_key(self) -> Option<Seq<u8>> {
        match self.secret_key {
            Some(s) => Some(s@),
            None => None,
        }
    }

    /// The verifying key bytes (32 bytes, a valid curve point).
    pub fn public_key(&self) -> (r: &Vec<u8>)
        ensures
            r@ == self.spec_public_key(),
            r@.len() == 32,
            ed25519_point_valid(r@),
    {
        proof {
            use_type_invariant(&*self);
        }
        &self.public_key
    }

    /// Whether the secret half is present.
    pub fn has_secret_key(&self) -> (r: bool)
        ensures
            r == (self.spec_secret_key() is Some),
    {
        match &self.secret_key {
            Some(_) => true,
            None => false,
        }
    }

    /// Signs the SHA3-512 digest of a message.
    pub fn sign(&self, message: &[u8]) -> (r: Result<Vec<u8>, CryptoError>)
        requires
            self.spec_secret_key() is Some,
        ensures
            match r {
                Ok(s) => {
                    &&& s@.len() == 64
                    &&& s@ == ed25519_sig_of(self.spec_secret_key()->0, sha3_512_of(message@))
                    &&& ed25519_ok(self.spec_public_key(), sha3_512_of(message@), s@)
                },
                Err(_) => false,
            },
    {
        proof {
            use_type_invariant(&*self);
        }
        let secret = match &self.secret_key {
            Some(s) => s,
            None => {
                return Err(CryptoError::Primitive);
            },
        };
        let hash = sha3_512(message);
        Ok(ed25519_sign(secret.as_slice(), hash.as_slice()))
    }

    /// Verifies a signature over the SHA3-512 digest of a message, both
    /// with the plain and with the strict Ed25519 check.  A signature that
    /// is not 64 bytes wide is refused outright.
    pub fn verify(&self, message: &[u8], signature: &[u8]) -> (r: Result<bool, CryptoError>)
        ensures
            match r {
                Ok(b) => signature@.len() == 64 && b == (ed25519_ok(
                    self.spec_public_key(),
                    sha3_512_of(message@),
                    signature@,
                ) && ed25519_strict_ok(self.spec_public_key(), sha3_512_of(message@), signature@)),
                Err(e) => e == CryptoError::Codec(CodecError::MalformedKey) && signature@.len()
                    != 64,
            },
    {
        proof {
            use_type_invariant(&*self);
        }
        if signature.len() != 64 {
            return Err(CryptoError::Codec(CodecError::MalformedKey));
        }
        let hash = sha3_512(message);
        if !ed25519_verify(self.public_key.as_slice(), hash.as_slice(), signature) {
            return Ok(false);
        }
        Ok(ed25519_verify_strict(self.public_key.as_slice(), hash.as_slice(), signature))
    }

    /// Exports the verifying key under the algorithm-name prefix.
    pub fn export_public_key(&self) -> (r: Result<Vec<u8>, CryptoError>)
        ensures
            match r {
                Ok(b) => b@ == spec_wrap_key(self.spec_public_key()) && self.spec_public_key().len()
                    == 32 && ed25519_point_valid(self.spec_public_key()),
                Err(_) => false,
            },
    {
        proof {
            use_type_invariant(&*self);
        }
        let mut out = algorithm_name();
        out.extend_from_slice(self.public_key.as_slice());
        Ok(out)
    }

    /// Exports the secret seed under the algorithm-name prefix; fails when
    /// only the verifying half is present.
    pub fn export_private_key(&self) -> (r: Result<Vec<u8>, CryptoError>)
        ensures
            match r {
                Ok(b) => self.spec_secret_key() is Some && self.spec_secret_key()->0.len() == 32
                    && b@ == spec_wrap_key(self.spec_secret_key()->0),
                Err(e) => e == CryptoError::Primitive && self.spec_secret_key() is None,
            },
    {
        proof {
            use_type_invariant(&*self);
        }
        let secret = match &self.secret_key {
            Some(s) => s,
            None => {
                return Err(CryptoError::Primitive);
            },
        };
        let mut out = algorithm_name();
        out.extend_from_slice(secret.as_slice());
        Ok(out)
    }
}

/// Generates a fresh signing keypair from 32 random bytes.
pub fn new() -> (r: Result<SigningKey, CryptoError>)
    ensures
        match r {
            Ok(k) => {
                &&& k.spec_secret_key() is Some
                &&& k.spec_secret_key()->0.len() == 32
                &&& k.spec_public_key() == ed25519_vk_of(k.spec_secret_key()->0)
                &&& k.spec_public_key().len() == 32
                &&& ed25519_point_valid(k.spec_public_key())
            },
            Err(_) => false,
        },
{
    let seed = random_bytes(32);
    let public_key = ed25519_derive_vk(seed.as_slice());
    Ok(SigningKey { public_key, secret_key: Some(seed) })
}

/// Imports a verifying key from an algorithm-prefixed export; the raw key
/// must be 32 bytes and a valid Ed25519 point.
pub fn new_from_public_key(public_key: &[u8]) -> (r: Result<SigningKey, CryptoError>)
    ensures
        match r {
            Ok(k) => {
                &&& spec_unwrap_key(public_key@) == Some(k.spec_public_key())
                &&& k.spec_public_key().len() == 32
                &&& ed25519_point_valid(k.spec_public_key())
                &&& k.spec_secret_key() is None
            },
            Err(e) => match spec_unwrap_key(public_key@) {
                Some(raw) => (e == CryptoError::Codec(CodecError::MalformedKey) && raw.len() != 32)
                    || (e == CryptoError::Primitive && raw.len() == 32 && !ed25519_point_valid(
                    raw,
                )),
                None => e == CryptoError::Codec(CodecError::MalformedKey),
            },
        },
{
    let raw = match validate_key_algorithm(public_key) {
        Ok(v) => v,
        Err(e) => {
            return Err(e);
        },
    };
    if raw.len() != 32 {
        return Err(CryptoError::Codec(CodecError::MalformedKey));
    }
    if !ed25519_vk_check(raw) {
        return Err(CryptoError::Primitive);
    }
    Ok(SigningKey { public_key: vstd::slice::slice_to_vec(raw), secret_key: None })
}

/// Imports a keypair from algorithm-prefixed exports of the secret seed and
/// the verifying key; the imported verifying key must be the one the seed
/// derives.
pub fn new_from_private_key(private_key: &[u8], public_key: &[u8]) -> (r: Result<
    SigningKey,
    CryptoError,
>)
    ensures
        match r {
            Ok(k) => {
                &&& spec_unwrap_key(private_key@) == Some(k.spec_secret_key()->0)
                &&& k.spec_secret_key() is Some
                &&& k.spec_secret_key()->0.len() == 32
                &&& spec_unwrap_key(public_key@) == Some(k.spec_public_key())
                &&& k.spec_public_key() == ed25519_vk_of(k.spec_secret_key()->0)
                &&& k.spec_public_key().len() == 32
                &&& ed25519_point_valid(k.spec_public_key())
            },
            Err(e) => match spec_unwrap_key(private_key@) {
                None => e == CryptoError::Codec(CodecError::MalformedKey),
                Some(rs) => if rs.len() != 32 {
                    e == CryptoError::Codec(CodecError::MalformedKey)
                } else {
                    match spec_unwrap_key(public_key@) {
                        None => e == CryptoError::Codec(CodecError::MalformedKey),
                        Some(rp) => if rp.len() != 32 {
                            e == CryptoError::Codec(CodecError::MalformedKey)
                        } else {
                            e == CryptoError::Primitive && rp != ed25519_vk_of(rs)
                        },
                    }
                },
            },
        },
{
    let raw_secret = match validate_key_algorithm(private_key) {
        Ok(v) => v,
        Err(e) => {
            return Err(e);
        },
    };
    if raw_secret.len() != 32 {
        return Err(CryptoError::Codec(CodecError::MalformedKey));
    }
    let derived = ed25519_derive_vk(raw_secret);
    let raw_public = match validate_key_algorithm(public_key) {
        Ok(v) => v,
        Err(e) => {
            return Err(e);
        },
    };
    if raw_public.len() != 32 {
        return Err(CryptoError::Codec(CodecError::MalformedKey));
    }
    if !crate::codec::bytes_eq(raw_public, derived.as_slice()) {
        return Err(CryptoError::Primitive);
    }
    Ok(SigningKey { public_key: derived, secret_key: Some(vstd::slice::slice_to_vec(raw_secret)) })
}

} // verus!
