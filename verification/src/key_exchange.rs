//! The classical key-exchange backend: X25519 presented as a one-shot
//! encapsulation.  The ephemeral scalar is consumed by the first
//! encapsulation; a second attempt fails.

use vstd::prelude::*;

use crate::errors::{CodecError, CryptoError};
use crate::interfaces::KemCapsule;
use crate::primitives::{dh_agrees, x25519_dh, x25519_keypair, x25519_pub_of, x25519_shared_of};

verus! {

/// An ephemeral X25519 exchange: the scalar until it is consumed, and the
/// public key derived from it.
pub struct KeyExchange {
    secret_key: Option<Vec<u8>>,
    public_key: Vec<u8>,
}

impl KeyExchange {
    #[verifier::type_invariant]
    spec fn inv(self) -> bool {
        &&& self.public_key@.len() == 32
        &&& match self.secret_key {
            Some(s) => s@.len() == 32 && dh_agrees(s@) && self.public_key@ == x25519_pub_of(s@),
            None => true,
        }
    }

    /// The scalar, while it has not been consumed.
    pub closed spec fn spec_secret_key(self) -> Option<Seq<u8>> {
        match self.secret_key {
            Some(s) => Some(s@),
            None => None,
        }
    }

    /// The public key of the ephemeral scalar.
    pub closed spec fn spec_public_key(self) -> Seq<u8> {
        self.public_key@
    }

    /// Whether the scalar is still available.
    pub fn has_secret_key(&self) -> (r: bool)
        ensures
            r == (self.spec_secret_key() is Some),
    {
        match &self.secret_key {
            Some(_) => true,
            None => false,
        }
    }

    /// Combines the scalar with the peer's public key, consuming the
    /// scalar: the capsule carries the derived shared secret (X25519 sends
    /// no ciphertext).  A second call fails with no scalar left.
    pub fn encapsulate(&mut self, recipient_public_key: &[u8]) -> (r: Result<
        KemCapsule,
        CryptoError,
    >)
        ensures
            final(self).spec_public_key() == old(self).spec_public_key(),
            match r {
                Ok(c) => {
                    &&& recipient_public_key@.len() == 32
                    &&& old(self).spec_secret_key() is Some
                    &&& old(self).spec_secret_key()->0.len() == 32
                    &&& c.shared_secret@ == x25519_shared_of(
                        old(self).spec_secret_key()->0,
                        recipient_public_key@,
                    )
                    &&& c.shared_secret@.len() == 32
                    &&& c.ciphertext@ == Seq::<u8>::empty()
                    &&& dh_agrees(old(self).spec_secret_key()->0)
                    &&& final(self).spec_secret_key() is None
                },
                Err(e) => {
                    &&& final(self).spec_secret_key() == old(self).spec_secret_key()
                    &&& if recipient_public_key@.len() != 32 {
                        e == CryptoError::Codec(CodecError::MalformedKey)
                    } else {
                        e == CryptoError::Primitive && old(self).spec_secret_key() is None
                    }
                },
            },
    {
        proof {
            use_type_invariant(&*self);
        }
        if recipient_public_key.len() != 32 {
            return Err(CryptoError::Codec(CodecError::MalformedKey));
        }
        let mut taken: Option<Vec<u8>> = None;
        core::mem::swap(&mut taken, &mut self.secret_key);
        let secret = match taken {
            Some(s) => s,
            None => {
                return Err(CryptoError::Primitive);
            },
        };
        let shared = x25519_dh(secret.as_slice(), recipient_public_key);
        Ok(KemCapsule { ciphertext: Vec::new(), shared_secret: shared })
    }

    /// Decapsulation is the same operation as encapsulation under X25519:
    /// combines the scalar with the peer's public key and hands the shared
    /// secret back.
    pub fn decapsulate(&mut self, recipient_public_key: &[u8]) -> (r: Result<Vec<u8>, CryptoError>)
        ensures
            final(self).spec_public_key() == old(self).spec_public_key(),
            match r {
                Ok(s) => {
                    &&& recipient_public_key@.len() == 32
                    &&& old(self).spec_secret_key() is Some
                    &&& old(self).spec_secret_key()->0.len() == 32
                    &&& s@ == x25519_shared_of(
                        old(self).spec_secret_key()->0,
                        recipient_public_key@,
                    )
                    &&& s@.len() == 32
                    &&& dh_agrees(old(self).spec_secret_key()->0)
                    &&& final(self).spec_secret_key() is None
                },
                Err(e) => {
                    &&& final(self).spec_secret_key() == old(self).spec_secret_key()
                    &&& if recipient_public_key@.len() != 32 {
                        e == CryptoError::Codec(CodecError::MalformedKey)
                    } else {
                        e == CryptoError::Primitive && old(self).spec_secret_key() is None
                    }
                },
            },
    {
        match self.encapsulate(recipient_public_key) {
            Ok(c) => Ok(c.shared_secret),
            Err(e) => Err(e),
        }
    }

    /// The ephemeral public key; fails once the scalar is consumed.
    pub fn export_public_key(&self) -> (r: Result<Vec<u8>, CryptoError>)
        ensures
            match r {
                Ok(p) => {
                    &&& self.spec_secret_key() is Some
                    &&& p@ == self.spec_public_key()
                    &&& p@ == x25519_pub_of(self.spec_secret_key()->0)
                    &&& p@.len() == 32
                },
                Err(e) => e == CryptoError::Primitive && self.spec_secret_key() is None,
            },
    {
        proof {
            use_type_invariant(&*self);
        }
        match &self.secret_key {
            Some(_) => Ok(vstd::slice::slice_to_vec(self.public_key.as_slice())),
            None => Err(CryptoError::Primitive),
        }
    }
}

/// Draws a fresh ephemeral X25519 keypair.
pub fn new() -> (r: Result<KeyExchange, CryptoError>)
    ensures
        match r {
            Ok(k) => {
                &&& k.spec_secret_key() is Some
                &&& k.spec_secret_key()->0.len() == 32
                &&& dh_agrees(k.spec_secret_key()->0)
                &&& k.spec_public_key() == x25519_pub_of(k.spec_secret_key()->0)
                &&& k.spec_public_key().len() == 32
            },
            Err(_) => false,
        },
{
    let (secret, public) = x25519_keypair();
    Ok(KeyExchange { secret_key: Some(secret), public_key: public })
}

} // verus!
