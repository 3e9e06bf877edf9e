//! Abstract capability interfaces for the pluggable cryptographic backends:
//! signing, key encapsulation, and symmetric encryption.  The classical
//! backends in [`crate::signature`] and [`crate::key_exchange`] expose these
//! shapes as inherent methods with full contracts.

use vstd::prelude::*;

use crate::errors::CryptoError;

verus! {

/// Asymmetric signing capability.
pub trait Signer {
    fn sign(&self, message: &[u8]) -> Result<Vec<u8>, CryptoError>;

    fn verify(&self, message: &[u8], signature: &[u8]) -> Result<bool, CryptoError>;

    fn export_public_key(&self) -> Result<Vec<u8>, CryptoError>;

    fn export_private_key(&self) -> Result<Vec<u8>, CryptoError>;
}

/// A key-encapsulation result: the ciphertext for the peer and the locally
/// derived shared secret.
pub struct KemCapsule {
    pub ciphertext: Vec<u8>,
    pub shared_secret: Vec<u8>,
}

/// Key-exchange (encapsulation) capability.
pub trait KeyExchanger {
    fn encapsulate(&self, recipient_public_key: &[u8]) -> Result<KemCapsule, CryptoError>;

    fn decapsulate(&self, cipher_text: &[u8]) -> Result<Vec<u8>, CryptoError>;

    fn export_public_key(&self) -> Result<Vec<u8>, CryptoError>;

    fn export_private_key(&self) -> Result<Vec<u8>, CryptoError>;
}

/// Symmetric encryption capability.
pub trait SymmetricEncryptor {
    fn encrypt(&self, message: &[u8]) -> Result<Vec<u8>, CryptoError>;

    fn decrypt(&self, message: &[u8]) -> Result<Vec<u8>, CryptoError>;
}

} // verus!
