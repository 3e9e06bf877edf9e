use cipher_core::signature::{new, new_from_private_key, new_from_public_key};
use ed25519_dalek::Verifier;
use sha3::Digest;

#[test]
fn mod_test_generate_keypair() {
    let keypair = new().unwrap();
    assert!(keypair.has_secret_key());
}

#[test]
fn mod_test_import_public_key() {
    let keypair = new().unwrap();
    let public_key = keypair.export_public_key().unwrap();
    let public_key_only = new_from_public_key(&public_key).unwrap();
    assert!(!public_key_only.has_secret_key());
    assert_eq!(public_key_only.public_key(), keypair.public_key());
}

#[test]
fn mod_test_import_private_and_public_key() {
    let keypair = new().unwrap();
    let private_key = keypair.export_private_key().unwrap();
    let public_key = keypair.export_public_key().unwrap();
    let keypair2 = new_from_private_key(&private_key, &public_key).unwrap();
    assert_eq!(keypair.public_key(), keypair2.public_key());
}

#[test]
fn mod_test_sign_verify() {
    let keypair = new().unwrap();
    let message = b"Hello, World!";
    let signature = keypair.sign(message).unwrap();
    assert!(keypair.verify(message, &signature).unwrap());
}

#[test]
fn mod_test_export_sign_import_verify() {
    let keypair = new().unwrap();
    let message = b"Hello, World!";
    let signature = keypair.sign(message).unwrap();
    let public_key = keypair.export_public_key().unwrap();
    let public_key_only = new_from_public_key(&public_key).unwrap();
    assert!(public_key_only.verify(message, &signature).unwrap());
}

// The backend's signatures are ordinary Ed25519 signatures over the SHA3-512
// digest: check one against the reference implementations directly.
#[test]
fn signature_matches_reference() {
    let keypair = new().unwrap();
    let message = b"cross-check me";
    let signature = keypair.sign(message).unwrap();
    let digest = sha3::Sha3_512::digest(message);
    let vk = ed25519_dalek::VerifyingKey::from_bytes(
        keypair.public_key().as_slice().try_into().unwrap(),
    )
    .unwrap();
    let sig = ed25519_dalek::Signature::from_bytes(signature.as_slice().try_into().unwrap());
    assert!(vk.verify(&digest, &sig).is_ok());
}

#[test]
fn reject_wrong_public_key_for_private_key() {
    let keypair1 = new().unwrap();
    let keypair2 = new().unwrap();
    let private_key = keypair1.export_private_key().unwrap();
    let public_key = keypair2.export_public_key().unwrap();
    assert!(new_from_private_key(&private_key, &public_key).is_err());
}

#[test]
fn reject_unknown_algorithm_prefix() {
    let keypair = new().unwrap();
    let mut public_key = keypair.export_public_key().unwrap();
    public_key[0] ^= 0xff;
    assert!(new_from_public_key(&public_key).is_err());
}
