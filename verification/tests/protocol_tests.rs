use chacha20poly1305::aead::generic_array::GenericArray;
use chacha20poly1305::{AeadInPlace, KeyInit, XChaCha20Poly1305};
use cipher_core::client::Client;
use cipher_core::errors::{CodecError, CryptoError};
use ed25519_dalek::pkcs8::{EncodePrivateKey, EncodePublicKey};

fn unpack(packet: &[u8]) -> (Vec<u8>, Vec<u8>, Vec<u8>, Vec<u8>) {
    Client::unpack_kex_packet(packet).unwrap()
}

/// Runs a full key exchange; `a` files the session under `label_b` and `b`
/// under `label_a`.  Returns both shared secrets.
fn establish(a: &mut Client, b: &mut Client, label_a: &str, label_b: &str) -> (Vec<u8>, Vec<u8>) {
    let pa = a.init_dh_kex(label_b).unwrap();
    let pkt_a = a
        .generate_kex_packet(pa.0.as_slice(), pa.1.as_slice())
        .unwrap();
    let pb = b.init_dh_kex(label_a).unwrap();
    let pkt_b = b
        .generate_kex_packet(pb.0.as_slice(), pb.1.as_slice())
        .unwrap();
    let (p1, s1, v1, c1) = unpack(&pkt_b);
    let sa = a.complete_dh_kex(label_b, &p1, &s1, &v1, &c1).unwrap();
    let (p2, s2, v2, c2) = unpack(&pkt_a);
    let sb = b.complete_dh_kex(label_a, &p2, &s2, &v2, &c2).unwrap();
    (sa, sb)
}

fn user_and_instance() -> (Client, Client) {
    let a = Client::new_user();
    let inst = a.generate_instance().unwrap();
    let b = Client::import_instance(&inst).unwrap();
    (a, b)
}

#[test]
fn export_import_preserves_identity() {
    let a = Client::new_user();
    let exported = a.export_user(b"password").unwrap();
    let a2 = Client::import_user(b"password", &exported).unwrap();
    assert_eq!(a.verifying_key(), a2.verifying_key());
    assert_eq!(a.ca_verifying_key(), a2.ca_verifying_key());
    assert_eq!(a.signing_key_signature(), a2.signing_key_signature());
    assert!(a2.has_ca_secret());

    match Client::import_user(b"wrong", &exported) {
        Err(e) => assert_eq!(e, CryptoError::BadPassword),
        Ok(_) => panic!("import with a wrong password succeeded"),
    }
}

#[test]
fn tampered_export_rejected() {
    let a = Client::new_user();
    let mut exported = a.export_user(b"pw").unwrap();
    // Flip byte 0 of the ciphertext region (after the 40-byte prefix).
    exported[40] ^= 0x01;
    assert!(Client::import_user(b"pw", &exported).is_err());
}

#[test]
fn tampered_export_salt_rejected() {
    let a = Client::new_user();
    let mut exported = a.export_user(b"pw").unwrap();
    // The salt is bound by the associated data (and changes the derived key).
    exported[0] ^= 0x01;
    assert!(Client::import_user(b"pw", &exported).is_err());
}

#[test]
fn instance_shares_ca_without_secret() {
    let (a, b) = user_and_instance();
    assert_ne!(a.verifying_key(), b.verifying_key());
    assert_eq!(a.ca_verifying_key(), b.ca_verifying_key());
    assert!(!b.has_ca_secret());
    assert_eq!(b.export_user(b"pw").unwrap_err(), CryptoError::MissingCaPrivate);
    assert_eq!(b.generate_instance().unwrap_err(), CryptoError::MissingCaPrivate);
}

#[test]
fn kex_derives_equal_secrets() {
    let (mut a, mut b) = user_and_instance();
    let (sa, sb) = establish(&mut a, &mut b, "A", "B");
    assert_eq!(sa, sb);
}

#[test]
fn foreign_ca_rejected() {
    let (mut a, _b) = user_and_instance();
    let mut c = Client::new_user();
    let pa = a.init_dh_kex("C").unwrap();
    let _pkt_a = a
        .generate_kex_packet(pa.0.as_slice(), pa.1.as_slice())
        .unwrap();
    let pc = c.init_dh_kex("A").unwrap();
    let pkt_c = c
        .generate_kex_packet(pc.0.as_slice(), pc.1.as_slice())
        .unwrap();
    let (p, s, v, cert) = unpack(&pkt_c);
    let r = a.complete_dh_kex("C", &p, &s, &v, &cert);
    assert_eq!(r.unwrap_err(), CryptoError::PeerNotCaSigned);
}

#[test]
fn no_in_flight_rejected() {
    let (mut a, mut b) = user_and_instance();
    let pb = b.init_dh_kex("A").unwrap();
    let pkt_b = b
        .generate_kex_packet(pb.0.as_slice(), pb.1.as_slice())
        .unwrap();
    let (p, s, v, c) = unpack(&pkt_b);
    let r = a.complete_dh_kex("B", &p, &s, &v, &c);
    assert_eq!(r.unwrap_err(), CryptoError::NoInFlight);
}

#[test]
fn reinit_replaces_in_flight_ephemeral() {
    let (mut a, mut b) = user_and_instance();
    let pa1 = a.init_dh_kex("B").unwrap();
    let pkt_a1 = a
        .generate_kex_packet(pa1.0.as_slice(), pa1.1.as_slice())
        .unwrap();
    let pa2 = a.init_dh_kex("B").unwrap();
    let pkt_a2 = a
        .generate_kex_packet(pa2.0.as_slice(), pa2.1.as_slice())
        .unwrap();
    let pb = b.init_dh_kex("A").unwrap();
    let pkt_b = b
        .generate_kex_packet(pb.0.as_slice(), pb.1.as_slice())
        .unwrap();

    // The peer completes against the second packet: sessions agree.
    let (p, s, v, c) = unpack(&pkt_b);
    let sa = a.complete_dh_kex("B", &p, &s, &v, &c).unwrap();
    let (p, s, v, c) = unpack(&pkt_a2);
    let sb2 = b.complete_dh_kex("A", &p, &s, &v, &c).unwrap();
    assert_eq!(sa, sb2);

    // Completing against the stale first packet yields a mismatched
    // session: the first scalar is irrecoverable.
    let _ = b.init_dh_kex("A").unwrap();
    let (p, s, v, c) = unpack(&pkt_a1);
    let sb1 = b.complete_dh_kex("A", &p, &s, &v, &c).unwrap();
    assert_ne!(sa, sb1);
    let enc = a.encrypt_message_for_recipient("B", b"hello").unwrap();
    assert!(b.decrypt_message_from_sender("A", &enc).is_err());
}

#[test]
fn message_round_trip_large_random() {
    let (mut a, mut b) = user_and_instance();
    let _ = establish(&mut a, &mut b, "A", "B");
    let mut payload = vec![0u8; 10 * 1024 * 1024];
    let mut x: u64 = 0x1234_5678_9abc_def0;
    for byte in payload.iter_mut() {
        x = x.wrapping_mul(6364136223846793005).wrapping_add(1442695040888963407);
        *byte = (x >> 33) as u8;
    }
    let encrypted = a.encrypt_message_for_recipient("B", &payload).unwrap();
    let decrypted = b.decrypt_message_from_sender("A", &encrypted).unwrap();
    assert_eq!(payload, decrypted);
}

#[test]
fn compression_shrinks_redundant_payloads() {
    let (mut a, mut b) = user_and_instance();
    let _ = establish(&mut a, &mut b, "A", "B");
    let payload = vec![0u8; 1024 * 1024];
    let encrypted = a.encrypt_message_for_recipient("B", &payload).unwrap();
    assert!(encrypted.len() < payload.len());
    let decrypted = b.decrypt_message_from_sender("A", &encrypted).unwrap();
    assert_eq!(payload, decrypted);
}

#[test]
fn no_session_rejected() {
    let a = Client::new_user();
    assert_eq!(
        a.encrypt_message_for_recipient("B", b"hi").unwrap_err(),
        CryptoError::NoSession
    );
    assert_eq!(
        a.decrypt_message_from_sender("B", &[0u8; 64]).unwrap_err(),
        CryptoError::NoSession
    );
}

#[test]
fn frame_too_short_rejected() {
    let a = Client::new_user();
    assert_eq!(
        a.decrypt_message_from_sender("B", &[0u8; 10]).unwrap_err(),
        CryptoError::Codec(CodecError::TooShort)
    );
}

#[test]
fn tampered_frame_rejected() {
    let (mut a, mut b) = user_and_instance();
    let _ = establish(&mut a, &mut b, "A", "B");
    let mut encrypted = a.encrypt_message_for_recipient("B", b"payload").unwrap();
    let mid = encrypted.len() / 2;
    encrypted[mid] ^= 0x40;
    assert_eq!(
        b.decrypt_message_from_sender("A", &encrypted).unwrap_err(),
        CryptoError::Primitive
    );
}

#[test]
fn tampered_kex_packet_rejected() {
    let (mut a, mut b) = user_and_instance();
    let _ = a.init_dh_kex("B").unwrap();
    let pb = b.init_dh_kex("A").unwrap();
    let mut pkt_b = b
        .generate_kex_packet(pb.0.as_slice(), pb.1.as_slice())
        .unwrap();
    // The last byte sits in the CA certificate: the chain check must fail.
    let last = pkt_b.len() - 1;
    pkt_b[last] ^= 0x01;
    let (p, s, v, c) = unpack(&pkt_b);
    let r = a.complete_dh_kex("B", &p, &s, &v, &c);
    assert_eq!(r.unwrap_err(), CryptoError::PeerNotCaSigned);
}

#[test]
fn truncated_kex_packet_rejected() {
    let (mut a, mut b) = user_and_instance();
    let _ = a.init_dh_kex("B").unwrap();
    let pb = b.init_dh_kex("A").unwrap();
    let mut pkt_b = b
        .generate_kex_packet(pb.0.as_slice(), pb.1.as_slice())
        .unwrap();
    pkt_b.pop();
    assert!(Client::unpack_kex_packet(&pkt_b).is_err());
}

#[test]
fn malformed_compressed_payload_rejected() {
    let (mut a, mut b) = user_and_instance();
    let (sa, _sb) = establish(&mut a, &mut b, "A", "B");
    // Seal a frame that authenticates under the session key but does not
    // hold an LZ4 frame.
    let cipher = XChaCha20Poly1305::new(GenericArray::from_slice(sa.as_slice()));
    let nonce_bytes = [7u8; 24];
    let nonce = GenericArray::from_slice(&nonce_bytes);
    let mut buf = b"definitely not a compressed frame".to_vec();
    cipher
        .encrypt_in_place(nonce, &nonce_bytes, &mut buf)
        .unwrap();
    let mut frame = nonce_bytes.to_vec();
    frame.extend_from_slice(&buf);
    assert_eq!(
        b.decrypt_message_from_sender("A", &frame).unwrap_err(),
        CryptoError::Compression
    );
}

#[test]
fn instance_with_bad_certificate_rejected() {
    let sk = ed25519_dalek::SigningKey::from_bytes(&[5u8; 32]);
    let sk_der = sk.to_pkcs8_der().unwrap().as_bytes().to_vec();
    let ca = ed25519_dalek::SigningKey::from_bytes(&[6u8; 32]);
    let ca_vk_der = ca
        .verifying_key()
        .to_public_key_der()
        .unwrap()
        .as_bytes()
        .to_vec();
    let blob = cipher_core::codec::encode_instance_blob(&sk_der, &[0u8; 64], &ca_vk_der).unwrap();
    match Client::import_instance(&blob) {
        Err(e) => assert_eq!(e, CryptoError::Primitive),
        Ok(_) => panic!("instance with a bad certificate was accepted"),
    }
}

#[test]
fn garbage_instance_blob_rejected() {
    match Client::import_instance(&[1, 2, 3]) {
        Err(e) => assert_eq!(e, CryptoError::Codec(CodecError::TooShort)),
        Ok(_) => panic!("garbage instance blob was accepted"),
    }
}
