use cipher_core::client::Client;
use ed25519_dalek::Verifier;

#[test]
fn test_client() {
    let client = Client::new_user();
    let ca_vk = ed25519_dalek::VerifyingKey::from_bytes(
        client.ca_verifying_key().as_slice().try_into().unwrap(),
    )
    .unwrap();
    let client_sig = ed25519_dalek::Signature::from_bytes(
        client.signing_key_signature().as_slice().try_into().unwrap(),
    );
    let verification_result = ca_vk.verify(client.verifying_key().as_slice(), &client_sig);
    assert!(verification_result.is_ok());
}

#[test]
fn test_export_import_user() {
    let client = Client::new_user();
    let password = b"password";
    let exported = client.export_user(password).unwrap();

    let _ = Client::import_user(password, &exported).unwrap();
}

#[test]
fn test_export_import_instance() {
    let client = Client::new_user();
    let exported = client.generate_instance().unwrap();

    let _ = Client::import_instance(&exported).unwrap();
}

#[test]
fn test_dh_kex() {
    let mut client1 = Client::new_user();

    let instance_data = client1.generate_instance().unwrap();
    let mut client2 = Client::import_instance(instance_data.as_slice()).unwrap();

    let rcpt1 = "client1";
    let rcpt2 = "client2";

    let kexpacket1;

    {
        let pubkey1 = client1.init_dh_kex(rcpt2).unwrap();
        kexpacket1 = client1
            .generate_kex_packet(pubkey1.0.as_slice(), pubkey1.1.as_slice())
            .unwrap();
    }

    let kexpacket2;
    {
        let pubkey2 = client2.init_dh_kex(rcpt1).unwrap();
        kexpacket2 = client2
            .generate_kex_packet(pubkey2.0.as_slice(), pubkey2.1.as_slice())
            .unwrap();
    }

    {
        let (pubkey1, pubkey1_sig, sender_vk1, sender_vk1_sig) =
            Client::unpack_kex_packet(kexpacket2.as_slice()).unwrap();
        let shared_secret1 = client1
            .complete_dh_kex(
                rcpt2,
                pubkey1.as_slice(),
                pubkey1_sig.as_slice(),
                sender_vk1.as_slice(),
                sender_vk1_sig.as_slice(),
            )
            .unwrap();

        let (pubkey2, pubkey2_sig, sender_vk2, sender_vk2_sig) =
            Client::unpack_kex_packet(kexpacket1.as_slice()).unwrap();
        let shared_secret2 = client2
            .complete_dh_kex(
                rcpt1,
                pubkey2.as_slice(),
                pubkey2_sig.as_slice(),
                sender_vk2.as_slice(),
                sender_vk2_sig.as_slice(),
            )
            .unwrap();

        assert_eq!(shared_secret1, shared_secret2);
    }

    let message = b"Hello World!";
    let encrypted = client1
        .encrypt_message_for_recipient(rcpt2, message)
        .unwrap();
    let decrypted = client2
        .decrypt_message_from_sender(rcpt1, encrypted.as_slice())
        .unwrap();

    assert_eq!(message.as_slice(), decrypted.as_slice());
}
