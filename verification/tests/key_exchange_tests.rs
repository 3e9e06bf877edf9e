use cipher_core::key_exchange::new;

#[test]
fn kex_mod_test_generate_keypair() {
    let _ = new().unwrap();
}

#[test]
fn generate_secret() {
    let mut keypair_1 = new().unwrap();
    let mut keypair_2 = new().unwrap();

    let keypair_public_key_1 = keypair_1.export_public_key().unwrap();
    let keypair_public_key_2 = keypair_2.export_public_key().unwrap();

    let shared_secret_1 = keypair_1.encapsulate(&keypair_public_key_2).unwrap().shared_secret;

    let shared_secret_2 = keypair_2.encapsulate(&keypair_public_key_1).unwrap().shared_secret;
    assert_eq!(shared_secret_1, shared_secret_2);

    // Encapsulating again must fail: the ephemeral scalar is consumed.
    let capsule = keypair_1.encapsulate(&keypair_public_key_2);
    assert!(capsule.is_err());
    let capsule = keypair_2.encapsulate(&keypair_public_key_1);
    assert!(capsule.is_err());
}

#[test]
fn decapsulate_matches_encapsulate() {
    let mut keypair_1 = new().unwrap();
    let mut keypair_2 = new().unwrap();

    let pk_1 = keypair_1.export_public_key().unwrap();
    let pk_2 = keypair_2.export_public_key().unwrap();

    let s_1 = keypair_1.encapsulate(&pk_2).unwrap().shared_secret;
    let s_2 = keypair_2.decapsulate(&pk_1).unwrap();
    assert_eq!(s_1, s_2);

    // The public key is gone with the scalar.
    assert!(keypair_1.export_public_key().is_err());
}
