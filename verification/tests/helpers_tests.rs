use cipher_core::helpers::validate_key_algorithm;

#[test]
fn algorithm_prefix_stripped() {
    let mut key = b"ed25519".to_vec();
    key.extend_from_slice(&[1, 2, 3]);
    assert_eq!(validate_key_algorithm(&key).unwrap(), &[1, 2, 3]);
}

#[test]
fn algorithm_prefix_required() {
    assert!(validate_key_algorithm(b"rsa4096xxxx").is_err());
    assert!(validate_key_algorithm(b"ed25").is_err());
    assert!(validate_key_algorithm(b"").is_err());
}
