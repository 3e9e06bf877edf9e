use cipher_core::codec::{decode_instance_blob, decode_kex_packet, decode_user_blob,
    encode_instance_blob, encode_kex_packet, encode_user_blob};
use cipher_core::errors::CodecError;

#[test]
fn user_blob_exact_bytes() {
    let encoded = encode_user_blob(&[1, 2, 3], &[4, 5]).unwrap();
    let expected: Vec<u8> = vec![
        42, 0, 0, 0, // total length
        11, 0, 0, 0, // name length
        115, 105, 103, 110, 105, 110, 103, 95, 107, 101, 121, // "signing_key"
        3, 0, 0, 0, // payload length
        1, 2, 3, // payload
        6, 0, 0, 0, // name length
        99, 97, 95, 107, 101, 121, // "ca_key"
        2, 0, 0, 0, // payload length
        4, 5, // payload
    ];
    assert_eq!(encoded, expected);
}

#[test]
fn user_blob_round_trip() {
    let encoded = encode_user_blob(&[9, 8, 7, 6], &[]).unwrap();
    let (sk, ca) = decode_user_blob(&encoded).unwrap();
    assert_eq!(sk, vec![9, 8, 7, 6]);
    assert_eq!(ca, Vec::<u8>::new());
}

#[test]
fn instance_blob_round_trip() {
    let encoded = encode_instance_blob(&[1], &[2, 2], &[3, 3, 3]).unwrap();
    let (sk, sig, ca_vk) = decode_instance_blob(&encoded).unwrap();
    assert_eq!(sk, vec![1]);
    assert_eq!(sig, vec![2, 2]);
    assert_eq!(ca_vk, vec![3, 3, 3]);
}

#[test]
fn kex_packet_round_trip() {
    let pk: Vec<u8> = (0u8..32).collect();
    let encoded = encode_kex_packet(&pk, &[7; 64], &[8; 44], &[9; 64]).unwrap();
    let (p, s, v, c) = decode_kex_packet(&encoded).unwrap();
    assert_eq!(p, pk);
    assert_eq!(s, vec![7; 64]);
    assert_eq!(v, vec![8; 44]);
    assert_eq!(c, vec![9; 64]);
}

#[test]
fn decode_too_short() {
    assert_eq!(decode_user_blob(&[1, 2]).unwrap_err(), CodecError::TooShort);
    // A document whose announced field runs past the end.
    let data: Vec<u8> = vec![9, 0, 0, 0, 200, 0, 0, 0, 1];
    assert_eq!(decode_user_blob(&data).unwrap_err(), CodecError::TooShort);
}

#[test]
fn decode_wrong_total_length() {
    let data: Vec<u8> = vec![5, 0, 0, 0];
    assert_eq!(decode_user_blob(&data).unwrap_err(), CodecError::WrongLength);
}

#[test]
fn decode_trailing_bytes_rejected() {
    let mut encoded = encode_user_blob(&[1, 2, 3], &[4, 5]).unwrap();
    encoded.push(0);
    assert_eq!(decode_user_blob(&encoded).unwrap_err(), CodecError::WrongLength);
}

#[test]
fn decode_unexpected_field() {
    let mut encoded = encode_user_blob(&[1, 2, 3], &[4, 5]).unwrap();
    // Corrupt the first field name ("signing_key").
    encoded[8] ^= 0x01;
    assert_eq!(decode_user_blob(&encoded).unwrap_err(), CodecError::UnexpectedField);
}

#[test]
fn kex_packet_public_key_width_enforced() {
    let encoded = encode_kex_packet(&[1, 2, 3], &[7; 64], &[8; 44], &[9; 64]).unwrap();
    assert_eq!(decode_kex_packet(&encoded).unwrap_err(), CodecError::WrongLength);
}
