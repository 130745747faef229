use bitmaskd::errors::ProtocolError;
use bitmaskd::hexenc::{hex_decode, hex_encode};
use bitmaskd::keys::{
    derive_shared_secret, derive_shared_secret_both_ways, derive_shared_secret_hex, PublicKey,
    SecretKey,
};

#[test]
fn shared_secret_is_symmetric() {
    let sk_a = SecretKey::parse(vec![1u8; 32]).unwrap();
    let sk_b = SecretKey::parse(vec![2u8; 32]).unwrap();
    let (ab, ba) = derive_shared_secret_both_ways(&sk_a, &sk_b);
    assert_eq!(ab, ba);
    assert_eq!(ab.len(), 32);

    let pk_a = PublicKey::of_secret(&sk_a);
    let pk_b = PublicKey::of_secret(&sk_b);
    let s1 = derive_shared_secret(&sk_a, &pk_b);
    let s2 = derive_shared_secret(&sk_b, &pk_a);
    assert_eq!(s1, s2);
    assert_eq!(s1, ab);
}

#[test]
fn shared_secret_depends_on_both_keys() {
    let sk_a = SecretKey::parse(vec![1u8; 32]).unwrap();
    let sk_b = SecretKey::parse(vec![2u8; 32]).unwrap();
    let sk_c = SecretKey::parse(vec![3u8; 32]).unwrap();
    let pk_b = PublicKey::of_secret(&sk_b);
    let pk_c = PublicKey::of_secret(&sk_c);
    assert_ne!(derive_shared_secret(&sk_a, &pk_b), derive_shared_secret(&sk_a, &pk_c));
}

#[test]
fn key_parsing_rejects_invalid_material() {
    assert_eq!(SecretKey::parse(vec![0u8; 32]).unwrap_err(), ProtocolError::InvalidKey);
    assert_eq!(SecretKey::parse(vec![1u8; 31]).unwrap_err(), ProtocolError::InvalidKey);
    assert_eq!(SecretKey::parse(vec![0xffu8; 32]).unwrap_err(), ProtocolError::InvalidKey);
    assert_eq!(PublicKey::parse(vec![1, 2, 3]).unwrap_err(), ProtocolError::InvalidKey);
    assert!(SecretKey::parse(vec![1u8; 32]).is_ok());
    let pk = PublicKey::of_secret(&SecretKey::parse(vec![1u8; 32]).unwrap());
    assert!(PublicKey::parse(pk.bytes).is_ok());
}

#[test]
fn key_endpoint_works_on_hex_strings() {
    let sk = SecretKey::parse(vec![1u8; 32]).unwrap();
    let other = SecretKey::parse(vec![2u8; 32]).unwrap();
    let pk = PublicKey::of_secret(&other);
    let sk_hex = hex_encode(&sk.bytes);
    let pk_hex = hex_encode(&pk.bytes);
    let out = derive_shared_secret_hex(&sk_hex, &pk_hex).unwrap();
    let expected = hex_encode(&derive_shared_secret(&sk, &pk));
    assert_eq!(out, expected);
    assert_eq!(out.len(), 64);

    let bad = derive_shared_secret_hex(&b"zz".to_vec(), &pk_hex);
    assert_eq!(bad.unwrap_err(), ProtocolError::InvalidKey);
    let zero_hex = hex_encode(&vec![0u8; 32]);
    let bad = derive_shared_secret_hex(&zero_hex, &pk_hex);
    assert_eq!(bad.unwrap_err(), ProtocolError::InvalidKey);
}

#[test]
fn hex_encoding_round_trips() {
    let data = vec![0x00, 0x0a, 0xde, 0xad, 0xbe, 0xef, 0xff];
    let encoded = hex_encode(&data);
    assert_eq!(encoded, b"000adeadbeefff".to_vec());
    assert_eq!(hex_decode(&encoded).unwrap(), data);
    assert_eq!(hex_decode(&b"0AfF".to_vec()).unwrap(), vec![0x0a, 0xff]);
    assert!(hex_decode(&b"abc".to_vec()).is_none());
    assert!(hex_decode(&b"g0".to_vec()).is_none());
    assert_eq!(hex_decode(&Vec::new()).unwrap(), Vec::<u8>::new());
}
