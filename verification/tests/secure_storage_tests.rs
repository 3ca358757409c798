use thief_fm_translation_agent::secure_storage::{
    derive_key, encrypt_api_key, open_api_key, seal_api_key, EncryptedData, StorageError,
};

const MACHINE: &str = "3f2504e0-4f89-11d3-9a0c-0305e82c3301";

#[test]
fn test_encrypt_decrypt() {
    let api_key = "test-api-key-123";
    let stored = encrypt_api_key(api_key, MACHINE).unwrap();
    let retrieved_key = open_api_key(&stored, MACHINE).unwrap();
    assert_eq!(retrieved_key, api_key);
}

#[test]
fn key_is_sha256_of_machine_and_salt() {
    let key = derive_key("abc", &[]);
    assert_eq!(
        key,
        vec![
            0xba, 0x78, 0x16, 0xbf, 0x8f, 0x01, 0xcf, 0xea, 0x41, 0x41, 0x40, 0xde, 0x5d, 0xae,
            0x22, 0x23, 0xb0, 0x03, 0x61, 0xa3, 0x96, 0x17, 0x7a, 0x9c, 0xb4, 0x10, 0xff, 0x61,
            0xf2, 0x00, 0x15, 0xad
        ]
    );
    assert_eq!(derive_key("ab", b"c"), key);
}

#[test]
fn sealed_fields_are_base64() {
    let salt = [7u8; 32];
    let nonce = [1u8, 2, 3, 4, 5, 6, 7, 8, 9, 10, 11, 12];
    let data = seal_api_key("sk-secret", MACHINE, &salt, &nonce).unwrap();
    assert_eq!(data.nonce, "AQIDBAUGBwgJCgsM");
    assert_eq!(data.salt, "BwcHBwcHBwcHBwcHBwcHBwcHBwcHBwcHBwcHBwcHBwc=");
    assert_ne!(data.payload, "c2stc2VjcmV0");
    assert_eq!(open_api_key(&data, MACHINE), Ok("sk-secret".to_string()));
}

#[test]
fn sealing_is_deterministic_for_fixed_salt_and_nonce() {
    let salt = [9u8; 32];
    let nonce = [3u8; 12];
    let a = seal_api_key("sk-x", MACHINE, &salt, &nonce).unwrap();
    let b = seal_api_key("sk-x", MACHINE, &salt, &nonce).unwrap();
    assert_eq!(a.payload, b.payload);
    let c = seal_api_key("sk-y", MACHINE, &salt, &nonce).unwrap();
    assert_ne!(a.payload, c.payload);
}

#[test]
fn other_machine_cannot_open() {
    let stored = encrypt_api_key("sk-abc", MACHINE).unwrap();
    assert_eq!(open_api_key(&stored, "another-machine"), Err(StorageError::Decryption));
}

#[test]
fn bad_nonce_length_is_refused() {
    assert!(matches!(
        seal_api_key("sk-abc", MACHINE, &[0u8; 32], &[0u8; 11]),
        Err(StorageError::InvalidNonce)
    ));
    let stored = encrypt_api_key("sk-abc", MACHINE).unwrap();
    let data = EncryptedData {
        salt: stored.salt.clone(),
        nonce: "AAAA".to_string(),
        payload: stored.payload.clone(),
    };
    assert_eq!(open_api_key(&data, MACHINE), Err(StorageError::InvalidNonce));
}

#[test]
fn bad_base64_is_refused() {
    let stored = encrypt_api_key("sk-abc", MACHINE).unwrap();
    let data = EncryptedData {
        salt: "not base64!".to_string(),
        nonce: stored.nonce.clone(),
        payload: stored.payload.clone(),
    };
    assert_eq!(open_api_key(&data, MACHINE), Err(StorageError::InvalidBase64));
}

#[test]
fn altered_payload_is_refused() {
    let salt = [7u8; 32];
    let nonce = [5u8; 12];
    let data = seal_api_key("sk-secret", MACHINE, &salt, &nonce).unwrap();
    let other = seal_api_key("sk-other!", MACHINE, &[8u8; 32], &nonce).unwrap();
    let mixed = EncryptedData { salt: data.salt, nonce: data.nonce, payload: other.payload };
    assert_eq!(open_api_key(&mixed, MACHINE), Err(StorageError::Decryption));
}
