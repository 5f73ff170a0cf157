use aes_gcm::aead::Aead;
use aes_gcm::{Aes256Gcm, Key, KeyInit, Nonce};
use titan_m::gate::{
    authorize, authorize_with, conclude, decrypt_payload, AuthorizationError, AuthorizationKey,
    SealedPayload,
};

const ZERO_KEY: &str = "0000000000000000000000000000000000000000000000000000000000000000";

fn decode_key(text: &str) -> Result<Vec<u8>, AuthorizationError> {
    AuthorizationKey::parse(text).map(|key| key.as_bytes().to_vec())
}

fn sealed(nonce: [u8; 12], ciphertext: &[u8]) -> SealedPayload {
    SealedPayload { nonce, ciphertext: ciphertext.to_vec() }
}

#[test]
fn missing_key_is_reported() {
    assert_eq!(authorize(None), Err(AuthorizationError::MissingKey));
    assert_eq!(
        authorize_with(None, &sealed([0u8; 12], &[1, 2, 3])),
        Err(AuthorizationError::MissingKey)
    );
}

#[test]
fn key_of_63_digits_is_refused_for_its_format() {
    let key = "0".repeat(63);
    assert_eq!(key.len(), 63);
    assert_eq!(authorize(Some(key.as_str())), Err(AuthorizationError::InvalidKeyFormat));
}

#[test]
fn key_of_another_length_is_refused_for_its_format() {
    for length in [0usize, 1, 2, 32, 62, 65, 66, 128] {
        let key = "a".repeat(length);
        assert_eq!(authorize(Some(key.as_str())), Err(AuthorizationError::InvalidKeyFormat));
        assert_eq!(decode_key(key.as_str()), Err(AuthorizationError::InvalidKeyFormat));
    }
}

#[test]
fn key_with_other_characters_is_refused_for_its_format() {
    let mut key = "0".repeat(63);
    key.push('g');
    assert_eq!(authorize(Some(key.as_str())), Err(AuthorizationError::InvalidKeyFormat));
    let mut spaced = "0".repeat(62);
    spaced.push_str(" 0");
    assert_eq!(authorize(Some(spaced.as_str())), Err(AuthorizationError::InvalidKeyFormat));
    let mut prefixed = "0x".to_string();
    prefixed.push_str(&"0".repeat(62));
    assert_eq!(authorize(Some(prefixed.as_str())), Err(AuthorizationError::InvalidKeyFormat));
}

#[test]
fn key_beyond_ascii_is_refused_for_its_format() {
    // 64 characters, more than 64 bytes
    let mut wide = "0".repeat(63);
    wide.push('é');
    assert_eq!(wide.chars().count(), 64);
    assert_eq!(decode_key(wide.as_str()), Err(AuthorizationError::InvalidKeyFormat));
    // 64 bytes, fewer than 64 characters
    let mut narrow = "0".repeat(62);
    narrow.push('é');
    assert_eq!(narrow.len(), 64);
    assert_eq!(decode_key(narrow.as_str()), Err(AuthorizationError::InvalidKeyFormat));
}

#[test]
fn key_text_decodes_to_its_bytes() {
    let text = "000102030405060708090a0b0c0d0e0f101112131415161718191a1b1c1d1e1f";
    let expected: Vec<u8> = (0u8..32).collect();
    assert_eq!(decode_key(text), Ok(expected));
    let high = "ff".repeat(32);
    assert_eq!(decode_key(high.as_str()), Ok(vec![0xffu8; 32]));
    let mixed = "a5".repeat(32);
    assert_eq!(decode_key(mixed.as_str()), Ok(vec![0xa5u8; 32]));
}

#[test]
fn key_text_may_be_upper_case() {
    let lower = "deadbeefdeadbeefdeadbeefdeadbeefdeadbeefdeadbeefdeadbeefdeadbeef";
    let upper = "DEADBEEFDEADBEEFDEADBEEFDEADBEEFDEADBEEFDEADBEEFDEADBEEFDEADBEEF";
    let mixed = "DeadBeefdEADbEEFdeadbeefDEADBEEFdeadbeefdeadbeefdeadbeefdeadBEEF";
    let expected: Vec<u8> = [0xde, 0xad, 0xbe, 0xef].iter().cycle().take(32).cloned().collect();
    assert_eq!(decode_key(lower), Ok(expected.clone()));
    assert_eq!(decode_key(upper), Ok(expected.clone()));
    assert_eq!(decode_key(mixed), Ok(expected));
}

#[test]
fn well_formed_key_that_does_not_open_the_payload_fails_decryption() {
    assert_eq!(authorize(Some(ZERO_KEY)), Err(AuthorizationError::DecryptionFailed));
    let other = "0123456789abcdef0123456789abcdef0123456789abcdef0123456789abcdef";
    assert_eq!(authorize(Some(other)), Err(AuthorizationError::DecryptionFailed));
}

#[test]
fn authorize_is_deterministic() {
    let keys = [
        None,
        Some(ZERO_KEY),
        Some("00"),
        Some("0123456789abcdef0123456789abcdef0123456789abcdef0123456789abcdef"),
    ];
    for key in keys {
        assert_eq!(authorize(key), authorize(key));
    }
    let tag_only = hex::decode("530f8afbc74536b9a963b4f1c4cb738b").unwrap();
    let payload = sealed([0u8; 12], &tag_only);
    let first = decrypt_payload(ZERO_KEY, &payload);
    let second = decrypt_payload(ZERO_KEY, &payload);
    assert!(first.is_ok());
    assert_eq!(first, second);
}

#[test]
fn bundled_payload_is_a_tag_under_the_zero_nonce() {
    let bundled = SealedPayload::bundled();
    assert_eq!(bundled.nonce, [0u8; 12]);
    assert_eq!(
        bundled.ciphertext,
        vec![0x4e, 0x55, 0x4c, 0x4c, 0x4b, 0x49, 0x41, 0x5f, 0x54, 0x49, 0x54, 0x41, 0x4e, 0x5f, 0x4d, 0x00]
    );
    assert_eq!(authorize(Some(ZERO_KEY)), authorize_with(Some(ZERO_KEY), &bundled));
}

#[test]
fn tag_of_the_empty_message_opens_to_nothing() {
    let tag_only = hex::decode("530f8afbc74536b9a963b4f1c4cb738b").unwrap();
    let payload = sealed([0u8; 12], &tag_only);
    assert_eq!(decrypt_payload(ZERO_KEY, &payload), Ok(vec![]));
    assert_eq!(authorize_with(Some(ZERO_KEY), &payload), Ok(vec![]));
}

#[test]
fn known_ciphertext_opens_to_its_plaintext() {
    let mut bytes = hex::decode("cea7403d4d606b6e074ec5d3baf39d18").unwrap();
    bytes.extend(hex::decode("d0d1c8a799996bf0265b98b5d48ab919").unwrap());
    let payload = sealed([0u8; 12], &bytes);
    assert_eq!(decrypt_payload(ZERO_KEY, &payload), Ok(vec![0u8; 16]));
}

#[test]
fn tampered_ciphertext_fails_decryption() {
    let mut bytes = hex::decode("cea7403d4d606b6e074ec5d3baf39d18").unwrap();
    bytes.extend(hex::decode("d0d1c8a799996bf0265b98b5d48ab919").unwrap());
    bytes[3] ^= 1;
    let payload = sealed([0u8; 12], &bytes);
    assert_eq!(decrypt_payload(ZERO_KEY, &payload), Err(AuthorizationError::DecryptionFailed));
}

#[test]
fn payload_shorter_than_a_tag_fails_decryption() {
    assert_eq!(
        decrypt_payload(ZERO_KEY, &sealed([0u8; 12], &[])),
        Err(AuthorizationError::DecryptionFailed)
    );
    assert_eq!(
        decrypt_payload(ZERO_KEY, &sealed([0u8; 12], &[0u8; 15])),
        Err(AuthorizationError::DecryptionFailed)
    );
}

#[test]
fn sealed_message_opens_under_its_key_and_nonce_only() {
    let key_bytes: Vec<u8> = (100u8..132).collect();
    let nonce: [u8; 12] = [9, 8, 7, 6, 5, 4, 3, 2, 1, 0, 1, 2];
    let cipher = Aes256Gcm::new(Key::<Aes256Gcm>::from_slice(&key_bytes));
    let ciphertext = cipher.encrypt(Nonce::from_slice(&nonce), b"unlock".as_ref()).unwrap();
    assert_eq!(ciphertext.len(), 6 + 16);
    let key_text = hex::encode(&key_bytes);

    let payload = sealed(nonce, &ciphertext);
    assert_eq!(decrypt_payload(key_text.as_str(), &payload), Ok(b"unlock".to_vec()));
    assert_eq!(
        decrypt_payload(key_text.to_uppercase().as_str(), &payload),
        Ok(b"unlock".to_vec())
    );

    assert_eq!(decrypt_payload(ZERO_KEY, &payload), Err(AuthorizationError::DecryptionFailed));
    let other_nonce = sealed([0u8; 12], &ciphertext);
    assert_eq!(
        decrypt_payload(key_text.as_str(), &other_nonce),
        Err(AuthorizationError::DecryptionFailed)
    );
}

#[test]
fn parsed_key_opens_what_was_sealed_under_it() {
    let key = AuthorizationKey::parse(ZERO_KEY).ok().unwrap();
    assert_eq!(key.as_bytes(), &[0u8; 32][..]);
    let tag_only = hex::decode("530f8afbc74536b9a963b4f1c4cb738b").unwrap();
    assert_eq!(key.open(&sealed([0u8; 12], &tag_only)), Ok(vec![]));
    assert_eq!(key.open(&sealed([1u8; 12], &tag_only)), Err(AuthorizationError::DecryptionFailed));
    assert_eq!(key.open(&SealedPayload::bundled()), Err(AuthorizationError::DecryptionFailed));
}

#[test]
fn format_is_checked_before_the_payload_is_touched() {
    let payload = sealed([0u8; 12], &[]);
    assert_eq!(decrypt_payload("abc", &payload), Err(AuthorizationError::InvalidKeyFormat));
    let tag_only = hex::decode("530f8afbc74536b9a963b4f1c4cb738b").unwrap();
    let good = sealed([0u8; 12], &tag_only);
    assert_eq!(decrypt_payload(&ZERO_KEY[1..], &good), Err(AuthorizationError::InvalidKeyFormat));
}

#[test]
fn conclude_passes_an_opened_payload_and_refuses_the_rest() {
    assert_eq!(conclude(Some(vec![1, 2, 3])), Ok(vec![1, 2, 3]));
    assert_eq!(conclude(Some(vec![])), Ok(vec![]));
    assert_eq!(conclude(None), Err(AuthorizationError::DecryptionFailed));
}
