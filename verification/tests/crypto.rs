use base64::engine::general_purpose::STANDARD_NO_PAD;
use base64::Engine;
use device_info::builder::IMainBuilder;
use device_info::builder::MainDeviceInfoBuilder;
use device_info::crypto::aes;
use device_info::crypto::aes::AesKey;
use device_info::crypto::aes::Envelope;
use device_info::error::DeviceInfoError;
use device_info::internal::IDeviceInfoBuilder;

fn random_key() -> AesKey {
    aes::generate_aes_key(None, None)
}

#[test]
fn crypto_test_encrypt() {
    let key = random_key();
    let encrypted = aes::encrypt(&key, "Hello World");

    assert!(encrypted.is_ok());
    println!("{}", encrypted.unwrap())
}

#[test]
fn test_decrypt() {
    let key = random_key();
    let encrypted = aes::encrypt(&key, "Hello World");
    let decrypted = aes::decrypt(&key, &encrypted.unwrap());

    assert!(decrypted.is_ok());
    assert_eq!(decrypted.unwrap(), "Hello World");
}

#[test]
fn test_device_info() {
    let key = random_key();
    let mut builder = MainDeviceInfoBuilder::new();
    builder.add_user_name().add_os_distro().add_platform_name();

    let encrypted = aes::encrypt(&key, builder.to_json().as_str());
    let decrypted = aes::decrypt(&key, &encrypted.unwrap());

    assert!(decrypted.is_ok());

    let read = MainDeviceInfoBuilder::from_json(&decrypted.unwrap()).unwrap();
    assert_eq!(read.get_components().entries(), builder.get_components().entries());
    assert_eq!(read.get_components().len(), 3);
}

#[test]
fn envelope_round_trip_for_many_texts() {
    let key = AesKey::from_bytes([7u8; 32]);
    for text in ["", "a", "Hello World", "{\"userName\":\"alice\"}", "\u{e9}\u{4e2d}\u{1f600}\n\t\"\\"] {
        let code = aes::encrypt(&key, text).unwrap();
        assert_eq!(aes::decrypt(&key, &code), Ok(text.to_string()));
    }
}

#[test]
fn decrypt_with_another_key_fails_authentication() {
    let key = AesKey::from_bytes([1u8; 32]);
    let other = AesKey::from_bytes([2u8; 32]);
    let code = aes::encrypt(&key, "Hello World").unwrap();
    assert_eq!(aes::decrypt(&other, &code), Err(DeviceInfoError::Authentication));
}

#[test]
fn decrypt_of_altered_ciphertext_or_nonce_fails_authentication() {
    let key = AesKey::from_bytes([1u8; 32]);
    let code = aes::encrypt(&key, "Hello World").unwrap();
    let envelope = Envelope::decode(&code).unwrap();

    let mut ciphertext = envelope.ciphertext.clone();
    ciphertext[0] ^= 1;
    let altered = Envelope { nonce: envelope.nonce.clone(), ciphertext }.encode().unwrap();
    assert_eq!(aes::decrypt(&key, &altered), Err(DeviceInfoError::Authentication));

    let mut nonce = envelope.nonce.clone();
    nonce[11] ^= 0x80;
    let altered = Envelope { nonce, ciphertext: envelope.ciphertext.clone() }.encode().unwrap();
    assert_eq!(aes::decrypt(&key, &altered), Err(DeviceInfoError::Authentication));

    let truncated = Envelope { nonce: envelope.nonce.clone(), ciphertext: envelope.ciphertext[..5].to_vec() }
        .encode()
        .unwrap();
    assert_eq!(aes::decrypt(&key, &truncated), Err(DeviceInfoError::Authentication));
}

#[test]
fn decrypt_of_malformed_code_is_a_decode_error() {
    let key = AesKey::from_bytes([1u8; 32]);
    // not base64
    assert_eq!(aes::decrypt(&key, "not base64 at all!"), Err(DeviceInfoError::Decode));
    assert_eq!(aes::decrypt(&key, "****"), Err(DeviceInfoError::Decode));
    // padded base64 is refused: the format has no padding
    assert_eq!(aes::decrypt(&key, "e30="), Err(DeviceInfoError::Decode));
    // empty
    assert_eq!(aes::decrypt(&key, ""), Err(DeviceInfoError::Decode));
    // truncated code
    let code = aes::encrypt(&key, "Hello World").unwrap();
    assert_eq!(aes::decrypt(&key, &code[..code.len() / 2]), Err(DeviceInfoError::Decode));
    assert_eq!(aes::decrypt(&key, &code[..code.len() - 1]), Err(DeviceInfoError::Decode));
    // base64 of bytes that are no text
    assert_eq!(aes::decrypt(&key, &STANDARD_NO_PAD.encode([0xffu8, 0xfe])), Err(DeviceInfoError::Decode));
    // base64 of text that is no envelope
    assert_eq!(aes::decrypt(&key, &STANDARD_NO_PAD.encode("{}")), Err(DeviceInfoError::Decode));
    assert_eq!(aes::decrypt(&key, &STANDARD_NO_PAD.encode("[1,2]")), Err(DeviceInfoError::Decode));
    assert_eq!(aes::decrypt(&key, &STANDARD_NO_PAD.encode("{\"n\":[1]}")), Err(DeviceInfoError::Decode));
    assert_eq!(
        aes::decrypt(&key, &STANDARD_NO_PAD.encode("{\"n\":\"x\",\"v\":[1]}")),
        Err(DeviceInfoError::Decode)
    );
    assert_eq!(
        aes::decrypt(&key, &STANDARD_NO_PAD.encode("{\"n\":[256],\"v\":[1]}")),
        Err(DeviceInfoError::Decode)
    );
    // a nonce of the wrong length
    assert_eq!(
        aes::decrypt(&key, &STANDARD_NO_PAD.encode("{\"n\":[1,2,3],\"v\":[1]}")),
        Err(DeviceInfoError::Decode)
    );
}

#[test]
fn machine_code_is_base64_of_a_json_object_with_n_and_v() {
    let key = AesKey::from_bytes([9u8; 32]);
    let nonce = [3u8; 12];
    let code = aes::encrypt_with_nonce(&key, &nonce, "Hello World").unwrap();
    let document = String::from_utf8(STANDARD_NO_PAD.decode(&code).unwrap()).unwrap();
    assert!(document.starts_with("{\"n\":[3,3,3,3,3,3,3,3,3,3,3,3],\"v\":["));
    assert!(document.ends_with("]}"));
    let envelope = Envelope::decode(&code).unwrap();
    assert_eq!(envelope.nonce, vec![3u8; 12]);
    // the ciphertext is the plaintext's length and a tag of 16 bytes
    assert_eq!(envelope.ciphertext.len(), "Hello World".len() + 16);
    // the same key, nonce and text give the same code
    assert_eq!(aes::encrypt_with_nonce(&key, &nonce, "Hello World").unwrap(), code);
    assert_eq!(aes::decrypt(&key, &code), Ok("Hello World".to_string()));
}

#[test]
fn every_encryption_draws_another_nonce() {
    let key = AesKey::from_bytes([5u8; 32]);
    let mut seen = std::collections::HashSet::new();
    for _ in 0..200 {
        let code = aes::encrypt(&key, "Hello World").unwrap();
        let envelope = Envelope::decode(&code).unwrap();
        assert_eq!(envelope.nonce.len(), 12);
        assert!(seen.insert(envelope.nonce));
    }
}

#[test]
fn key_resolution_prefers_the_explicit_key_then_the_secret() {
    let explicit = "0123456789abcdef0123456789abcdef".to_string();
    let secret = "ABCDEFGHIJKLMNOPQRSTUVWXYZ012345".to_string();
    assert_eq!(aes::generate_aes_key(Some(&explicit), Some(&secret)).to_bytes(), explicit.as_bytes());
    assert_eq!(aes::generate_aes_key(Some(&explicit), None).to_bytes(), explicit.as_bytes());
    assert_eq!(aes::generate_aes_key(None, Some(&secret)).to_bytes(), secret.as_bytes());
    let first = aes::generate_aes_key(None, None);
    let second = aes::generate_aes_key(None, None);
    assert_ne!(first.to_bytes(), second.to_bytes());
    assert!(AesKey::from_text("too short").is_none());
    assert!(AesKey::from_text(&explicit).is_some());
    // 32 characters, more than 32 bytes
    assert!(AesKey::from_text("\u{e9}123456789abcdef0123456789abcdef").is_none());
}
