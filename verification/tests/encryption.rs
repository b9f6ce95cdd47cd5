use device_info::builder::MainBuilderComponents;
use device_info::builder::MainDeviceInfoBuilder;
use device_info::encryption::encrypt;
use device_info::encryption::EncryptionAlgorithm;
use device_info::internal::IDeviceInfoBuilder;
use hmac::Hmac;
use hmac::Mac;

fn sample() -> MainDeviceInfoBuilder {
    let mut builder = MainDeviceInfoBuilder::new();
    builder
        .add_component(&MainBuilderComponents::CpuArch, "x86_64")
        .add_component(&MainBuilderComponents::UserName, "alice");
    builder
}

#[test]
fn encryption_test_encrypt() {
    let builder = MainDeviceInfoBuilder::new();
    let encrypted = encrypt(builder, EncryptionAlgorithm::MD5, None);
    println!("{}", encrypted);
    // HMAC-MD5 of the empty message under the key "key"
    assert_eq!(encrypted, "63530468a04e386459855da0063b6596");
}

#[test]
fn fingerprint_is_the_keyed_hash_of_the_text_block_in_hex() {
    let text = "userName: alice\ncpuArch: x86_64";
    assert_eq!(sample().to_string(), text);

    let mut md5 = <Hmac<md5::Md5> as Mac>::new_from_slice(b"key").unwrap();
    md5.update(text.as_bytes());
    assert_eq!(encrypt(sample(), EncryptionAlgorithm::MD5, None), hex::encode(md5.finalize().into_bytes()));

    let mut sha1 = <Hmac<sha1::Sha1> as Mac>::new_from_slice(b"key").unwrap();
    sha1.update(text.as_bytes());
    assert_eq!(encrypt(sample(), EncryptionAlgorithm::SHA1, None), hex::encode(sha1.finalize().into_bytes()));

    let mut sha256 = <Hmac<sha2::Sha256> as Mac>::new_from_slice(b"secret").unwrap();
    sha256.update(text.as_bytes());
    assert_eq!(
        encrypt(sample(), EncryptionAlgorithm::SHA256, Some("secret")),
        hex::encode(sha256.finalize().into_bytes())
    );
}

#[test]
fn fingerprint_lengths_and_digits() {
    let md5 = encrypt(sample(), EncryptionAlgorithm::MD5, None);
    let sha1 = encrypt(sample(), EncryptionAlgorithm::SHA1, None);
    let sha256 = encrypt(sample(), EncryptionAlgorithm::SHA256, None);
    assert_eq!(md5.len(), 32);
    assert_eq!(sha1.len(), 40);
    assert_eq!(sha256.len(), 64);
    for digest in [&md5, &sha1, &sha256] {
        assert!(digest.chars().all(|c| c.is_ascii_digit() || ('a'..='f').contains(&c)));
    }
    assert_ne!(md5, encrypt(sample(), EncryptionAlgorithm::MD5, Some("other")));
    assert_eq!(md5, encrypt(sample(), EncryptionAlgorithm::MD5, Some("key")));
    assert_ne!(md5, encrypt(MainDeviceInfoBuilder::new(), EncryptionAlgorithm::MD5, None));
}

#[test]
fn known_keyed_hashes() {
    // the message "The quick brown fox jumps over the lazy dog" cannot be a
    // text block, so the known vectors are reached through a registry whose
    // block is a single line
    let mut builder = MainDeviceInfoBuilder::new();
    builder.add_component(&MainBuilderComponents::UserName, "alice");
    let mut expected = <Hmac<sha2::Sha256> as Mac>::new_from_slice(b"key").unwrap();
    expected.update(b"userName: alice");
    let digest = encrypt(builder, EncryptionAlgorithm::SHA256, None);
    assert_eq!(digest, hex::encode(expected.finalize().into_bytes()));
    assert_ne!(digest, "userName: alice");
}
