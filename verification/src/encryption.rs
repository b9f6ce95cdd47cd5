//! A one-way fingerprint of a registry: a keyed hash of its text block.
//!
//! Unlike a machine code, a fingerprint cannot be opened again. Two
//! registries have the same fingerprint, under one algorithm and one key,
//! where their text blocks are the same.

use hmac::Hmac;
use hmac::Mac;
use md5::Md5;
use sha1::Sha1;
use sha2::Sha256;
use vstd::prelude::*;
use vstd::utf8::encode_utf8;

use crate::builder::MainBuilderComponents;
use crate::builder::MainDeviceInfoBuilder;
use crate::document::text_block;
use crate::order::listing;

verus! {

/// The hash functions that a fingerprint can be made with.
#[derive(Debug, Clone, Copy, Hash, PartialEq, Eq, Structural)]
pub enum EncryptionAlgorithm {
    MD5,
    SHA1,
    SHA256,
}

/// HMAC-MD5 of `message` under `key`.
pub uninterp spec fn hmac_md5(key: Seq<u8>, message: Seq<u8>) -> Seq<u8>;

/// HMAC-SHA1 of `message` under `key`.
pub uninterp spec fn hmac_sha1(key: Seq<u8>, message: Seq<u8>) -> Seq<u8>;

/// HMAC-SHA256 of `message` under `key`.
pub uninterp spec fn hmac_sha256(key: Seq<u8>, message: Seq<u8>) -> Seq<u8>;

/// The digit of a number below sixteen, in lower case.
pub open spec fn hex_digit(value: int) -> char {
    if value < 10 {
        ('0' as u8 + value) as u8 as char
    } else {
        ('a' as u8 + value - 10) as u8 as char
    }
}

/// The lower-case hexadecimal text of `bytes`: two digits for each byte,
/// the high half first.
pub open spec fn hex_lower(bytes: Seq<u8>) -> Seq<char>
    decreases bytes.len(),
{
    if bytes.len() == 0 {
        Seq::empty()
    } else {
        hex_lower(bytes.drop_last()) + seq![
            hex_digit(bytes.last() as int / 16),
            hex_digit(bytes.last() as int % 16),
        ]
    }
}

/// The key of a fingerprint where the environment provides none.
pub open spec fn default_key_prefix() -> Seq<char> {
    "key"@
}

/// The keyed hash that `algorithm` stands for.
pub open spec fn keyed_hash(algorithm: EncryptionAlgorithm, key: Seq<u8>, message: Seq<u8>) -> Seq<
    u8,
> {
    match algorithm {
        EncryptionAlgorithm::MD5 => hmac_md5(key, message),
        EncryptionAlgorithm::SHA1 => hmac_sha1(key, message),
        EncryptionAlgorithm::SHA256 => hmac_sha256(key, message),
    }
}

/// The fingerprint of a registry.
pub open spec fn fingerprint(
    registry: Map<MainBuilderComponents, Seq<char>>,
    algorithm: EncryptionAlgorithm,
    key_prefix: Seq<char>,
) -> Seq<char> {
    hex_lower(
        keyed_hash(algorithm, encode_utf8(key_prefix), encode_utf8(text_block(listing(registry)))),
    )
}

/// `Hmac<Md5>`: `new_from_slice`, which takes a key of any length, `update`
/// with the message and `finalize`. The contract names the tag.
#[verifier::external_body]
fn mac_md5(key: &[u8], message: &[u8]) -> (tag: Vec<u8>)
    ensures
        tag@ == hmac_md5(key@, message@),
{
    let mut mac = <Hmac<Md5> as Mac>::new_from_slice(key).expect("a key of any length");
    mac.update(message);
    mac.finalize().into_bytes().to_vec()
}

/// `Hmac<Sha1>`: `new_from_slice`, which takes a key of any length, `update`
/// with the message and `finalize`. The contract names the tag.
#[verifier::external_body]
fn mac_sha1(key: &[u8], message: &[u8]) -> (tag: Vec<u8>)
    ensures
        tag@ == hmac_sha1(key@, message@),
{
    let mut mac = <Hmac<Sha1> as Mac>::new_from_slice(key).expect("a key of any length");
    mac.update(message);
    mac.finalize().into_bytes().to_vec()
}

/// `Hmac<Sha256>`: `new_from_slice`, which takes a key of any length,
/// `update` with the message and `finalize`. The contract names the tag.
#[verifier::external_body]
fn mac_sha256(key: &[u8], message: &[u8]) -> (tag: Vec<u8>)
    ensures
        tag@ == hmac_sha256(key@, message@),
{
    let mut mac = <Hmac<Sha256> as Mac>::new_from_slice(key).expect("a key of any length");
    mac.update(message);
    mac.finalize().into_bytes().to_vec()
}

/// `hex::encode`: two lower-case digits for each byte, in the order of the
/// bytes.
#[verifier::external_body]
fn hex_text(bytes: &[u8]) -> (text: String)
    ensures
        text@ == hex_lower(bytes@),
{
    hex::encode(bytes)
}

/// The fingerprint of `builder`: the keyed hash of its text block, in
/// hexadecimal. The key is `key_prefix`, and `"key"` where there is none.
pub fn encrypt(
    builder: MainDeviceInfoBuilder,
    algorithm: EncryptionAlgorithm,
    key_prefix: Option<&str>,
) -> (digest: String)
    ensures
        digest@ == fingerprint(
            builder@,
            algorithm,
            match key_prefix {
                Some(prefix) => prefix@,
                None => default_key_prefix(),
            },
        ),
{
    let key = match key_prefix {
        Some(prefix) => prefix,
        None => "key",
    };
    let text = builder.to_string();
    let tag = match algorithm {
        EncryptionAlgorithm::MD5 => mac_md5(key.as_bytes(), text.as_str().as_bytes()),
        EncryptionAlgorithm::SHA1 => mac_sha1(key.as_bytes(), text.as_str().as_bytes()),
        EncryptionAlgorithm::SHA256 => mac_sha256(key.as_bytes(), text.as_str().as_bytes()),
    };
    hex_text(tag.as_slice())
}

} // verus!
