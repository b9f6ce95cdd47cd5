//! AES-256-GCM under a fixed, shared key: the one cipher of the envelope.
//!
//! A machine code is the base64 text (standard alphabet, no padding) of a
//! JSON object with two members, `n` for the nonce and `v` for the
//! ciphertext, each an array of bytes. Neither the key nor the name of the
//! cipher is part of it.

use aes_gcm::aead::Aead;
use aes_gcm::aead::OsRng;
use aes_gcm::AeadCore;
use aes_gcm::Aes256Gcm;
use aes_gcm::Key;
use aes_gcm::KeyInit;
use aes_gcm::Nonce;
use base64::engine::general_purpose::STANDARD_NO_PAD;
use base64::Engine;
use vstd::prelude::*;
use vstd::seq_lib::to_multiset_contains;
use vstd::seq_lib::to_multiset_len;
use vstd::slice::slice_to_vec;
use vstd::string::StringExecFns;
use vstd::utf8::decode_utf8;
use vstd::utf8::decode_utf8_encode_utf8;
use vstd::utf8::encode_utf8;
use vstd::utf8::encode_utf8_decode_utf8;
use vstd::utf8::encode_utf8_valid_utf8;
use vstd::utf8::valid_utf8;

use crate::error::DeviceInfoError;
use crate::string_tools::same_text;
use crate::string_tools::text_of_bytes;

verus! {

/// The longest plaintext, in bytes, that the cipher takes.
pub const PLAINTEXT_MAX: u64 = 0x10_0000_0000;

/// The length of a key, in bytes.
pub const KEY_LENGTH: usize = 32;

/// The length of a nonce, in bytes.
pub const NONCE_LENGTH: usize = 12;

/// The error of the cipher; nothing of it is looked into.
#[verifier::external_type_specification]
#[verifier::external_body]
pub struct ExCipherError(aes_gcm::Error);

/// The error of the base64 decoder; nothing of it is looked into.
#[verifier::external_type_specification]
#[verifier::external_body]
pub struct ExBase64Error(base64::DecodeError);

/// The ciphertext, tag included, that AES-256-GCM gives for a plaintext
/// under a key and a nonce, with no associated data.
pub uninterp spec fn aes_gcm_sealed(key: Seq<u8>, nonce: Seq<u8>, plaintext: Seq<u8>) -> Seq<u8>;

/// The plaintext that AES-256-GCM gives back for a ciphertext under a key
/// and a nonce, and `None` where the integrity check fails.
pub uninterp spec fn aes_gcm_opened(key: Seq<u8>, nonce: Seq<u8>, ciphertext: Seq<u8>) -> Option<
    Seq<u8>,
>;

/// The base64 text of `bytes`, standard alphabet, no padding.
pub uninterp spec fn base64_encoded(bytes: Seq<u8>) -> Seq<char>;

/// The bytes that `text` is the base64 text of, and `None` where it is no
/// base64 text (standard alphabet, no padding).
pub uninterp spec fn base64_decoded(text: Seq<char>) -> Option<Seq<u8>>;

/// The compact JSON text of the object whose members are `fields`, in their
/// order, each value an array of the numbers 0 to 255.
pub uninterp spec fn json_byte_document(fields: Seq<(Seq<char>, Seq<u8>)>) -> Seq<char>;

/// The members of the JSON object that `text` is, where it is an object
/// whose values are all arrays of numbers from 0 to 255, ordered by name.
/// `None` for every other text.
pub uninterp spec fn json_byte_fields(text: Seq<char>) -> Option<Seq<(Seq<char>, Seq<u8>)>>;

/// The fields of a vector, each name as its text and each value as its bytes.
pub open spec fn byte_fields(fields: Seq<(String, Vec<u8>)>) -> Seq<(Seq<char>, Seq<u8>)> {
    fields.map_values(|f: (String, Vec<u8>)| (f.0@, f.1@))
}

/// No two fields have the same name.
pub open spec fn distinct_field_names(fields: Seq<(Seq<char>, Seq<u8>)>) -> bool {
    forall|i: int, j: int|
        0 <= i < j < fields.len() ==> (#[trigger] fields[i]).0 != (#[trigger] fields[j]).0
}

/// Whether base64 can encode `length` bytes: the length of the text has to
/// be a machine integer.
pub open spec fn base64_takes(length: nat) -> bool {
    length / 3 * 4 + 3 <= usize::MAX
}

/// `Aes256Gcm::new` and `Aead::encrypt` on it, with no associated data. The
/// cipher refuses a plaintext over `PLAINTEXT_MAX` bytes and nothing else.
/// The ciphertext has a name, and the same key and nonce open it to the
/// plaintext again.
#[verifier::external_body]
fn aead_seal(key: &[u8; 32], nonce: &[u8; 12], plaintext: &[u8]) -> (sealed: Result<
    Vec<u8>,
    aes_gcm::Error,
>)
    ensures
        match sealed {
            Ok(ciphertext) => plaintext@.len() <= PLAINTEXT_MAX && ciphertext@ == aes_gcm_sealed(
                key@,
                nonce@,
                plaintext@,
            ) && aes_gcm_opened(key@, nonce@, ciphertext@) == Some(plaintext@),
            Err(_) => plaintext@.len() > PLAINTEXT_MAX,
        },
{
    Aes256Gcm::new(Key::<Aes256Gcm>::from_slice(key)).encrypt(Nonce::from_slice(nonce), plaintext)
}

/// `Aes256Gcm::new` and `Aead::decrypt` on it, with no associated data. It
/// fails exactly where `aes_gcm_opened` is `None`.
#[verifier::external_body]
fn aead_open(key: &[u8; 32], nonce: &[u8; 12], ciphertext: &[u8]) -> (opened: Result<
    Vec<u8>,
    aes_gcm::Error,
>)
    ensures
        match opened {
            Ok(plaintext) => aes_gcm_opened(key@, nonce@, ciphertext@) == Some(plaintext@),
            Err(_) => aes_gcm_opened(key@, nonce@, ciphertext@) is None,
        },
{
    Aes256Gcm::new(Key::<Aes256Gcm>::from_slice(key)).decrypt(Nonce::from_slice(nonce), ciphertext)
}

/// `AeadCore::generate_nonce` of the cipher, on the random source of the
/// operating system. Nothing is known of the bytes. Where the system has no
/// randomness to give, the call does not return.
#[verifier::external_body]
fn fresh_nonce() -> (nonce: [u8; 12]) {
    Aes256Gcm::generate_nonce(&mut OsRng).into()
}

/// `KeyInit::generate_key` of the cipher, on the random source of the
/// operating system. Nothing is known of the bytes. Where the system has no
/// randomness to give, the call does not return.
#[verifier::external_body]
fn fresh_key() -> (key: [u8; 32]) {
    Aes256Gcm::generate_key(&mut OsRng).into()
}

/// `Engine::encode` of `STANDARD_NO_PAD`. The text has a name, and it
/// decodes (see `base64_bytes`) to `bytes` again.
#[verifier::external_body]
fn base64_text(bytes: &[u8]) -> (text: String)
    requires
        base64_takes(bytes@.len()),
    ensures
        text@ == base64_encoded(bytes@),
        base64_decoded(text@) == Some(bytes@),
{
    STANDARD_NO_PAD.encode(bytes)
}

/// `Engine::decode` of `STANDARD_NO_PAD`. It fails exactly where
/// `base64_decoded` is `None`.
#[verifier::external_body]
fn base64_bytes(text: &str) -> (bytes: Result<Vec<u8>, base64::DecodeError>)
    ensures
        match bytes {
            Ok(decoded) => base64_decoded(text@) == Some(decoded@),
            Err(_) => base64_decoded(text@) is None,
        },
{
    STANDARD_NO_PAD.decode(text)
}

/// `serde_json::to_string` on a JSON object whose members are `fields`, each
/// value an array of numbers. It writes such an object without fail. The
/// text has a name, and where no name repeats it reads back (see
/// `byte_document_fields`) as the same fields, each once, in some order.
#[verifier::external_body]
fn byte_document_text(fields: &Vec<(String, Vec<u8>)>) -> (text: Result<String, serde_json::Error>)
    ensures
        text is Ok,
        text matches Ok(t) ==> t@ == json_byte_document(byte_fields(fields@)),
        text matches Ok(t) ==> distinct_field_names(byte_fields(fields@)) ==> json_byte_fields(
            t@,
        ) is Some && json_byte_fields(t@)->Some_0.to_multiset() == byte_fields(
            fields@,
        ).to_multiset(),
{
    let object: serde_json::Map<String, serde_json::Value> = fields.iter().map(
        |field| (field.0.clone(), serde_json::Value::from(field.1.clone())),
    ).collect();
    serde_json::to_string(&serde_json::Value::Object(object))
}

/// `serde_json::from_str` into a map from strings to byte vectors, handed on
/// as the list of its entries. It fails exactly where `json_byte_fields` is
/// `None`.
#[verifier::external_body]
fn byte_document_fields(text: &str) -> (fields: Result<
    Vec<(String, Vec<u8>)>,
    serde_json::Error,
>)
    ensures
        match fields {
            Ok(read) => json_byte_fields(text@) == Some(byte_fields(read@)),
            Err(_) => json_byte_fields(text@) is None,
        },
{
    serde_json::from_str::<std::collections::BTreeMap<String, Vec<u8>>>(text).map(
        |object| object.into_iter().collect(),
    )
}

/// The 32 bytes of `source` as an array.
fn key_bytes(source: &[u8]) -> (bytes: [u8; 32])
    requires
        source@.len() == KEY_LENGTH,
    ensures
        bytes@ == source@,
{
    let mut bytes = [0u8; 32];
    let mut i: usize = 0;
    while i < 32
        invariant
            i <= 32,
            source@.len() == 32,
            forall|j: int| 0 <= j < i ==> bytes@[j] == source@[j],
        decreases 32 - i,
    {
        bytes[i] = source[i];
        i += 1;
    }
    assert(bytes@ =~= source@);
    bytes
}

/// A key of the cipher: 32 bytes. It has no `Debug`, so that it is not
/// written out by accident.
#[derive(Clone, Copy)]
pub struct AesKey {
    bytes: [u8; 32],
}

impl View for AesKey {
    type V = Seq<u8>;

    closed spec fn view(&self) -> Seq<u8> {
        self.bytes@
    }
}

impl AesKey {
    /// A key is 32 bytes long.
    pub proof fn lemma_length(&self)
        ensures
            self@.len() == KEY_LENGTH,
    {
    }

    /// The key that is `bytes`.
    pub fn from_bytes(bytes: [u8; 32]) -> (key: Self)
        ensures
            key@ == bytes@,
    {
        AesKey { bytes }
    }

    /// The key whose bytes are the bytes of `text`, where those are 32.
    pub fn from_text(text: &str) -> (key: Option<Self>)
        ensures
            match key {
                Some(k) => k@ == encode_utf8(text@),
                None => encode_utf8(text@).len() != KEY_LENGTH,
            },
    {
        let source = text.as_bytes();
        if source.len() != 32 {
            return None;
        }
        Some(AesKey { bytes: key_bytes(source) })
    }

    /// The bytes of the key.
    pub fn to_bytes(&self) -> (bytes: [u8; 32])
        ensures
            bytes@ == self@,
    {
        self.bytes
    }
}

/// Settles which key is used: the one that the caller gives, else the
/// secret that the environment provides, else a fresh random key. A random
/// key is of use only as long as the process lives, unless the caller keeps
/// it.
///
/// The text of a key has to be 32 bytes long; `AesKey::from_text` tells.
pub fn generate_aes_key(key: Option<&String>, secret: Option<&String>) -> (chosen: AesKey)
    requires
        key matches Some(k) ==> encode_utf8(k@).len() == KEY_LENGTH,
        key is None ==> (secret matches Some(s) ==> encode_utf8(s@).len() == KEY_LENGTH),
    ensures
        chosen@.len() == KEY_LENGTH,
        key matches Some(k) ==> chosen@ == encode_utf8(k@),
        key is None ==> (secret matches Some(s) ==> chosen@ == encode_utf8(s@)),
{
    let text = match key {
        Some(value) => Some(value),
        None => secret,
    };
    match text {
        Some(value) => AesKey { bytes: key_bytes(value.as_str().as_bytes()) },
        None => AesKey::from_bytes(fresh_key()),
    }
}

/// A result that holds a text, as the result that holds the text's
/// characters.
pub open spec fn text_result(outcome: Result<String, DeviceInfoError>) -> Result<
    Seq<char>,
    DeviceInfoError,
> {
    match outcome {
        Ok(text) => Ok(text@),
        Err(e) => Err(e),
    }
}

/// The members of an envelope's JSON object.
pub open spec fn envelope_fields(nonce: Seq<u8>, ciphertext: Seq<u8>) -> Seq<
    (Seq<char>, Seq<u8>),
> {
    seq![("n"@, nonce), ("v"@, ciphertext)]
}

/// The value of the first field of that name.
pub open spec fn field_named(fields: Seq<(Seq<char>, Seq<u8>)>, name: Seq<char>) -> Option<
    Seq<u8>,
>
    decreases fields.len(),
{
    if fields.len() == 0 {
        None
    } else if fields[0].0 == name {
        Some(fields[0].1)
    } else {
        field_named(fields.drop_first(), name)
    }
}

/// The machine code of an envelope: the base64 text of its JSON object.
/// An object too long for base64 has none.
pub open spec fn envelope_code(nonce: Seq<u8>, ciphertext: Seq<u8>) -> Result<
    Seq<char>,
    DeviceInfoError,
> {
    let document = encode_utf8(json_byte_document(envelope_fields(nonce, ciphertext)));
    if base64_takes(document.len()) {
        Ok(base64_encoded(document))
    } else {
        Err(DeviceInfoError::TooLong)
    }
}

/// The envelope that a machine code holds, nonce first: `Decode` where the
/// code is no base64, where the bytes are no text, where the text is no
/// JSON object of byte arrays, or where the object lacks `n` or `v`.
pub open spec fn envelope_of_code(code: Seq<char>) -> Result<(Seq<u8>, Seq<u8>), DeviceInfoError> {
    match base64_decoded(code) {
        None => Err(DeviceInfoError::Decode),
        Some(raw) => if !valid_utf8(raw) {
            Err(DeviceInfoError::Decode)
        } else {
            match json_byte_fields(decode_utf8(raw)) {
                None => Err(DeviceInfoError::Decode),
                Some(fields) => match (field_named(fields, "n"@), field_named(fields, "v"@)) {
                    (Some(nonce), Some(ciphertext)) => Ok((nonce, ciphertext)),
                    _ => Err(DeviceInfoError::Decode),
                },
            }
        },
    }
}

/// The machine code of `text` under `key` and `nonce`. A text that the
/// cipher or base64 cannot take has none.
pub open spec fn sealed_code(key: Seq<u8>, nonce: Seq<u8>, text: Seq<char>) -> Result<
    Seq<char>,
    DeviceInfoError,
> {
    if encode_utf8(text).len() > PLAINTEXT_MAX {
        Err(DeviceInfoError::TooLong)
    } else {
        envelope_code(nonce, aes_gcm_sealed(key, nonce, encode_utf8(text)))
    }
}

/// The text that a machine code holds under `key`: `Decode` where the code
/// holds no envelope, where the nonce is not 12 bytes or where the plaintext
/// is no text; `Authentication` where the cipher's integrity check fails.
pub open spec fn opened_code(key: Seq<u8>, code: Seq<char>) -> Result<Seq<char>, DeviceInfoError> {
    match envelope_of_code(code) {
        Err(e) => Err(e),
        Ok((nonce, ciphertext)) => if nonce.len() != NONCE_LENGTH {
            Err(DeviceInfoError::Decode)
        } else {
            match aes_gcm_opened(key, nonce, ciphertext) {
                None => Err(DeviceInfoError::Authentication),
                Some(plaintext) => if valid_utf8(plaintext) {
                    Ok(decode_utf8(plaintext))
                } else {
                    Err(DeviceInfoError::Decode)
                },
            }
        },
    }
}

/// A machine code gives a text only through the cipher's integrity check:
/// where it opens to `text`, it holds an envelope with a nonce of twelve
/// bytes whose ciphertext the cipher accepts under `key`, and `text` is what
/// the cipher gives back. Where the cipher refuses the envelope, opening
/// fails with `Authentication` and gives no text.
pub proof fn lemma_opened_is_authentic(key: Seq<u8>, code: Seq<char>)
    ensures
        opened_code(key, code) matches Ok(text) ==> envelope_of_code(code) matches Ok(
            (nonce, ciphertext),
        ) && nonce.len() == NONCE_LENGTH && aes_gcm_opened(key, nonce, ciphertext) == Some(
            encode_utf8(text),
        ),
        envelope_of_code(code) matches Ok((nonce, ciphertext)) && nonce.len() == NONCE_LENGTH
            && aes_gcm_opened(key, nonce, ciphertext) is None ==> opened_code(key, code) == Err::<
            Seq<char>,
            DeviceInfoError,
        >(DeviceInfoError::Authentication),
{
    if let Ok(text) = opened_code(key, code) {
        let (nonce, ciphertext) = envelope_of_code(code)->Ok_0;
        let plaintext = aes_gcm_opened(key, nonce, ciphertext)->Some_0;
        decode_utf8_encode_utf8(plaintext);
    }
}

/// However the two members of an envelope are ordered, `n` names the nonce
/// and `v` the ciphertext.
proof fn lemma_envelope_fields_read(
    read: Seq<(Seq<char>, Seq<u8>)>,
    nonce: Seq<u8>,
    ciphertext: Seq<u8>,
)
    requires
        read.to_multiset() == envelope_fields(nonce, ciphertext).to_multiset(),
    ensures
        field_named(read, "n"@) == Some(nonce),
        field_named(read, "v"@) == Some(ciphertext),
{
    let written = envelope_fields(nonce, ciphertext);
    reveal_strlit("n");
    reveal_strlit("v");
    assert("n"@ != "v"@) by {
        assert("n"@[0] == 'n' && "v"@[0] == 'v');
    }
    to_multiset_len(read);
    to_multiset_len(written);
    assert(written.len() == 2);
    assert forall|i: int| 0 <= i < 2 implies written.contains(#[trigger] read[i]) by {
        to_multiset_contains(read, read[i]);
        to_multiset_contains(written, read[i]);
        assert(read.contains(read[i]));
    }
    assert forall|i: int| 0 <= i < 2 implies read.contains(#[trigger] written[i]) by {
        to_multiset_contains(read, written[i]);
        to_multiset_contains(written, written[i]);
        assert(written.contains(written[i]));
    }
    assert(read[0] != read[1]) by {
        if read[0] == read[1] {
            let a = choose|a: int| 0 <= a < read.len() && read[a] == written[0];
            let b = choose|b: int| 0 <= b < read.len() && read[b] == written[1];
            assert(written[0].0 != written[1].0);
        }
    }
    let a = choose|a: int| 0 <= a < written.len() && written[a] == read[0];
    let b = choose|b: int| 0 <= b < written.len() && written[b] == read[1];
    assert(written.contains(read[0]) && written.contains(read[1]));
    assert(read.drop_first()[0] == read[1]);
    assert(read.drop_first().drop_first().len() == 0);
    reveal_with_fuel(field_named, 3);
}

/// The nonce and the ciphertext of one encryption: what a machine code
/// holds.
#[derive(Debug)]
pub struct Envelope {
    pub nonce: Vec<u8>,
    pub ciphertext: Vec<u8>,
}

impl Envelope {
    /// The machine code of the envelope: its JSON object in base64. Reading
    /// the code back gives the envelope again.
    pub fn encode(&self) -> (code: Result<String, DeviceInfoError>)
        ensures
            text_result(code) == envelope_code(self.nonce@, self.ciphertext@),
            code matches Ok(c) ==> envelope_of_code(c@) == Ok::<
                (Seq<u8>, Seq<u8>),
                DeviceInfoError,
            >((self.nonce@, self.ciphertext@)),
    {
        let mut fields: Vec<(String, Vec<u8>)> = Vec::new();
        fields.push((String::from_str("n"), slice_to_vec(self.nonce.as_slice())));
        fields.push((String::from_str("v"), slice_to_vec(self.ciphertext.as_slice())));
        proof {
            reveal_strlit("n");
            reveal_strlit("v");
            assert("n"@[0] == 'n' && "v"@[0] == 'v');
            assert(byte_fields(fields@) =~= envelope_fields(self.nonce@, self.ciphertext@));
        }
        match byte_document_text(&fields) {
            Ok(document) => {
                let bytes = document.as_str().as_bytes();
                if bytes.len() / 3 > (usize::MAX - 3) / 4 {
                    return Err(DeviceInfoError::TooLong);
                }
                let code = base64_text(bytes);
                proof {
                    encode_utf8_valid_utf8(document@);
                    encode_utf8_decode_utf8(document@);
                    lemma_envelope_fields_read(
                        json_byte_fields(document@)->Some_0,
                        self.nonce@,
                        self.ciphertext@,
                    );
                }
                Ok(code)
            },
            Err(_) => Err(DeviceInfoError::TooLong),
        }
    }

    /// The envelope that a machine code holds.
    pub fn decode(code: &str) -> (envelope: Result<Envelope, DeviceInfoError>)
        ensures
            match envelope_of_code(code@) {
                Ok((nonce, ciphertext)) => envelope matches Ok(e) && e.nonce@ == nonce
                    && e.ciphertext@ == ciphertext,
                Err(expected) => envelope matches Err(e) && e == expected,
            },
    {
        let raw = match base64_bytes(code) {
            Ok(raw) => raw,
            Err(_) => {
                return Err(DeviceInfoError::Decode);
            },
        };
        let document = match text_of_bytes(raw) {
            Some(document) => document,
            None => {
                return Err(DeviceInfoError::Decode);
            },
        };
        proof {
            encode_utf8_decode_utf8(document@);
        }
        let fields = match byte_document_fields(document.as_str()) {
            Ok(fields) => fields,
            Err(_) => {
                return Err(DeviceInfoError::Decode);
            },
        };
        let nonce = match field_of(&fields, "n") {
            Some(nonce) => nonce,
            None => {
                return Err(DeviceInfoError::Decode);
            },
        };
        let ciphertext = match field_of(&fields, "v") {
            Some(ciphertext) => ciphertext,
            None => {
                return Err(DeviceInfoError::Decode);
            },
        };
        Ok(Envelope { nonce, ciphertext })
    }
}

/// The value of the first field of `fields` that is called `name`.
fn field_of(fields: &Vec<(String, Vec<u8>)>, name: &str) -> (value: Option<Vec<u8>>)
    ensures
        match field_named(byte_fields(fields@), name@) {
            Some(expected) => value matches Some(v) && v@ == expected,
            None => value is None,
        },
{
    let ghost all = byte_fields(fields@);
    let mut i: usize = 0;
    assert(all.subrange(0, all.len() as int) =~= all);
    while i < fields.len()
        invariant
            i <= fields.len(),
            all == byte_fields(fields@),
            field_named(all, name@) == field_named(all.subrange(i as int, all.len() as int), name@),
        decreases fields.len() - i,
    {
        let ghost rest = all.subrange(i as int, all.len() as int);
        proof {
            assert(rest[0] == all[i as int]);
            assert(rest.drop_first() =~= all.subrange(i + 1, all.len() as int));
        }
        if same_text(fields[i].0.as_str(), name) {
            return Some(slice_to_vec(fields[i].1.as_slice()));
        }
        i += 1;
    }
    None
}

/// The bytes of a nonce as an array, where they are twelve.
fn nonce_of(bytes: &Vec<u8>) -> (nonce: Option<[u8; 12]>)
    ensures
        match nonce {
            Some(n) => n@ == bytes@,
            None => bytes@.len() != NONCE_LENGTH,
        },
{
    if bytes.len() != 12 {
        return None;
    }
    let mut nonce = [0u8; 12];
    let mut i: usize = 0;
    while i < 12
        invariant
            i <= 12,
            bytes@.len() == 12,
            forall|j: int| 0 <= j < i ==> nonce@[j] == bytes@[j],
        decreases 12 - i,
    {
        nonce[i] = bytes[i];
        i += 1;
    }
    assert(nonce@ =~= bytes@);
    Some(nonce)
}

/// Encrypts `value` under `key` with the nonce that the caller gives, and
/// packs nonce and ciphertext into a machine code. The code carries the
/// nonce, and the same key opens the code to `value` again.
///
/// A nonce must not serve twice under one key: `encrypt` draws a fresh one
/// for every call, and is what callers use.
pub fn encrypt_with_nonce(key: &AesKey, nonce: &[u8; 12], value: &str) -> (code: Result<
    String,
    DeviceInfoError,
>)
    ensures
        text_result(code) == sealed_code(key@, nonce@, value@),
        code matches Ok(c) ==> envelope_of_code(c@) == Ok::<(Seq<u8>, Seq<u8>), DeviceInfoError>(
            (nonce@, aes_gcm_sealed(key@, nonce@, encode_utf8(value@))),
        ),
        code matches Ok(c) ==> opened_code(key@, c@) == Ok::<Seq<char>, DeviceInfoError>(value@),
{
    let plaintext = value.as_bytes();
    let ciphertext = match aead_seal(&key.bytes, nonce, plaintext) {
        Ok(ciphertext) => ciphertext,
        Err(_) => {
            return Err(DeviceInfoError::TooLong);
        },
    };
    let envelope = Envelope { nonce: slice_to_vec(nonce.as_slice()), ciphertext };
    proof {
        encode_utf8_valid_utf8(value@);
        encode_utf8_decode_utf8(value@);
    }
    envelope.encode()
}

/// Encrypts `value` under `key` into a machine code, with a nonce drawn
/// afresh from the random source of the operating system. The same key
/// opens the code to `value` again.
pub fn encrypt(key: &AesKey, value: &str) -> (code: Result<String, DeviceInfoError>)
    ensures
        exists|nonce: Seq<u8>|
            nonce.len() == NONCE_LENGTH && text_result(code) == #[trigger] sealed_code(
                key@,
                nonce,
                value@,
            ),
        code matches Ok(c) ==> opened_code(key@, c@) == Ok::<Seq<char>, DeviceInfoError>(value@),
{
    let nonce = fresh_nonce();
    let code = encrypt_with_nonce(key, &nonce, value);
    assert(nonce@.len() == NONCE_LENGTH && text_result(code) == sealed_code(
        key@,
        nonce@,
        value@,
    ));
    code
}

/// Opens a machine code under `key` and gives the text that it holds. A
/// code that is malformed gives `Decode`; one that was altered, or was
/// sealed under another key, fails the cipher's integrity check and gives
/// `Authentication`.
pub fn decrypt(key: &AesKey, encoded: &str) -> (text: Result<String, DeviceInfoError>)
    ensures
        text_result(text) == opened_code(key@, encoded@),
{
    let envelope = match Envelope::decode(encoded) {
        Ok(envelope) => envelope,
        Err(e) => {
            return Err(e);
        },
    };
    let nonce = match nonce_of(&envelope.nonce) {
        Some(nonce) => nonce,
        None => {
            return Err(DeviceInfoError::Decode);
        },
    };
    let buffer = match aead_open(&key.bytes, &nonce, envelope.ciphertext.as_slice()) {
        Ok(buffer) => buffer,
        Err(_) => {
            return Err(DeviceInfoError::Authentication);
        },
    };
    match text_of_bytes(buffer) {
        Some(text) => {
            proof {
                encode_utf8_decode_utf8(text@);
            }
            Ok(text)
        },
        None => Err(DeviceInfoError::Decode),
    }
}

} // verus!
