//! The device binding itself: to issue a machine code for a registry, and to
//! check a machine code against the registry of the host at hand.

use vstd::prelude::*;

use crate::builder::MainBuilderComponents;
use crate::builder::MainDeviceInfoBuilder;
use crate::crypto::aes::decrypt;
use crate::crypto::aes::encrypt;
use crate::crypto::aes::encrypt_with_nonce;
use crate::crypto::aes::opened_code;
use crate::crypto::aes::sealed_code;
use crate::crypto::aes::text_result;
use crate::crypto::aes::AesKey;
use crate::crypto::aes::NONCE_LENGTH;
use crate::document::json_document;
use crate::document::text_block;
use crate::document::registry_of_document;
use crate::error::DeviceInfoError;
use crate::internal::IDeviceInfoBuilder;
use crate::order::listing;
use crate::platform::PlatformFamily;
use crate::string_tools::same_text;

verus! {

/// Whether a host with the registry `live` is the host that `issued` was
/// collected on: every attribute of `issued` is in `live` with the same
/// value. What `live` holds beyond that does not count.
pub open spec fn matches_host(
    issued: Map<MainBuilderComponents, Seq<char>>,
    live: Map<MainBuilderComponents, Seq<char>>,
) -> Result<(), DeviceInfoError> {
    if issued.submap_of(live) {
        Ok(())
    } else {
        Err(DeviceInfoError::VerificationMismatch)
    }
}

/// What a check of `code` under `key` on a host with the registry `live`
/// comes to: the failure of opening the code, else the failure of reading
/// the registry in it, else whether that registry matches `live`.
pub open spec fn check_outcome(
    key: Seq<u8>,
    code: Seq<char>,
    live: Map<MainBuilderComponents, Seq<char>>,
) -> Result<(), DeviceInfoError> {
    match opened_code(key, code) {
        Err(e) => Err(e),
        Ok(document) => match registry_of_document::<MainBuilderComponents>(document) {
            Err(e) => Err(e),
            Ok(issued) => matches_host(issued, live),
        },
    }
}

/// Compares an issued registry with the registry of the host at hand,
/// attribute by attribute, on exact equality of the strings.
pub fn verify(issued: &MainDeviceInfoBuilder, live: &MainDeviceInfoBuilder) -> (outcome: Result<
    (),
    DeviceInfoError,
>)
    ensures
        outcome == matches_host(issued@, live@),
{
    if issued.get_components().is_part_of(live.get_components()) {
        Ok(())
    } else {
        Err(DeviceInfoError::VerificationMismatch)
    }
}

/// Issues the machine code of `registry` under `key`, with the nonce that
/// the caller gives: the registry's JSON document, encrypted and packed.
///
/// A check of the code under the same key succeeds on exactly the hosts
/// whose registry holds every attribute of `registry` with the same value.
pub fn issue_with_nonce(registry: &MainDeviceInfoBuilder, key: &AesKey, nonce: &[u8; 12]) -> (code:
    Result<String, DeviceInfoError>)
    ensures
        text_result(code) == sealed_code(key@, nonce@, json_document(listing(registry@))),
        code matches Ok(c) ==> forall|live: Map<MainBuilderComponents, Seq<char>>| #[trigger]
            check_outcome(key@, c@, live) == matches_host(registry@, live),
{
    let document = registry.to_json();
    encrypt_with_nonce(key, nonce, document.as_str())
}

/// Issues the machine code of `registry` under `key`, with a fresh nonce.
///
/// A check of the code under the same key succeeds on exactly the hosts
/// whose registry holds every attribute of `registry` with the same value.
pub fn issue(registry: &MainDeviceInfoBuilder, key: &AesKey) -> (code: Result<
    String,
    DeviceInfoError,
>)
    ensures
        exists|nonce: Seq<u8>|
            nonce.len() == NONCE_LENGTH && text_result(code) == #[trigger] sealed_code(
                key@,
                nonce,
                json_document(listing(registry@)),
            ),
        code matches Ok(c) ==> forall|live: Map<MainBuilderComponents, Seq<char>>| #[trigger]
            check_outcome(key@, c@, live) == matches_host(registry@, live),
{
    let document = registry.to_json();
    encrypt(key, document.as_str())
}

/// Checks a machine code on the host whose registry is `live`. A code that
/// cannot be opened or read ends the check with the failure of that step; a
/// code that can is compared with `live`, and any attribute of it that
/// `live` lacks or has with another value is a `VerificationMismatch`.
pub fn check(code: &str, key: &AesKey, live: &MainDeviceInfoBuilder) -> (outcome: Result<
    (),
    DeviceInfoError,
>)
    ensures
        outcome == check_outcome(key@, code@, live@),
{
    let document = match decrypt(key, code) {
        Ok(document) => document,
        Err(e) => {
            return Err(e);
        },
    };
    let issued = match MainDeviceInfoBuilder::from_json(document.as_str()) {
        Ok(issued) => issued,
        Err(e) => {
            return Err(e);
        },
    };
    verify(&issued, live)
}

/// Whether a machine code binds the name of the user on a host of
/// `platform`: everywhere but on Windows, where the extension collects the
/// logged-on user instead.
pub fn binds_user_name(platform: PlatformFamily) -> (bound: bool)
    ensures
        bound == (platform != PlatformFamily::Windows),
{
    match platform {
        PlatformFamily::Windows => false,
        _ => true,
    }
}

/// The written forms in which a registry is shown.
#[derive(Debug, Clone, Copy, Hash, PartialEq, Eq, Structural)]
pub enum OutputFormat {
    Json,
    Text,
}

impl OutputFormat {
    /// The format that `name` names: `json` or `text`, in lower case.
    pub fn from_str(name: &str) -> (format: Option<Self>)
        ensures
            format == if name@ == "json"@ {
                Some(OutputFormat::Json)
            } else if name@ == "text"@ {
                Some(OutputFormat::Text)
            } else {
                None
            },
    {
        if same_text(name, "json") {
            Some(OutputFormat::Json)
        } else if same_text(name, "text") {
            Some(OutputFormat::Text)
        } else {
            None
        }
    }
}

/// What is shown of `registry` in `format`: its JSON document, or its text
/// block.
pub fn render(registry: &MainDeviceInfoBuilder, format: OutputFormat) -> (shown: String)
    ensures
        shown@ == match format {
            OutputFormat::Json => json_document(listing(registry@)),
            OutputFormat::Text => text_block(listing(registry@)),
        },
{
    match format {
        OutputFormat::Json => registry.to_json(),
        OutputFormat::Text => registry.to_string(),
    }
}

} // verus!
