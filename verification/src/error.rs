//! The ways in which building, decoding or checking a registry can fail.

use vstd::prelude::*;
use vstd::string::StringExecFns;

verus! {

/// Every failure that the library reports. It never prints or logs: the
/// caller decides what a failure means for the process.
#[derive(Debug, Clone, Copy, Hash, PartialEq, Eq, Structural)]
pub enum DeviceInfoError {
    /// A key was offered to a registry that already holds it.
    DuplicateKey,
    /// A key string is no key's canonical string.
    UnknownKey,
    /// A probe of the host gave nothing that can be read as text.
    Collection,
    /// A machine code failed the integrity check of the cipher: it was
    /// altered, or it was issued under another key.
    Authentication,
    /// A text is not what it has to be: not base64, not an envelope, not a
    /// registry document.
    Decode,
    /// A message is longer than the cipher or the transport encoding takes.
    TooLong,
    /// A machine code was read, and the host it was issued for is another.
    VerificationMismatch,
}

impl DeviceInfoError {
    /// A short description for a human reader.
    pub fn to_string(&self) -> (message: String)
        ensures
            message@ == match *self {
                DeviceInfoError::DuplicateKey => "component already exists"@,
                DeviceInfoError::UnknownKey => "unknown component name"@,
                DeviceInfoError::Collection => "device probe failed"@,
                DeviceInfoError::Authentication => "machine code failed authentication"@,
                DeviceInfoError::Decode => "malformed machine code"@,
                DeviceInfoError::TooLong => "message too long"@,
                DeviceInfoError::VerificationMismatch => "device does not match machine code"@,
            },
    {
        match *self {
            DeviceInfoError::DuplicateKey => String::from_str("component already exists"),
            DeviceInfoError::UnknownKey => String::from_str("unknown component name"),
            DeviceInfoError::Collection => String::from_str("device probe failed"),
            DeviceInfoError::Authentication => String::from_str(
                "machine code failed authentication",
            ),
            DeviceInfoError::Decode => String::from_str("malformed machine code"),
            DeviceInfoError::TooLong => String::from_str("message too long"),
            DeviceInfoError::VerificationMismatch => String::from_str(
                "device does not match machine code",
            ),
        }
    }
}

} // verus!
