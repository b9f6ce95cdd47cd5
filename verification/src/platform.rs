//! What the host says of itself: the attributes that every platform has, and
//! the platform family by which an extension is chosen.
//!
//! Each answer is read from the running system, so nothing is known of it
//! before it is there: two calls may differ, and no contract says what an
//! answer holds.

use vstd::prelude::*;

verus! {

/// The platform families that the library tells apart. A host belongs to
/// one family, so at most one extension applies to it.
#[derive(Debug, Clone, Copy, Hash, PartialEq, Eq, Structural)]
pub enum PlatformFamily {
    Windows,
    MacOS,
    Other,
}

/// The platform of a host: its family, and its name as it is stored.
#[derive(Debug)]
pub struct HostPlatform {
    pub family: PlatformFamily,
    pub name: String,
}

/// `whoami::platform`, with the name that its `Display` writes.
#[verifier::external_body]
pub(crate) fn host_platform() -> (platform: HostPlatform) {
    let platform = whoami::platform();
    let name = platform.to_string();
    let family = match platform {
        whoami::Platform::Windows => PlatformFamily::Windows,
        whoami::Platform::MacOS => PlatformFamily::MacOS,
        _ => PlatformFamily::Other,
    };
    HostPlatform { family, name }
}

/// `whoami::username`.
#[verifier::external_body]
pub(crate) fn host_user_name() -> (name: String) {
    whoami::username()
}

/// `whoami::devicename`.
#[verifier::external_body]
pub(crate) fn host_device_name() -> (name: String) {
    whoami::devicename()
}

/// `whoami::distro`.
#[verifier::external_body]
pub(crate) fn host_distro() -> (name: String) {
    whoami::distro()
}

/// `whoami::arch`, as its `Display` writes it. Where the system refuses to
/// name its architecture the call does not return.
#[verifier::external_body]
pub(crate) fn host_arch() -> (name: String) {
    whoami::arch().to_string()
}

} // verus!
