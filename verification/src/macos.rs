//! The macOS extension: its key space and its registry.

use vstd::prelude::*;
use vstd::string::StringExecFns;

use crate::internal::BaseDeviceInfoBuilder;
use crate::internal::ComponentMap;
use crate::internal::IDeviceInfoBuilder;
use crate::key::ComponentKey;
use crate::string_tools::same_text;
use crate::string_tools::strip_trailing_newline;
use crate::string_tools::without_trailing_newline;

verus! {

/// The attributes that only a macOS host has.
#[derive(Debug, Hash, PartialEq, Eq, Structural, Clone, Copy, PartialOrd, Ord)]
pub enum MacOSBuilderComponents {
    SystemDriveSerialNumber,
    PlatformSerialNumber,
}

impl MacOSBuilderComponents {
    /// Position of the key in declaration order.
    pub open spec fn position(self) -> nat {
        match self {
            MacOSBuilderComponents::SystemDriveSerialNumber => 0,
            MacOSBuilderComponents::PlatformSerialNumber => 1,
        }
    }

    /// The canonical string of the key.
    pub open spec fn name(self) -> Seq<char> {
        match self {
            MacOSBuilderComponents::SystemDriveSerialNumber => "systemDriveSerialNumber"@,
            MacOSBuilderComponents::PlatformSerialNumber => "platformSerialNumber"@,
        }
    }

    /// The length of the key's canonical string.
    pub open spec fn name_length(self) -> nat {
        match self {
            MacOSBuilderComponents::SystemDriveSerialNumber => 23,
            MacOSBuilderComponents::PlatformSerialNumber => 20,
        }
    }

    /// The two canonical strings differ in length.
    pub proof fn lemma_names(k: Self)
        ensures
            k.name().len() == k.name_length(),
    {
        reveal_strlit("systemDriveSerialNumber");
        reveal_strlit("platformSerialNumber");
    }

    /// The canonical string of the key, borrowed.
    pub fn as_str(&self) -> (name: &str)
        ensures
            name@ == self.name(),
    {
        match *self {
            MacOSBuilderComponents::SystemDriveSerialNumber => "systemDriveSerialNumber",
            MacOSBuilderComponents::PlatformSerialNumber => "platformSerialNumber",
        }
    }

    /// The canonical string of the key, owned.
    pub fn as_string(&self) -> (name: String)
        ensures
            name@ == self.name(),
    {
        String::from_str(self.as_str())
    }

    /// The key whose canonical string is `s`; `None` for every other string.
    pub fn from_str(s: &str) -> (key: Option<Self>)
        ensures
            match key {
                Some(k) => k.name() == s@,
                None => forall|k: Self| k.name() != s@,
            },
    {
        if same_text(s, "systemDriveSerialNumber") {
            Some(MacOSBuilderComponents::SystemDriveSerialNumber)
        } else if same_text(s, "platformSerialNumber") {
            Some(MacOSBuilderComponents::PlatformSerialNumber)
        } else {
            None
        }
    }
}

impl ComponentKey for MacOSBuilderComponents {
    open spec fn rank(self) -> nat {
        self.position()
    }

    open spec fn canonical(self) -> Seq<char> {
        self.name()
    }

    proof fn lemma_rank_injective(a: Self, b: Self) {
    }

    proof fn lemma_canonical_injective(a: Self, b: Self) {
        Self::lemma_names(a);
        Self::lemma_names(b);
        assert(a.canonical() == a.name() && b.canonical() == b.name());
        assert(a.name_length() == b.name_length() ==> a == b);
    }

    fn ordinal(&self) -> (position: u8) {
        match *self {
            MacOSBuilderComponents::SystemDriveSerialNumber => 0,
            MacOSBuilderComponents::PlatformSerialNumber => 1,
        }
    }

    fn to_canonical(&self) -> (name: String) {
        self.as_string()
    }

    fn from_canonical(name: &str) -> (key: Option<Self>) {
        Self::from_str(name)
    }
}

/// What the macOS extension collects. Each method takes what the system
/// tool wrote on its standard output, and stores it, without its trailing
/// line break, under its key.
pub trait IMacOSBuilder: IDeviceInfoBuilder<MacOSBuilderComponents> {
    /// Stores the serial number of the system drive.
    fn add_system_drive_serial_number(&mut self, output: &str) -> (builder: &mut Self)
        requires
            !old(self)@.contains_key(MacOSBuilderComponents::SystemDriveSerialNumber),
        ensures
            builder@ == old(self)@.insert(
                MacOSBuilderComponents::SystemDriveSerialNumber,
                without_trailing_newline(output@),
            ),
            *final(self) == *final(builder),
    ;

    /// Stores the serial number of the platform.
    fn add_platform_serial_number(&mut self, output: &str) -> (builder: &mut Self)
        requires
            !old(self)@.contains_key(MacOSBuilderComponents::PlatformSerialNumber),
        ensures
            builder@ == old(self)@.insert(
                MacOSBuilderComponents::PlatformSerialNumber,
                without_trailing_newline(output@),
            ),
            *final(self) == *final(builder),
    ;
}

/// The registry of the macOS extension.
#[derive(Debug)]
pub struct MacOSBuilder {
    _base: BaseDeviceInfoBuilder<MacOSBuilderComponents>,
}

impl View for MacOSBuilder {
    type V = Map<MacOSBuilderComponents, Seq<char>>;

    closed spec fn view(&self) -> Map<MacOSBuilderComponents, Seq<char>> {
        self._base@
    }
}

impl MacOSBuilder {
    /// An empty registry.
    pub fn new() -> (builder: Self)
        ensures
            builder@ == Map::<MacOSBuilderComponents, Seq<char>>::empty(),
    {
        Self { _base: BaseDeviceInfoBuilder::<MacOSBuilderComponents>::new() }
    }
}

/// What the system tools of a macOS host wrote for the attributes that a
/// machine code binds on macOS.
#[derive(Debug)]
pub struct MacOSBinding {
    pub platform_serial_number: String,
    pub system_drive_serial_number: String,
}

/// The registry of the attributes that a machine code binds on macOS: the
/// serial numbers of the platform and of the system drive.
pub open spec fn bound_registry(probes: MacOSBinding) -> Map<MacOSBuilderComponents, Seq<char>> {
    Map::<MacOSBuilderComponents, Seq<char>>::empty().insert(
        MacOSBuilderComponents::PlatformSerialNumber,
        without_trailing_newline(probes.platform_serial_number@),
    ).insert(
        MacOSBuilderComponents::SystemDriveSerialNumber,
        without_trailing_newline(probes.system_drive_serial_number@),
    )
}

impl MacOSBuilder {
    /// Stores the attributes that a machine code binds on macOS, and hands
    /// the builder back for the next call.
    pub fn add_binding(&mut self, probes: &MacOSBinding) -> (builder: &mut Self)
        requires
            forall|k: MacOSBuilderComponents|
                bound_registry(*probes).contains_key(k) ==> !old(self)@.contains_key(k),
        ensures
            builder@ == old(self)@.union_prefer_right(bound_registry(*probes)),
            *final(self) == *final(builder),
    {
        proof {
            assert(bound_registry(*probes).contains_key(
                MacOSBuilderComponents::PlatformSerialNumber,
            ));
            assert(bound_registry(*probes).contains_key(
                MacOSBuilderComponents::SystemDriveSerialNumber,
            ));
        }
        let builder = self.add_platform_serial_number(
            probes.platform_serial_number.as_str(),
        ).add_system_drive_serial_number(probes.system_drive_serial_number.as_str());
        assert(builder@ =~= old(self)@.union_prefer_right(bound_registry(*probes)));
        builder
    }
}

impl Default for MacOSBuilder {
    fn default() -> (builder: Self)
        ensures
            builder@ == Map::<MacOSBuilderComponents, Seq<char>>::empty(),
    {
        Self::new()
    }
}

impl IDeviceInfoBuilder<MacOSBuilderComponents> for MacOSBuilder {
    fn get_components(&self) -> (components: &ComponentMap<MacOSBuilderComponents>) {
        &self._base.components
    }

    fn get_components_mut(&mut self) -> (components: &mut ComponentMap<MacOSBuilderComponents>) {
        &mut self._base.components
    }
}

impl IMacOSBuilder for MacOSBuilder {
    fn add_system_drive_serial_number(&mut self, output: &str) -> (builder: &mut Self) {
        self.add_component(
            &MacOSBuilderComponents::SystemDriveSerialNumber,
            strip_trailing_newline(output),
        )
    }

    fn add_platform_serial_number(&mut self, output: &str) -> (builder: &mut Self) {
        self.add_component(
            &MacOSBuilderComponents::PlatformSerialNumber,
            strip_trailing_newline(output),
        )
    }
}

} // verus!
