//! The Windows extension: its key space and its registry.

use vstd::prelude::*;
use vstd::string::StringExecFns;

use crate::internal::BaseDeviceInfoBuilder;
use crate::internal::ComponentMap;
use crate::internal::IDeviceInfoBuilder;
use crate::key::ComponentKey;
use crate::string_tools::same_text;
use crate::string_tools::strip_trailing_newline;
use crate::string_tools::trim;
use crate::string_tools::trimmed;
use crate::string_tools::without_trailing_newline;

verus! {

/// The attributes that only a Windows host has.
#[derive(Debug, Hash, PartialEq, Eq, Structural, Clone, Copy, PartialOrd, Ord)]
pub enum WindowsBuilderComponents {
    LogonUserName,
    SystemDriveSerialNumber,
    MotherBoardSerialNumber,
    SystemUuid,
    MACAddress,
    ProcessorId,
    Guid,
}

impl WindowsBuilderComponents {
    /// Position of the key in declaration order.
    pub open spec fn position(self) -> nat {
        match self {
            WindowsBuilderComponents::LogonUserName => 0,
            WindowsBuilderComponents::SystemDriveSerialNumber => 1,
            WindowsBuilderComponents::MotherBoardSerialNumber => 2,
            WindowsBuilderComponents::SystemUuid => 3,
            WindowsBuilderComponents::MACAddress => 4,
            WindowsBuilderComponents::ProcessorId => 5,
            WindowsBuilderComponents::Guid => 6,
        }
    }

    /// The canonical string of the key.
    pub open spec fn name(self) -> Seq<char> {
        match self {
            WindowsBuilderComponents::LogonUserName => "logonUserName"@,
            WindowsBuilderComponents::SystemDriveSerialNumber => "systemDriveSerialNumber"@,
            WindowsBuilderComponents::MotherBoardSerialNumber => "motherBoardSerialNumber"@,
            WindowsBuilderComponents::SystemUuid => "systemUuid"@,
            WindowsBuilderComponents::MACAddress => "MACAddress"@,
            WindowsBuilderComponents::ProcessorId => "processorId"@,
            WindowsBuilderComponents::Guid => "guid"@,
        }
    }

    /// The length of the key's canonical string.
    pub open spec fn name_length(self) -> nat {
        match self {
            WindowsBuilderComponents::LogonUserName => 13,
            WindowsBuilderComponents::SystemDriveSerialNumber => 23,
            WindowsBuilderComponents::MotherBoardSerialNumber => 23,
            WindowsBuilderComponents::SystemUuid => 10,
            WindowsBuilderComponents::MACAddress => 10,
            WindowsBuilderComponents::ProcessorId => 11,
            WindowsBuilderComponents::Guid => 4,
        }
    }

    /// The first character of the key's canonical string.
    pub open spec fn name_initial(self) -> char {
        match self {
            WindowsBuilderComponents::LogonUserName => 'l',
            WindowsBuilderComponents::SystemDriveSerialNumber => 's',
            WindowsBuilderComponents::MotherBoardSerialNumber => 'm',
            WindowsBuilderComponents::SystemUuid => 's',
            WindowsBuilderComponents::MACAddress => 'M',
            WindowsBuilderComponents::ProcessorId => 'p',
            WindowsBuilderComponents::Guid => 'g',
        }
    }

    /// How long each canonical string is and how it begins: the two
    /// together tell the keys apart.
    pub proof fn lemma_names(k: Self)
        ensures
            k.name().len() == k.name_length(),
            k.name()[0] == k.name_initial(),
    {
        reveal_strlit("logonUserName");
        reveal_strlit("systemDriveSerialNumber");
        reveal_strlit("motherBoardSerialNumber");
        reveal_strlit("systemUuid");
        reveal_strlit("MACAddress");
        reveal_strlit("processorId");
        reveal_strlit("guid");
    }

    /// The canonical string of the key.
    pub fn as_string(&self) -> (name: String)
        ensures
            name@ == self.name(),
    {
        match *self {
            WindowsBuilderComponents::LogonUserName => String::from_str("logonUserName"),
            WindowsBuilderComponents::SystemDriveSerialNumber => String::from_str(
                "systemDriveSerialNumber",
            ),
            WindowsBuilderComponents::MotherBoardSerialNumber => String::from_str(
                "motherBoardSerialNumber",
            ),
            WindowsBuilderComponents::SystemUuid => String::from_str("systemUuid"),
            WindowsBuilderComponents::MACAddress => String::from_str("MACAddress"),
            WindowsBuilderComponents::ProcessorId => String::from_str("processorId"),
            WindowsBuilderComponents::Guid => String::from_str("guid"),
        }
    }

    /// The key whose canonical string is `s`; `None` for every other string.
    pub fn from_str(s: &str) -> (key: Option<Self>)
        ensures
            match key {
                Some(k) => k.name() == s@,
                None => forall|k: Self| k.name() != s@,
            },
    {
        if same_text(s, "logonUserName") {
            Some(WindowsBuilderComponents::LogonUserName)
        } else if same_text(s, "systemDriveSerialNumber") {
            Some(WindowsBuilderComponents::SystemDriveSerialNumber)
        } else if same_text(s, "motherBoardSerialNumber") {
            Some(WindowsBuilderComponents::MotherBoardSerialNumber)
        } else if same_text(s, "systemUuid") {
            Some(WindowsBuilderComponents::SystemUuid)
        } else if same_text(s, "MACAddress") {
            Some(WindowsBuilderComponents::MACAddress)
        } else if same_text(s, "processorId") {
            Some(WindowsBuilderComponents::ProcessorId)
        } else if same_text(s, "guid") {
            Some(WindowsBuilderComponents::Guid)
        } else {
            None
        }
    }
}

impl ComponentKey for WindowsBuilderComponents {
    open spec fn rank(self) -> nat {
        self.position()
    }

    open spec fn canonical(self) -> Seq<char> {
        self.name()
    }

    proof fn lemma_rank_injective(a: Self, b: Self) {
    }

    proof fn lemma_canonical_injective(a: Self, b: Self) {
        Self::lemma_names(a);
        Self::lemma_names(b);
        assert(a.canonical() == a.name() && b.canonical() == b.name());
        assert(a.name_length() == b.name_length() && a.name_initial() == b.name_initial() ==> a
            == b);
    }

    fn ordinal(&self) -> (position: u8) {
        match *self {
            WindowsBuilderComponents::LogonUserName => 0,
            WindowsBuilderComponents::SystemDriveSerialNumber => 1,
            WindowsBuilderComponents::MotherBoardSerialNumber => 2,
            WindowsBuilderComponents::SystemUuid => 3,
            WindowsBuilderComponents::MACAddress => 4,
            WindowsBuilderComponents::ProcessorId => 5,
            WindowsBuilderComponents::Guid => 6,
        }
    }

    fn to_canonical(&self) -> (name: String) {
        self.as_string()
    }

    fn from_canonical(name: &str) -> (key: Option<Self>) {
        Self::from_str(name)
    }
}

/// The rows of a query, each as its text.
pub open spec fn row_texts(rows: Seq<String>) -> Seq<Seq<char>> {
    rows.map_values(|row: String| row@)
}

/// What a query gave for an attribute: the value in its first row, and the
/// empty string where it gave no row.
pub open spec fn first_value(rows: Seq<Seq<char>>) -> Seq<char> {
    if rows.len() > 0 {
        rows[0]
    } else {
        Seq::empty()
    }
}

/// The value that is stored for a query's rows: the first value, without the
/// white space round it and without a trailing line break.
pub open spec fn cleaned(rows: Seq<Seq<char>>) -> Seq<char> {
    without_trailing_newline(trimmed(first_value(rows)))
}

/// As `cleaned`, with a second trailing line break cut off too.
pub open spec fn cleaned_twice(rows: Seq<Seq<char>>) -> Seq<char> {
    without_trailing_newline(cleaned(rows))
}

/// The value in the first row of `rows`, or the empty string.
fn first_row(rows: &Vec<String>) -> (value: &str)
    ensures
        value@ == first_value(row_texts(rows@)),
{
    if rows.len() > 0 {
        rows[0].as_str()
    } else {
        proof {
            reveal_strlit("");
        }
        assert(""@ =~= Seq::<char>::empty());
        ""
    }
}

/// What the Windows extension collects. Each method takes what the query of
/// the management interface (or the read of the system registry) returned,
/// and stores the value under its key.
pub trait IWindowsBuilder: IDeviceInfoBuilder<WindowsBuilderComponents> {
    /// Stores the logged-on user, from the rows of the user-name query.
    fn add_logon_user_name(&mut self, rows: &Vec<String>) -> (builder: &mut Self)
        requires
            !old(self)@.contains_key(WindowsBuilderComponents::LogonUserName),
        ensures
            builder@ == old(self)@.insert(
                WindowsBuilderComponents::LogonUserName,
                cleaned(row_texts(rows@)),
            ),
            *final(self) == *final(builder),
    ;

    /// Stores the serial number of the system drive, from the rows of the
    /// physical-media query.
    fn add_system_drive_serial_number(&mut self, rows: &Vec<String>) -> (builder: &mut Self)
        requires
            !old(self)@.contains_key(WindowsBuilderComponents::SystemDriveSerialNumber),
        ensures
            builder@ == old(self)@.insert(
                WindowsBuilderComponents::SystemDriveSerialNumber,
                cleaned(row_texts(rows@)),
            ),
            *final(self) == *final(builder),
    ;

    /// Stores the serial number of the mother board, from the rows of the
    /// base-board query.
    fn add_mother_board_serial_number(&mut self, rows: &Vec<String>) -> (builder: &mut Self)
        requires
            !old(self)@.contains_key(WindowsBuilderComponents::MotherBoardSerialNumber),
        ensures
            builder@ == old(self)@.insert(
                WindowsBuilderComponents::MotherBoardSerialNumber,
                cleaned(row_texts(rows@)),
            ),
            *final(self) == *final(builder),
    ;

    /// Stores the UUID of the system, from the rows of the product query.
    fn add_system_uuid(&mut self, rows: &Vec<String>) -> (builder: &mut Self)
        requires
            !old(self)@.contains_key(WindowsBuilderComponents::SystemUuid),
        ensures
            builder@ == old(self)@.insert(
                WindowsBuilderComponents::SystemUuid,
                cleaned(row_texts(rows@)),
            ),
            *final(self) == *final(builder),
    ;

    /// Stores the hardware address of the first network adapter, from the
    /// rows of the adapter query.
    fn add_mac_address(&mut self, rows: &Vec<String>) -> (builder: &mut Self)
        requires
            !old(self)@.contains_key(WindowsBuilderComponents::MACAddress),
        ensures
            builder@ == old(self)@.insert(
                WindowsBuilderComponents::MACAddress,
                cleaned_twice(row_texts(rows@)),
            ),
            *final(self) == *final(builder),
    ;

    /// Stores the identifier of the processor, from the rows of the
    /// processor query.
    fn add_processor_id(&mut self, rows: &Vec<String>) -> (builder: &mut Self)
        requires
            !old(self)@.contains_key(WindowsBuilderComponents::ProcessorId),
        ensures
            builder@ == old(self)@.insert(
                WindowsBuilderComponents::ProcessorId,
                cleaned_twice(row_texts(rows@)),
            ),
            *final(self) == *final(builder),
    ;

    /// Stores the machine GUID as it was read, unchanged.
    fn add_machine_guid(&mut self, id: &str) -> (builder: &mut Self)
        requires
            !old(self)@.contains_key(WindowsBuilderComponents::Guid),
        ensures
            builder@ == old(self)@.insert(WindowsBuilderComponents::Guid, id@),
            *final(self) == *final(builder),
    ;
}

/// The registry of the Windows extension.
#[derive(Debug)]
pub struct WindowsBuilder {
    _base: BaseDeviceInfoBuilder<WindowsBuilderComponents>,
}

impl View for WindowsBuilder {
    type V = Map<WindowsBuilderComponents, Seq<char>>;

    closed spec fn view(&self) -> Map<WindowsBuilderComponents, Seq<char>> {
        self._base@
    }
}

impl WindowsBuilder {
    /// An empty registry.
    pub fn new() -> (builder: Self)
        ensures
            builder@ == Map::<WindowsBuilderComponents, Seq<char>>::empty(),
    {
        Self { _base: BaseDeviceInfoBuilder::<WindowsBuilderComponents>::new() }
    }
}

/// What the queries of a Windows host returned for the attributes that a
/// machine code binds on Windows.
#[derive(Debug)]
pub struct WindowsBinding {
    pub logon_user_name: Vec<String>,
    pub system_drive_serial_number: Vec<String>,
    pub mother_board_serial_number: Vec<String>,
    pub system_uuid: Vec<String>,
}

/// The registry of the attributes that a machine code binds on Windows: the
/// logged-on user, the serial numbers of system drive and mother board, and
/// the UUID of the system.
pub open spec fn bound_registry(probes: WindowsBinding) -> Map<WindowsBuilderComponents, Seq<char>> {
    Map::<WindowsBuilderComponents, Seq<char>>::empty().insert(
        WindowsBuilderComponents::LogonUserName,
        cleaned(row_texts(probes.logon_user_name@)),
    ).insert(
        WindowsBuilderComponents::SystemDriveSerialNumber,
        cleaned(row_texts(probes.system_drive_serial_number@)),
    ).insert(
        WindowsBuilderComponents::MotherBoardSerialNumber,
        cleaned(row_texts(probes.mother_board_serial_number@)),
    ).insert(WindowsBuilderComponents::SystemUuid, cleaned(row_texts(probes.system_uuid@)))
}

impl WindowsBuilder {
    /// Stores the attributes that a machine code binds on Windows, and
    /// hands the builder back for the next call.
    pub fn add_binding(&mut self, probes: &WindowsBinding) -> (builder: &mut Self)
        requires
            forall|k: WindowsBuilderComponents|
                bound_registry(*probes).contains_key(k) ==> !old(self)@.contains_key(k),
        ensures
            builder@ == old(self)@.union_prefer_right(bound_registry(*probes)),
            *final(self) == *final(builder),
    {
        proof {
            assert(bound_registry(*probes).contains_key(WindowsBuilderComponents::LogonUserName));
            assert(bound_registry(*probes).contains_key(
                WindowsBuilderComponents::SystemDriveSerialNumber,
            ));
            assert(bound_registry(*probes).contains_key(
                WindowsBuilderComponents::MotherBoardSerialNumber,
            ));
            assert(bound_registry(*probes).contains_key(WindowsBuilderComponents::SystemUuid));
        }
        let builder = self.add_logon_user_name(
            &probes.logon_user_name,
        ).add_system_drive_serial_number(
            &probes.system_drive_serial_number,
        ).add_mother_board_serial_number(&probes.mother_board_serial_number).add_system_uuid(
            &probes.system_uuid,
        );
        assert(builder@ =~= old(self)@.union_prefer_right(bound_registry(*probes)));
        builder
    }
}

impl Default for WindowsBuilder {
    fn default() -> (builder: Self)
        ensures
            builder@ == Map::<WindowsBuilderComponents, Seq<char>>::empty(),
    {
        Self::new()
    }
}

impl IDeviceInfoBuilder<WindowsBuilderComponents> for WindowsBuilder {
    fn get_components(&self) -> (components: &ComponentMap<WindowsBuilderComponents>) {
        &self._base.components
    }

    fn get_components_mut(&mut self) -> (components: &mut ComponentMap<
        WindowsBuilderComponents,
    >) {
        &mut self._base.components
    }
}

impl IWindowsBuilder for WindowsBuilder {
    fn add_logon_user_name(&mut self, rows: &Vec<String>) -> (builder: &mut Self) {
        self.add_component(
            &WindowsBuilderComponents::LogonUserName,
            strip_trailing_newline(trim(first_row(rows))),
        )
    }

    fn add_system_drive_serial_number(&mut self, rows: &Vec<String>) -> (builder: &mut Self) {
        self.add_component(
            &WindowsBuilderComponents::SystemDriveSerialNumber,
            strip_trailing_newline(trim(first_row(rows))),
        )
    }

    fn add_mother_board_serial_number(&mut self, rows: &Vec<String>) -> (builder: &mut Self) {
        self.add_component(
            &WindowsBuilderComponents::MotherBoardSerialNumber,
            strip_trailing_newline(trim(first_row(rows))),
        )
    }

    fn add_system_uuid(&mut self, rows: &Vec<String>) -> (builder: &mut Self) {
        self.add_component(
            &WindowsBuilderComponents::SystemUuid,
            strip_trailing_newline(trim(first_row(rows))),
        )
    }

    fn add_mac_address(&mut self, rows: &Vec<String>) -> (builder: &mut Self) {
        self.add_component(
            &WindowsBuilderComponents::MACAddress,
            strip_trailing_newline(strip_trailing_newline(trim(first_row(rows)))),
        )
    }

    fn add_processor_id(&mut self, rows: &Vec<String>) -> (builder: &mut Self) {
        self.add_component(
            &WindowsBuilderComponents::ProcessorId,
            strip_trailing_newline(strip_trailing_newline(trim(first_row(rows)))),
        )
    }

    fn add_machine_guid(&mut self, id: &str) -> (builder: &mut Self) {
        self.add_component(&WindowsBuilderComponents::Guid, id)
    }
}

} // verus!
