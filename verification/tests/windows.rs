use device_info::internal::IDeviceInfoBuilder;
use device_info::windows::IWindowsBuilder;
use device_info::windows::WindowsBuilder;
use device_info::windows::WindowsBuilderComponents;

fn rows(values: &[&str]) -> Vec<String> {
    values.iter().map(|v| v.to_string()).collect()
}

fn value_of(builder: &WindowsBuilder, key: WindowsBuilderComponents) -> Option<String> {
    builder.get_components().get(&key).cloned()
}

#[test]
fn test_windows_builder_serial_number() {
    let mut builder = WindowsBuilder::new();
    builder.add_system_drive_serial_number(&rows(&["  WD-WX11A  \r\n", "second"]));

    println!("{:?}", builder.get_components());
    assert_eq!(
        value_of(&builder, WindowsBuilderComponents::SystemDriveSerialNumber),
        Some("WD-WX11A".to_string())
    );
    assert_eq!(builder.get_components().len(), 1);
}

#[test]
fn test_windows_builder_mother_board_serial_number() {
    let mut builder = WindowsBuilder::new();
    builder.add_mother_board_serial_number(&rows(&["MB-0042\n"]));

    println!("{:?}", builder.get_components());
    assert_eq!(
        value_of(&builder, WindowsBuilderComponents::MotherBoardSerialNumber),
        Some("MB-0042".to_string())
    );
}

#[test]
fn test_windows_builder_system_uuid() {
    let mut builder = WindowsBuilder::new();
    builder.add_system_uuid(&rows(&["4C4C4544-0042-3510-8052-B4C04F4D3732"]));

    println!("{:?}", builder.get_components());
    assert_eq!(
        value_of(&builder, WindowsBuilderComponents::SystemUuid),
        Some("4C4C4544-0042-3510-8052-B4C04F4D3732".to_string())
    );
}

#[test]
fn test_windows_builder_mac_address() {
    let mut builder = WindowsBuilder::new();
    builder.add_mac_address(&rows(&["\t00:1A:2B:3C:4D:5E \n", "FF:FF:FF:FF:FF:FF"]));

    println!("{:?}", builder.get_components());
    assert_eq!(
        value_of(&builder, WindowsBuilderComponents::MACAddress),
        Some("00:1A:2B:3C:4D:5E".to_string())
    );
}

#[test]
fn test_windows_builder_logon_user_name() {
    let mut builder = WindowsBuilder::new();
    builder.add_logon_user_name(&rows(&["DESKTOP\\alice"]));

    println!("{:?}", builder.get_components());
    assert_eq!(
        value_of(&builder, WindowsBuilderComponents::LogonUserName),
        Some("DESKTOP\\alice".to_string())
    );
}

#[test]
fn test_windows_builder_all() {
    let mut builder = WindowsBuilder::new();
    builder
        .add_logon_user_name(&rows(&["alice"]))
        .add_system_drive_serial_number(&rows(&["S1"]))
        .add_mother_board_serial_number(&rows(&["S2"]))
        .add_system_uuid(&rows(&["U1"]))
        .add_mac_address(&rows(&["M1"]));

    println!("{:?}", builder.get_components());
    assert_eq!(builder.get_components().len(), 5);
    assert_eq!(value_of(&builder, WindowsBuilderComponents::LogonUserName), Some("alice".to_string()));
    assert_eq!(value_of(&builder, WindowsBuilderComponents::MACAddress), Some("M1".to_string()));
    assert_eq!(value_of(&builder, WindowsBuilderComponents::ProcessorId), None);
}

#[test]
fn windows_query_without_rows_stores_the_empty_string() {
    let mut builder = WindowsBuilder::new();
    builder.add_processor_id(&rows(&[])).add_machine_guid("{1234}\n");
    assert_eq!(value_of(&builder, WindowsBuilderComponents::ProcessorId), Some(String::new()));
    assert_eq!(value_of(&builder, WindowsBuilderComponents::Guid), Some("{1234}\n".to_string()));
}

#[test]
fn windows_key_names_round_trip() {
    let keys = [
        (WindowsBuilderComponents::LogonUserName, "logonUserName"),
        (WindowsBuilderComponents::SystemDriveSerialNumber, "systemDriveSerialNumber"),
        (WindowsBuilderComponents::MotherBoardSerialNumber, "motherBoardSerialNumber"),
        (WindowsBuilderComponents::SystemUuid, "systemUuid"),
        (WindowsBuilderComponents::MACAddress, "MACAddress"),
        (WindowsBuilderComponents::ProcessorId, "processorId"),
        (WindowsBuilderComponents::Guid, "guid"),
    ];
    for (key, name) in keys {
        assert_eq!(key.as_string(), name);
        assert_eq!(WindowsBuilderComponents::from_str(name), Some(key));
    }
    assert_eq!(WindowsBuilderComponents::from_str("macAddress"), None);
    assert_eq!(WindowsBuilderComponents::from_str(""), None);
    assert_eq!(WindowsBuilderComponents::from_str("guid "), None);
}
