use device_info::internal::IDeviceInfoBuilder;
use device_info::macos::IMacOSBuilder;
use device_info::macos::MacOSBinding;
use device_info::macos::MacOSBuilder;
use device_info::macos::MacOSBuilderComponents;
use device_info::windows::WindowsBinding;
use device_info::windows::WindowsBuilder;
use device_info::windows::WindowsBuilderComponents;

#[test]
fn test_macos_builder() {
    let mut builder = MacOSBuilder::new();
    builder.add_system_drive_serial_number("S4EWNX0M123456\n");
    builder.add_platform_serial_number("C02XK0AAJGH5\n");

    let components = builder.get_components();
    assert!(components
        .get(&MacOSBuilderComponents::SystemDriveSerialNumber)
        .is_some());
    assert!(components
        .get(&MacOSBuilderComponents::PlatformSerialNumber)
        .is_some());
    assert_eq!(
        components.get(&MacOSBuilderComponents::SystemDriveSerialNumber).map(|v| v.as_str()),
        Some("S4EWNX0M123456")
    );
    assert_eq!(
        components.get(&MacOSBuilderComponents::PlatformSerialNumber).map(|v| v.as_str()),
        Some("C02XK0AAJGH5")
    );
}

#[test]
fn macos_key_names_round_trip() {
    assert_eq!(MacOSBuilderComponents::SystemDriveSerialNumber.as_str(), "systemDriveSerialNumber");
    assert_eq!(MacOSBuilderComponents::PlatformSerialNumber.as_str(), "platformSerialNumber");
    assert_eq!(MacOSBuilderComponents::PlatformSerialNumber.as_string(), "platformSerialNumber");
    assert_eq!(
        MacOSBuilderComponents::from_str("systemDriveSerialNumber"),
        Some(MacOSBuilderComponents::SystemDriveSerialNumber)
    );
    assert_eq!(
        MacOSBuilderComponents::from_str("platformSerialNumber"),
        Some(MacOSBuilderComponents::PlatformSerialNumber)
    );
    assert_eq!(MacOSBuilderComponents::from_str("PlatformSerialNumber"), None);
    assert_eq!(MacOSBuilderComponents::from_str("guid"), None);
}

#[test]
fn macos_output_loses_one_trailing_line_break_and_nothing_else() {
    let mut builder = MacOSBuilder::new();
    builder.add_platform_serial_number("  C02 \r\n\n").add_system_drive_serial_number("");
    assert_eq!(
        builder.get_components().get(&MacOSBuilderComponents::PlatformSerialNumber).map(|v| v.as_str()),
        Some("  C02 \r\n")
    );
    assert_eq!(
        builder.get_components().get(&MacOSBuilderComponents::SystemDriveSerialNumber).map(|v| v.as_str()),
        Some("")
    );
}

#[test]
fn binding_attributes_of_each_platform() {
    let mut macos = MacOSBuilder::new();
    macos.add_binding(&MacOSBinding {
        platform_serial_number: "PSN-7\n".to_string(),
        system_drive_serial_number: "DSN-7\n".to_string(),
    });
    assert_eq!(
        macos.get_components().entries(),
        vec![
            ("systemDriveSerialNumber".to_string(), "DSN-7".to_string()),
            ("platformSerialNumber".to_string(), "PSN-7".to_string()),
        ]
    );

    let one = |v: &str| vec![v.to_string()];
    let mut windows = WindowsBuilder::new();
    windows.add_binding(&WindowsBinding {
        logon_user_name: one(" alice "),
        system_drive_serial_number: one("DSN-8"),
        mother_board_serial_number: vec![],
        system_uuid: one("UUID-8\n"),
    });
    assert_eq!(
        windows.get_components().entries(),
        vec![
            ("logonUserName".to_string(), "alice".to_string()),
            ("systemDriveSerialNumber".to_string(), "DSN-8".to_string()),
            ("motherBoardSerialNumber".to_string(), "".to_string()),
            ("systemUuid".to_string(), "UUID-8".to_string()),
        ]
    );
    assert!(!windows.get_components().contains_key(&WindowsBuilderComponents::MACAddress));
}
