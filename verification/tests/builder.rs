use device_info::builder::IMainBuilder;
use device_info::builder::MainBuilderComponents;
use device_info::builder::MainDeviceInfoBuilder;
use device_info::error::DeviceInfoError;
use device_info::internal::ComponentMap;
use device_info::internal::IDeviceInfoBuilder;
use device_info::key::ComponentKey;
use device_info::macos::IMacOSBuilder;
use device_info::macos::MacOSBuilder;
use device_info::macos::MacOSBuilderComponents;
use device_info::platform::PlatformFamily;
use device_info::windows::IWindowsBuilder;
use device_info::windows::WindowsBuilder;
use device_info::windows::WindowsBuilderComponents;

fn rows(values: &[&str]) -> Vec<String> {
    values.iter().map(|v| v.to_string()).collect()
}

fn pair(name: &str, value: &str) -> (String, String) {
    (name.to_string(), value.to_string())
}

fn all_keys() -> Vec<(MainBuilderComponents, &'static str)> {
    let windows = MainBuilderComponents::WindowsBuilderComponents;
    let macos = MainBuilderComponents::MacOSBuilderComponents;
    vec![
        (MainBuilderComponents::UserName, "userName"),
        (MainBuilderComponents::DeviceName, "deviceName"),
        (MainBuilderComponents::OSPlatform, "platform"),
        (MainBuilderComponents::OSDistro, "osDistro"),
        (MainBuilderComponents::CpuArch, "cpuArch"),
        (windows(WindowsBuilderComponents::LogonUserName), "Windows::logonUserName"),
        (windows(WindowsBuilderComponents::SystemDriveSerialNumber), "Windows::systemDriveSerialNumber"),
        (windows(WindowsBuilderComponents::MotherBoardSerialNumber), "Windows::motherBoardSerialNumber"),
        (windows(WindowsBuilderComponents::SystemUuid), "Windows::systemUuid"),
        (windows(WindowsBuilderComponents::MACAddress), "Windows::MACAddress"),
        (windows(WindowsBuilderComponents::ProcessorId), "Windows::processorId"),
        (windows(WindowsBuilderComponents::Guid), "Windows::guid"),
        (macos(MacOSBuilderComponents::SystemDriveSerialNumber), "MacOS::systemDriveSerialNumber"),
        (macos(MacOSBuilderComponents::PlatformSerialNumber), "MacOS::platformSerialNumber"),
    ]
}

#[test]
fn test_main_builder() {
    let mut builder = MainDeviceInfoBuilder::new();
    builder
        .add_user_name()
        .add_platform_name()
        .add_device_name()
        .add_cpu_arch()
        .add_os_distro()
        .on_macos(|macos_builder| {
            macos_builder
                .add_platform_serial_number("C02XK0AAJGH5\n")
                .add_system_drive_serial_number("S4EWNX0M123456\n")
        });
    println!("{:?}", builder.get_components());
    let components = builder.get_components();
    assert!(components.len() == 5 || components.len() == 7);
    for key in [
        MainBuilderComponents::UserName,
        MainBuilderComponents::OSPlatform,
        MainBuilderComponents::DeviceName,
        MainBuilderComponents::CpuArch,
        MainBuilderComponents::OSDistro,
    ] {
        assert!(components.contains_key(&key));
    }
}

#[test]
fn test_main_builder_serialize() {
    let mut builder = MainDeviceInfoBuilder::new();
    builder
        .add_user_name()
        .add_platform_name()
        .add_device_name()
        .add_cpu_arch()
        .add_os_distro()
        .on_macos(|macos_builder| {
            macos_builder
                .add_platform_serial_number("C02XK0AAJGH5\n")
                .add_system_drive_serial_number("S4EWNX0M123456\n")
        });
    let text = builder.to_json();
    println!("{}", text);
    let parsed: serde_json::Value = serde_json::from_str(&text).unwrap();
    let object = parsed.as_object().unwrap();
    let names: Vec<&str> = object.keys().map(|k| k.as_str()).collect();
    assert_eq!(&names[..5], ["userName", "deviceName", "platform", "osDistro", "cpuArch"]);
    assert_eq!(object.len(), builder.get_components().len());
}

#[test]
fn test_main_builder_deserialize() {
    let mut builder = MainDeviceInfoBuilder::new();
    builder
        .add_user_name()
        .add_platform_name()
        .add_device_name()
        .add_cpu_arch()
        .add_os_distro()
        .on_macos(|macos_builder| {
            macos_builder
                .add_platform_serial_number("C02XK0AAJGH5\n")
                .add_system_drive_serial_number("S4EWNX0M123456\n")
        });
    let serialized = builder.to_json();

    let deserialized: MainDeviceInfoBuilder = match MainDeviceInfoBuilder::from_json(&serialized) {
        Ok(v) => v,
        Err(e) => panic!("Invalid from_str: {}", e.to_string()),
    };
    println!("{:?}", deserialized.get_components());
    assert_eq!(deserialized.get_components().entries(), builder.get_components().entries());
}

#[test]
fn every_key_has_one_canonical_string_and_comes_back_from_it() {
    let keys = all_keys();
    for (key, name) in &keys {
        assert_eq!(key.as_string(), *name);
        assert_eq!(key.to_canonical(), *name);
        assert_eq!(MainBuilderComponents::from_str(name), Some(*key));
        assert_eq!(MainBuilderComponents::from_canonical(name), Some(*key));
    }
    for (i, (a, _)) in keys.iter().enumerate() {
        for (j, (b, _)) in keys.iter().enumerate() {
            assert_eq!(a.as_string() == b.as_string(), i == j);
            assert_eq!(a == b, i == j);
        }
    }
}

#[test]
fn a_string_that_is_no_key_is_refused() {
    for name in [
        "",
        "username",
        "UserName",
        "userName ",
        " userName",
        "osPlatform",
        "Windows",
        "Windows:",
        "Windows::",
        "Windows::userName",
        "Windows::platformSerialNumber",
        "windows::guid",
        "MacOS::",
        "MacOS::guid",
        "macOS::platformSerialNumber",
        "Linux::guid",
        "guid",
        "systemDriveSerialNumber",
        "Windows::Windows::guid",
        "Windows::guid\n",
        "\u{e9}",
    ] {
        assert_eq!(MainBuilderComponents::from_str(name), None, "{:?}", name);
    }
}

#[test]
fn keys_are_ordered_as_they_are_declared() {
    let keys = all_keys();
    for (i, (key, _)) in keys.iter().enumerate() {
        assert_eq!(key.ordinal() as usize, i);
    }
    for (a, _) in &keys {
        for (b, _) in &keys {
            assert_eq!(a < b, a.ordinal() < b.ordinal());
            assert_eq!(a.cmp(b), a.ordinal().cmp(&b.ordinal()));
        }
    }
    assert_eq!(WindowsBuilderComponents::Guid.ordinal(), 6);
    assert_eq!(MacOSBuilderComponents::PlatformSerialNumber.ordinal(), 1);
    assert!(WindowsBuilderComponents::LogonUserName < WindowsBuilderComponents::Guid);
    assert!(MacOSBuilderComponents::SystemDriveSerialNumber < MacOSBuilderComponents::PlatformSerialNumber);
}

#[test]
fn listing_is_sorted_by_key_whatever_the_order_of_insertion() {
    let keys = all_keys();
    let mut forward = MainDeviceInfoBuilder::new();
    for (i, (key, _)) in keys.iter().enumerate() {
        forward.add_component(key, &format!("v{}", i));
    }
    let mut backward = MainDeviceInfoBuilder::new();
    for (i, (key, _)) in keys.iter().enumerate().rev() {
        backward.add_component(key, &format!("v{}", i));
    }
    let mut shuffled = MainDeviceInfoBuilder::new();
    for step in 0..keys.len() {
        let i = (step * 5 + 3) % keys.len();
        shuffled.add_component(&keys[i].0, &format!("v{}", i));
    }
    let expected: Vec<(String, String)> =
        keys.iter().enumerate().map(|(i, (_, name))| pair(name, &format!("v{}", i))).collect();
    assert_eq!(forward.serialize(), expected);
    assert_eq!(backward.serialize(), expected);
    assert_eq!(shuffled.serialize(), expected);
    assert_eq!(forward.to_json(), backward.to_json());
    assert_eq!(forward.to_json(), shuffled.to_json());
    assert_eq!(forward.to_string(), shuffled.to_string());
    assert_eq!(forward.get_components().len(), 14);
}

#[test]
fn text_block_and_document_of_a_registry() {
    let mut builder = MainDeviceInfoBuilder::new();
    assert_eq!(builder.to_string(), "");
    assert_eq!(builder.to_json(), "{}");
    builder.add_component(&MainBuilderComponents::CpuArch, "x86_64");
    assert_eq!(builder.to_string(), "cpuArch: x86_64");
    assert_eq!(builder.to_json(), "{\"cpuArch\":\"x86_64\"}");
    builder
        .add_component(&MainBuilderComponents::UserName, "alice")
        .add_component(
            &MainBuilderComponents::MacOSBuilderComponents(MacOSBuilderComponents::PlatformSerialNumber),
            "C02 \"X\"",
        )
        .add_component(
            &MainBuilderComponents::WindowsBuilderComponents(WindowsBuilderComponents::Guid),
            "",
        );
    assert_eq!(
        builder.to_string(),
        "userName: alice\ncpuArch: x86_64\nWindows::guid: \nMacOS::platformSerialNumber: C02 \"X\""
    );
    assert_eq!(
        builder.to_json(),
        "{\"userName\":\"alice\",\"cpuArch\":\"x86_64\",\"Windows::guid\":\"\",\"MacOS::platformSerialNumber\":\"C02 \\\"X\\\"\"}"
    );
}

#[test]
fn document_round_trip() {
    let keys = all_keys();
    let values = ["", "alice", "line\nbreak", "quote\"back\\slash", "\u{e9}\u{4e2d}\u{1f600}", "\u{0}\u{1f}", "  spaced  "];
    let mut builder = MainDeviceInfoBuilder::new();
    for step in 0..keys.len() {
        let i = (step * 3 + 1) % keys.len();
        builder.add_component(&keys[i].0, values[i % values.len()]);
    }
    let read = MainDeviceInfoBuilder::from_json(&builder.to_json()).unwrap();
    assert_eq!(read.serialize(), builder.serialize());
    for (i, (key, _)) in keys.iter().enumerate() {
        assert_eq!(read.get_components().get(key).map(|v| v.as_str()), Some(values[i % values.len()]));
    }
    let again = MainDeviceInfoBuilder::deserialize(&builder.serialize()).unwrap();
    assert_eq!(again.serialize(), builder.serialize());
}

#[test]
fn reading_a_document_fails_on_what_it_cannot_hold() {
    let unknown = MainDeviceInfoBuilder::from_json("{\"userName\":\"alice\",\"shoeSize\":\"44\"}");
    assert_eq!(unknown.err(), Some(DeviceInfoError::UnknownKey));
    for text in ["", "{", "[]", "null", "\"userName\"", "{\"userName\":1}", "{\"userName\":null}", "{\"userName\":\"a\"} x"] {
        assert_eq!(MainDeviceInfoBuilder::from_json(text).err(), Some(DeviceInfoError::Decode), "{:?}", text);
    }
    let empty = MainDeviceInfoBuilder::from_json(" { } ").unwrap();
    assert_eq!(empty.get_components().len(), 0);
    let spaced = MainDeviceInfoBuilder::from_json("{ \"cpuArch\" : \"arm64\" , \"userName\" : \"bob\" }").unwrap();
    assert_eq!(spaced.serialize(), vec![pair("userName", "bob"), pair("cpuArch", "arm64")]);
}

#[test]
fn reading_entries_fails_on_unknown_and_on_repeated_keys() {
    let unknown = vec![pair("userName", "alice"), pair("nope", "x"), pair("userName", "bob")];
    assert_eq!(MainDeviceInfoBuilder::deserialize(&unknown).err(), Some(DeviceInfoError::UnknownKey));
    let repeated = vec![pair("userName", "alice"), pair("userName", "alice"), pair("nope", "x")];
    assert_eq!(MainDeviceInfoBuilder::deserialize(&repeated).err(), Some(DeviceInfoError::DuplicateKey));
    let good = vec![pair("cpuArch", "arm64"), pair("userName", "bob")];
    assert_eq!(
        MainDeviceInfoBuilder::deserialize(&good).unwrap().serialize(),
        vec![pair("userName", "bob"), pair("cpuArch", "arm64")]
    );
}

#[test]
fn extension_is_merged_on_its_own_platform_only() {
    let windows_rows = rows(&[" WIN-SERIAL \r\n"]);
    for platform in [PlatformFamily::Windows, PlatformFamily::MacOS, PlatformFamily::Other] {
        let calls = std::cell::Cell::new(0);
        let mut builder = MainDeviceInfoBuilder::new();
        builder
            .add_component(&MainBuilderComponents::UserName, "alice")
            .on_windows_for(platform, |w| {
                calls.set(calls.get() + 1);
                w.add_system_drive_serial_number(&windows_rows).add_machine_guid("{guid}")
            })
            .on_macos_for(platform, |m| {
                calls.set(calls.get() + 10);
                m.add_platform_serial_number("MAC-SERIAL\n")
            })
            .add_component(&MainBuilderComponents::CpuArch, "x86_64");
        let expected = match platform {
            PlatformFamily::Windows => {
                assert_eq!(calls.get(), 1);
                vec![
                    pair("userName", "alice"),
                    pair("cpuArch", "x86_64"),
                    pair("Windows::systemDriveSerialNumber", "WIN-SERIAL"),
                    pair("Windows::guid", "{guid}"),
                ]
            }
            PlatformFamily::MacOS => {
                assert_eq!(calls.get(), 10);
                vec![
                    pair("userName", "alice"),
                    pair("cpuArch", "x86_64"),
                    pair("MacOS::platformSerialNumber", "MAC-SERIAL"),
                ]
            }
            PlatformFamily::Other => {
                assert_eq!(calls.get(), 0);
                vec![pair("userName", "alice"), pair("cpuArch", "x86_64")]
            }
        };
        assert_eq!(builder.serialize(), expected);
    }
}

#[test]
fn namespaced_keys_never_collide_with_core_keys_or_the_other_platform() {
    let mut windows = WindowsBuilder::new();
    windows
        .add_logon_user_name(&rows(&["u"]))
        .add_system_drive_serial_number(&rows(&["d"]))
        .add_mother_board_serial_number(&rows(&["m"]))
        .add_system_uuid(&rows(&["s"]))
        .add_mac_address(&rows(&["a"]))
        .add_processor_id(&rows(&["p"]))
        .add_machine_guid("g");
    let mut macos = MacOSBuilder::new();
    macos.add_system_drive_serial_number("d").add_platform_serial_number("p");

    let mut builder = MainDeviceInfoBuilder::new();
    builder
        .add_component(&MainBuilderComponents::UserName, "1")
        .add_component(&MainBuilderComponents::DeviceName, "2")
        .add_component(&MainBuilderComponents::OSPlatform, "3")
        .add_component(&MainBuilderComponents::OSDistro, "4")
        .add_component(&MainBuilderComponents::CpuArch, "5");
    builder.merge_extension(windows.get_components()).merge_extension(macos.get_components());
    assert_eq!(builder.get_components().len(), 14);
    assert_eq!(
        builder
            .get_components()
            .get(&MainBuilderComponents::WindowsBuilderComponents(WindowsBuilderComponents::SystemDriveSerialNumber))
            .map(|v| v.as_str()),
        Some("d")
    );
    assert_eq!(
        builder
            .get_components()
            .get(&MainBuilderComponents::MacOSBuilderComponents(MacOSBuilderComponents::SystemDriveSerialNumber))
            .map(|v| v.as_str()),
        Some("d")
    );
    let names: Vec<String> = builder.serialize().into_iter().map(|e| e.0).collect();
    let mut unique = names.clone();
    unique.sort();
    unique.dedup();
    assert_eq!(unique.len(), 14);
}

#[test]
fn merging_stops_at_the_first_key_that_is_present() {
    let mut other = ComponentMap::<MainBuilderComponents>::new();
    other.try_insert(MainBuilderComponents::CpuArch, "arm64".to_string()).unwrap();
    other.try_insert(MainBuilderComponents::DeviceName, "box1".to_string()).unwrap();
    other.try_insert(MainBuilderComponents::UserName, "bob".to_string()).unwrap();

    let mut builder = MainDeviceInfoBuilder::new();
    builder.add_component(&MainBuilderComponents::DeviceName, "box0");
    assert_eq!(builder.try_extend_components(&other), Err(DeviceInfoError::DuplicateKey));
    // what was taken in before the collision stays, the present entry is untouched
    assert_eq!(builder.serialize(), vec![pair("userName", "bob"), pair("deviceName", "box0")]);

    let mut fresh = MainDeviceInfoBuilder::new();
    fresh.add_component(&MainBuilderComponents::OSDistro, "Fedora");
    assert_eq!(fresh.try_extend_components(&other), Ok(()));
    assert_eq!(
        fresh.serialize(),
        vec![pair("userName", "bob"), pair("deviceName", "box1"), pair("osDistro", "Fedora"), pair("cpuArch", "arm64")]
    );
    let mut chained = MainDeviceInfoBuilder::new();
    chained.extend_components(&other).add_component(&MainBuilderComponents::OSPlatform, "Linux");
    assert_eq!(chained.get_components().len(), 4);
}

#[test]
fn a_new_registry_is_empty() {
    assert_eq!(MainDeviceInfoBuilder::new().get_components().len(), 0);
    assert_eq!(MainDeviceInfoBuilder::default().serialize(), Vec::<(String, String)>::new());
    assert!(!MainDeviceInfoBuilder::new().get_components().contains_key(&MainBuilderComponents::UserName));
    assert_eq!(WindowsBuilder::default().get_components().len(), 0);
    assert_eq!(MacOSBuilder::default().get_components().len(), 0);
    assert_eq!(device_info::internal::BaseDeviceInfoBuilder::<MainBuilderComponents>::default().to_string(), "");
}

#[test]
fn one_pass_takes_in_one_extension_at_most() {
    for platform in [PlatformFamily::Windows, PlatformFamily::MacOS, PlatformFamily::Other] {
        let mut builder = MainDeviceInfoBuilder::new();
        builder.add_component(&MainBuilderComponents::UserName, "alice").on_platform(
            platform,
            |w| w.add_machine_guid("{guid}"),
            |m| m.add_platform_serial_number("SERIAL\n"),
        );
        let names: Vec<String> = builder.serialize().into_iter().map(|e| e.0).collect();
        let expected: Vec<&str> = match platform {
            PlatformFamily::Windows => vec!["userName", "Windows::guid"],
            PlatformFamily::MacOS => vec!["userName", "MacOS::platformSerialNumber"],
            PlatformFamily::Other => vec!["userName"],
        };
        assert_eq!(names, expected);
    }
}
