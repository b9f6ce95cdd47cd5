use device_info::builder::MainBuilderComponents;
use device_info::error::DeviceInfoError;
use device_info::internal::BaseDeviceInfoBuilder;
use device_info::internal::IDeviceInfoBuilder;

#[test]
fn inserting_a_key_twice_fails_whatever_the_value() {
    let mut builder = BaseDeviceInfoBuilder::<MainBuilderComponents>::new();
    assert_eq!(builder.try_add_component(&MainBuilderComponents::UserName, "alice"), Ok(()));
    assert_eq!(
        builder.try_add_component(&MainBuilderComponents::UserName, "alice"),
        Err(DeviceInfoError::DuplicateKey)
    );
    assert_eq!(
        builder.try_add_component(&MainBuilderComponents::UserName, "bob"),
        Err(DeviceInfoError::DuplicateKey)
    );
    assert_eq!(builder.get_components().len(), 1);
    assert_eq!(
        builder.get_components().get(&MainBuilderComponents::UserName).map(|v| v.as_str()),
        Some("alice")
    );
}

#[test]
fn entries_come_out_in_key_order() {
    let mut builder = BaseDeviceInfoBuilder::<MainBuilderComponents>::new();
    builder
        .add_component(&MainBuilderComponents::CpuArch, "x86_64")
        .add_component(&MainBuilderComponents::UserName, "alice")
        .add_component(&MainBuilderComponents::OSPlatform, "Linux");
    let entries = builder.get_components().entries();
    assert_eq!(
        entries,
        vec![
            ("userName".to_string(), "alice".to_string()),
            ("platform".to_string(), "Linux".to_string()),
            ("cpuArch".to_string(), "x86_64".to_string()),
        ]
    );
}

#[test]
fn registries_are_equal_where_their_entries_are() {
    let mut one = BaseDeviceInfoBuilder::<MainBuilderComponents>::new();
    one.add_component(&MainBuilderComponents::UserName, "alice")
        .add_component(&MainBuilderComponents::CpuArch, "x86_64");
    let mut other = BaseDeviceInfoBuilder::<MainBuilderComponents>::new();
    other
        .add_component(&MainBuilderComponents::CpuArch, "x86_64")
        .add_component(&MainBuilderComponents::UserName, "alice");
    assert!(one.get_components().equals(other.get_components()));
    assert!(other.get_components().equals(one.get_components()));
    assert_eq!(one.to_string(), other.to_string());

    other.add_component(&MainBuilderComponents::DeviceName, "box1");
    assert!(!one.get_components().equals(other.get_components()));
    assert!(one.get_components().is_part_of(other.get_components()));
    assert!(!other.get_components().is_part_of(one.get_components()));

    let mut changed = BaseDeviceInfoBuilder::<MainBuilderComponents>::new();
    changed
        .add_component(&MainBuilderComponents::UserName, "alice")
        .add_component(&MainBuilderComponents::CpuArch, "arm64");
    assert!(!one.get_components().equals(changed.get_components()));
    assert!(!one.get_components().is_part_of(changed.get_components()));
    let empty = BaseDeviceInfoBuilder::<MainBuilderComponents>::new();
    assert!(empty.get_components().is_part_of(one.get_components()));
    assert!(empty.get_components().equals(empty.get_components()));
}

#[test]
fn pairs_come_out_in_key_order() {
    let mut builder = BaseDeviceInfoBuilder::<MainBuilderComponents>::new();
    builder
        .add_component(&MainBuilderComponents::OSDistro, "Fedora")
        .add_component(&MainBuilderComponents::DeviceName, "box1")
        .add_component(&MainBuilderComponents::UserName, "alice");
    assert_eq!(
        builder.get_components().pairs(),
        vec![
            (MainBuilderComponents::UserName, "alice".to_string()),
            (MainBuilderComponents::DeviceName, "box1".to_string()),
            (MainBuilderComponents::OSDistro, "Fedora".to_string()),
        ]
    );
    assert_eq!(builder.to_string(), "userName: alice\ndeviceName: box1\nosDistro: Fedora");
    assert!(builder.get_components().contains_key(&MainBuilderComponents::OSDistro));
    assert!(!builder.get_components().contains_key(&MainBuilderComponents::CpuArch));
    assert_eq!(builder.get_components().get(&MainBuilderComponents::CpuArch), None);
}
