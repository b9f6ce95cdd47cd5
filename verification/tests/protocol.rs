use device_info::builder::MainBuilderComponents;
use device_info::builder::MainDeviceInfoBuilder;
use device_info::crypto::aes;
use device_info::crypto::aes::AesKey;
use device_info::error::DeviceInfoError;
use device_info::internal::IDeviceInfoBuilder;
use device_info::platform::PlatformFamily;
use device_info::protocol::binds_user_name;
use device_info::protocol::check;
use device_info::protocol::issue;
use device_info::protocol::issue_with_nonce;
use device_info::protocol::render;
use device_info::protocol::verify;
use device_info::protocol::OutputFormat;

fn registry(entries: &[(MainBuilderComponents, &str)]) -> MainDeviceInfoBuilder {
    let mut builder = MainDeviceInfoBuilder::new();
    for (key, value) in entries {
        builder.add_component(key, value);
    }
    builder
}

#[test]
fn check_succeeds_on_a_host_that_holds_all_that_was_issued() {
    let key = AesKey::from_bytes([42u8; 32]);
    let issued = registry(&[(MainBuilderComponents::UserName, "alice"), (MainBuilderComponents::CpuArch, "x86_64")]);
    let live = registry(&[
        (MainBuilderComponents::UserName, "alice"),
        (MainBuilderComponents::CpuArch, "x86_64"),
        (MainBuilderComponents::DeviceName, "box1"),
    ]);
    let code = issue(&issued, &key).unwrap();
    assert_eq!(check(&code, &key, &live), Ok(()));
    assert_eq!(check(&code, &key, &issued), Ok(()));
}

#[test]
fn check_fails_on_a_host_with_another_value() {
    let key = AesKey::from_bytes([42u8; 32]);
    let issued = registry(&[(MainBuilderComponents::UserName, "alice")]);
    let live = registry(&[(MainBuilderComponents::UserName, "bob")]);
    let code = issue(&issued, &key).unwrap();
    assert_eq!(check(&code, &key, &live), Err(DeviceInfoError::VerificationMismatch));
}

#[test]
fn check_fails_on_a_host_that_lacks_an_attribute() {
    let key = AesKey::from_bytes([42u8; 32]);
    let issued = registry(&[(MainBuilderComponents::UserName, "alice"), (MainBuilderComponents::CpuArch, "x86_64")]);
    let live = registry(&[(MainBuilderComponents::UserName, "alice")]);
    let code = issue(&issued, &key).unwrap();
    assert_eq!(check(&code, &key, &live), Err(DeviceInfoError::VerificationMismatch));
    assert_eq!(check(&code, &key, &MainDeviceInfoBuilder::new()), Err(DeviceInfoError::VerificationMismatch));
    // an empty registry binds nothing
    let nothing = issue(&MainDeviceInfoBuilder::new(), &key).unwrap();
    assert_eq!(check(&nothing, &key, &live), Ok(()));
    assert_eq!(check(&nothing, &key, &MainDeviceInfoBuilder::new()), Ok(()));
}

#[test]
fn check_of_a_malformed_code_is_a_decode_error() {
    let key = AesKey::from_bytes([42u8; 32]);
    let live = registry(&[(MainBuilderComponents::UserName, "alice")]);
    assert_eq!(check("not base64 at all!", &key, &live), Err(DeviceInfoError::Decode));
    assert_eq!(check("", &key, &live), Err(DeviceInfoError::Decode));
    let code = issue(&live, &key).unwrap();
    assert_eq!(check(&code[..code.len() / 2], &key, &live), Err(DeviceInfoError::Decode));
    assert_eq!(check(&code[..code.len() - 1], &key, &live), Err(DeviceInfoError::Decode));
    assert_eq!(check(&format!("{}=", code), &key, &live), Err(DeviceInfoError::Decode));
}

#[test]
fn check_under_another_key_fails_authentication() {
    let key = AesKey::from_bytes([42u8; 32]);
    let other = AesKey::from_bytes([43u8; 32]);
    let live = registry(&[(MainBuilderComponents::UserName, "alice")]);
    let code = issue(&live, &key).unwrap();
    assert_eq!(check(&code, &other, &live), Err(DeviceInfoError::Authentication));
}

#[test]
fn check_of_a_code_that_holds_no_registry() {
    let key = AesKey::from_bytes([42u8; 32]);
    let live = registry(&[(MainBuilderComponents::UserName, "alice")]);
    let no_document = aes::encrypt(&key, "Hello World").unwrap();
    assert_eq!(check(&no_document, &key, &live), Err(DeviceInfoError::Decode));
    let unknown_key = aes::encrypt(&key, "{\"userName\":\"alice\",\"favouriteColour\":\"red\"}").unwrap();
    assert_eq!(check(&unknown_key, &key, &live), Err(DeviceInfoError::UnknownKey));
    let by_hand = aes::encrypt(&key, "{\"userName\":\"alice\"}").unwrap();
    assert_eq!(check(&by_hand, &key, &live), Ok(()));
}

#[test]
fn issuing_twice_gives_two_codes_for_one_registry() {
    let key = AesKey::from_bytes([42u8; 32]);
    let live = registry(&[(MainBuilderComponents::UserName, "alice")]);
    let first = issue(&live, &key).unwrap();
    let second = issue(&live, &key).unwrap();
    assert_ne!(first, second);
    assert_eq!(check(&first, &key, &live), Ok(()));
    assert_eq!(check(&second, &key, &live), Ok(()));
    let fixed = issue_with_nonce(&live, &key, &[1u8; 12]).unwrap();
    assert_eq!(fixed, issue_with_nonce(&live, &key, &[1u8; 12]).unwrap());
    assert_eq!(aes::decrypt(&key, &fixed), Ok("{\"userName\":\"alice\"}".to_string()));
}

#[test]
fn verify_compares_one_way() {
    let small = registry(&[(MainBuilderComponents::UserName, "alice")]);
    let large = registry(&[(MainBuilderComponents::UserName, "alice"), (MainBuilderComponents::OSDistro, "Fedora")]);
    let other = registry(&[(MainBuilderComponents::UserName, "Alice"), (MainBuilderComponents::OSDistro, "Fedora")]);
    assert_eq!(verify(&small, &large), Ok(()));
    assert_eq!(verify(&large, &small), Err(DeviceInfoError::VerificationMismatch));
    assert_eq!(verify(&small, &other), Err(DeviceInfoError::VerificationMismatch));
    assert_eq!(verify(&large, &large), Ok(()));
    assert_eq!(verify(&MainDeviceInfoBuilder::new(), &small), Ok(()));
}

#[test]
fn rendering_and_policy() {
    let shown = registry(&[(MainBuilderComponents::CpuArch, "x86_64"), (MainBuilderComponents::UserName, "alice")]);
    assert_eq!(OutputFormat::from_str("json"), Some(OutputFormat::Json));
    assert_eq!(OutputFormat::from_str("text"), Some(OutputFormat::Text));
    assert_eq!(OutputFormat::from_str("JSON"), None);
    assert_eq!(OutputFormat::from_str("yaml"), None);
    assert_eq!(render(&shown, OutputFormat::Json), "{\"userName\":\"alice\",\"cpuArch\":\"x86_64\"}");
    assert_eq!(render(&shown, OutputFormat::Text), "userName: alice\ncpuArch: x86_64");
    assert!(!binds_user_name(PlatformFamily::Windows));
    assert!(binds_user_name(PlatformFamily::MacOS));
    assert!(binds_user_name(PlatformFamily::Other));
    assert_eq!(shown.get_components().len(), 2);
}

#[test]
fn every_failure_has_its_own_message() {
    let all = [
        DeviceInfoError::DuplicateKey,
        DeviceInfoError::UnknownKey,
        DeviceInfoError::Collection,
        DeviceInfoError::Authentication,
        DeviceInfoError::Decode,
        DeviceInfoError::TooLong,
        DeviceInfoError::VerificationMismatch,
    ];
    for (i, a) in all.iter().enumerate() {
        for (j, b) in all.iter().enumerate() {
            assert_eq!(a.to_string() == b.to_string(), i == j);
        }
    }
    assert_eq!(DeviceInfoError::DuplicateKey.to_string(), "component already exists");
}
