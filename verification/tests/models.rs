use tauri_plugin_hid::models::{
    copy_devices, CloseArgs, EnumerateResult, HidDeviceInfo, OpenArgs, ReadArgs, ReadResult,
    WriteArgs,
};

#[test]
fn snapshot_records_unknown_names_as_empty_and_keeps_a_missing_serial_missing() {
    let info = HidDeviceInfo::snapshot("/dev/hidraw0".to_string(), 0x046d, 0xc077, None, 0x7200, None, None);
    assert_eq!(info.path, "/dev/hidraw0");
    assert_eq!(info.vendor_id, 0x046d);
    assert_eq!(info.product_id, 0xc077);
    assert_eq!(info.release_number, 0x7200);
    assert_eq!(info.serial_number, None);
    assert_eq!(info.manufacturer_string, Some(String::new()));
    assert_eq!(info.product_string, Some(String::new()));
}

#[test]
fn snapshot_keeps_an_empty_serial_apart_from_a_missing_one() {
    let info = HidDeviceInfo::snapshot("p".to_string(), 1, 2, Some(""), 3, None, None);
    assert_eq!(info.serial_number, Some(String::new()));
    let info = HidDeviceInfo::snapshot("p".to_string(), 1, 2, None, 3, Some("m"), Some("n"));
    assert_eq!(info.serial_number, None);
}

#[test]
fn snapshot_keeps_known_strings() {
    let info = HidDeviceInfo::snapshot(
        "p".to_string(),
        1,
        2,
        Some("SN-42"),
        3,
        Some("Logitech"),
        Some("USB Optical Mouse"),
    );
    assert_eq!(info.serial_number.as_deref(), Some("SN-42"));
    assert_eq!(info.manufacturer_string.as_deref(), Some("Logitech"));
    assert_eq!(info.product_string.as_deref(), Some("USB Optical Mouse"));
}

#[test]
fn default_device_is_blank() {
    let info = HidDeviceInfo::default();
    assert_eq!(info.path, "");
    assert_eq!(info.vendor_id, 0);
    assert_eq!(info.product_id, 0);
    assert_eq!(info.release_number, 0);
    assert_eq!(info.serial_number, None);
    assert_eq!(info.manufacturer_string, None);
    assert_eq!(info.product_string, None);
}

#[test]
fn clone_keeps_every_field() {
    let mut info = HidDeviceInfo::snapshot("x".to_string(), 7, 8, Some("s"), 9, Some("m"), None);
    info.serial_number = None;
    let copy = info.clone();
    assert_eq!(copy.path, "x");
    assert_eq!(copy.vendor_id, 7);
    assert_eq!(copy.product_id, 8);
    assert_eq!(copy.release_number, 9);
    assert_eq!(copy.serial_number, None);
    assert_eq!(copy.manufacturer_string.as_deref(), Some("m"));
    assert_eq!(copy.product_string.as_deref(), Some(""));
}

#[test]
fn copy_devices_keeps_order() {
    let devices = vec![
        HidDeviceInfo::snapshot("b".to_string(), 1, 1, None, 0, None, None),
        HidDeviceInfo::snapshot("a".to_string(), 2, 2, None, 0, None, None),
    ];
    let copy = copy_devices(&devices);
    assert_eq!(copy.len(), 2);
    assert_eq!(copy[0].path, "b");
    assert_eq!(copy[1].path, "a");
    assert_eq!(copy[1].vendor_id, 2);
    let result = EnumerateResult { devices }.clone();
    assert_eq!(result.devices.len(), 2);
    assert_eq!(result.devices[0].path, "b");
}

#[test]
fn default_arguments_are_blank() {
    assert_eq!(OpenArgs::default().path, "");
    assert_eq!(CloseArgs::default().path, "");
    assert_eq!(ReadArgs::default().path, "");
    assert_eq!(ReadArgs::default().timeout, 0);
    assert!(ReadResult::default().data.is_empty());
    assert_eq!(WriteArgs::default().path, "");
    assert!(WriteArgs::default().data.is_empty());
    assert!(EnumerateResult::default().devices.is_empty());
}

#[test]
fn cloned_arguments_are_equal() {
    let write = WriteArgs { path: "w".to_string(), data: vec![-1, 2] }.clone();
    assert_eq!(write.path, "w");
    assert_eq!(write.data, vec![-1i8, 2]);
    let read = ReadArgs { path: "r".to_string(), timeout: 30 }.clone();
    assert_eq!(read.path, "r");
    assert_eq!(read.timeout, 30);
    assert_eq!(OpenArgs { path: "o".to_string() }.clone().path, "o");
    assert_eq!(CloseArgs { path: "c".to_string() }.clone().path, "c");
    assert_eq!(ReadResult { data: vec![5] }.clone().data, vec![5i8]);
}
