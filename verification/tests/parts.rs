use hidapi::{DeviceInfo, HidApi, HidDevice};
use tauri_plugin_hid::desktop::{
    close_session, get_session_report, open_session, read_session, rescan, send_session_report,
    write_session,
};
use tauri_plugin_hid::directory::Directory;
use tauri_plugin_hid::error::Error;
use tauri_plugin_hid::registry::Registry;

const NO_SUCH_PATH: &str = "/no/such/hid/device";

#[test]
fn rescan_fills_the_directory_with_what_it_lists() {
    let mut hid_api = HidApi::new().expect("the platform context");
    let mut device_list: Directory<DeviceInfo> = Directory::new();
    let devices = rescan(&mut hid_api, &mut device_list).expect("the platform's device list");
    assert_eq!(device_list.len(), devices.len());
    for device in &devices {
        let entry = device_list.lookup(&device.path).expect("a listed device");
        assert_eq!(entry.info.vendor_id, entry.device.vendor_id());
        assert_eq!(entry.info.product_id, entry.device.product_id());
        assert_eq!(entry.info.release_number, entry.device.release_number());
        assert_eq!(entry.info.serial_number.as_deref(), entry.device.serial_number());
        assert_eq!(
            entry.info.manufacturer_string.as_deref(),
            Some(entry.device.manufacturer_string().unwrap_or(""))
        );
        assert_eq!(
            entry.info.product_string.as_deref(),
            Some(entry.device.product_string().unwrap_or(""))
        );
        assert_eq!(entry.info.path, entry.device.path().to_string_lossy());
    }
}

#[test]
fn opening_on_an_empty_directory_fails_and_leaves_the_registry_alone() {
    let hid_api = HidApi::new().expect("the platform context");
    let device_list: Directory<DeviceInfo> = Directory::new();
    let mut open_devices: Registry<HidDevice> = Registry::new();
    assert!(matches!(
        open_session(&hid_api, &device_list, &mut open_devices, NO_SUCH_PATH),
        Err(Error::HidDeviceNotFound)
    ));
    assert_eq!(open_devices.len(), 0);
    assert!(!open_devices.contains(NO_SUCH_PATH));
}

#[test]
fn closing_a_path_without_a_session_changes_nothing() {
    let mut open_devices: Registry<HidDevice> = Registry::new();
    assert!(close_session(&mut open_devices, NO_SUCH_PATH).is_ok());
    assert_eq!(open_devices.len(), 0);
}

#[test]
fn a_reserved_path_has_no_session_to_talk_to() {
    let mut open_devices: Registry<HidDevice> = Registry::new();
    open_devices.reserve("P").expect("a free key");
    assert!(matches!(
        write_session(&open_devices, "P", &[0, 1]),
        Err(Error::HidDeviceNotFoundInOpenDevices)
    ));
    assert!(matches!(read_session(&open_devices, "P", 0), Err(Error::HidDeviceNotFoundInOpenDevices)));
    assert!(close_session(&mut open_devices, "P").is_ok());
    assert!(!open_devices.contains("P"));
}

#[test]
fn io_without_a_session_fails() {
    let open_devices: Registry<HidDevice> = Registry::new();
    assert!(matches!(
        write_session(&open_devices, NO_SUCH_PATH, &[0, 1]),
        Err(Error::HidDeviceNotFoundInOpenDevices)
    ));
    assert!(matches!(
        read_session(&open_devices, NO_SUCH_PATH, 50),
        Err(Error::HidDeviceNotFoundInOpenDevices)
    ));
    assert!(matches!(
        send_session_report(&open_devices, NO_SUCH_PATH, &[0]),
        Err(Error::HidDeviceNotFoundInOpenDevices)
    ));
    assert!(matches!(
        get_session_report(&open_devices, NO_SUCH_PATH, 8),
        Err(Error::HidDeviceNotFoundInOpenDevices)
    ));
}
