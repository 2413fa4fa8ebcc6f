use tauri_plugin_hid::error::Error;

#[test]
fn each_error_has_its_sentence() {
    assert_eq!(Error::HidDeviceNotFound.message(), "Device not found");
    assert_eq!(Error::HidDeviceAlreadyOpen.message(), "Device already open");
    assert_eq!(
        Error::HidDeviceNotFoundInOpenDevices.message(),
        "Device no longer exists in open devices"
    );
    assert_eq!(Error::HidDeviceUuidInvalidFormat.message(), "Invalid uuid format");
    assert_eq!(Error::HidReadTimeout.message(), "HID read timed out");
}

#[test]
fn platform_failure_is_quoted() {
    let error = Error::HidApiError("hidapi error: device not found".to_string());
    assert_eq!(error.message(), "HidApi Error: hidapi error: device not found");
    assert_eq!(Error::HidApiError(String::new()).message(), "HidApi Error: ");
}

#[test]
fn wrapped_failures_speak_for_themselves() {
    assert_eq!(Error::Io("broken pipe".to_string()).message(), "broken pipe");
    assert_eq!(Error::PluginInvoke("no such command".to_string()).message(), "no such command");
}
