use tauri_plugin_hid::error::Error;
use tauri_plugin_hid::opaque::TokenHid;
use tauri_plugin_hid::token::{format_token, parse_token};

const NOT_A_TOKEN: &str = "/dev/hidraw0";

#[test]
fn a_new_token_manager_has_no_session() {
    let hid = TokenHid::new().expect("the platform context");
    assert!(!hid.is_open(&format_token(0)));
    assert!(!hid.is_open(NOT_A_TOKEN));
}

#[test]
fn a_new_token_manager_has_tokens_left() {
    let hid = TokenHid::new().expect("the platform context");
    assert!(!hid.exhausted());
}

#[test]
fn closing_an_unknown_token_fails() {
    let mut hid = TokenHid::new().expect("the platform context");
    assert!(matches!(hid.close(&format_token(0)), Err(Error::HidDeviceNotFoundInOpenDevices)));
    assert!(matches!(hid.close(&format_token(77)), Err(Error::HidDeviceNotFoundInOpenDevices)));
}

#[test]
fn text_that_is_no_token_is_refused() {
    let mut hid = TokenHid::new().expect("the platform context");
    assert!(matches!(hid.close(NOT_A_TOKEN), Err(Error::HidDeviceUuidInvalidFormat)));
    assert!(matches!(hid.close(""), Err(Error::HidDeviceUuidInvalidFormat)));
    assert!(matches!(hid.write(NOT_A_TOKEN, &[0, 1]), Err(Error::HidDeviceUuidInvalidFormat)));
    assert!(matches!(hid.read(NOT_A_TOKEN, 0), Err(Error::HidDeviceUuidInvalidFormat)));
    assert!(matches!(
        hid.send_output_report(NOT_A_TOKEN, &[0]),
        Err(Error::HidDeviceUuidInvalidFormat)
    ));
    assert!(matches!(hid.get_input_report(NOT_A_TOKEN, 8), Err(Error::HidDeviceUuidInvalidFormat)));
}

#[test]
fn io_on_an_unknown_token_fails() {
    let hid = TokenHid::new().expect("the platform context");
    let token = format_token(3);
    assert!(matches!(hid.write(&token, &[0, 1]), Err(Error::HidDeviceNotFoundInOpenDevices)));
    assert!(matches!(hid.read(&token, 0), Err(Error::HidDeviceNotFoundInOpenDevices)));
    assert!(matches!(hid.read(&token, 50), Err(Error::HidDeviceNotFoundInOpenDevices)));
    assert!(matches!(
        hid.send_output_report(&token, &[0, 1]),
        Err(Error::HidDeviceNotFoundInOpenDevices)
    ));
    assert!(matches!(hid.get_input_report(&token, 8), Err(Error::HidDeviceNotFoundInOpenDevices)));
}

#[test]
fn opening_answers_with_a_token_or_the_platform_failure() {
    let mut hid = TokenHid::new().expect("the platform context");
    let mut tokens = Vec::new();
    for _ in 0..3 {
        assert!(!hid.exhausted());
        match hid.open(0xFFFE, 0xFFFD) {
            Ok(token) => {
                assert!(parse_token(&token).is_ok());
                assert!(hid.is_open(&token));
                assert!(!tokens.contains(&token));
                tokens.push(token);
            }
            Err(Error::HidApiError(_)) => {}
            Err(other) => panic!("unexpected failure: {}", other.message()),
        }
    }
    for token in &tokens {
        assert!(hid.close(token).is_ok());
        assert!(matches!(hid.close(token), Err(Error::HidDeviceNotFoundInOpenDevices)));
    }
}

#[test]
fn token_manager_enumerates_like_the_other() {
    let mut hid = TokenHid::new().expect("the platform context");
    let devices = hid.enumerate().expect("the platform's device list");
    for (i, device) in devices.iter().enumerate() {
        assert!(device.manufacturer_string.is_some());
        assert!(device.product_string.is_some());
        for other in &devices[i + 1..] {
            assert_ne!(device.path, other.path);
        }
    }
}
