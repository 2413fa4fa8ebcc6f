use tauri_plugin_hid::mobile::{
    close_request, enumerate_reply, open_request, read_reply, read_request, to_signed,
    to_signed_bytes, to_unsigned, to_unsigned_bytes, write_request,
};
use tauri_plugin_hid::models::{EnumerateResult, HidDeviceInfo, ReadResult};

#[test]
fn every_byte_survives_the_bridge() {
    for value in 0u16..=255 {
        let byte = value as u8;
        assert_eq!(to_unsigned(to_signed(byte)), byte);
    }
}

#[test]
fn every_signed_byte_survives_the_bridge() {
    for value in -128i16..=127 {
        let signed = value as i8;
        assert_eq!(to_signed(to_unsigned(signed)), signed);
    }
}

#[test]
fn signed_reading_of_known_bytes() {
    assert_eq!(to_signed(0), 0);
    assert_eq!(to_signed(1), 1);
    assert_eq!(to_signed(127), 127);
    assert_eq!(to_signed(128), -128);
    assert_eq!(to_signed(200), -56);
    assert_eq!(to_signed(255), -1);
}

#[test]
fn unsigned_reading_of_known_bytes() {
    assert_eq!(to_unsigned(0), 0);
    assert_eq!(to_unsigned(127), 127);
    assert_eq!(to_unsigned(-128), 128);
    assert_eq!(to_unsigned(-56), 200);
    assert_eq!(to_unsigned(-1), 255);
}

#[test]
fn unsigned_reading_is_the_low_eight_bits() {
    for value in -128i32..=127 {
        assert_eq!(to_unsigned(value as i8) as i32, value & 0xFF);
    }
}

#[test]
fn reports_convert_byte_by_byte() {
    assert_eq!(to_signed_bytes(&[0, 1, 127, 128, 255]), vec![0i8, 1, 127, -128, -1]);
    assert_eq!(to_unsigned_bytes(&[0, 1, 127, -128, -1]), vec![0u8, 1, 127, 128, 255]);
    assert_eq!(to_signed_bytes(&[]), Vec::<i8>::new());
    assert_eq!(to_unsigned_bytes(&[]), Vec::<u8>::new());
}

#[test]
fn a_report_survives_the_bridge() {
    let report: Vec<u8> = (0u16..=255).map(|v| v as u8).collect();
    let signed = to_signed_bytes(&report);
    assert_eq!(signed.len(), 256);
    assert_eq!(to_unsigned_bytes(&signed), report);
}

#[test]
fn write_request_keeps_the_report_identifier() {
    let args = write_request("/dev/hidraw3", &[0x00, 0x81, 0xFF, 0x10]);
    assert_eq!(args.path, "/dev/hidraw3");
    assert_eq!(args.data, vec![0i8, -127, -1, 16]);
    let args = write_request("p", &[0x05, 0x01]);
    assert_eq!(args.data, vec![5i8, 1]);
}

#[test]
fn requests_carry_what_the_caller_gave() {
    assert_eq!(open_request("usb:1").path, "usb:1");
    assert_eq!(close_request("usb:1").path, "usb:1");
    let args = read_request("usb:1", -1);
    assert_eq!(args.path, "usb:1");
    assert_eq!(args.timeout, -1);
    assert_eq!(read_request("", 250).timeout, 250);
}

#[test]
fn read_reply_is_unsigned() {
    let reply = ReadResult { data: vec![-1, -128, 0, 64] };
    assert_eq!(read_reply(&reply), vec![255u8, 128, 0, 64]);
    assert_eq!(read_reply(&ReadResult::default()), Vec::<u8>::new());
}

#[test]
fn enumerate_reply_hands_the_devices_on() {
    let device = HidDeviceInfo::snapshot("a".to_string(), 1, 2, Some("s"), 3, None, Some("p"));
    let reply = EnumerateResult { devices: vec![device] };
    let devices = enumerate_reply(reply);
    assert_eq!(devices.len(), 1);
    assert_eq!(devices[0].path, "a");
    assert_eq!(devices[0].vendor_id, 1);
    assert_eq!(devices[0].product_id, 2);
    assert_eq!(devices[0].release_number, 3);
}
