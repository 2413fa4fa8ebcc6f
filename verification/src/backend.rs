//! The platform HID library, as far as this crate relies on it.
//!
//! Nothing in this file is proved. Each item states what the rest of the
//! crate takes for granted about `hidapi`; the proofs elsewhere rest on these
//! statements and on nothing else about the platform. Most calls promise
//! nothing at all: what a device answers is not for this crate to foretell,
//! and the session manager is proved for every answer.

use crate::models::text_kept;
use hidapi::{DeviceInfo, HidApi, HidDevice, HidError, HidResult};
use vstd::prelude::*;

verus! {

/// `hidapi::HidApi`, the process-wide context with its cache of attached
/// devices.
#[verifier::external_type_specification]
#[verifier::external_body]
pub struct ExHidApi(hidapi::HidApi);

/// `hidapi::DeviceInfo`, the platform's record of one attached device.
#[verifier::external_type_specification]
#[verifier::external_body]
pub struct ExDeviceInfo(hidapi::DeviceInfo);

/// `hidapi::HidDevice`, a live handle. Dropping it closes the device.
#[verifier::external_type_specification]
#[verifier::external_body]
pub struct ExHidDevice(hidapi::HidDevice);

/// `hidapi::HidError`, what the platform reports when a call fails.
#[verifier::external_type_specification]
#[verifier::external_body]
pub struct ExHidError(hidapi::HidError);

/// The records that the context holds of the attached devices, in the
/// platform's order, as of its last scan.
pub uninterp spec fn cached_records(api: HidApi) -> Seq<DeviceInfo>;

/// Whether the platform path recorded in `device` is valid UTF-8.
pub uninterp spec fn path_is_text(device: DeviceInfo) -> bool;

/// The platform path recorded in `device`, read as text: each run of bytes
/// that is not UTF-8 stands as U+FFFD.
pub uninterp spec fn record_path(device: DeviceInfo) -> Seq<char>;

/// The vendor identifier recorded in `device`.
pub uninterp spec fn record_vendor_id(device: DeviceInfo) -> u16;

/// The product identifier recorded in `device`.
pub uninterp spec fn record_product_id(device: DeviceInfo) -> u16;

/// The release number recorded in `device`.
pub uninterp spec fn record_release_number(device: DeviceInfo) -> u16;

/// The serial number recorded in `device`, where the record holds one as
/// text.
pub uninterp spec fn record_serial_number(device: DeviceInfo) -> Option<Seq<char>>;

/// The manufacturer's name recorded in `device`, where the record holds one
/// as text.
pub uninterp spec fn record_manufacturer(device: DeviceInfo) -> Option<Seq<char>>;

/// The product's name recorded in `device`, where the record holds one as
/// text.
pub uninterp spec fn record_product(device: DeviceInfo) -> Option<Seq<char>>;

/// `HidApi::new` creates a context and scans for devices once. Either
/// outcome is possible.
pub assume_specification[ hidapi::HidApi::new ]() -> (context: HidResult<HidApi>)
;

/// `HidApi::refresh_devices` empties the cache of the context and scans
/// again. Either outcome is possible, and nothing is claimed of what the
/// cache holds afterwards.
pub assume_specification[ hidapi::HidApi::refresh_devices ](api: &mut HidApi) -> (outcome: HidResult<()>)
;

/// `HidApi::open` opens the first attached device with the given vendor and
/// product identifiers. Either outcome is possible. The Linux backend
/// without the C library expects the path of the chosen device node to be
/// UTF-8; it builds these paths from text itself, so the expectation holds.
pub assume_specification[ hidapi::HidApi::open ](api: &HidApi, vid: u16, pid: u16) -> (handle: HidResult<HidDevice>)
;

/// `DeviceInfo::vendor_id` reads a field of the record: the same record
/// always gives the same identifier.
pub assume_specification[ hidapi::DeviceInfo::vendor_id ](device: &DeviceInfo) -> (id: u16)
    ensures
        id == record_vendor_id(*device),
;

/// `DeviceInfo::product_id` reads a field of the record: the same record
/// always gives the same identifier.
pub assume_specification[ hidapi::DeviceInfo::product_id ](device: &DeviceInfo) -> (id: u16)
    ensures
        id == record_product_id(*device),
;

/// `DeviceInfo::release_number` reads a field of the record: the same record
/// always gives the same number.
pub assume_specification[ hidapi::DeviceInfo::release_number ](device: &DeviceInfo) -> (number: u16)
    ensures
        number == record_release_number(*device),
;

/// `DeviceInfo::serial_number` reads a field of the record: the serial
/// number where the record holds it as text, `None` where it holds none or
/// holds it in another form.
pub assume_specification<'a>[ hidapi::DeviceInfo::serial_number ](device: &'a DeviceInfo) -> (text: Option<&'a str>)
    ensures
        text_kept(text) == record_serial_number(*device),
;

/// `DeviceInfo::manufacturer_string` reads a field of the record: the
/// manufacturer's name where the record holds it as text, `None` otherwise.
pub assume_specification<'a>[ hidapi::DeviceInfo::manufacturer_string ](device: &'a DeviceInfo) -> (text: Option<&'a str>)
    ensures
        text_kept(text) == record_manufacturer(*device),
;

/// `DeviceInfo::product_string` reads a field of the record: the product's
/// name where the record holds it as text, `None` otherwise.
pub assume_specification<'a>[ hidapi::DeviceInfo::product_string ](device: &'a DeviceInfo) -> (text: Option<&'a str>)
    ensures
        text_kept(text) == record_product(*device),
;

/// `DeviceInfo::open_device` opens the device by the path in its record.
/// Either outcome is possible. The Linux backend without the C library
/// panics on a path that is not UTF-8, so such a record must not be handed
/// in.
pub assume_specification[ hidapi::DeviceInfo::open_device ](device: &DeviceInfo, api: &HidApi) -> (handle: HidResult<HidDevice>)
    requires
        path_is_text(*device),
;

/// `HidDevice::write` sends an output report and answers with the number of
/// bytes the platform took, or with its error. Nothing is claimed of the
/// number.
pub assume_specification[ hidapi::HidDevice::write ](device: &HidDevice, data: &[u8]) -> (sent: HidResult<usize>)
;

/// `HidDevice::read_timeout` waits for an input report: for at most
/// `timeout` milliseconds, without waiting at all when `timeout` is 0, and
/// for as long as it takes when `timeout` is -1, in which case the call
/// returns only once a report or an error arrives. It answers with the
/// number of bytes it put into `buf`, 0 if the wait ended first. The buffer
/// keeps its length; nothing is claimed of its contents or of the number.
pub assume_specification[ hidapi::HidDevice::read_timeout ](device: &HidDevice, buf: &mut [u8], timeout: i32) -> (got: HidResult<usize>)
    ensures
        final(buf)@.len() == old(buf)@.len(),
;

/// `HidDevice::send_output_report` sends an output report over the control
/// endpoint. Either outcome is possible.
pub assume_specification[ hidapi::HidDevice::send_output_report ](device: &HidDevice, data: &[u8]) -> (outcome: HidResult<()>)
;

/// `HidDevice::get_input_report` asks for the input report whose identifier
/// is the first byte of `data` and answers with the number of bytes it put
/// there. The buffer keeps its length; nothing is claimed of its contents
/// or of the number.
pub assume_specification[ hidapi::HidDevice::get_input_report ](device: &HidDevice, data: &mut [u8]) -> (got: HidResult<usize>)
    ensures
        final(data)@.len() == old(data)@.len(),
;

/// Whether the path in the record is text: `CStr::to_str` on
/// `DeviceInfo::path`.
#[verifier::external_body]
pub(crate) fn has_text_path(device: &DeviceInfo) -> (text: bool)
    ensures
        text == path_is_text(*device),
{
    device.path().to_str().is_ok()
}

/// The path in the record as a string: `DeviceInfo::path`, then
/// `CStr::to_string_lossy`, which replaces each byte run that is not UTF-8
/// by U+FFFD. The same record always gives the same string.
#[verifier::external_body]
pub(crate) fn device_path(device: &DeviceInfo) -> (path: String)
    ensures
        path@ == record_path(*device),
{
    device.path().to_string_lossy().to_string()
}

/// The records in the cache of the context, in the platform's order:
/// `HidApi::device_list`, each record cloned. A clone reads as the record
/// it was made from.
#[verifier::external_body]
pub(crate) fn listed_devices(api: &HidApi) -> (devices: Vec<DeviceInfo>)
    ensures
        devices@ == cached_records(*api),
{
    api.device_list().cloned().collect()
}

/// What the error says of itself: `HidError`'s `Display`. Nothing is
/// claimed of the text: for a failure of the operating system it is the
/// system's message, which follows the locale of the process, so the same
/// error need not read the same everywhere.
#[verifier::external_body]
pub(crate) fn error_text(error: &HidError) -> (text: String)
{
    error.to_string()
}

} // verus!
