//! Why an operation on the session manager can fail.

use vstd::prelude::*;
use vstd::string::StringExecFns;

verus! {

/// A failed operation.
///
/// None of these is retried by the crate, and none closes a session: a
/// caller that keeps seeing platform failures on a session closes it and
/// opens it again.
#[derive(Debug)]
pub enum Error {
    /// An input or output failure, in the words of the operating system.
    Io(String),
    /// The platform HID layer failed; the text is what it reported.
    HidApiError(String),
    /// The path was not among the devices of the last enumeration.
    HidDeviceNotFound,
    /// A session is already open under that path.
    HidDeviceAlreadyOpen,
    /// No session is open under that key.
    HidDeviceNotFoundInOpenDevices,
    /// The key is malformed: it is not the text of a session token, or it
    /// does not spell the path that the platform recorded for the device.
    HidDeviceUuidInvalidFormat,
    /// A read with a positive time limit ended without a single byte.
    HidReadTimeout,
    /// The handheld bridge failed; the text is what it reported.
    PluginInvoke(String),
}

impl Error {
    /// The text shown for the error.
    pub open spec fn text(&self) -> Seq<char> {
        match self {
            Error::Io(reason) => reason@,
            Error::HidApiError(reason) => "HidApi Error: "@ + reason@,
            Error::HidDeviceNotFound => "Device not found"@,
            Error::HidDeviceAlreadyOpen => "Device already open"@,
            Error::HidDeviceNotFoundInOpenDevices => "Device no longer exists in open devices"@,
            Error::HidDeviceUuidInvalidFormat => "Invalid uuid format"@,
            Error::HidReadTimeout => "HID read timed out"@,
            Error::PluginInvoke(reason) => reason@,
        }
    }

    /// The text shown for the error: one fixed sentence per kind, with the
    /// platform's own words where it has any.
    pub fn message(&self) -> (shown: String)
        ensures
            shown@ == self.text(),
    {
        match self {
            Error::Io(reason) => reason.clone(),
            Error::HidApiError(reason) => "HidApi Error: ".to_owned().concat(reason.as_str()),
            Error::HidDeviceNotFound => "Device not found".to_owned(),
            Error::HidDeviceAlreadyOpen => "Device already open".to_owned(),
            Error::HidDeviceNotFoundInOpenDevices => "Device no longer exists in open devices".to_owned(),
            Error::HidDeviceUuidInvalidFormat => "Invalid uuid format".to_owned(),
            Error::HidReadTimeout => "HID read timed out".to_owned(),
            Error::PluginInvoke(reason) => reason.clone(),
        }
    }
}

} // verus!
