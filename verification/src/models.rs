//! The values exchanged with callers and with the handheld bridge.
//!
//! Every type here is plain data. Its view replaces each string by the
//! sequence of its characters, so that contracts can compare descriptors and
//! use paths as map keys.

use vstd::prelude::*;

verus! {

/// The characters of an optional string.
pub open spec fn text_of(text: Option<String>) -> Option<Seq<char>> {
    match text {
        Some(s) => Some(s@),
        None => None,
    }
}

/// The characters of a string that may be missing.
pub open spec fn text_kept(text: Option<&str>) -> Option<Seq<char>> {
    match text {
        Some(s) => Some(s@),
        None => None,
    }
}

/// The characters of a string that may be missing; a missing one counts as
/// empty.
pub open spec fn text_or_empty(text: Option<&str>) -> Seq<char> {
    match text {
        Some(s) => s@,
        None => Seq::empty(),
    }
}

/// One attached device as it looked when the platform was last asked.
pub struct DeviceDescriptor {
    pub path: Seq<char>,
    pub vendor_id: u16,
    pub product_id: u16,
    pub serial_number: Option<Seq<char>>,
    pub release_number: u16,
    pub manufacturer_string: Option<Seq<char>>,
    pub product_string: Option<Seq<char>>,
}

/// Snapshot of one attached device.
///
/// `path` identifies the device among those attached at the same time; the
/// platform may hand the same path to another device after a replug. In a
/// snapshot taken from the platform the manufacturer's and the product's
/// name are always present, and an empty one means that the platform could
/// not tell. The serial number is absent where the platform has none.
#[derive(Debug)]
pub struct HidDeviceInfo {
    pub path: String,
    pub vendor_id: u16,
    pub product_id: u16,
    pub serial_number: Option<String>,
    pub release_number: u16,
    pub manufacturer_string: Option<String>,
    pub product_string: Option<String>,
}

impl View for HidDeviceInfo {
    type V = DeviceDescriptor;

    open spec fn view(&self) -> DeviceDescriptor {
        DeviceDescriptor {
            path: self.path@,
            vendor_id: self.vendor_id,
            product_id: self.product_id,
            serial_number: text_of(self.serial_number),
            release_number: self.release_number,
            manufacturer_string: text_of(self.manufacturer_string),
            product_string: text_of(self.product_string),
        }
    }
}

fn copy_text(text: &Option<String>) -> (copy: Option<String>)
    ensures
        copy == *text,
{
    match text {
        Some(s) => Some(s.clone()),
        None => None,
    }
}

fn kept(text: Option<&str>) -> (owned: Option<String>)
    ensures
        text_of(owned) == text_kept(text),
{
    match text {
        Some(s) => Some(s.to_owned()),
        None => None,
    }
}

fn present(text: Option<&str>) -> (kept: Option<String>)
    ensures
        text_of(kept) == Some(text_or_empty(text)),
{
    match text {
        Some(s) => Some(s.to_owned()),
        None => Some(String::new()),
    }
}

impl Clone for HidDeviceInfo {
    fn clone(&self) -> (copy: Self)
        ensures
            copy == *self,
    {
        HidDeviceInfo {
            path: self.path.clone(),
            vendor_id: self.vendor_id,
            product_id: self.product_id,
            serial_number: copy_text(&self.serial_number),
            release_number: self.release_number,
            manufacturer_string: copy_text(&self.manufacturer_string),
            product_string: copy_text(&self.product_string),
        }
    }
}

impl Default for HidDeviceInfo {
    fn default() -> (info: Self)
        ensures
            info@ == (DeviceDescriptor {
                path: Seq::empty(),
                vendor_id: 0,
                product_id: 0,
                serial_number: None,
                release_number: 0,
                manufacturer_string: None,
                product_string: None,
            }),
    {
        HidDeviceInfo {
            path: String::new(),
            vendor_id: 0,
            product_id: 0,
            serial_number: None,
            release_number: 0,
            manufacturer_string: None,
            product_string: None,
        }
    }
}

impl HidDeviceInfo {
    /// Builds the snapshot of a device from what the platform reports of it.
    /// A manufacturer's or product's name that the platform could not read
    /// is recorded as empty, never as absent. The serial number is kept as
    /// reported: absent where the platform has none.
    pub fn snapshot(
        path: String,
        vendor_id: u16,
        product_id: u16,
        serial_number: Option<&str>,
        release_number: u16,
        manufacturer_string: Option<&str>,
        product_string: Option<&str>,
    ) -> (info: Self)
        ensures
            info@ == (DeviceDescriptor {
                path: path@,
                vendor_id,
                product_id,
                serial_number: text_kept(serial_number),
                release_number,
                manufacturer_string: Some(text_or_empty(manufacturer_string)),
                product_string: Some(text_or_empty(product_string)),
            }),
    {
        HidDeviceInfo {
            path,
            vendor_id,
            product_id,
            serial_number: kept(serial_number),
            release_number,
            manufacturer_string: present(manufacturer_string),
            product_string: present(product_string),
        }
    }
}

/// Copies a list of snapshots.
pub fn copy_devices(devices: &Vec<HidDeviceInfo>) -> (copy: Vec<HidDeviceInfo>)
    ensures
        copy@ == devices@,
{
    let mut copy: Vec<HidDeviceInfo> = Vec::new();
    let mut i: usize = 0;
    while i < devices.len()
        invariant
            i <= devices@.len(),
            copy@ == devices@.subrange(0, i as int),
        decreases devices@.len() - i,
    {
        copy.push(devices[i].clone());
        assert(copy@ =~= devices@.subrange(0, i + 1));
        i += 1;
    }
    assert(copy@ =~= devices@);
    copy
}

/// What the bridge answers to an enumeration.
#[derive(Debug)]
pub struct EnumerateResult {
    pub devices: Vec<HidDeviceInfo>,
}

impl Clone for EnumerateResult {
    fn clone(&self) -> (copy: Self)
        ensures
            copy.devices@ == self.devices@,
    {
        EnumerateResult { devices: copy_devices(&self.devices) }
    }
}

impl Default for EnumerateResult {
    fn default() -> (result: Self)
        ensures
            result.devices@ == Seq::<HidDeviceInfo>::empty(),
    {
        EnumerateResult { devices: Vec::new() }
    }
}

/// What the bridge is sent to open a device.
#[derive(Debug)]
pub struct OpenArgs {
    pub path: String,
}

impl Clone for OpenArgs {
    fn clone(&self) -> (copy: Self)
        ensures
            copy == *self,
    {
        OpenArgs { path: self.path.clone() }
    }
}

impl Default for OpenArgs {
    fn default() -> (args: Self)
        ensures
            args.path@ == Seq::<char>::empty(),
    {
        OpenArgs { path: String::new() }
    }
}

/// What the bridge is sent to close a device.
#[derive(Debug)]
pub struct CloseArgs {
    pub path: String,
}

impl Clone for CloseArgs {
    fn clone(&self) -> (copy: Self)
        ensures
            copy == *self,
    {
        CloseArgs { path: self.path.clone() }
    }
}

impl Default for CloseArgs {
    fn default() -> (args: Self)
        ensures
            args.path@ == Seq::<char>::empty(),
    {
        CloseArgs { path: String::new() }
    }
}

/// What the bridge is sent to read from a device. `timeout` is in
/// milliseconds.
#[derive(Debug)]
pub struct ReadArgs {
    pub path: String,
    pub timeout: i32,
}

impl Clone for ReadArgs {
    fn clone(&self) -> (copy: Self)
        ensures
            copy == *self,
    {
        ReadArgs { path: self.path.clone(), timeout: self.timeout }
    }
}

impl Default for ReadArgs {
    fn default() -> (args: Self)
        ensures
            args.path@ == Seq::<char>::empty(),
            args.timeout == 0,
    {
        ReadArgs { path: String::new(), timeout: 0 }
    }
}

/// What the bridge answers to a read: the report, in signed bytes.
#[derive(Debug)]
pub struct ReadResult {
    pub data: Vec<i8>,
}

impl Clone for ReadResult {
    fn clone(&self) -> (copy: Self)
        ensures
            copy.data@ == self.data@,
    {
        ReadResult { data: self.data.clone() }
    }
}

impl Default for ReadResult {
    fn default() -> (result: Self)
        ensures
            result.data@ == Seq::<i8>::empty(),
    {
        ReadResult { data: Vec::new() }
    }
}

/// What the bridge is sent to write to a device: the report, in signed
/// bytes.
#[derive(Debug)]
pub struct WriteArgs {
    pub path: String,
    pub data: Vec<i8>,
}

impl Clone for WriteArgs {
    fn clone(&self) -> (copy: Self)
        ensures
            copy.path == self.path,
            copy.data@ == self.data@,
    {
        WriteArgs { path: self.path.clone(), data: self.data.clone() }
    }
}

impl Default for WriteArgs {
    fn default() -> (args: Self)
        ensures
            args.path@ == Seq::<char>::empty(),
            args.data@ == Seq::<i8>::empty(),
    {
        WriteArgs { path: String::new(), data: Vec::new() }
    }
}

} // verus!
