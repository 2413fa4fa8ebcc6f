//! The session manager over the platform HID library, with sessions
//! addressed by device path.
//!
//! A caller enumerates, opens a device by the path that the enumeration
//! listed, writes to it and reads from it, and closes it. The manager keeps
//! the directory of the last enumeration and the registry of open sessions;
//! callers never see a handle.
//!
//! The manager is a plain value, made of three parts: the platform context,
//! the directory and the registry. Every operation is also offered on the
//! parts it needs and no others, so that whoever shares the parts between
//! threads can guard each with a lock of its own and hold, for each call,
//! only the locks of the parts that the call takes. Writing and reading
//! only borrow the registry, so that they can leave it unchanged.

use crate::backend::{
    cached_records, device_path, error_text, has_text_path, listed_devices, path_is_text,
    record_manufacturer,
    record_path, record_product, record_product_id, record_release_number, record_serial_number,
    record_vendor_id,
};
use crate::directory::{
    catalog, descriptors_of, lemma_catalog_entry, lemma_catalog_paths, lemma_roll_distinct,
    lookup_of, roll, Directory, DirectoryEntry,
};
use crate::error::Error;
use crate::models::{DeviceDescriptor, HidDeviceInfo};
use crate::registry::{handle_of, Registry, Slot};
use hidapi::{DeviceInfo, HidApi, HidDevice, HidError};
use vstd::prelude::*;

verus! {

/// The number of bytes that a read makes room for.
pub const READ_BUFFER_LEN: usize = 64;

/// Whether the manufacturer's and the product's name of a snapshot are
/// present. The serial number need not be.
pub open spec fn names_present(info: DeviceDescriptor) -> bool {
    &&& info.manufacturer_string is Some
    &&& info.product_string is Some
}

/// A name that may be missing; a missing one counts as empty.
pub open spec fn name_or_empty(name: Option<Seq<char>>) -> Seq<char> {
    match name {
        Some(text) => text,
        None => Seq::empty(),
    }
}

/// The snapshot of the device that a platform record describes: every
/// field as the record has it, but that a manufacturer's or product's name
/// which the record lacks is the empty name.
pub open spec fn descriptor_of(device: DeviceInfo) -> DeviceDescriptor {
    DeviceDescriptor {
        path: record_path(device),
        vendor_id: record_vendor_id(device),
        product_id: record_product_id(device),
        serial_number: record_serial_number(device),
        release_number: record_release_number(device),
        manufacturer_string: Some(name_or_empty(record_manufacturer(device))),
        product_string: Some(name_or_empty(record_product(device))),
    }
}

/// Whether every snapshot in a directory is the snapshot of the platform
/// record that stands beside it.
pub open spec fn faithful(entries: Map<Seq<char>, DirectoryEntry<DeviceInfo>>) -> bool {
    forall|path: Seq<char>| #[trigger]
        entries.contains_key(path) ==> entries[path].info@ == descriptor_of(entries[path].device)
}

/// The directory of records that a scan leaves behind: each path leads to
/// the record that the platform holds for it, and where it holds several for
/// one path, to the last of them.
pub open spec fn report_of(records: Seq<DeviceInfo>) -> Map<Seq<char>, DeviceInfo>
    decreases records.len(),
{
    if records.len() == 0 {
        Map::empty()
    } else {
        report_of(records.drop_last()).insert(record_path(records.last()), records.last())
    }
}

/// The order in which a scan lists the paths: each path once, at the place
/// of its first record.
pub open spec fn report_order(records: Seq<DeviceInfo>) -> Seq<Seq<char>>
    decreases records.len(),
{
    if records.len() == 0 {
        Seq::empty()
    } else {
        let earlier = report_order(records.drop_last());
        let path = record_path(records.last());
        if earlier.contains(path) {
            earlier
        } else {
            earlier.push(path)
        }
    }
}

/// A directory built from entries that describe the platform's records, one
/// for one, is the directory of those records.
pub proof fn lemma_report(reported: Seq<DirectoryEntry<DeviceInfo>>, records: Seq<DeviceInfo>)
    requires
        reported.len() == records.len(),
        forall|i: int|
            0 <= i < reported.len() ==> {
                &&& (#[trigger] reported[i]).device == records[i]
                &&& reported[i].info@ == descriptor_of(records[i])
            },
    ensures
        records_of(catalog(reported)) == report_of(records),
        roll(reported) == report_order(records),
    decreases reported.len(),
{
    if reported.len() > 0 {
        let last = reported.last();
        assert(last == reported[reported.len() - 1]);
        assert(last.info.path@ == record_path(records.last()));
        lemma_report(reported.drop_last(), records.drop_last());
        assert(records_of(catalog(reported)) =~= report_of(records));
    } else {
        assert(records_of(catalog(reported)) =~= report_of(records));
    }
}

/// The platform records of a directory, by path.
pub open spec fn records_of(entries: Map<Seq<char>, DirectoryEntry<DeviceInfo>>) -> Map<
    Seq<char>,
    DeviceInfo,
> {
    entries.map_values(|entry: DirectoryEntry<DeviceInfo>| entry.device)
}

/// Whether `directory` holds exactly the devices of `listing`, each under
/// its path, and `listing` names no path twice.
pub open spec fn lists(
    listing: Seq<HidDeviceInfo>,
    directory: Map<Seq<char>, DeviceDescriptor>,
) -> bool {
    &&& forall|i: int, j: int|
        0 <= i < j < listing.len() ==> #[trigger] listing[i].path@ != #[trigger] listing[j].path@
    &&& forall|i: int|
        0 <= i < listing.len() ==> {
            &&& directory.contains_key(#[trigger] listing[i].path@)
            &&& directory[listing[i].path@] == listing[i]@
        }
    &&& forall|path: Seq<char>| #[trigger]
        directory.contains_key(path) ==> exists|i: int|
            0 <= i < listing.len() && #[trigger] listing[i].path@ == path
}

/// Why opening `path` is refused before the platform is even asked: the
/// path is not in the directory, or a session is already open under it.
/// `None` where the platform decides.
pub open spec fn open_refusal(
    directory: Map<Seq<char>, DeviceDescriptor>,
    sessions: Set<Seq<char>>,
    path: Seq<char>,
) -> Option<Error> {
    if !directory.contains_key(path) {
        Some(Error::HidDeviceNotFound)
    } else if sessions.contains(path) {
        Some(Error::HidDeviceAlreadyOpen)
    } else {
        None
    }
}

/// The time limit handed to the platform for a read asked for with
/// `timeout`: every negative limit means "wait for as long as it takes",
/// which the platform writes as -1.
pub open spec fn wait_bound_of(timeout: i32) -> i32 {
    if timeout < 0 {
        -1i32
    } else {
        timeout
    }
}

/// What a read answers, given the buffer after the platform call, what the
/// call returned and the time limit asked for.
pub open spec fn read_outcome_of(buffer: Seq<u8>, got: Result<usize, String>, timeout: i32) -> Result<
    Seq<u8>,
    Error,
> {
    match got {
        Err(reason) => Err(Error::HidApiError(reason)),
        Ok(count) => if count == 0 && timeout > 0 {
            Err(Error::HidReadTimeout)
        } else if count <= buffer.len() {
            Ok(buffer.take(count as int))
        } else {
            Ok(buffer)
        },
    }
}

/// One session per path: after a successful open the same path is refused
/// with `HidDeviceAlreadyOpen` for as long as the session lasts, and is
/// accepted again once it is closed.
pub proof fn law_single_open(
    directory: Map<Seq<char>, DeviceDescriptor>,
    sessions: Set<Seq<char>>,
    path: Seq<char>,
)
    requires
        open_refusal(directory, sessions, path) is None,
    ensures
        open_refusal(directory, sessions.insert(path), path) == Some(Error::HidDeviceAlreadyOpen),
        open_refusal(directory, sessions.insert(path).remove(path), path) is None,
{
}

/// Replace, not merge: a path that the latest enumeration did not list is
/// not in the directory, whatever earlier enumerations listed, and opening
/// it fails with `HidDeviceNotFound`.
pub proof fn law_replace_not_merge(
    listing: Seq<HidDeviceInfo>,
    directory: Map<Seq<char>, DeviceDescriptor>,
    sessions: Set<Seq<char>>,
    path: Seq<char>,
)
    requires
        lists(listing, directory),
        forall|i: int| 0 <= i < listing.len() ==> listing[i].path@ != path,
    ensures
        !directory.contains_key(path),
        open_refusal(directory, sessions, path) == Some(Error::HidDeviceNotFound),
{
}

/// The time limit to hand to the platform for a read asked for with
/// `timeout`.
pub fn wait_bound(timeout: i32) -> (bound: i32)
    ensures
        bound == wait_bound_of(timeout),
{
    if timeout < 0 {
        -1
    } else {
        timeout
    }
}

/// Turns what the platform returned for a write of `requested` bytes into
/// the answer for the caller. A platform failure is passed on in the
/// platform's words; a write that took fewer bytes than requested is a
/// failure too.
pub fn write_outcome(requested: usize, sent: Result<usize, String>) -> (outcome: Result<(), Error>)
    ensures
        match sent {
            Err(reason) => outcome == Err::<(), Error>(Error::HidApiError(reason)),
            Ok(count) => if count >= requested {
                outcome == Ok::<(), Error>(())
            } else {
                outcome matches Err(Error::HidApiError(reason)) && reason@
                    == "Failed to send all data"@
            },
        },
{
    match sent {
        Err(reason) => Err(Error::HidApiError(reason)),
        Ok(count) => {
            if count >= requested {
                Ok(())
            } else {
                Err(Error::HidApiError("Failed to send all data".to_owned()))
            }
        },
    }
}

/// Turns what the platform returned for a read into the answer for the
/// caller: the bytes that arrived, cut from the front of `buffer`.
///
/// A wait with a positive limit that ends without a byte is a failure,
/// `HidReadTimeout`; without a limit to run out, no byte is the empty
/// answer. A platform failure is passed on in the platform's words.
pub fn read_outcome(buffer: Vec<u8>, got: Result<usize, String>, timeout: i32) -> (outcome: Result<
    Vec<u8>,
    Error,
>)
    ensures
        match read_outcome_of(buffer@, got, timeout) {
            Ok(bytes) => outcome matches Ok(data) && data@ == bytes,
            Err(error) => outcome == Err::<Vec<u8>, Error>(error),
        },
{
    match got {
        Err(reason) => Err(Error::HidApiError(reason)),
        Ok(count) => {
            if count == 0 && timeout > 0 {
                Err(Error::HidReadTimeout)
            } else {
                let mut data = buffer;
                data.truncate(count);
                Ok(data)
            }
        },
    }
}

/// A platform failure as this crate reports it: in the platform's own
/// words.
pub(crate) fn failure(error: &HidError) -> (reported: Error)
    ensures
        reported is HidApiError,
{
    Error::HidApiError(error_text(error))
}

/// Turns what the platform returned for a query of the attached devices
/// into the answer for the caller, and the directory into what the query
/// leaves behind.
///
/// A failed query is passed on in the platform's words and leaves the
/// directory empty; it is never answered with a listing. After a query that
/// went well the directory holds what was reported and nothing else, and the
/// answer lists it: each path once, at the place of its first report, with
/// the snapshot of its last.
pub fn rescan_outcome<D>(
    device_list: &mut Directory<D>,
    refreshed: Result<(), String>,
    reported: Vec<DirectoryEntry<D>>,
) -> (outcome: Result<Vec<HidDeviceInfo>, Error>)
    ensures
        final(device_list).wf(),
        match refreshed {
            Err(reason) => {
                &&& outcome == Err::<Vec<HidDeviceInfo>, Error>(Error::HidApiError(reason))
                &&& final(device_list)@ == Map::<Seq<char>, DirectoryEntry<D>>::empty()
                &&& final(device_list).paths() == Seq::<Seq<char>>::empty()
            },
            Ok(()) => {
                &&& outcome matches Ok(listing)
                &&& final(device_list)@ == catalog(reported@)
                &&& final(device_list).paths() == roll(reported@)
                &&& listing@.len() == roll(reported@).len()
                &&& forall|i: int|
                    0 <= i < listing@.len() ==> {
                        &&& catalog(reported@).contains_key(roll(reported@)[i])
                        &&& #[trigger] listing@[i] == catalog(reported@)[roll(reported@)[i]].info
                    }
            },
        },
{
    match refreshed {
        Err(reason) => {
            device_list.clear();
            Err(Error::HidApiError(reason))
        },
        Ok(()) => Ok(device_list.refresh(reported)),
    }
}

/// The snapshot of a device from the platform's record of it.
fn describe(device: &DeviceInfo) -> (info: HidDeviceInfo)
    ensures
        info@ == descriptor_of(*device),
{
    HidDeviceInfo::snapshot(
        device_path(device),
        device.vendor_id(),
        device.product_id(),
        device.serial_number(),
        device.release_number(),
        device.manufacturer_string(),
        device.product_string(),
    )
}

/// Asks the platform which devices are attached and replaces `device_list`
/// by the answer, as [`rescan_outcome`] says. Each snapshot is taken from
/// the record that the platform reported.
pub fn rescan(hid_api: &mut HidApi, device_list: &mut Directory<DeviceInfo>) -> (outcome: Result<
    Vec<HidDeviceInfo>,
    Error,
>)
    ensures
        final(device_list).wf(),
        faithful(final(device_list)@),
        match outcome {
            Ok(devices) => {
                &&& records_of(final(device_list)@) == report_of(cached_records(*final(hid_api)))
                &&& final(device_list).paths() == report_order(cached_records(*final(hid_api)))
                &&& lists(devices@, descriptors_of(final(device_list)@))
                &&& final(device_list).paths() == devices@.map_values(|d: HidDeviceInfo| d.path@)
                &&& forall|i: int|
                    0 <= i < devices@.len() ==> names_present(#[trigger] devices@[i]@)
            },
            Err(error) => {
                &&& error is HidApiError
                &&& final(device_list)@ == Map::<Seq<char>, DirectoryEntry<DeviceInfo>>::empty()
                &&& final(device_list).paths() == Seq::<Seq<char>>::empty()
            },
        },
{
    match hid_api.refresh_devices() {
        Err(error) => rescan_outcome(device_list, Err(error_text(&error)), Vec::new()),
        Ok(()) => {
            let devices = listed_devices(hid_api);
            let ghost records = devices@;
            let mut reported: Vec<DirectoryEntry<DeviceInfo>> = Vec::new();
            for device in it: devices.into_iter()
                invariant
                    it.seq() == records,
                    reported@.len() == it.index(),
                    forall|j: int|
                        0 <= j < reported@.len() ==> {
                            &&& (#[trigger] reported@[j]).device == records[j]
                            &&& reported@[j].info@ == descriptor_of(records[j])
                        },
            {
                let info = describe(&device);
                reported.push(DirectoryEntry { info, device });
            }
            let outcome = rescan_outcome(device_list, Ok(()), reported);
            proof {
                let report = reported@;
                lemma_report(report, records);
                let listing = outcome->Ok_0;
                let directory = descriptors_of(device_list@);
                lemma_roll_distinct(report);
                assert forall|path: Seq<char>| #[trigger]
                    device_list@.contains_key(path) implies device_list@[path].info@
                    == descriptor_of(device_list@[path].device) by {
                    lemma_catalog_entry(report, path);
                    let j = report.index_of(catalog(report)[path]);
                    assert(report[j].info@ == descriptor_of(report[j].device));
                }
                assert forall|i: int| 0 <= i < listing@.len() implies {
                    &&& #[trigger] listing@[i].path@ == roll(report)[i]
                    &&& directory.contains_key(listing@[i].path@)
                    &&& directory[listing@[i].path@] == listing@[i]@
                    &&& names_present(listing@[i]@)
                } by {
                    let path = roll(report)[i];
                    lemma_catalog_entry(report, path);
                    assert(device_list@.contains_key(path));
                }
                assert forall|path: Seq<char>| #[trigger]
                    directory.contains_key(path) implies exists|i: int|
                    0 <= i < listing@.len() && #[trigger] listing@[i].path@ == path by {
                    lemma_catalog_paths(report, path);
                    let i = roll(report).index_of(path);
                    assert(listing@[i].path@ == path);
                }
                assert(device_list.paths() =~= listing@.map_values(|d: HidDeviceInfo| d.path@));
            }
            outcome
        },
    }
}

/// Writes `data` to an open device.
pub(crate) fn write_device(device: &HidDevice, data: &[u8]) -> (outcome: Result<(), Error>)
    ensures
        match outcome {
            Ok(()) => true,
            Err(error) => error is HidApiError,
        },
{
    let sent = match device.write(data) {
        Ok(count) => Ok(count),
        Err(error) => Err(error_text(&error)),
    };
    write_outcome(data.len(), sent)
}

/// Reads one report from an open device, with the time limit as the caller
/// gave it.
pub(crate) fn read_device(device: &HidDevice, timeout: i32) -> (outcome: Result<Vec<u8>, Error>)
    ensures
        match outcome {
            Ok(data) => data@.len() <= READ_BUFFER_LEN && (data@.len() == 0 ==> timeout <= 0),
            Err(error) => error is HidApiError || (error == Error::HidReadTimeout && timeout > 0),
        },
{
    let mut buffer: Vec<u8> = vec![0u8; READ_BUFFER_LEN];
    let got = match device.read_timeout(buffer.as_mut_slice(), wait_bound(timeout)) {
        Ok(count) => Ok(count),
        Err(error) => Err(error_text(&error)),
    };
    read_outcome(buffer, got, timeout)
}

/// Sends `data` to an open device as one output report.
pub(crate) fn send_report(device: &HidDevice, data: &[u8]) -> (outcome: Result<(), Error>)
    ensures
        match outcome {
            Ok(()) => true,
            Err(error) => error is HidApiError,
        },
{
    match device.send_output_report(data) {
        Ok(()) => send_outcome(Ok(())),
        Err(error) => send_outcome(Err(error_text(&error))),
    }
}

/// Asks an open device for its input report, of at most `length` bytes.
pub(crate) fn get_report(device: &HidDevice, length: usize) -> (outcome: Result<Vec<u8>, Error>)
    ensures
        match outcome {
            Ok(data) => data@.len() <= length,
            Err(error) => error is HidApiError,
        },
{
    let mut buffer: Vec<u8> = vec![0u8; length];
    let got = match device.get_input_report(buffer.as_mut_slice()) {
        Ok(count) => Ok(count),
        Err(error) => Err(error_text(&error)),
    };
    read_outcome(buffer, got, 0)
}

/// Opens a session on the device that `device_list` holds under `path`,
/// and registers it in `open_devices`.
///
/// Fails with `HidDeviceNotFound` if the directory has no such path, with
/// `HidDeviceAlreadyOpen` if the key is taken in the registry, and with
/// `HidDeviceUuidInvalidFormat` if the path that the platform recorded for
/// the device is not text; in these cases the platform is not asked.
/// Otherwise the platform decides: on success the handle stands under
/// `path`, on failure the platform's failure is returned. Unless it
/// succeeds, the call leaves the registry as it was.
pub fn open_session(
    hid_api: &HidApi,
    device_list: &Directory<DeviceInfo>,
    open_devices: &mut Registry<HidDevice>,
    path: &str,
) -> (outcome: Result<(), Error>)
    requires
        device_list.wf(),
        old(open_devices).wf(),
    ensures
        final(open_devices).wf(),
        match lookup_of(device_list@, path@) {
            Err(refusal) => {
                &&& outcome == Err::<(), Error>(refusal)
                &&& final(open_devices)@ == old(open_devices)@
            },
            Ok(entry) => if old(open_devices)@.contains_key(path@) {
                &&& outcome == Err::<(), Error>(Error::HidDeviceAlreadyOpen)
                &&& final(open_devices)@ == old(open_devices)@
            } else if !path_is_text(entry.device) {
                &&& outcome == Err::<(), Error>(Error::HidDeviceUuidInvalidFormat)
                &&& final(open_devices)@ == old(open_devices)@
            } else {
                match outcome {
                    Ok(()) => {
                        &&& handle_of(final(open_devices)@, path@) is Some
                        &&& final(open_devices)@.remove(path@) == old(open_devices)@
                    },
                    Err(error) => {
                        &&& error is HidApiError
                        &&& final(open_devices)@ == old(open_devices)@
                    },
                }
            },
        },
{
    let ghost before = open_devices@;
    let entry = match device_list.lookup(path) {
        Ok(entry) => entry,
        Err(error) => {
            return Err(error);
        },
    };
    match open_devices.reserve(path) {
        Ok(()) => {},
        Err(error) => {
            return Err(error);
        },
    }
    let opened = if has_text_path(&entry.device) {
        match entry.device.open_device(hid_api) {
            Ok(handle) => Ok(handle),
            Err(error) => Err(failure(&error)),
        }
    } else {
        Err(Error::HidDeviceUuidInvalidFormat)
    };
    match opened {
        Ok(handle) => {
            open_devices.insert(path, handle);
            proof {
                assert(open_devices@.remove(path@) =~= before);
            }
            Ok(())
        },
        Err(error) => {
            let _ = open_devices.remove(path);
            proof {
                assert(open_devices@ =~= before);
            }
            Err(error)
        },
    }
}

/// Closes the session under `path` and releases its handle. Closing a path
/// without a session is no failure: nothing changes.
pub fn close_session(open_devices: &mut Registry<HidDevice>, path: &str) -> (outcome: Result<
    (),
    Error,
>)
    requires
        old(open_devices).wf(),
    ensures
        final(open_devices).wf(),
        outcome == Ok::<(), Error>(()),
        final(open_devices)@ == old(open_devices)@.remove(path@),
{
    let _ = open_devices.remove(path);
    Ok(())
}

/// Writes `data` to the session under `path`. Fails with
/// `HidDeviceNotFoundInOpenDevices` if no session is open there; otherwise
/// answers as [`write_outcome`] says of what the platform returned.
pub fn write_session(open_devices: &Registry<HidDevice>, path: &str, data: &[u8]) -> (outcome: Result<
    (),
    Error,
>)
    requires
        open_devices.wf(),
    ensures
        match handle_of(open_devices@, path@) {
            None => outcome == Err::<(), Error>(Error::HidDeviceNotFoundInOpenDevices),
            Some(_) => match outcome {
                Ok(()) => true,
                Err(error) => error is HidApiError,
            },
        },
{
    match open_devices.get(path) {
        Ok(device) => write_device(device, data),
        Err(error) => Err(error),
    }
}

/// Reads one report from the session under `path`. Fails with
/// `HidDeviceNotFoundInOpenDevices` if no session is open there; otherwise
/// hands [`wait_bound`] of `timeout` to the platform and answers as
/// [`read_outcome`] says of what it returned.
pub fn read_session(open_devices: &Registry<HidDevice>, path: &str, timeout: i32) -> (outcome: Result<
    Vec<u8>,
    Error,
>)
    requires
        open_devices.wf(),
    ensures
        match handle_of(open_devices@, path@) {
            None => outcome == Err::<Vec<u8>, Error>(Error::HidDeviceNotFoundInOpenDevices),
            Some(_) => match outcome {
                Ok(data) => data@.len() <= READ_BUFFER_LEN && (data@.len() == 0 ==> timeout <= 0),
                Err(error) => error is HidApiError || (error == Error::HidReadTimeout && timeout
                    > 0),
            },
        },
{
    match open_devices.get(path) {
        Ok(device) => read_device(device, timeout),
        Err(error) => Err(error),
    }
}

/// Sends `data` to the session under `path` as one output report. Fails
/// with `HidDeviceNotFoundInOpenDevices` if no session is open there;
/// otherwise answers as [`send_outcome`] says of what the platform returned.
pub fn send_session_report(open_devices: &Registry<HidDevice>, path: &str, data: &[u8]) -> (outcome:
    Result<(), Error>)
    requires
        open_devices.wf(),
    ensures
        match handle_of(open_devices@, path@) {
            None => outcome == Err::<(), Error>(Error::HidDeviceNotFoundInOpenDevices),
            Some(_) => match outcome {
                Ok(()) => true,
                Err(error) => error is HidApiError,
            },
        },
{
    match open_devices.get(path) {
        Ok(device) => send_report(device, data),
        Err(error) => Err(error),
    }
}

/// Asks the session under `path` for its current input report, of at most
/// `length` bytes. Fails with `HidDeviceNotFoundInOpenDevices` if no session
/// is open there; otherwise answers as [`read_outcome`] says, without a time
/// limit, of what the platform returned.
pub fn get_session_report(open_devices: &Registry<HidDevice>, path: &str, length: usize) -> (outcome:
    Result<Vec<u8>, Error>)
    requires
        open_devices.wf(),
    ensures
        match handle_of(open_devices@, path@) {
            None => outcome == Err::<Vec<u8>, Error>(Error::HidDeviceNotFoundInOpenDevices),
            Some(_) => match outcome {
                Ok(data) => data@.len() <= length,
                Err(error) => error is HidApiError,
            },
        },
{
    match open_devices.get(path) {
        Ok(device) => get_report(device, length),
        Err(error) => Err(error),
    }
}

/// The session manager.
pub struct Hid {
    hid_api: HidApi,
    device_list: Directory<DeviceInfo>,
    open_devices: Registry<HidDevice>,
}

/// Creates a session manager with a platform context of its own. The
/// directory starts empty and no session is open. Fails with what the
/// platform reports if it cannot be initialised.
pub fn init() -> (created: Result<Hid, Error>)
    ensures
        match created {
            Ok(hid) => {
                &&& hid.wf()
                &&& hid.directory() == Map::<Seq<char>, DeviceDescriptor>::empty()
                &&& hid.listing() == Seq::<Seq<char>>::empty()
                &&& hid.sessions() == Map::<Seq<char>, HidDevice>::empty()
            },
            Err(error) => error is HidApiError,
        },
{
    match HidApi::new() {
        Ok(hid_api) => {
            let hid = Hid { hid_api, device_list: Directory::new(), open_devices: Registry::new() };
            assert(hid.directory() =~= Map::<Seq<char>, DeviceDescriptor>::empty());
            assert(hid.sessions() =~= Map::<Seq<char>, HidDevice>::empty());
            Ok(hid)
        },
        Err(error) => Err(failure(&error)),
    }
}

impl Hid {
    /// The directory: the snapshot of each device of the last enumeration,
    /// by path.
    pub closed spec fn directory(&self) -> Map<Seq<char>, DeviceDescriptor> {
        descriptors_of(self.device_list@)
    }

    /// The platform's record of each device of the directory, by path: what
    /// a device is opened from.
    pub closed spec fn records(&self) -> Map<Seq<char>, DeviceInfo> {
        records_of(self.device_list@)
    }

    /// The records that the platform context holds of the attached devices,
    /// in the platform's order, as of its last scan.
    pub closed spec fn scanned(&self) -> Seq<DeviceInfo> {
        cached_records(self.hid_api)
    }

    /// The paths of the directory, in the order of the last enumeration.
    pub closed spec fn listing(&self) -> Seq<Seq<char>> {
        self.device_list.paths()
    }

    /// The open sessions: the handle under each path.
    pub closed spec fn sessions(&self) -> Map<Seq<char>, HidDevice> {
        Map::new(
            |key: Seq<char>| self.open_devices@.contains_key(key),
            |key: Seq<char>| self.open_devices@[key]->Open_0,
        )
    }

    /// The directory and the registry are valid, every snapshot is that of
    /// the record beside it, and no reservation is pending.
    pub closed spec fn wf(&self) -> bool {
        &&& self.device_list.wf()
        &&& faithful(self.device_list@)
        &&& self.open_devices.wf()
        &&& forall|key: Seq<char>| #[trigger]
            self.open_devices@.contains_key(key) ==> self.open_devices@[key] is Open
    }

    /// What a valid manager guarantees: the listing names each path of the
    /// directory once, every snapshot stands under its own path and is the
    /// snapshot of the platform record under that path, and the open
    /// sessions are finitely many.
    pub proof fn lemma_valid(&self)
        requires
            self.wf(),
        ensures
            self.listing().no_duplicates(),
            forall|path: Seq<char>| self.directory().contains_key(path) <==> self.listing().contains(path),
            forall|path: Seq<char>| self.directory().contains_key(path) <==> self.records().contains_key(path),
            forall|path: Seq<char>| #[trigger]
                self.directory().contains_key(path) ==> {
                    &&& self.directory()[path].path == path
                    &&& self.directory()[path] == descriptor_of(self.records()[path])
                },
            self.sessions().dom().finite(),
    {
        self.device_list.lemma_valid();
        self.open_devices.lemma_valid();
        assert(self.sessions().dom() =~= self.open_devices@.dom());
    }

    /// Asks the platform which devices are attached, replaces the directory
    /// by the answer, and returns it.
    ///
    /// On success the directory holds exactly the records that the platform
    /// context holds after its scan. The listing names each path once, in
    /// the order in which the platform first reported it; where the
    /// platform reports a path twice, the later report stands. Every
    /// snapshot is taken from the platform's
    /// record of the device, with the manufacturer's and the product's name
    /// present. If the platform query fails, its failure is returned and the
    /// directory is left empty. The open sessions stay as they are.
    pub fn enumerate(&mut self) -> (outcome: Result<Vec<HidDeviceInfo>, Error>)
        requires
            old(self).wf(),
        ensures
            final(self).wf(),
            final(self).sessions() == old(self).sessions(),
            match outcome {
                Ok(devices) => {
                    &&& final(self).records() == report_of(final(self).scanned())
                    &&& final(self).listing() == report_order(final(self).scanned())
                    &&& lists(devices@, final(self).directory())
                    &&& final(self).listing() == devices@.map_values(|d: HidDeviceInfo| d.path@)
                    &&& forall|i: int|
                        0 <= i < devices@.len() ==> {
                            &&& final(self).records().contains_key(devices@[i].path@)
                            &&& #[trigger] devices@[i]@ == descriptor_of(
                                final(self).records()[devices@[i].path@],
                            )
                            &&& names_present(devices@[i]@)
                        }
                },
                Err(error) => {
                    &&& error is HidApiError
                    &&& final(self).directory() == Map::<Seq<char>, DeviceDescriptor>::empty()
                    &&& final(self).records() == Map::<Seq<char>, DeviceInfo>::empty()
                    &&& final(self).listing() == Seq::<Seq<char>>::empty()
                },
            },
    {
        let outcome = rescan(&mut self.hid_api, &mut self.device_list);
        proof {
            if outcome is Err {
                assert(self.directory() =~= Map::<Seq<char>, DeviceDescriptor>::empty());
                assert(self.records() =~= Map::<Seq<char>, DeviceInfo>::empty());
            }
        }
        outcome
    }

    /// The snapshot of the device under `path`, as of the last enumeration.
    /// Fails with `HidDeviceNotFound` where the directory has no such path.
    /// The platform is not asked.
    pub fn lookup(&self, path: &str) -> (found: Result<HidDeviceInfo, Error>)
        requires
            self.wf(),
        ensures
            match found {
                Ok(info) => self.directory().contains_key(path@) && info@ == self.directory()[path@],
                Err(error) => error == Error::HidDeviceNotFound && !self.directory().contains_key(
                    path@,
                ),
            },
    {
        match self.device_list.lookup(path) {
            Ok(entry) => Ok(entry.info.clone()),
            Err(error) => Err(error),
        }
    }

    /// Whether a session is open under `path`.
    pub fn is_open(&self, path: &str) -> (open: bool)
        requires
            self.wf(),
        ensures
            open == self.sessions().contains_key(path@),
    {
        self.open_devices.contains(path)
    }

    /// Opens a session on the device that the last enumeration listed under
    /// `path`.
    ///
    /// Fails with `HidDeviceNotFound` if the directory has no such path, and
    /// with `HidDeviceAlreadyOpen` if a session is open under it. Fails with
    /// `HidDeviceUuidInvalidFormat` if the path that the platform recorded
    /// for the device is not text, so that `path` does not spell it. In
    /// these cases the platform is not asked. Otherwise the platform
    /// decides: on success the session is registered under `path`, on
    /// failure the platform's failure is returned and nothing has changed.
    pub fn open(&mut self, path: &str) -> (outcome: Result<(), Error>)
        requires
            old(self).wf(),
        ensures
            final(self).wf(),
            final(self).directory() == old(self).directory(),
            final(self).records() == old(self).records(),
            final(self).scanned() == old(self).scanned(),
            final(self).listing() == old(self).listing(),
            match open_refusal(old(self).directory(), old(self).sessions().dom(), path@) {
                Some(refusal) => {
                    &&& outcome == Err::<(), Error>(refusal)
                    &&& final(self).sessions() == old(self).sessions()
                },
                None => if !path_is_text(old(self).records()[path@]) {
                    &&& outcome == Err::<(), Error>(Error::HidDeviceUuidInvalidFormat)
                    &&& final(self).sessions() == old(self).sessions()
                } else {
                    match outcome {
                        Ok(()) => {
                            &&& final(self).sessions().contains_key(path@)
                            &&& final(self).sessions().remove(path@) == old(self).sessions()
                        },
                        Err(error) => {
                            &&& error is HidApiError
                            &&& final(self).sessions() == old(self).sessions()
                        },
                    }
                },
            },
    {
        let outcome = open_session(&self.hid_api, &self.device_list, &mut self.open_devices, path);
        proof {
            if outcome is Ok {
                assert(self.sessions().remove(path@) =~= old(self).sessions());
            } else {
                assert(self.sessions() =~= old(self).sessions());
            }
        }
        outcome
    }

    /// Closes the session under `path` and releases its handle. Closing a
    /// path without a session is no failure: nothing changes.
    pub fn close(&mut self, path: &str) -> (outcome: Result<(), Error>)
        requires
            old(self).wf(),
        ensures
            final(self).wf(),
            outcome == Ok::<(), Error>(()),
            final(self).directory() == old(self).directory(),
            final(self).records() == old(self).records(),
            final(self).scanned() == old(self).scanned(),
            final(self).listing() == old(self).listing(),
            final(self).sessions() == old(self).sessions().remove(path@),
    {
        let outcome = close_session(&mut self.open_devices, path);
        proof {
            assert(self.sessions() =~= old(self).sessions().remove(path@));
        }
        outcome
    }

    /// Writes `data` to the session under `path`, as it is: the first byte
    /// is the report identifier, 0 where the device has none.
    ///
    /// Fails with `HidDeviceNotFoundInOpenDevices` if no session is open
    /// under `path`; the platform is then not asked. Otherwise the answer is
    /// what [`write_outcome`] makes of the platform's: success, or a
    /// platform failure. The session stays open either way.
    pub fn write(&self, path: &str, data: &[u8]) -> (outcome: Result<(), Error>)
        requires
            self.wf(),
        ensures
            !self.sessions().contains_key(path@) ==> outcome == Err::<(), Error>(
                Error::HidDeviceNotFoundInOpenDevices,
            ),
            self.sessions().contains_key(path@) ==> match outcome {
                Ok(()) => true,
                Err(error) => error is HidApiError,
            },
    {
        write_session(&self.open_devices, path, data)
    }

    /// Reads one report from the session under `path`, waiting for at most
    /// `timeout` milliseconds: not at all if `timeout` is 0, and for as long
    /// as it takes if `timeout` is negative.
    ///
    /// Fails with `HidDeviceNotFoundInOpenDevices` if no session is open
    /// under `path`; the platform is then not asked. Otherwise the answer is
    /// what [`read_outcome`] makes of the platform's: at most
    /// [`READ_BUFFER_LEN`] bytes, empty only where no time limit could run
    /// out; `HidReadTimeout`, only where one could; or a platform failure.
    /// The session stays open either way.
    pub fn read(&self, path: &str, timeout: i32) -> (outcome: Result<Vec<u8>, Error>)
        requires
            self.wf(),
        ensures
            !self.sessions().contains_key(path@) ==> outcome == Err::<Vec<u8>, Error>(
                Error::HidDeviceNotFoundInOpenDevices,
            ),
            self.sessions().contains_key(path@) ==> match outcome {
                Ok(data) => data@.len() <= READ_BUFFER_LEN && (data@.len() == 0 ==> timeout <= 0),
                Err(error) => error is HidApiError || (error == Error::HidReadTimeout && timeout > 0),
            },
    {
        read_session(&self.open_devices, path, timeout)
    }

    /// Sends `data` to the session under `path` as one output report over
    /// the control channel. The first byte is the report identifier.
    ///
    /// Fails with `HidDeviceNotFoundInOpenDevices` if no session is open
    /// under `path`; otherwise succeeds or passes on the platform's failure.
    pub fn send_output_report(&self, path: &str, data: &[u8]) -> (outcome: Result<(), Error>)
        requires
            self.wf(),
        ensures
            !self.sessions().contains_key(path@) ==> outcome == Err::<(), Error>(
                Error::HidDeviceNotFoundInOpenDevices,
            ),
            self.sessions().contains_key(path@) ==> match outcome {
                Ok(()) => true,
                Err(error) => error is HidApiError,
            },
    {
        send_session_report(&self.open_devices, path, data)
    }

    /// Asks the session under `path` for its current input report, of at
    /// most `length` bytes, without waiting.
    ///
    /// Fails with `HidDeviceNotFoundInOpenDevices` if no session is open
    /// under `path`; otherwise answers with at most `length` bytes or passes
    /// on the platform's failure.
    pub fn get_input_report(&self, path: &str, length: usize) -> (outcome: Result<Vec<u8>, Error>)
        requires
            self.wf(),
        ensures
            !self.sessions().contains_key(path@) ==> outcome == Err::<Vec<u8>, Error>(
                Error::HidDeviceNotFoundInOpenDevices,
            ),
            self.sessions().contains_key(path@) ==> match outcome {
                Ok(data) => data@.len() <= length,
                Err(error) => error is HidApiError,
            },
    {
        get_session_report(&self.open_devices, path, length)
    }
}

/// Turns what the platform returned for an output report into the answer
/// for the caller: the report went out, or the platform's failure is passed
/// on in the platform's words.
pub fn send_outcome(sent: Result<(), String>) -> (outcome: Result<(), Error>)
    ensures
        match sent {
            Ok(()) => outcome == Ok::<(), Error>(()),
            Err(reason) => outcome == Err::<(), Error>(Error::HidApiError(reason)),
        },
{
    match sent {
        Ok(()) => Ok(()),
        Err(reason) => Err(Error::HidApiError(reason)),
    }
}

} // verus!
