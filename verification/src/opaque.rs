//! The session manager over the platform HID library, with sessions
//! addressed by tokens.
//!
//! Here a session is not named after the device's path. Opening takes a
//! vendor and a product identifier, lets the platform pick the first
//! attached device that has them, and answers with a fresh token; every
//! later call names the session by that token. Two opens of the same pair
//! give two sessions with two tokens, as far as the platform allows them.
//!
//! A deployment uses either this manager or the one addressed by path, not
//! both. The two differ on a key without a session: closing it is harmless
//! by path, and fails with `HidDeviceNotFoundInOpenDevices` by token.

use crate::backend::cached_records;
use crate::desktop::{
    descriptor_of, failure, faithful, get_report, lists, names_present, read_device, records_of,
    report_of, report_order, rescan, send_report, write_device, READ_BUFFER_LEN,
};
use crate::directory::{descriptors_of, Directory};
use crate::error::Error;
use crate::models::{DeviceDescriptor, HidDeviceInfo};
use crate::registry::{Registry, Slot};
use crate::token::{
    format_token, is_token, law_parse_decides, law_token_text_injective, parse_token, token_text,
    TokenSource,
};
use hidapi::{DeviceInfo, HidApi, HidDevice};
use vstd::prelude::*;

verus! {

/// Why a call that names a session by `text` is refused: the text is no
/// token, or no session is open under it. `None` where the call goes ahead.
pub open spec fn token_refusal(sessions: Set<Seq<char>>, text: Seq<char>) -> Option<Error> {
    if !is_token(text) {
        Some(Error::HidDeviceUuidInvalidFormat)
    } else if !sessions.contains(text) {
        Some(Error::HidDeviceNotFoundInOpenDevices)
    } else {
        None
    }
}

/// A token without a session: once a session is closed its token names
/// nothing, and a second close fails with `HidDeviceNotFoundInOpenDevices`.
pub proof fn law_closed_token(sessions: Set<Seq<char>>, token: u128)
    ensures
        token_refusal(sessions.remove(token_text(token)), token_text(token)) == Some(
            Error::HidDeviceNotFoundInOpenDevices,
        ),
{
    assert(is_token(token_text(token)));
}

/// The session manager that addresses sessions by token.
pub struct TokenHid {
    hid_api: HidApi,
    device_list: Directory<DeviceInfo>,
    open_devices: Registry<HidDevice>,
    tokens: TokenSource,
}

impl TokenHid {
    /// The directory: the snapshot of each device of the last enumeration,
    /// by path.
    pub closed spec fn directory(&self) -> Map<Seq<char>, DeviceDescriptor> {
        descriptors_of(self.device_list@)
    }

    /// The platform's record of each device of the directory, by path.
    pub closed spec fn records(&self) -> Map<Seq<char>, DeviceInfo> {
        records_of(self.device_list@)
    }

    /// The records that the platform context holds of the attached devices,
    /// in the platform's order, as of its last scan.
    pub closed spec fn scanned(&self) -> Seq<DeviceInfo> {
        cached_records(self.hid_api)
    }

    /// The paths of the directory, in the order of the last enumeration.
    pub closed spec fn listing(&self) -> Seq<Seq<char>> {
        self.device_list.paths()
    }

    /// The open sessions: the handle under the text of each token.
    pub closed spec fn sessions(&self) -> Map<Seq<char>, HidDevice> {
        Map::new(
            |key: Seq<char>| self.open_devices@.contains_key(key),
            |key: Seq<char>| self.open_devices@[key]->Open_0,
        )
    }

    /// The number of tokens issued so far.
    pub closed spec fn issued(&self) -> u128 {
        self.tokens.issued()
    }

    /// The directory and the registry are valid, every snapshot is that of
    /// the record beside it, no reservation is pending, and every session
    /// stands under a token that was issued.
    pub closed spec fn wf(&self) -> bool {
        &&& self.device_list.wf()
        &&& faithful(self.device_list@)
        &&& self.open_devices.wf()
        &&& forall|key: Seq<char>| #[trigger]
            self.open_devices@.contains_key(key) ==> {
                &&& self.open_devices@[key] is Open
                &&& exists|value: u128| value < self.tokens.issued() && key == #[trigger] token_text(value)
            }
    }

    /// What a valid manager guarantees: every open session stands under the
    /// text of a token issued before, and every snapshot of the directory is
    /// the snapshot of the platform record under its path.
    pub proof fn lemma_valid(&self)
        requires
            self.wf(),
        ensures
            forall|key: Seq<char>| #[trigger]
                self.sessions().contains_key(key) ==> exists|value: u128|
                    value < self.issued() && key == #[trigger] token_text(value),
            forall|path: Seq<char>| self.directory().contains_key(path) <==> self.records().contains_key(path),
            forall|path: Seq<char>| #[trigger]
                self.directory().contains_key(path) ==> self.directory()[path] == descriptor_of(
                    self.records()[path],
                ),
            self.sessions().dom().finite(),
    {
        self.open_devices.lemma_valid();
        assert(self.sessions().dom() =~= self.open_devices@.dom());
    }

    /// Creates a session manager with a platform context of its own. The
    /// directory starts empty, no session is open and no token is issued.
    /// Fails with what the platform reports if it cannot be initialised.
    pub fn new() -> (created: Result<TokenHid, Error>)
        ensures
            match created {
                Ok(hid) => {
                    &&& hid.wf()
                    &&& hid.directory() == Map::<Seq<char>, DeviceDescriptor>::empty()
                    &&& hid.listing() == Seq::<Seq<char>>::empty()
                    &&& hid.sessions() == Map::<Seq<char>, HidDevice>::empty()
                    &&& hid.issued() == 0
                },
                Err(error) => error is HidApiError,
            },
    {
        match HidApi::new() {
            Ok(hid_api) => {
                let hid = TokenHid {
                    hid_api,
                    device_list: Directory::new(),
                    open_devices: Registry::new(),
                    tokens: TokenSource::new(),
                };
                assert(hid.directory() =~= Map::<Seq<char>, DeviceDescriptor>::empty());
                assert(hid.sessions() =~= Map::<Seq<char>, HidDevice>::empty());
                Ok(hid)
            },
            Err(error) => Err(failure(&error)),
        }
    }

    /// Asks the platform which devices are attached, replaces the directory
    /// by the answer, and returns it. On success the directory holds exactly
    /// the records that the platform context holds after its scan, and the
    /// listing names each path once, with the snapshot of its record; if the
    /// platform query fails, its failure is returned and the directory is
    /// left empty. Sessions and tokens stay as they are.
    pub fn enumerate(&mut self) -> (outcome: Result<Vec<HidDeviceInfo>, Error>)
        requires
            old(self).wf(),
        ensures
            final(self).wf(),
            final(self).sessions() == old(self).sessions(),
            final(self).issued() == old(self).issued(),
            match outcome {
                Ok(devices) => {
                    &&& final(self).records() == report_of(final(self).scanned())
                    &&& final(self).listing() == report_order(final(self).scanned())
                    &&& lists(devices@, final(self).directory())
                    &&& final(self).listing() == devices@.map_values(|d: HidDeviceInfo| d.path@)
                    &&& forall|i: int|
                        0 <= i < devices@.len() ==> {
                            &&& final(self).records().contains_key(devices@[i].path@)
                            &&& #[trigger] devices@[i]@ == descriptor_of(
                                final(self).records()[devices@[i].path@],
                            )
                            &&& names_present(devices@[i]@)
                        }
                },
                Err(error) => {
                    &&& error is HidApiError
                    &&& final(self).directory() == Map::<Seq<char>, DeviceDescriptor>::empty()
                    &&& final(self).records() == Map::<Seq<char>, DeviceInfo>::empty()
                    &&& final(self).listing() == Seq::<Seq<char>>::empty()
                },
            },
    {
        let outcome = rescan(&mut self.hid_api, &mut self.device_list);
        proof {
            if outcome is Err {
                assert(self.directory() =~= Map::<Seq<char>, DeviceDescriptor>::empty());
                assert(self.records() =~= Map::<Seq<char>, DeviceInfo>::empty());
            }
        }
        outcome
    }

    /// Opens a session on the first attached device that the platform finds
    /// with the given vendor and product identifiers, and answers with the
    /// token of the session.
    ///
    /// The platform decides whether there is such a device and whether it
    /// can be opened once more; its failure is passed on, and then nothing
    /// has changed. On success the token is the next one that was never
    /// issued, and the session is registered under its text.
    ///
    /// A token must be left to give out: see [`TokenHid::exhausted`].
    pub fn open(&mut self, vendor_id: u16, product_id: u16) -> (outcome: Result<String, Error>)
        requires
            old(self).wf(),
            old(self).issued() < u128::MAX,
        ensures
            final(self).wf(),
            final(self).directory() == old(self).directory(),
            final(self).records() == old(self).records(),
            final(self).listing() == old(self).listing(),
            match outcome {
                Ok(token) => {
                    &&& token@ == token_text(old(self).issued())
                    &&& final(self).issued() == old(self).issued() + 1
                    &&& !old(self).sessions().contains_key(token@)
                    &&& final(self).sessions().contains_key(token@)
                    &&& final(self).sessions().remove(token@) == old(self).sessions()
                },
                Err(error) => {
                    &&& error is HidApiError
                    &&& final(self).sessions() == old(self).sessions()
                    &&& final(self).issued() == old(self).issued()
                },
            },
    {
        let handle = match self.hid_api.open(vendor_id, product_id) {
            Ok(handle) => handle,
            Err(error) => {
                return Err(failure(&error));
            },
        };
        let value = self.tokens.take();
        let token = format_token(value);
        proof {
            if old(self).open_devices@.contains_key(token@) {
                let taken = choose|taken: u128|
                    taken < old(self).tokens.issued() && token@ == #[trigger] token_text(taken);
                law_token_text_injective(taken, value);
            }
        }
        self.open_devices.insert(token.as_str(), handle);
        proof {
            assert(self.sessions().remove(token@) =~= old(self).sessions());
            assert forall|key: Seq<char>| #[trigger]
                self.open_devices@.contains_key(key) implies exists|known: u128|
                known < self.tokens.issued() && key == #[trigger] token_text(known) by {
                if key == token@ {
                    assert(key == token_text(value));
                } else {
                    let known = choose|known: u128|
                        known < old(self).tokens.issued() && key == #[trigger] token_text(known);
                    assert(key == token_text(known));
                }
            }
        }
        Ok(token)
    }

    /// Whether every token has been given out, so that no further session
    /// can be opened. That takes as many sessions as there are numbers of
    /// 128 bits.
    pub fn exhausted(&self) -> (spent: bool)
        ensures
            spent == (self.issued() == u128::MAX),
    {
        self.tokens.exhausted()
    }

    /// Whether a session is open under `token`.
    pub fn is_open(&self, token: &str) -> (open: bool)
        requires
            self.wf(),
        ensures
            open == self.sessions().contains_key(token@),
    {
        self.open_devices.contains(token)
    }

    /// Closes the session under `token` and releases its handle. Fails with
    /// `HidDeviceUuidInvalidFormat` if the text is no token, and with
    /// `HidDeviceNotFoundInOpenDevices` if no session is open under it; then
    /// nothing changes.
    pub fn close(&mut self, token: &str) -> (outcome: Result<(), Error>)
        requires
            old(self).wf(),
        ensures
            final(self).wf(),
            final(self).directory() == old(self).directory(),
            final(self).records() == old(self).records(),
            final(self).listing() == old(self).listing(),
            final(self).issued() == old(self).issued(),
            match token_refusal(old(self).sessions().dom(), token@) {
                Some(refusal) => {
                    &&& outcome == Err::<(), Error>(refusal)
                    &&& final(self).sessions() == old(self).sessions()
                },
                None => {
                    &&& outcome == Ok::<(), Error>(())
                    &&& final(self).sessions() == old(self).sessions().remove(token@)
                },
            },
    {
        proof {
            law_parse_decides(token@);
        }
        match parse_token(token) {
            Ok(_) => {},
            Err(error) => {
                return Err(error);
            },
        }
        let removed = self.open_devices.remove(token);
        proof {
            assert(self.sessions() =~= old(self).sessions().remove(token@));
        }
        match removed {
            Some(_) => Ok(()),
            None => {
                proof {
                    assert(self.sessions() =~= old(self).sessions());
                }
                Err(Error::HidDeviceNotFoundInOpenDevices)
            },
        }
    }

    /// Writes `data` to the session under `token`, as it is. Fails as
    /// [`TokenHid::close`] does on a text that names no session; otherwise
    /// succeeds or passes on the platform's failure.
    pub fn write(&self, token: &str, data: &[u8]) -> (outcome: Result<(), Error>)
        requires
            self.wf(),
        ensures
            match token_refusal(self.sessions().dom(), token@) {
                Some(refusal) => outcome == Err::<(), Error>(refusal),
                None => match outcome {
                    Ok(()) => true,
                    Err(error) => error is HidApiError,
                },
            },
    {
        let device = match self.session(token) {
            Ok(device) => device,
            Err(error) => {
                return Err(error);
            },
        };
        write_device(device, data)
    }

    /// Reads one report from the session under `token`, waiting for at most
    /// `timeout` milliseconds: not at all if `timeout` is 0, and for as long
    /// as it takes if `timeout` is negative. Fails as [`TokenHid::close`]
    /// does on a text that names no session; otherwise answers as the
    /// manager addressed by path does.
    pub fn read(&self, token: &str, timeout: i32) -> (outcome: Result<Vec<u8>, Error>)
        requires
            self.wf(),
        ensures
            match token_refusal(self.sessions().dom(), token@) {
                Some(refusal) => outcome == Err::<Vec<u8>, Error>(refusal),
                None => match outcome {
                    Ok(data) => data@.len() <= READ_BUFFER_LEN && (data@.len() == 0 ==> timeout
                        <= 0),
                    Err(error) => error is HidApiError || (error == Error::HidReadTimeout
                        && timeout > 0),
                },
            },
    {
        let device = match self.session(token) {
            Ok(device) => device,
            Err(error) => {
                return Err(error);
            },
        };
        read_device(device, timeout)
    }

    /// Sends `data` to the session under `token` as one output report.
    /// Fails as [`TokenHid::close`] does on a text that names no session;
    /// otherwise succeeds or passes on the platform's failure.
    pub fn send_output_report(&self, token: &str, data: &[u8]) -> (outcome: Result<(), Error>)
        requires
            self.wf(),
        ensures
            match token_refusal(self.sessions().dom(), token@) {
                Some(refusal) => outcome == Err::<(), Error>(refusal),
                None => match outcome {
                    Ok(()) => true,
                    Err(error) => error is HidApiError,
                },
            },
    {
        let device = match self.session(token) {
            Ok(device) => device,
            Err(error) => {
                return Err(error);
            },
        };
        send_report(device, data)
    }

    /// Asks the session under `token` for its current input report, of at
    /// most `length` bytes. Fails as [`TokenHid::close`] does on a text that
    /// names no session; otherwise answers with at most `length` bytes or
    /// passes on the platform's failure.
    pub fn get_input_report(&self, token: &str, length: usize) -> (outcome: Result<Vec<u8>, Error>)
        requires
            self.wf(),
        ensures
            match token_refusal(self.sessions().dom(), token@) {
                Some(refusal) => outcome == Err::<Vec<u8>, Error>(refusal),
                None => match outcome {
                    Ok(data) => data@.len() <= length,
                    Err(error) => error is HidApiError,
                },
            },
    {
        let device = match self.session(token) {
            Ok(device) => device,
            Err(error) => {
                return Err(error);
            },
        };
        get_report(device, length)
    }

    /// The handle of the session that `token` names.
    fn session(&self, token: &str) -> (found: Result<&HidDevice, Error>)
        requires
            self.wf(),
        ensures
            match token_refusal(self.sessions().dom(), token@) {
                Some(refusal) => found == Err::<&HidDevice, Error>(refusal),
                None => found matches Ok(device) && *device == self.sessions()[token@],
            },
    {
        proof {
            law_parse_decides(token@);
        }
        match parse_token(token) {
            Ok(_) => {},
            Err(error) => {
                return Err(error);
            },
        }
        self.open_devices.get(token)
    }
}

} // verus!
