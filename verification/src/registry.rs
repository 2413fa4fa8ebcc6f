//! The session registry: which keys have a session, and the handle of each.
//!
//! A key is reserved before the platform is asked to open the device, so
//! that of two attempts on one key only the first goes ahead. The
//! reservation is later filled with the handle, or released when the
//! platform refuses. Removing an entry hands the handle back to the caller;
//! dropping it there is what closes the device.

use crate::error::Error;
use crate::table::Table;
use vstd::prelude::*;

verus! {

/// What the registry holds under a key.
pub enum Slot<H> {
    /// The key is taken, and the platform has not answered yet.
    Reserved,
    /// The session is open, with this handle.
    Open(H),
}

/// The handle of the session under `key`, if one is open there.
pub open spec fn handle_of<H>(slots: Map<Seq<char>, Slot<H>>, key: Seq<char>) -> Option<H> {
    if slots.contains_key(key) {
        match slots[key] {
            Slot::Open(handle) => Some(handle),
            Slot::Reserved => None,
        }
    } else {
        None
    }
}

/// What reserving `key` leaves behind, and what it answers: a key that is
/// taken stays as it is and the attempt is refused.
pub open spec fn reserve_of<H>(slots: Map<Seq<char>, Slot<H>>, key: Seq<char>) -> (
    Map<Seq<char>, Slot<H>>,
    Result<(), Error>,
) {
    if slots.contains_key(key) {
        (slots, Err(Error::HidDeviceAlreadyOpen))
    } else {
        (slots.insert(key, Slot::Reserved), Ok(()))
    }
}

/// What storing `handle` under `key` leaves behind.
pub open spec fn insert_of<H>(slots: Map<Seq<char>, Slot<H>>, key: Seq<char>, handle: H) -> Map<
    Seq<char>,
    Slot<H>,
> {
    slots.insert(key, Slot::Open(handle))
}

/// What removing `key` leaves behind, and the handle it gives up.
pub open spec fn remove_of<H>(slots: Map<Seq<char>, Slot<H>>, key: Seq<char>) -> (
    Map<Seq<char>, Slot<H>>,
    Option<H>,
) {
    (slots.remove(key), handle_of(slots, key))
}

/// What asking for the handle under `key` answers.
pub open spec fn get_of<H>(slots: Map<Seq<char>, Slot<H>>, key: Seq<char>) -> Result<H, Error> {
    match handle_of(slots, key) {
        Some(handle) => Ok(handle),
        None => Err(Error::HidDeviceNotFoundInOpenDevices),
    }
}

/// One session per key: once a key is reserved, a second reservation is
/// refused, before the handle arrives and after; once the key is removed,
/// it can be reserved again.
pub proof fn law_single_open<H>(slots: Map<Seq<char>, Slot<H>>, key: Seq<char>, handle: H)
    requires
        reserve_of(slots, key).1 is Ok,
    ensures
        reserve_of(reserve_of(slots, key).0, key) == (
            reserve_of(slots, key).0,
            Err::<(), Error>(Error::HidDeviceAlreadyOpen),
        ),
        reserve_of(insert_of(reserve_of(slots, key).0, key, handle), key).1 == Err::<(), Error>(
            Error::HidDeviceAlreadyOpen,
        ),
        remove_of(insert_of(reserve_of(slots, key).0, key, handle), key) == (slots, Some(handle)),
        reserve_of(remove_of(insert_of(reserve_of(slots, key).0, key, handle), key).0, key).1 is Ok,
{
    let reserved = reserve_of(slots, key).0;
    let opened = insert_of(reserved, key, handle);
    assert(opened.remove(key) =~= slots);
}

/// A key without a session: asking for its handle fails, and removing it
/// changes nothing and gives up nothing.
pub proof fn law_unknown_key<H>(slots: Map<Seq<char>, Slot<H>>, key: Seq<char>)
    requires
        !slots.contains_key(key),
    ensures
        get_of(slots, key) == Err::<H, Error>(Error::HidDeviceNotFoundInOpenDevices),
        remove_of(slots, key) == (slots, None::<H>),
{
    assert(slots.remove(key) =~= slots);
}

/// Sessions do not touch each other: what is done under one key leaves
/// every other key as it was.
pub proof fn law_other_keys<H>(slots: Map<Seq<char>, Slot<H>>, key: Seq<char>, other: Seq<char>, handle: H)
    requires
        key != other,
    ensures
        handle_of(reserve_of(slots, key).0, other) == handle_of(slots, other),
        handle_of(insert_of(slots, key, handle), other) == handle_of(slots, other),
        handle_of(remove_of(slots, key).0, other) == handle_of(slots, other),
        reserve_of(slots, key).0.contains_key(other) == slots.contains_key(other),
        insert_of(slots, key, handle).contains_key(other) == slots.contains_key(other),
        remove_of(slots, key).0.contains_key(other) == slots.contains_key(other),
{
}

/// The sessions by key.
pub struct Registry<H> {
    table: Table<Slot<H>>,
}

impl<H> View for Registry<H> {
    type V = Map<Seq<char>, Slot<H>>;

    /// The slots by key.
    closed spec fn view(&self) -> Map<Seq<char>, Slot<H>> {
        self.table@
    }
}

impl<H> Registry<H> {
    /// No key is held twice.
    pub closed spec fn wf(&self) -> bool {
        self.table.wf()
    }

    /// A valid registry holds finitely many keys.
    pub proof fn lemma_valid(&self)
        requires
            self.wf(),
        ensures
            self@.dom().finite(),
    {
        self.table.lemma_keys();
    }

    /// A registry without sessions.
    pub fn new() -> (registry: Self)
        ensures
            registry.wf(),
            registry@ == Map::<Seq<char>, Slot<H>>::empty(),
    {
        Registry { table: Table::new() }
    }

    /// The number of keys held, reserved ones included.
    pub fn len(&self) -> (n: usize)
        requires
            self.wf(),
        ensures
            n == self@.dom().len(),
    {
        proof {
            self.table.lemma_keys();
        }
        self.table.len()
    }

    /// Whether `key` is taken, by a reservation or by an open session.
    pub fn contains(&self, key: &str) -> (taken: bool)
        requires
            self.wf(),
        ensures
            taken == self@.contains_key(key@),
    {
        let owned = key.to_owned();
        self.table.contains_key(&owned)
    }

    /// Takes `key` if it is free. A key that is taken is left alone and the
    /// attempt fails with `HidDeviceAlreadyOpen`.
    pub fn reserve(&mut self, key: &str) -> (outcome: Result<(), Error>)
        requires
            old(self).wf(),
        ensures
            final(self).wf(),
            (final(self)@, outcome) == reserve_of(old(self)@, key@),
    {
        let owned = key.to_owned();
        if self.table.contains_key(&owned) {
            Err(Error::HidDeviceAlreadyOpen)
        } else {
            let _ = self.table.insert(owned, Slot::Reserved);
            Ok(())
        }
    }

    /// Stores `handle` under `key`, in place of whatever was there.
    pub fn insert(&mut self, key: &str, handle: H)
        requires
            old(self).wf(),
        ensures
            final(self).wf(),
            final(self)@ == insert_of(old(self)@, key@, handle),
    {
        let owned = key.to_owned();
        let _ = self.table.insert(owned, Slot::Open(handle));
    }

    /// Frees `key` and hands back the handle that was open under it. A key
    /// that was only reserved, or not taken at all, gives `None`.
    pub fn remove(&mut self, key: &str) -> (removed: Option<H>)
        requires
            old(self).wf(),
        ensures
            final(self).wf(),
            (final(self)@, removed) == remove_of(old(self)@, key@),
    {
        let owned = key.to_owned();
        match self.table.remove(&owned) {
            Some(Slot::Open(handle)) => Some(handle),
            Some(Slot::Reserved) => None,
            None => None,
        }
    }

    /// The handle of the session under `key`. Fails with
    /// `HidDeviceNotFoundInOpenDevices` where no session is open there.
    pub fn get(&self, key: &str) -> (found: Result<&H, Error>)
        requires
            self.wf(),
        ensures
            match found {
                Ok(handle) => get_of(self@, key@) == Ok::<H, Error>(*handle),
                Err(error) => get_of(self@, key@) == Err::<H, Error>(error),
            },
    {
        let owned = key.to_owned();
        match self.table.get(&owned) {
            Some(Slot::Open(handle)) => Ok(handle),
            Some(Slot::Reserved) => Err(Error::HidDeviceNotFoundInOpenDevices),
            None => Err(Error::HidDeviceNotFoundInOpenDevices),
        }
    }
}

} // verus!
