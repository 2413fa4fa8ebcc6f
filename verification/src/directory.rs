//! The device directory: the attached devices as of the last enumeration.
//!
//! The directory is keyed by device path. An enumeration replaces it as a
//! whole; nothing of an earlier enumeration survives. Looking a path up never
//! asks the platform again.

use crate::error::Error;
use crate::models::{DeviceDescriptor, HidDeviceInfo};
use crate::table::Table;
use vstd::prelude::*;

verus! {

/// One attached device: its snapshot, and the platform's own record of it,
/// which is what the device is opened from.
pub struct DirectoryEntry<D> {
    pub info: HidDeviceInfo,
    pub device: D,
}

/// The snapshots of a directory, by path.
pub open spec fn descriptors_of<D>(entries: Map<Seq<char>, DirectoryEntry<D>>) -> Map<
    Seq<char>,
    DeviceDescriptor,
> {
    entries.map_values(|entry: DirectoryEntry<D>| entry.info@)
}

/// The paths of a report, in the order reported.
pub open spec fn reported_paths<D>(reported: Seq<DirectoryEntry<D>>) -> Seq<Seq<char>> {
    reported.map_values(|e: DirectoryEntry<D>| e.info.path@)
}

/// The directory that a report leaves behind: each reported path leads to
/// the entry reported for it, and where the platform reports a path more
/// than once, to the last such entry.
pub open spec fn catalog<D>(reported: Seq<DirectoryEntry<D>>) -> Map<Seq<char>, DirectoryEntry<D>>
    decreases reported.len(),
{
    if reported.len() == 0 {
        Map::empty()
    } else {
        catalog(reported.drop_last()).insert(reported.last().info.path@, reported.last())
    }
}

/// The order in which a directory lists the paths of a report: each path
/// once, at the place of its first appearance.
pub open spec fn roll<D>(reported: Seq<DirectoryEntry<D>>) -> Seq<Seq<char>>
    decreases reported.len(),
{
    if reported.len() == 0 {
        Seq::empty()
    } else {
        let earlier = roll(reported.drop_last());
        let path = reported.last().info.path@;
        if earlier.contains(path) {
            earlier
        } else {
            earlier.push(path)
        }
    }
}

/// A directory holds exactly the reported paths.
pub proof fn lemma_catalog_paths<D>(reported: Seq<DirectoryEntry<D>>, path: Seq<char>)
    ensures
        catalog(reported).contains_key(path) <==> reported_paths(reported).contains(path),
        roll(reported).contains(path) <==> reported_paths(reported).contains(path),
    decreases reported.len(),
{
    let paths = reported_paths(reported);
    if reported.len() > 0 {
        let earlier = reported.drop_last();
        lemma_catalog_paths(earlier, path);
        let earlier_paths = reported_paths(earlier);
        assert(earlier_paths =~= paths.drop_last());
        if earlier_paths.contains(path) {
            let i = earlier_paths.index_of(path);
            assert(paths[i] == path);
        }
        if paths.contains(path) {
            let i = paths.index_of(path);
            if i < paths.len() - 1 {
                assert(earlier_paths[i] == path);
            }
        }
        assert(paths[paths.len() - 1] == reported.last().info.path@);
        let before = roll(earlier);
        if !before.contains(reported.last().info.path@) {
            let after = before.push(reported.last().info.path@);
            assert(after[before.len() as int] == reported.last().info.path@);
            if before.contains(path) {
                let i = before.index_of(path);
                assert(after[i] == path);
            }
        }
    }
}

/// Every entry of a directory stands under its own path, and is one of the
/// entries reported.
pub proof fn lemma_catalog_entry<D>(reported: Seq<DirectoryEntry<D>>, path: Seq<char>)
    requires
        catalog(reported).contains_key(path),
    ensures
        catalog(reported)[path].info.path@ == path,
        reported.contains(catalog(reported)[path]),
    decreases reported.len(),
{
    if reported.len() > 0 {
        let earlier = reported.drop_last();
        if reported.last().info.path@ == path {
            assert(reported[reported.len() - 1] == reported.last());
        } else {
            lemma_catalog_entry(earlier, path);
            let i = earlier.index_of(catalog(earlier)[path]);
            assert(reported[i] == catalog(earlier)[path]);
        }
    }
}

/// A directory lists no path twice.
pub proof fn lemma_roll_distinct<D>(reported: Seq<DirectoryEntry<D>>)
    ensures
        roll(reported).no_duplicates(),
    decreases reported.len(),
{
    if reported.len() > 0 {
        lemma_roll_distinct(reported.drop_last());
    }
}

/// Where the platform reports every path once, the directory lists the
/// paths in the order reported, and each leads to the entry at its place.
pub proof fn lemma_distinct_report<D>(reported: Seq<DirectoryEntry<D>>)
    requires
        reported_paths(reported).no_duplicates(),
    ensures
        roll(reported) == reported_paths(reported),
        forall|i: int|
            0 <= i < reported.len() ==> catalog(reported)[#[trigger] reported[i].info.path@]
                == reported[i],
    decreases reported.len(),
{
    let paths = reported_paths(reported);
    if reported.len() > 0 {
        let earlier = reported.drop_last();
        let last = reported.last();
        let n = reported.len() - 1;
        assert(reported_paths(earlier) =~= paths.drop_last());
        lemma_distinct_report(earlier);
        lemma_catalog_paths(earlier, last.info.path@);
        assert(paths[n] == last.info.path@);
        if reported_paths(earlier).contains(last.info.path@) {
            let i = reported_paths(earlier).index_of(last.info.path@);
            assert(paths[i] == paths[n]);
        }
        assert(roll(reported) =~= paths);
        assert forall|i: int| 0 <= i < reported.len() implies catalog(reported)[#[trigger] reported[i].info.path@]
            == reported[i] by {
            if i < n {
                assert(earlier[i] == reported[i]);
                assert(paths[i] == reported[i].info.path@);
            }
        }
    } else {
        assert(roll(reported) =~= paths);
    }
}

/// Replace, not merge: whatever a directory held before, after a report it
/// holds the reported paths and no others. A path that only an earlier
/// report named is gone.
pub proof fn law_replace_not_merge<D>(
    first: Seq<DirectoryEntry<D>>,
    second: Seq<DirectoryEntry<D>>,
    path: Seq<char>,
)
    requires
        reported_paths(first).contains(path),
        !reported_paths(second).contains(path),
    ensures
        catalog(first).contains_key(path),
        !catalog(second).contains_key(path),
        lookup_of(catalog(second), path) == Err::<DirectoryEntry<D>, Error>(Error::HidDeviceNotFound),
{
    lemma_catalog_paths(first, path);
    lemma_catalog_paths(second, path);
}

/// What a lookup answers on a directory with the given entries.
pub open spec fn lookup_of<D>(entries: Map<Seq<char>, DirectoryEntry<D>>, path: Seq<char>) -> Result<
    DirectoryEntry<D>,
    Error,
> {
    if entries.contains_key(path) {
        Ok(entries[path])
    } else {
        Err(Error::HidDeviceNotFound)
    }
}

/// The attached devices as of the last enumeration, by path.
pub struct Directory<D> {
    table: Table<DirectoryEntry<D>>,
}

impl<D> View for Directory<D> {
    type V = Map<Seq<char>, DirectoryEntry<D>>;

    /// The entries by path.
    closed spec fn view(&self) -> Map<Seq<char>, DirectoryEntry<D>> {
        self.table@
    }
}

impl<D> Directory<D> {
    /// The paths in the order in which the directory lists them.
    pub closed spec fn paths(&self) -> Seq<Seq<char>> {
        self.table.keys()
    }

    /// Every entry stands under its own path, once.
    pub closed spec fn wf(&self) -> bool {
        &&& self.table.wf()
        &&& forall|path: Seq<char>| #[trigger]
            self.table@.contains_key(path) ==> self.table@[path].info.path@ == path
    }

    /// What a valid directory guarantees: it lists each of its paths once,
    /// and each entry carries the path it stands under.
    pub proof fn lemma_valid(&self)
        requires
            self.wf(),
        ensures
            self.paths().no_duplicates(),
            forall|path: Seq<char>| self@.contains_key(path) <==> self.paths().contains(path),
            forall|path: Seq<char>| #[trigger] self@.contains_key(path) ==> self@[path].info.path@ == path,
            self@.dom().finite(),
    {
        self.table.lemma_keys();
    }

    /// A directory with no device in it.
    pub fn new() -> (directory: Self)
        ensures
            directory.wf(),
            directory@ == Map::<Seq<char>, DirectoryEntry<D>>::empty(),
            directory.paths() == Seq::<Seq<char>>::empty(),
    {
        Directory { table: Table::new() }
    }

    /// The number of devices.
    pub fn len(&self) -> (n: usize)
        ensures
            n == self.paths().len(),
    {
        self.table.len()
    }

    /// Forgets every device.
    pub fn clear(&mut self)
        ensures
            final(self).wf(),
            final(self)@ == Map::<Seq<char>, DirectoryEntry<D>>::empty(),
            final(self).paths() == Seq::<Seq<char>>::empty(),
    {
        self.table.clear();
    }

    /// Enters one device under its path. An entry already under that path
    /// gives way and keeps its place in the listing; a new path goes last.
    pub fn record(&mut self, entry: DirectoryEntry<D>)
        requires
            old(self).wf(),
        ensures
            final(self).wf(),
            final(self)@ == old(self)@.insert(entry.info.path@, entry),
            final(self).paths() == if old(self)@.contains_key(entry.info.path@) {
                old(self).paths()
            } else {
                old(self).paths().push(entry.info.path@)
            },
    {
        let key = entry.info.path.clone();
        let _ = self.table.insert(key, entry);
    }

    /// Replaces the directory by what the platform reports, and returns the
    /// new listing.
    pub fn refresh(&mut self, reported: Vec<DirectoryEntry<D>>) -> (listing: Vec<HidDeviceInfo>)
        ensures
            final(self).wf(),
            final(self)@ == catalog(reported@),
            final(self).paths() == roll(reported@),
            listing@.len() == roll(reported@).len(),
            forall|i: int|
                0 <= i < listing@.len() ==> {
                    &&& catalog(reported@).contains_key(roll(reported@)[i])
                    &&& #[trigger] listing@[i] == catalog(reported@)[roll(reported@)[i]].info
                },
    {
        let ghost report = reported@;
        self.clear();
        for entry in it: reported.into_iter()
            invariant
                it.seq() == report,
                self.wf(),
                self@ == catalog(report.take(it.index() as int)),
                self.paths() == roll(report.take(it.index() as int)),
        {
            proof {
                let n = it.index() as int;
                assert(report.take(n + 1).drop_last() =~= report.take(n));
                assert(report.take(n + 1).last() == report[n]);
                self.lemma_valid();
            }
            self.record(entry);
        }
        proof {
            assert(report.take(report.len() as int) =~= report);
        }
        self.snapshot()
    }

    /// The entry under `path`.
    pub fn lookup(&self, path: &str) -> (found: Result<&DirectoryEntry<D>, Error>)
        requires
            self.wf(),
        ensures
            match found {
                Ok(entry) => lookup_of(self@, path@) == Ok::<DirectoryEntry<D>, Error>(*entry),
                Err(error) => lookup_of(self@, path@) == Err::<DirectoryEntry<D>, Error>(error),
            },
    {
        let key = path.to_owned();
        match self.table.get(&key) {
            Some(entry) => Ok(entry),
            None => Err(Error::HidDeviceNotFound),
        }
    }

    /// Whether a device stands under `path`.
    pub fn contains(&self, path: &str) -> (present: bool)
        requires
            self.wf(),
        ensures
            present == self@.contains_key(path@),
    {
        let key = path.to_owned();
        self.table.contains_key(&key)
    }

    /// The snapshots of all devices, in the order of the listing.
    pub fn snapshot(&self) -> (listing: Vec<HidDeviceInfo>)
        requires
            self.wf(),
        ensures
            listing@.len() == self.paths().len(),
            forall|i: int|
                0 <= i < listing@.len() ==> {
                    &&& self@.contains_key(self.paths()[i])
                    &&& #[trigger] listing@[i] == self@[self.paths()[i]].info
                },
    {
        let mut listing: Vec<HidDeviceInfo> = Vec::new();
        let mut i: usize = 0;
        while i < self.table.len()
            invariant
                self.wf(),
                i <= self.paths().len(),
                listing@.len() == i,
                forall|j: int|
                    0 <= j < i ==> {
                        &&& self@.contains_key(self.paths()[j])
                        &&& #[trigger] listing@[j] == self@[self.paths()[j]].info
                    },
            decreases self.paths().len() - i,
        {
            let entry = self.table.value_at(i);
            listing.push(entry.info.clone());
            i += 1;
        }
        listing
    }
}

} // verus!
