//! Database snapshots: a consistent view of the database as of the moment
//! the snapshot was taken.

use vstd::prelude::*;
use crate::bytes::{DBPinnableSlice, DBVector};
use crate::column_family::{family_of, ColumnFamily, DEFAULT_FAMILY};
use crate::db::{outcome_view, pinned_outcome_view, DB};
use crate::error::Error;
use crate::ops::multi_get::{MultiGet, MultiGetCF};
use crate::options::{ReadOptions, SnapshotPin};

verus! {

/// The mathematical content of a snapshot.
pub struct SnapshotView {
    /// The sequence number the database had when the snapshot was taken.
    pub sequence: u64,
    /// Whether the snapshot has been released.
    pub released: bool,
}

impl SnapshotView {
    /// What reads through the snapshot are pinned to.
    pub open spec fn pin(self) -> SnapshotPin {
        if self.released {
            SnapshotPin::Released
        } else {
            SnapshotPin::At(self.sequence)
        }
    }

    /// The snapshot after it is released.
    pub open spec fn release(self) -> SnapshotView {
        SnapshotView { released: true, ..self }
    }
}

/// The options of a read through a snapshot: the caller's options, or the
/// defaults where there are none, with the snapshot's pin in place of theirs.
pub open spec fn attached(readopts: Option<&ReadOptions>, pin: SnapshotPin) -> ReadOptions {
    match readopts {
        Some(ro) => ReadOptions { pin, ..*ro },
        None => ReadOptions { pin, total_order_seek: false, readahead_size: 0 },
    }
}

/// A private copy of the caller's read options, or of the defaults where
/// there are none, with `pin` forced onto it.
pub fn attach(readopts: Option<&ReadOptions>, pin: SnapshotPin) -> (ro: ReadOptions)
    ensures
        ro == attached(readopts, pin),
{
    let mut ro = match readopts {
        Some(given) => *given,
        None => ReadOptions::default(),
    };
    ro.set_pin(pin);
    ro
}

/// A consistent view of the database as of the moment it was taken. Reads
/// through it never see a write that was applied later.
#[derive(Debug)]
pub struct Snapshot {
    sequence: u64,
    released: bool,
}

impl View for Snapshot {
    type V = SnapshotView;

    closed spec fn view(&self) -> SnapshotView {
        SnapshotView { sequence: self.sequence, released: self.released }
    }
}

impl ReadOptions {
    /// Pins reads under these options to `snapshot`.
    pub fn set_snapshot(&mut self, snapshot: &Snapshot)
        ensures
            *final(self) == (ReadOptions { pin: snapshot@.pin(), ..*old(self) }),
    {
        self.set_pin(snapshot.pin());
    }
}

impl DB {
    /// Takes a snapshot of the database as it is now.
    pub fn snapshot(&self) -> (s: Snapshot)
        ensures
            s@ == (SnapshotView { sequence: self@.sequence() as u64, released: false }),
            s@.sequence == self@.sequence(),
    {
        Snapshot { sequence: self.latest_sequence_number(), released: false }
    }
}

impl Snapshot {
    /// The sequence number the database had when the snapshot was taken.
    pub fn sequence(&self) -> (s: u64)
        ensures
            s == self@.sequence,
    {
        self.sequence
    }

    /// Whether the snapshot has been released.
    pub fn is_released(&self) -> (b: bool)
        ensures
            b == self@.released,
    {
        self.released
    }

    /// What reads through the snapshot are pinned to.
    pub fn pin(&self) -> (pin: SnapshotPin)
        ensures
            pin == self@.pin(),
    {
        if self.released {
            SnapshotPin::Released
        } else {
            SnapshotPin::At(self.sequence)
        }
    }

    /// Releases the snapshot. Reads through it are refused from now on.
    /// Releasing a snapshot that is already released changes nothing.
    pub fn release(&mut self)
        ensures
            final(self)@ == old(self)@.release(),
            old(self)@.released ==> final(self)@ == old(self)@,
    {
        self.released = true;
    }

    /// Reads `key` as of the snapshot: from family `cf` or, without one, from
    /// the default family. Of `readopts` everything but the pin is kept.
    pub fn get_cf_full(
        &self,
        db: &DB,
        cf: Option<&ColumnFamily>,
        key: &[u8],
        readopts: Option<&ReadOptions>,
    ) -> (r: Result<Option<DBVector>, Error>)
        ensures
            outcome_view(r) == db@.read(self@.pin(), family_of(cf), key@),
    {
        let ro = attach(readopts, self.pin());
        db.get_cf_full(cf, key, Some(&ro))
    }

    /// Reads `key` of the default family as of the snapshot.
    pub fn get(&self, db: &DB, key: &[u8]) -> (r: Result<Option<DBVector>, Error>)
        ensures
            outcome_view(r) == db@.read(self@.pin(), DEFAULT_FAMILY, key@),
    {
        self.get_cf_full(db, None, key, None)
    }

    /// Reads `key` of family `cf` as of the snapshot.
    pub fn get_cf(&self, db: &DB, cf: &ColumnFamily, key: &[u8]) -> (r: Result<
        Option<DBVector>,
        Error,
    >)
        ensures
            outcome_view(r) == db@.read(self@.pin(), cf@, key@),
    {
        self.get_cf_full(db, Some(cf), key, None)
    }

    /// Reads `key` as of the snapshot without copying where that is possible.
    pub fn get_pinned_cf_full<'a>(
        &self,
        db: &'a DB,
        cf: Option<&ColumnFamily>,
        key: &[u8],
        readopts: Option<&ReadOptions>,
    ) -> (r: Result<Option<DBPinnableSlice<'a>>, Error>)
        ensures
            pinned_outcome_view(r) == db@.read(self@.pin(), family_of(cf), key@),
    {
        let ro = attach(readopts, self.pin());
        db.get_pinned_cf_full(cf, key, Some(&ro))
    }

    /// Reads `keys` of the default family as of the snapshot. Of `readopts`
    /// everything but the pin is kept.
    pub fn multi_get_full(&self, db: &DB, keys: &[&[u8]], readopts: Option<&ReadOptions>) -> (out:
        Vec<Result<Option<DBVector>, Error>>)
        ensures
            out@.len() == keys@.len(),
            forall|i: int|
                0 <= i < keys@.len() ==> outcome_view(#[trigger] out@[i]) == db@.read(
                    self@.pin(),
                    DEFAULT_FAMILY,
                    keys@[i]@,
                ),
    {
        let ro = attach(readopts, self.pin());
        db.multi_get_full(keys, Some(&ro))
    }

    /// Reads `keys` of the default family as of the snapshot.
    pub fn multi_get(&self, db: &DB, keys: &[&[u8]]) -> (out: Vec<Result<Option<DBVector>, Error>>)
        ensures
            out@.len() == keys@.len(),
            forall|i: int|
                0 <= i < keys@.len() ==> outcome_view(#[trigger] out@[i]) == db@.read(
                    self@.pin(),
                    DEFAULT_FAMILY,
                    keys@[i]@,
                ),
    {
        self.multi_get_full(db, keys, None)
    }

    /// Reads `keys_cf`, each key from the family given with it, as of the
    /// snapshot. Of `readopts` everything but the pin is kept.
    pub fn multi_get_cf_full(
        &self,
        db: &DB,
        keys_cf: &[(&ColumnFamily, &[u8])],
        readopts: Option<&ReadOptions>,
    ) -> (out: Vec<Result<Option<DBVector>, Error>>)
        ensures
            out@.len() == keys_cf@.len(),
            forall|i: int|
                0 <= i < keys_cf@.len() ==> outcome_view(#[trigger] out@[i]) == db@.read(
                    self@.pin(),
                    keys_cf@[i].0@,
                    keys_cf@[i].1@,
                ),
    {
        let ro = attach(readopts, self.pin());
        db.multi_get_cf_full(keys_cf, Some(&ro))
    }

    /// Reads `keys_cf`, each key from the family given with it, as of the snapshot.
    pub fn multi_get_cf(&self, db: &DB, keys_cf: &[(&ColumnFamily, &[u8])]) -> (out: Vec<
        Result<Option<DBVector>, Error>,
    >)
        ensures
            out@.len() == keys_cf@.len(),
            forall|i: int|
                0 <= i < keys_cf@.len() ==> outcome_view(#[trigger] out@[i]) == db@.read(
                    self@.pin(),
                    keys_cf@[i].0@,
                    keys_cf@[i].1@,
                ),
    {
        self.multi_get_cf_full(db, keys_cf, None)
    }
}

} // verus!
