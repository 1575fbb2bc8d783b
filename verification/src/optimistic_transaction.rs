//! Optimistic transactions: writes are buffered, reads see the buffer over
//! the committed state, and conflicts with other writers are looked for only
//! when the transaction commits.

use vstd::prelude::*;
use crate::bytes::{copy_bytes, DBPinnableSlice, DBVector};
use crate::column_family::{family_id, family_of, ColumnFamily, DEFAULT_FAMILY};
use crate::db::{outcome_view, pinned_outcome_view, DbView, DB};
use crate::error::{
    conflict_text, no_savepoint_text, unknown_family_text, Error, ErrorKind, ErrorView,
};
use crate::options::{
    effective_pin, OptimisticTransactionOptions, ReadOptions, SnapshotPin, WriteOptions,
};
use crate::snapshot::{attach, SnapshotView};
use crate::write_batch::{
    apply_ops, delete_op, fold_ops, lemma_ops_view, merge_op, ops_view, put_op, touch_op,
    WriteBatch, WriteBatchView, WriteOp, WriteOpView,
};

verus! {

/// Why a transaction keeps a key in its tracking set.
#[derive(Clone, Copy, Debug, PartialEq, Eq, Structural)]
pub enum TrackMode {
    /// The key was read; the read takes no part in conflict detection.
    Read,
    /// The key was read for update without a claim to it: the commit fails
    /// if someone else modified the key, and leaves no mark on it.
    Shared,
    /// The key was read for update with a claim to it: the commit fails if
    /// someone else modified the key, and marks the key as modified.
    Exclusive,
}

/// An entry of a transaction's tracking set.
#[derive(Debug)]
pub struct TrackedKey {
    pub cf: u64,
    pub key: Vec<u8>,
    /// The sequence number of the state the read was made against.
    pub sequence: u64,
    pub mode: TrackMode,
}

/// The mathematical content of a [`TrackedKey`].
pub struct TrackedView {
    pub cf: u64,
    pub key: Seq<u8>,
    pub sequence: u64,
    pub mode: TrackMode,
}

impl View for TrackedKey {
    type V = TrackedView;

    open spec fn view(&self) -> TrackedView {
        TrackedView { cf: self.cf, key: self.key@, sequence: self.sequence, mode: self.mode }
    }
}

/// The contents of a tracking set.
pub open spec fn watch_view(watched: Seq<TrackedKey>) -> Seq<TrackedView> {
    watched.map_values(|t: TrackedKey| t@)
}

/// The marks a commit leaves on the keys it has a claim to, in the order in
/// which the claims were made.
pub open spec fn touch_ops(watched: Seq<TrackedView>) -> Seq<WriteOpView>
    decreases watched.len(),
{
    if watched.len() == 0 {
        Seq::empty()
    } else {
        let earlier = touch_ops(watched.drop_last());
        if watched.last().mode == TrackMode::Exclusive {
            earlier.push(touch_op(watched.last().cf, watched.last().key))
        } else {
            earlier
        }
    }
}

/// The keys that a multi-get of the default family reads.
pub open spec fn default_reads(keys: Seq<&[u8]>) -> Seq<(u64, Seq<u8>)> {
    Seq::new(keys.len(), |i: int| (DEFAULT_FAMILY, keys[i]@))
}

/// The keys that a multi-get over column families reads.
pub open spec fn family_reads(keys_cf: Seq<(&ColumnFamily, &[u8])>) -> Seq<(u64, Seq<u8>)> {
    Seq::new(keys_cf.len(), |i: int| (keys_cf[i].0@, keys_cf[i].1@))
}

/// The mathematical content of a transaction.
pub struct TxnView {
    /// The buffered writes and the savepoints set among them.
    pub buffer: WriteBatchView,
    /// The tracking set, oldest entry first.
    pub watched: Seq<TrackedView>,
    /// For each buffered write, in the order of the buffer, the sequence
    /// number of the state its key is checked against at commit.
    pub stamps: Seq<u64>,
    /// The sequence number of the state the transaction started from.
    pub start: u64,
    /// Whether the transaction holds on to the state it started from: its
    /// writes and its reads for update are then checked against that state
    /// rather than against the state they were made on, and its snapshot is
    /// of that state. A transaction holds on to its start from its
    /// beginning, where it is begun so, until it is committed or rolled back.
    pub pinned: bool,
}

impl TxnView {
    /// The savepoints of the transaction are in order and within its
    /// buffer, and every buffered write has its stamp.
    pub open spec fn wf(self) -> bool {
        self.buffer.wf() && self.stamps.len() == self.buffer.ops.len()
    }

    /// A transaction that has done nothing yet.
    pub open spec fn begun(start: u64, pinned: bool) -> TxnView {
        TxnView {
            buffer: WriteBatchView::empty(),
            watched: Seq::empty(),
            stamps: Seq::empty(),
            start,
            pinned,
        }
    }

    /// The sequence number of the state that what the transaction does on
    /// the state `db` is measured from: that of its start where it holds on
    /// to it, and otherwise that of `db`.
    pub open spec fn anchor(self, db: DbView) -> u64 {
        if self.pinned {
            self.start
        } else {
            db.sequence() as u64
        }
    }

    /// What the transaction reads for `key` of family `cf` under `pin`: its
    /// own buffered writes applied over what the database yields.
    pub open spec fn read(self, db: DbView, pin: SnapshotPin, cf: u64, key: Seq<u8>) -> Result<
        Option<Seq<u8>>,
        ErrorView,
    > {
        match db.read(pin, cf, key) {
            Ok(base) => Ok(apply_ops(db.merge_operator, base, self.buffer.ops, cf, key)),
            Err(e) => Err(e),
        }
    }

    /// The transaction after the write `op` is buffered with the stamp `stamp`.
    pub open spec fn with_write(self, op: WriteOpView, stamp: u64) -> TxnView {
        TxnView { buffer: self.buffer.with_op(op), stamps: self.stamps.push(stamp), ..self }
    }

    /// The transaction after the write `op` is buffered while the database
    /// is in the state `db`: at commit the key of the write is checked
    /// against that state, or against the start of the transaction where
    /// the transaction holds on to it.
    pub open spec fn buffered(self, db: DbView, op: WriteOpView) -> TxnView {
        self.with_write(op, self.anchor(db))
    }

    /// The transaction after the writes `ops` are buffered in order while
    /// the database is in the state `db`.
    pub open spec fn with_writes(self, db: DbView, ops: Seq<WriteOpView>) -> TxnView
        decreases ops.len(),
    {
        if ops.len() == 0 {
            self
        } else {
            self.with_writes(db, ops.drop_last()).buffered(db, ops.last())
        }
    }

    /// The transaction after one more entry joins its tracking set.
    pub open spec fn with_watch(self, entry: TrackedView) -> TxnView {
        TxnView { watched: self.watched.push(entry), ..self }
    }

    /// The transaction after a savepoint is set.
    pub open spec fn with_savepoint(self) -> TxnView {
        TxnView { buffer: self.buffer.with_savepoint(), ..self }
    }

    /// The transaction after it is rolled back to its latest savepoint.
    pub open spec fn rolled_back_to_savepoint(self) -> TxnView
        recommends
            self.buffer.savepoints.len() > 0,
    {
        TxnView {
            buffer: self.buffer.rolled_back(),
            stamps: if self.buffer.rolled_back().ops.len() <= self.stamps.len() {
                self.stamps.take(self.buffer.rolled_back().ops.len() as int)
            } else {
                self.stamps
            },
            ..self
        }
    }

    /// The transaction after it is rolled back altogether: nothing is
    /// buffered or tracked any more, and the transaction no longer holds on
    /// to the state it started from.
    pub open spec fn rolled_back(self) -> TxnView {
        TxnView {
            buffer: WriteBatchView::empty(),
            watched: Seq::empty(),
            stamps: Seq::empty(),
            start: self.start,
            pinned: false,
        }
    }

    /// The transaction after a plain read of `key` of family `cf` under
    /// `pin`: a read of the latest state that succeeds is noted in the
    /// tracking set, a read pinned to a snapshot is not.
    pub open spec fn after_get(self, db: DbView, pin: SnapshotPin, cf: u64, key: Seq<u8>) -> TxnView {
        if pin is Latest && db.has_family(cf) {
            self.with_watch(
                TrackedView { cf, key, sequence: db.sequence() as u64, mode: TrackMode::Read },
            )
        } else {
            self
        }
    }

    /// The transaction after plain reads of `reads` under `pin`, in order.
    pub open spec fn after_gets(self, db: DbView, pin: SnapshotPin, reads: Seq<(u64, Seq<u8>)>) -> TxnView
        decreases reads.len(),
    {
        if reads.len() == 0 {
            self
        } else {
            self.after_gets(db, pin, reads.drop_last()).after_get(
                db,
                pin,
                reads.last().0,
                reads.last().1,
            )
        }
    }

    /// The sequence number a read for update under `pin` is checked against
    /// at commit: that of the snapshot the read is pinned to; otherwise that
    /// of the start of the transaction where the transaction holds on to
    /// it; otherwise that of the database at the time of the read.
    pub open spec fn lock_sequence(self, db: DbView, pin: SnapshotPin) -> u64 {
        match pin {
            SnapshotPin::At(s) => s,
            _ => self.anchor(db),
        }
    }

    /// The transaction after a read for update of `key` of family `cf` under
    /// `pin`: a read that succeeds registers the key for the commit's check.
    pub open spec fn after_get_for_update(
        self,
        db: DbView,
        pin: SnapshotPin,
        cf: u64,
        key: Seq<u8>,
        exclusive: bool,
    ) -> TxnView {
        if db.pin_refusal(pin) is None && db.has_family(cf) {
            self.with_watch(
                TrackedView {
                    cf,
                    key,
                    sequence: self.lock_sequence(db, pin),
                    mode: if exclusive {
                        TrackMode::Exclusive
                    } else {
                        TrackMode::Shared
                    },
                },
            )
        } else {
            self
        }
    }

    /// Whether a key registered by a read for update was modified after the
    /// state that read was checked against.
    pub open spec fn read_conflict(self, db: DbView) -> bool {
        exists|i: int|
            0 <= i < self.watched.len() && (#[trigger] self.watched[i]).mode != TrackMode::Read
                && db.modified_since(
                self.watched[i].sequence as nat,
                self.watched[i].cf,
                self.watched[i].key,
            )
    }

    /// Whether a key with a buffered write was modified after the state
    /// that write is checked against: the state on which the write was
    /// buffered, or the start of the transaction where the transaction held
    /// on to it.
    pub open spec fn write_conflict(self, db: DbView) -> bool {
        exists|j: int|
            0 <= j < self.buffer.ops.len() && j < self.stamps.len() && db.modified_since(
                self.stamps[j] as nat,
                (#[trigger] self.buffer.ops[j]).cf,
                self.buffer.ops[j].key,
            )
    }

    /// The sequence number a snapshot taken from the transaction on the
    /// state `db` is of: that of the start of the transaction where the
    /// transaction holds on to it, and otherwise that of `db`, the state at
    /// the time the snapshot is taken.
    pub open spec fn snapshot_sequence(self, db: DbView) -> u64 {
        self.anchor(db)
    }

    /// Whether a commit against `db` finds a conflict.
    pub open spec fn conflicts(self, db: DbView) -> bool {
        self.read_conflict(db) || self.write_conflict(db)
    }

    /// The writes a commit applies: the buffered writes, then the marks on
    /// the keys the transaction has a claim to.
    pub open spec fn commit_ops(self) -> Seq<WriteOpView> {
        self.buffer.ops + touch_ops(self.watched)
    }

    /// Whether a commit against `db` succeeds, and the error with which it
    /// fails where it does not: a conflict comes first, then a write to a
    /// family the database does not have.
    pub open spec fn commit_outcome(self, db: DbView) -> Result<(), ErrorView> {
        if self.conflicts(db) {
            Err(ErrorView { kind: ErrorKind::Conflict, message: conflict_text() })
        } else if !db.accepts(self.commit_ops()) {
            Err(ErrorView { kind: ErrorKind::Validation, message: unknown_family_text() })
        } else {
            Ok(())
        }
    }

    /// The database after a commit against it succeeded.
    pub open spec fn committed_db(self, db: DbView) -> DbView {
        db.with_ops(self.commit_ops())
    }

    /// The transaction after a commit against `db` succeeded: nothing is
    /// buffered or tracked any more, the transaction starts afresh from the
    /// state it produced and no longer holds on to a start.
    pub open spec fn committed(self, db: DbView) -> TxnView {
        TxnView {
            buffer: WriteBatchView::empty(),
            watched: Seq::empty(),
            stamps: Seq::empty(),
            start: self.committed_db(db).sequence() as u64,
            pinned: false,
        }
    }
}

/// A buffered, isolated unit of work on a database. Conflicts with other
/// writers are detected when it commits.
pub struct OptimisticTransaction {
    buffer: WriteBatch,
    watched: Vec<TrackedKey>,
    stamps: Vec<u64>,
    start: u64,
    pinned: bool,
}

impl View for OptimisticTransaction {
    type V = TxnView;

    closed spec fn view(&self) -> TxnView {
        TxnView {
            buffer: self.buffer@,
            watched: watch_view(self.watched@),
            stamps: self.stamps@,
            start: self.start,
            pinned: self.pinned,
        }
    }
}

/// The contents of a tracking set that grew by one.
proof fn lemma_watch_view_push(watched: Seq<TrackedKey>, entry: TrackedKey)
    ensures
        watch_view(watched.push(entry)) == watch_view(watched).push(entry@),
{
    assert(watch_view(watched.push(entry)) =~= watch_view(watched).push(entry@));
}

/// A run of writes is accepted exactly when both of its halves are.
pub proof fn lemma_accepts_concat(db: DbView, first: Seq<WriteOpView>, second: Seq<WriteOpView>)
    ensures
        db.accepts(first + second) <==> db.accepts(first) && db.accepts(second),
{
    if db.accepts(first + second) {
        assert forall|i: int| 0 <= i < first.len() implies db.has_family((#[trigger] first[i]).cf) by {
            assert((first + second)[i] == first[i]);
        }
        assert forall|i: int| 0 <= i < second.len() implies db.has_family(
            (#[trigger] second[i]).cf,
        ) by {
            assert((first + second)[first.len() + i] == second[i]);
        }
    }
    if db.accepts(first) && db.accepts(second) {
        assert forall|i: int| 0 <= i < (first + second).len() implies db.has_family(
            (#[trigger] (first + second)[i]).cf,
        ) by {
            if i < first.len() {
                assert((first + second)[i] == first[i]);
            } else {
                assert((first + second)[i] == second[i - first.len()]);
            }
        }
    }
}

impl DB {
    /// Begins a transaction with the default options.
    pub fn transaction_default(&self) -> (txn: OptimisticTransaction)
        ensures
            txn@ == TxnView::begun(self@.sequence() as u64, false),
            txn@.start == self@.sequence(),
            txn@.wf(),
    {
        OptimisticTransaction::new(self.latest_sequence_number(), false)
    }

    /// Begins a transaction. With `set_snapshot` the transaction holds on to
    /// the state it starts from: its writes and its reads for update are
    /// checked against that state, and its snapshot is of that state.
    pub fn transaction(&self, writeopts: &WriteOptions, options: &OptimisticTransactionOptions) -> (txn:
        OptimisticTransaction)
        ensures
            txn@ == TxnView::begun(self@.sequence() as u64, options.set_snapshot),
            txn@.start == self@.sequence(),
            txn@.wf(),
    {
        OptimisticTransaction::new(self.latest_sequence_number(), options.set_snapshot)
    }
}

impl OptimisticTransaction {
    /// A transaction that starts from the state with sequence number `start`.
    pub fn new(start: u64, pinned: bool) -> (txn: OptimisticTransaction)
        ensures
            txn@ == TxnView::begun(start, pinned),
            txn@.wf(),
    {
        let txn = OptimisticTransaction {
            buffer: WriteBatch::new(),
            watched: Vec::new(),
            stamps: Vec::new(),
            start,
            pinned,
        };
        assert(txn@.watched =~= Seq::empty());
        txn
    }

    /// The sequence number of the state the transaction started from.
    pub fn start_sequence(&self) -> (s: u64)
        ensures
            s == self@.start,
    {
        self.start
    }

    /// Number of writes the transaction has buffered.
    pub fn buffered(&self) -> (n: usize)
        ensures
            n == self@.buffer.ops.len(),
    {
        self.buffer.len()
    }

    /// Number of entries in the tracking set.
    pub fn watched_len(&self) -> (n: usize)
        ensures
            n == self@.watched.len(),
    {
        self.watched.len()
    }

    /// The buffered writes, oldest first.
    pub(crate) fn buffered_ops(&self) -> (ops: &Vec<WriteOp>)
        ensures
            ops_view(ops@) == self@.buffer.ops,
    {
        self.buffer.ops()
    }

    fn track(&mut self, cf: u64, key: &[u8], sequence: u64, mode: TrackMode)
        ensures
            final(self)@ == old(self)@.with_watch(TrackedView { cf, key: key@, sequence, mode }),
    {
        let entry = TrackedKey { cf, key: copy_bytes(key), sequence, mode };
        proof {
            lemma_watch_view_push(self.watched@, entry);
        }
        self.watched.push(entry);
    }

    /// Reads `key` of family `cf` under `pin` through the transaction's own
    /// buffered writes, without noting the read.
    pub fn peek<'a>(&'a self, db: &'a DB, pin: SnapshotPin, cf: u64, key: &[u8]) -> (r: Result<
        Option<DBPinnableSlice<'a>>,
        Error,
    >)
        ensures
            pinned_outcome_view(r) == self@.read(db@, pin, cf, key@),
    {
        let ro = attach(None, pin);
        let handle = ColumnFamily::from_id(cf);
        match db.get_pinned_cf_full(Some(&handle), key, Some(&ro)) {
            Err(e) => Err(e),
            Ok(base) => {
                let ops = self.buffer.ops();
                proof {
                    lemma_ops_view(ops@);
                    assert(ops_view(ops@).take(ops@.len() as int) =~= ops_view(ops@));
                }
                Ok(fold_ops(db.merge_operator(), base, ops, ops.len(), cf, key))
            },
        }
    }

    /// Reads `key` through the transaction without copying where that is
    /// possible: from family `cf` or, without one, from the default family;
    /// under `readopts` or, without them, from the latest committed state.
    /// The read is not noted in the tracking set.
    pub fn get_pinned_cf_full<'a>(
        &'a self,
        db: &'a DB,
        cf: Option<&ColumnFamily>,
        key: &[u8],
        readopts: Option<&ReadOptions>,
    ) -> (r: Result<Option<DBPinnableSlice<'a>>, Error>)
        ensures
            pinned_outcome_view(r) == self@.read(db@, effective_pin(readopts), family_of(cf), key@),
    {
        let pin = match readopts {
            Some(ro) => ro.pin,
            None => SnapshotPin::Latest,
        };
        self.peek(db, pin, family_id(cf), key)
    }

    /// Reads `key` of the default family through the transaction without copying.
    pub fn get_pinned<'a>(&'a self, db: &'a DB, key: &[u8]) -> (r: Result<
        Option<DBPinnableSlice<'a>>,
        Error,
    >)
        ensures
            pinned_outcome_view(r) == self@.read(db@, SnapshotPin::Latest, DEFAULT_FAMILY, key@),
    {
        self.get_pinned_cf_full(db, None, key, None)
    }

    /// Reads `key` of family `cf` through the transaction without copying.
    pub fn get_pinned_cf<'a>(&'a self, db: &'a DB, cf: &ColumnFamily, key: &[u8]) -> (r: Result<
        Option<DBPinnableSlice<'a>>,
        Error,
    >)
        ensures
            pinned_outcome_view(r) == self@.read(db@, SnapshotPin::Latest, cf@, key@),
    {
        self.get_pinned_cf_full(db, Some(cf), key, None)
    }

    fn fetch(&self, db: &DB, pin: SnapshotPin, cf: u64, key: &[u8]) -> (r: Result<
        Option<DBVector>,
        Error,
    >)
        ensures
            outcome_view(r) == self@.read(db@, pin, cf, key@),
    {
        match self.peek(db, pin, cf, key) {
            Ok(Some(held)) => Ok(Some(DBVector::from_vec(held.to_vec()))),
            Ok(None) => Ok(None),
            Err(e) => Err(e),
        }
    }

    /// Reads `key` through the transaction: from family `cf` or, without
    /// one, from the default family; under `readopts` or, without them, from
    /// the latest committed state. The transaction's own buffered writes are
    /// seen. No claim to the key is made; a read of the latest state that
    /// succeeds is noted in the tracking set.
    pub fn get_cf_full(
        &mut self,
        db: &DB,
        cf: Option<&ColumnFamily>,
        key: &[u8],
        readopts: Option<&ReadOptions>,
    ) -> (r: Result<Option<DBVector>, Error>)
        ensures
            outcome_view(r) == old(self)@.read(
                db@,
                effective_pin(readopts),
                family_of(cf),
                key@,
            ),
            final(self)@ == old(self)@.after_get(
                db@,
                effective_pin(readopts),
                family_of(cf),
                key@,
            ),
            old(self)@.wf() ==> final(self)@.wf(),
    {
        let pin = match readopts {
            Some(ro) => ro.pin,
            None => SnapshotPin::Latest,
        };
        let id = family_id(cf);
        let r = self.fetch(db, pin, id, key);
        if r.is_ok() {
            match pin {
                SnapshotPin::Latest => {
                    self.track(id, key, db.latest_sequence_number(), TrackMode::Read);
                },
                _ => {},
            }
        }
        r
    }

    /// Reads `key` of the default family from the latest committed state
    /// through the transaction.
    pub fn get(&mut self, db: &DB, key: &[u8]) -> (r: Result<Option<DBVector>, Error>)
        ensures
            outcome_view(r) == old(self)@.read(db@, SnapshotPin::Latest, DEFAULT_FAMILY, key@),
            final(self)@ == old(self)@.after_get(db@, SnapshotPin::Latest, DEFAULT_FAMILY, key@),
            old(self)@.wf() ==> final(self)@.wf(),
    {
        self.get_cf_full(db, None, key, None)
    }

    /// Reads `key` of family `cf` from the latest committed state through
    /// the transaction.
    pub fn get_cf(&mut self, db: &DB, cf: &ColumnFamily, key: &[u8]) -> (r: Result<
        Option<DBVector>,
        Error,
    >)
        ensures
            outcome_view(r) == old(self)@.read(db@, SnapshotPin::Latest, cf@, key@),
            final(self)@ == old(self)@.after_get(db@, SnapshotPin::Latest, cf@, key@),
            old(self)@.wf() ==> final(self)@.wf(),
    {
        self.get_cf_full(db, Some(cf), key, None)
    }

    /// Reads `key` of the default family under `readopts` through the transaction.
    pub fn get_opt(&mut self, db: &DB, key: &[u8], readopts: &ReadOptions) -> (r: Result<
        Option<DBVector>,
        Error,
    >)
        ensures
            outcome_view(r) == old(self)@.read(db@, readopts.pin, DEFAULT_FAMILY, key@),
            final(self)@ == old(self)@.after_get(db@, readopts.pin, DEFAULT_FAMILY, key@),
            old(self)@.wf() ==> final(self)@.wf(),
    {
        self.get_cf_full(db, None, key, Some(readopts))
    }

    /// Reads `key` of family `cf` under `readopts` through the transaction.
    pub fn get_cf_opt(&mut self, db: &DB, cf: &ColumnFamily, key: &[u8], readopts: &ReadOptions) -> (r:
        Result<Option<DBVector>, Error>)
        ensures
            outcome_view(r) == old(self)@.read(db@, readopts.pin, cf@, key@),
            final(self)@ == old(self)@.after_get(db@, readopts.pin, cf@, key@),
            old(self)@.wf() ==> final(self)@.wf(),
    {
        self.get_cf_full(db, Some(cf), key, Some(readopts))
    }

    /// Get For Update
    /// ReadOptions: Default
    /// exclusive: true
    pub fn get_for_update(&mut self, db: &DB, key: &[u8]) -> (r: Result<Option<DBVector>, Error>)
        ensures
            outcome_view(r) == old(self)@.read(db@, SnapshotPin::Latest, DEFAULT_FAMILY, key@),
            final(self)@ == old(self)@.after_get_for_update(
                db@,
                SnapshotPin::Latest,
                DEFAULT_FAMILY,
                key@,
                true,
            ),
            old(self)@.wf() ==> final(self)@.wf(),
    {
        let opt = ReadOptions::default();
        self.get_for_update_opt(db, key, &opt, true)
    }

    /// Get For Update with custom ReadOptions and exclusive: reads `key` of
    /// the default family as a plain read does and, where the read succeeds,
    /// registers the key for the commit's conflict check. With `exclusive`
    /// the commit also marks the key as modified, so that every other
    /// transaction that holds a read for update of the key fails to commit.
    pub fn get_for_update_opt(&mut self, db: &DB, key: &[u8], readopts: &ReadOptions, exclusive: bool) -> (r:
        Result<Option<DBVector>, Error>)
        ensures
            outcome_view(r) == old(self)@.read(db@, readopts.pin, DEFAULT_FAMILY, key@),
            final(self)@ == old(self)@.after_get_for_update(
                db@,
                readopts.pin,
                DEFAULT_FAMILY,
                key@,
                exclusive,
            ),
            old(self)@.wf() ==> final(self)@.wf(),
    {
        self.lock(db, DEFAULT_FAMILY, key, readopts.pin, exclusive)
    }

    /// Get For Update in family `cf`, with the default options and a claim
    /// to the key.
    pub fn get_for_update_cf(&mut self, db: &DB, cf: &ColumnFamily, key: &[u8]) -> (r: Result<
        Option<DBVector>,
        Error,
    >)
        ensures
            outcome_view(r) == old(self)@.read(db@, SnapshotPin::Latest, cf@, key@),
            final(self)@ == old(self)@.after_get_for_update(
                db@,
                SnapshotPin::Latest,
                cf@,
                key@,
                true,
            ),
            old(self)@.wf() ==> final(self)@.wf(),
    {
        let opt = ReadOptions::default();
        self.get_for_update_cf_opt(db, cf, key, &opt, true)
    }

    /// Get For Update in family `cf` with custom ReadOptions and exclusive.
    pub fn get_for_update_cf_opt(
        &mut self,
        db: &DB,
        cf: &ColumnFamily,
        key: &[u8],
        readopts: &ReadOptions,
        exclusive: bool,
    ) -> (r: Result<Option<DBVector>, Error>)
        ensures
            outcome_view(r) == old(self)@.read(db@, readopts.pin, cf@, key@),
            final(self)@ == old(self)@.after_get_for_update(
                db@,
                readopts.pin,
                cf@,
                key@,
                exclusive,
            ),
            old(self)@.wf() ==> final(self)@.wf(),
    {
        self.lock(db, cf.id(), key, readopts.pin, exclusive)
    }

    fn lock(&mut self, db: &DB, cf: u64, key: &[u8], pin: SnapshotPin, exclusive: bool) -> (r: Result<
        Option<DBVector>,
        Error,
    >)
        ensures
            outcome_view(r) == old(self)@.read(db@, pin, cf, key@),
            final(self)@ == old(self)@.after_get_for_update(db@, pin, cf, key@, exclusive),
            old(self)@.wf() ==> final(self)@.wf(),
    {
        let r = self.fetch(db, pin, cf, key);
        if r.is_ok() {
            let sequence = match pin {
                SnapshotPin::At(s) => s,
                _ => self.anchor(db),
            };
            let mode = if exclusive {
                TrackMode::Exclusive
            } else {
                TrackMode::Shared
            };
            self.track(cf, key, sequence, mode);
        }
        r
    }

    /// The sequence number that what the transaction does on `db` is measured from.
    fn anchor(&self, db: &DB) -> (sequence: u64)
        ensures
            sequence == self@.anchor(db@),
    {
        if self.pinned {
            self.start
        } else {
            db.latest_sequence_number()
        }
    }

    fn buffer_write(&mut self, db: &DB, op: WriteOp)
        ensures
            final(self)@ == old(self)@.buffered(db@, op@),
            old(self)@.wf() ==> final(self)@.wf(),
    {
        let stamp = self.anchor(db);
        self.buffer.push(op);
        self.stamps.push(stamp);
    }

    /// Buffers a put of `value` under `key`: in family `cf` or, without one,
    /// in the default family. The database is looked at for its sequence
    /// number, against which the key is checked at commit, and is not
    /// changed.
    pub fn put_cf_full(
        &mut self,
        db: &DB,
        cf: Option<&ColumnFamily>,
        key: &[u8],
        value: &[u8],
        writeopts: Option<&()>,
    ) -> (r: Result<(), Error>)
        ensures
            r is Ok,
            final(self)@ == old(self)@.buffered(db@, put_op(family_of(cf), key@, value@)),
            old(self)@.wf() ==> final(self)@.wf(),
    {
        self.buffer_write(db, WriteOp::put(family_id(cf), key, value));
        Ok(())
    }

    /// Buffers a put of `value` under `key` of the default family.
    pub fn put(&mut self, db: &DB, key: &[u8], value: &[u8]) -> (r: Result<(), Error>)
        ensures
            r is Ok,
            final(self)@ == old(self)@.buffered(db@, put_op(DEFAULT_FAMILY, key@, value@)),
            old(self)@.wf() ==> final(self)@.wf(),
    {
        self.put_cf_full(db, None, key, value, None)
    }

    /// Buffers a put of `value` under `key` of family `cf`.
    pub fn put_cf(&mut self, db: &DB, cf: &ColumnFamily, key: &[u8], value: &[u8]) -> (r: Result<
        (),
        Error,
    >)
        ensures
            r is Ok,
            final(self)@ == old(self)@.buffered(db@, put_op(cf@, key@, value@)),
            old(self)@.wf() ==> final(self)@.wf(),
    {
        self.put_cf_full(db, Some(cf), key, value, None)
    }

    /// Buffers a merge of `operand` into `key`: in family `cf` or, without
    /// one, in the default family. The database is looked at for its
    /// sequence number and is not changed.
    pub fn merge_cf_full(
        &mut self,
        db: &DB,
        cf: Option<&ColumnFamily>,
        key: &[u8],
        operand: &[u8],
        writeopts: Option<&()>,
    ) -> (r: Result<(), Error>)
        ensures
            r is Ok,
            final(self)@ == old(self)@.buffered(db@, merge_op(family_of(cf), key@, operand@)),
            old(self)@.wf() ==> final(self)@.wf(),
    {
        self.buffer_write(db, WriteOp::merge(family_id(cf), key, operand));
        Ok(())
    }

    /// Buffers a merge of `operand` into `key` of the default family.
    pub fn merge(&mut self, db: &DB, key: &[u8], operand: &[u8]) -> (r: Result<(), Error>)
        ensures
            r is Ok,
            final(self)@ == old(self)@.buffered(db@, merge_op(DEFAULT_FAMILY, key@, operand@)),
            old(self)@.wf() ==> final(self)@.wf(),
    {
        self.merge_cf_full(db, None, key, operand, None)
    }

    /// Buffers a merge of `operand` into `key` of family `cf`.
    pub fn merge_cf(&mut self, db: &DB, cf: &ColumnFamily, key: &[u8], operand: &[u8]) -> (r: Result<
        (),
        Error,
    >)
        ensures
            r is Ok,
            final(self)@ == old(self)@.buffered(db@, merge_op(cf@, key@, operand@)),
            old(self)@.wf() ==> final(self)@.wf(),
    {
        self.merge_cf_full(db, Some(cf), key, operand, None)
    }

    /// Buffers the removal of `key`: from family `cf` or, without one, from
    /// the default family. The database is looked at for its sequence
    /// number and is not changed.
    pub fn delete_cf_full(
        &mut self,
        db: &DB,
        cf: Option<&ColumnFamily>,
        key: &[u8],
        writeopts: Option<&()>,
    ) -> (r: Result<(), Error>)
        ensures
            r is Ok,
            final(self)@ == old(self)@.buffered(db@, delete_op(family_of(cf), key@)),
            old(self)@.wf() ==> final(self)@.wf(),
    {
        self.buffer_write(db, WriteOp::delete(family_id(cf), key));
        Ok(())
    }

    /// Buffers the removal of `key` from the default family.
    pub fn delete(&mut self, db: &DB, key: &[u8]) -> (r: Result<(), Error>)
        ensures
            r is Ok,
            final(self)@ == old(self)@.buffered(db@, delete_op(DEFAULT_FAMILY, key@)),
            old(self)@.wf() ==> final(self)@.wf(),
    {
        self.delete_cf_full(db, None, key, None)
    }

    /// Buffers the removal of `key` from family `cf`.
    pub fn delete_cf(&mut self, db: &DB, cf: &ColumnFamily, key: &[u8]) -> (r: Result<(), Error>)
        ensures
            r is Ok,
            final(self)@ == old(self)@.buffered(db@, delete_op(cf@, key@)),
            old(self)@.wf() ==> final(self)@.wf(),
    {
        self.delete_cf_full(db, Some(cf), key, None)
    }

    /// Set savepoint for transaction
    pub fn set_savepoint(&mut self)
        ensures
            final(self)@ == old(self)@.with_savepoint(),
            old(self)@.wf() ==> final(self)@.wf(),
    {
        self.buffer.set_save_point();
    }

    /// Transaction rollback to savepoint: the writes buffered since the
    /// latest savepoint are dropped and that savepoint is used up. Without a
    /// savepoint the call is refused and nothing changes.
    pub fn rollback_to_savepoint(&mut self) -> (r: Result<(), Error>)
        ensures
            old(self)@.buffer.savepoints.len() > 0 <==> r is Ok,
            r is Ok ==> final(self)@ == old(self)@.rolled_back_to_savepoint(),
            r matches Err(e) ==> final(self)@ == old(self)@ && e@ == (ErrorView {
                kind: ErrorKind::Misuse,
                message: no_savepoint_text(),
            }),
            old(self)@.wf() ==> final(self)@.wf(),
    {
        match self.buffer.rollback_to_save_point() {
            Err(e) => Err(e),
            Ok(_) => {
                let kept = self.buffer.len();
                self.stamps.truncate(kept);
                proof {
                    if kept <= old(self).stamps@.len() {
                        assert(self.stamps@ =~= old(self).stamps@.take(kept as int));
                    }
                }
                Ok(())
            },
        }
    }

    /// Transaction rollback: every buffered write, every savepoint and the
    /// tracking set are dropped, and the transaction lets go of the state
    /// it started from. The transaction can be used again: what it does
    /// from now on is measured from the state it is done on.
    pub fn rollback(&mut self) -> (r: Result<(), Error>)
        ensures
            r is Ok,
            final(self)@ == old(self)@.rolled_back(),
            final(self)@.wf(),
    {
        self.buffer.clear();
        self.watched.clear();
        self.stamps.clear();
        self.pinned = false;
        assert(self@.watched =~= Seq::empty());
        assert(self@.stamps =~= Seq::empty());
        Ok(())
    }
}

/// The marks of a tracking set that grew by one entry.
proof fn lemma_touch_ops_push(watched: Seq<TrackedView>, entry: TrackedView)
    ensures
        touch_ops(watched.push(entry)) == if entry.mode == TrackMode::Exclusive {
            touch_ops(watched).push(touch_op(entry.cf, entry.key))
        } else {
            touch_ops(watched)
        },
{
    assert(watched.push(entry).drop_last() =~= watched);
}

impl OptimisticTransaction {
    /// Whether a commit against `db` would find a conflict.
    pub fn conflicts(&self, db: &DB) -> (hit: bool)
        ensures
            hit == self@.conflicts(db@),
    {
        let ghost entries = self@.watched;
        let mut i: usize = 0;
        while i < self.watched.len()
            invariant
                i <= self.watched@.len(),
                entries == self@.watched,
                entries.len() == self.watched@.len(),
                forall|k: int|
                    0 <= k < i ==> !((#[trigger] entries[k]).mode != TrackMode::Read
                        && db@.modified_since(entries[k].sequence as nat, entries[k].cf, entries[k].key)),
            decreases self.watched@.len() - i,
        {
            let entry = &self.watched[i];
            assert(entries[i as int] == entry@);
            let checked = match entry.mode {
                TrackMode::Read => false,
                _ => true,
            };
            if checked && db.modified_since(entry.sequence, entry.cf, entry.key.as_slice()) {
                return true;
            }
            i += 1;
        }
        let ops = self.buffer.ops();
        let ghost writes = self@.buffer.ops;
        let mut j: usize = 0;
        proof {
            lemma_ops_view(ops@);
        }
        while j < ops.len() && j < self.stamps.len()
            invariant
                j <= ops@.len(),
                j <= self.stamps@.len(),
                writes == ops_view(ops@),
                writes == self@.buffer.ops,
                writes.len() == ops@.len(),
                !self@.read_conflict(db@),
                forall|k: int|
                    0 <= k < j ==> !db@.modified_since(
                        self@.stamps[k] as nat,
                        (#[trigger] writes[k]).cf,
                        writes[k].key,
                    ),
            decreases ops@.len() - j,
        {
            let op = &ops[j];
            proof {
                lemma_ops_view(ops@);
                assert(writes[j as int] == op@);
            }
            if db.modified_since(self.stamps[j], op.cf, op.key.as_slice()) {
                return true;
            }
            j += 1;
        }
        false
    }

    fn claims(&self) -> (marks: Vec<WriteOp>)
        ensures
            ops_view(marks@) == touch_ops(self@.watched),
    {
        let ghost entries = self@.watched;
        let mut marks: Vec<WriteOp> = Vec::new();
        let mut i: usize = 0;
        proof {
            assert(entries.take(0) =~= Seq::<TrackedView>::empty());
            assert(ops_view(marks@) =~= Seq::<WriteOpView>::empty());
        }
        while i < self.watched.len()
            invariant
                i <= self.watched@.len(),
                entries == self@.watched,
                entries.len() == self.watched@.len(),
                ops_view(marks@) == touch_ops(entries.take(i as int)),
            decreases self.watched@.len() - i,
        {
            let entry = &self.watched[i];
            proof {
                assert(entries[i as int] == entry@);
                assert(entries.take(i + 1) =~= entries.take(i as int).push(entries[i as int]));
                lemma_touch_ops_push(entries.take(i as int), entries[i as int]);
            }
            match entry.mode {
                TrackMode::Exclusive => {
                    let mark = WriteOp::touch(entry.cf, entry.key.as_slice());
                    proof {
                        crate::write_batch::lemma_ops_view_push(marks@, mark);
                    }
                    marks.push(mark);
                },
                _ => {},
            }
            i += 1;
        }
        proof {
            assert(entries.take(i as int) =~= entries);
        }
        marks
    }

    /// Commits the transaction. The commit fails with a conflict where a key
    /// registered by a read for update was modified after the state that
    /// read is checked against, or a key with a buffered write was modified
    /// after the state on which that write was buffered (after the start of
    /// the transaction, where it held on to it); it fails too where a
    /// write goes to a family the database does not have. A failed commit
    /// changes neither the database nor the transaction. A commit that
    /// succeeds applies the buffered writes together, marks the keys the
    /// transaction has a claim to, and leaves the transaction empty and
    /// starting afresh from the state it produced.
    pub fn commit(&mut self, db: &mut DB) -> (r: Result<(), Error>)
        ensures
            match old(self)@.commit_outcome(old(db)@) {
                Ok(_) => r is Ok && final(db)@ == old(self)@.committed_db(old(db)@) && final(self)@
                    == old(self)@.committed(old(db)@),
                Err(e) => r matches Err(x) && x@ == e && final(db)@ == old(db)@ && final(self)@
                    == old(self)@,
            },
            old(db)@.wf() ==> final(db)@.wf(),
            old(self)@.wf() ==> final(self)@.wf(),
    {
        if self.conflicts(db) {
            return Err(Error::conflict());
        }
        let marks = self.claims();
        proof {
            lemma_accepts_concat(db@, self@.buffer.ops, touch_ops(self@.watched));
        }
        if !db.accepts(self.buffer.ops()) || !db.accepts(&marks) {
            return Err(Error::unknown_family());
        }
        db.append(self.buffer.ops());
        db.append(&marks);
        proof {
            assert((old(db)@.log + self@.buffer.ops) + touch_ops(self@.watched) =~= old(db)@.log + (
            self@.buffer.ops + touch_ops(self@.watched)));
        }
        self.buffer.clear();
        self.watched.clear();
        self.stamps.clear();
        self.start = db.latest_sequence_number();
        self.pinned = false;
        proof {
            assert(self@.watched =~= Seq::empty());
            assert(self@.stamps =~= Seq::empty());
        }
        Ok(())
    }

    /// Reads `keys` of the default family through the transaction as a run
    /// of plain reads: results come in the order of the keys, and what one
    /// key yields does not depend on the others. Options that refer to a
    /// released snapshot give every key the same error.
    pub fn multi_get_full(&mut self, db: &DB, keys: &[&[u8]], readopts: Option<&ReadOptions>) -> (out:
        Vec<Result<Option<DBVector>, Error>>)
        ensures
            out@.len() == keys@.len(),
            forall|i: int|
                0 <= i < keys@.len() ==> outcome_view(#[trigger] out@[i]) == old(self)@.read(
                    db@,
                    effective_pin(readopts),
                    DEFAULT_FAMILY,
                    keys@[i]@,
                ),
            final(self)@ == old(self)@.after_gets(
                db@,
                effective_pin(readopts),
                default_reads(keys@),
            ),
            old(self)@.wf() ==> final(self)@.wf(),
    {
        let ghost pin = effective_pin(readopts);
        let ghost reads = default_reads(keys@);
        let mut out: Vec<Result<Option<DBVector>, Error>> = Vec::new();
        let mut i: usize = 0;
        proof {
            assert(reads.take(0) =~= Seq::<(u64, Seq<u8>)>::empty());
        }
        while i < keys.len()
            invariant
                i <= keys@.len(),
                reads == default_reads(keys@),
                pin == effective_pin(readopts),
                out@.len() == i,
                self@ == old(self)@.after_gets(db@, pin, reads.take(i as int)),
                self@.buffer == old(self)@.buffer,
                self@.stamps == old(self)@.stamps,
                forall|j: int|
                    0 <= j < i ==> outcome_view(#[trigger] out@[j]) == old(self)@.read(
                        db@,
                        pin,
                        DEFAULT_FAMILY,
                        keys@[j]@,
                    ),
            decreases keys@.len() - i,
        {
            proof {
                assert(reads.take(i + 1).drop_last() =~= reads.take(i as int));
                assert(reads.take(i + 1).last() == (DEFAULT_FAMILY, keys@[i as int]@));
            }
            let r = self.get_cf_full(db, None, keys[i], readopts);
            out.push(r);
            i += 1;
        }
        proof {
            assert(reads.take(i as int) =~= reads);
        }
        out
    }

    /// Reads `keys` of the default family from the latest committed state
    /// through the transaction.
    pub fn multi_get(&mut self, db: &DB, keys: &[&[u8]]) -> (out: Vec<Result<Option<DBVector>, Error>>)
        ensures
            out@.len() == keys@.len(),
            forall|i: int|
                0 <= i < keys@.len() ==> outcome_view(#[trigger] out@[i]) == old(self)@.read(
                    db@,
                    SnapshotPin::Latest,
                    DEFAULT_FAMILY,
                    keys@[i]@,
                ),
            final(self)@ == old(self)@.after_gets(db@, SnapshotPin::Latest, default_reads(keys@)),
            old(self)@.wf() ==> final(self)@.wf(),
    {
        self.multi_get_full(db, keys, None)
    }

    /// Reads `keys` of the default family under `readopts` through the transaction.
    pub fn multi_get_opt(&mut self, db: &DB, keys: &[&[u8]], readopts: &ReadOptions) -> (out: Vec<
        Result<Option<DBVector>, Error>,
    >)
        ensures
            out@.len() == keys@.len(),
            forall|i: int|
                0 <= i < keys@.len() ==> outcome_view(#[trigger] out@[i]) == old(self)@.read(
                    db@,
                    readopts.pin,
                    DEFAULT_FAMILY,
                    keys@[i]@,
                ),
            final(self)@ == old(self)@.after_gets(db@, readopts.pin, default_reads(keys@)),
            old(self)@.wf() ==> final(self)@.wf(),
    {
        self.multi_get_full(db, keys, Some(readopts))
    }

    /// Reads `keys_cf`, each key from the family given with it, through the
    /// transaction as a run of plain reads: results come in the order of the
    /// keys, and a key whose family the database does not have gets an error
    /// of its own without disturbing the others. Options that refer to a
    /// released snapshot give every key the same error.
    pub fn multi_get_cf_full(
        &mut self,
        db: &DB,
        keys_cf: &[(&ColumnFamily, &[u8])],
        readopts: Option<&ReadOptions>,
    ) -> (out: Vec<Result<Option<DBVector>, Error>>)
        ensures
            out@.len() == keys_cf@.len(),
            forall|i: int|
                0 <= i < keys_cf@.len() ==> outcome_view(#[trigger] out@[i]) == old(self)@.read(
                    db@,
                    effective_pin(readopts),
                    keys_cf@[i].0@,
                    keys_cf@[i].1@,
                ),
            final(self)@ == old(self)@.after_gets(
                db@,
                effective_pin(readopts),
                family_reads(keys_cf@),
            ),
            old(self)@.wf() ==> final(self)@.wf(),
    {
        let ghost pin = effective_pin(readopts);
        let ghost reads = family_reads(keys_cf@);
        let mut out: Vec<Result<Option<DBVector>, Error>> = Vec::new();
        let mut i: usize = 0;
        proof {
            assert(reads.take(0) =~= Seq::<(u64, Seq<u8>)>::empty());
        }
        while i < keys_cf.len()
            invariant
                i <= keys_cf@.len(),
                reads == family_reads(keys_cf@),
                pin == effective_pin(readopts),
                out@.len() == i,
                self@ == old(self)@.after_gets(db@, pin, reads.take(i as int)),
                self@.buffer == old(self)@.buffer,
                self@.stamps == old(self)@.stamps,
                forall|j: int|
                    0 <= j < i ==> outcome_view(#[trigger] out@[j]) == old(self)@.read(
                        db@,
                        pin,
                        keys_cf@[j].0@,
                        keys_cf@[j].1@,
                    ),
            decreases keys_cf@.len() - i,
        {
            proof {
                assert(reads.take(i + 1).drop_last() =~= reads.take(i as int));
                assert(reads.take(i + 1).last() == (keys_cf@[i as int].0@, keys_cf@[i as int].1@));
            }
            let r = self.get_cf_full(db, Some(keys_cf[i].0), keys_cf[i].1, readopts);
            out.push(r);
            i += 1;
        }
        proof {
            assert(reads.take(i as int) =~= reads);
        }
        out
    }

    /// Reads `keys_cf` from the latest committed state through the transaction.
    pub fn multi_get_cf(&mut self, db: &DB, keys_cf: &[(&ColumnFamily, &[u8])]) -> (out: Vec<
        Result<Option<DBVector>, Error>,
    >)
        ensures
            out@.len() == keys_cf@.len(),
            forall|i: int|
                0 <= i < keys_cf@.len() ==> outcome_view(#[trigger] out@[i]) == old(self)@.read(
                    db@,
                    SnapshotPin::Latest,
                    keys_cf@[i].0@,
                    keys_cf@[i].1@,
                ),
            final(self)@ == old(self)@.after_gets(db@, SnapshotPin::Latest, family_reads(keys_cf@)),
            old(self)@.wf() ==> final(self)@.wf(),
    {
        self.multi_get_cf_full(db, keys_cf, None)
    }

    /// Reads `keys_cf` under `readopts` through the transaction.
    pub fn multi_get_cf_opt(
        &mut self,
        db: &DB,
        keys_cf: &[(&ColumnFamily, &[u8])],
        readopts: &ReadOptions,
    ) -> (out: Vec<Result<Option<DBVector>, Error>>)
        ensures
            out@.len() == keys_cf@.len(),
            forall|i: int|
                0 <= i < keys_cf@.len() ==> outcome_view(#[trigger] out@[i]) == old(self)@.read(
                    db@,
                    readopts.pin,
                    keys_cf@[i].0@,
                    keys_cf@[i].1@,
                ),
            final(self)@ == old(self)@.after_gets(db@, readopts.pin, family_reads(keys_cf@)),
            old(self)@.wf() ==> final(self)@.wf(),
    {
        self.multi_get_cf_full(db, keys_cf, Some(readopts))
    }

    /// Get Snapshot: the view of the database as of now, seen through the
    /// writes the transaction has buffered; for a transaction that holds on
    /// to the state it started from, the view of the database as of that
    /// state. While the snapshot is in use the transaction cannot change, so
    /// nothing the transaction does later can show in it.
    pub fn snapshot(&self, db: &DB) -> (s: OptimisticTransactionSnapshot<'_>)
        ensures
            s@ == (TxnSnapshotView {
                txn: self@,
                snapshot: SnapshotView { sequence: self@.snapshot_sequence(db@), released: false },
            }),
    {
        OptimisticTransactionSnapshot { txn: self, sequence: self.anchor(db), released: false }
    }
}

/// The mathematical content of a snapshot taken from a transaction.
pub struct TxnSnapshotView {
    /// The transaction as it was when the snapshot was taken.
    pub txn: TxnView,
    /// The state of the database the snapshot is pinned to.
    pub snapshot: SnapshotView,
}

impl TxnSnapshotView {
    /// What a read of `key` of family `cf` through the snapshot yields.
    pub open spec fn read(self, db: DbView, cf: u64, key: Seq<u8>) -> Result<Option<Seq<u8>>, ErrorView> {
        self.txn.read(db, self.snapshot.pin(), cf, key)
    }

    /// The snapshot after it is released.
    pub open spec fn release(self) -> TxnSnapshotView {
        TxnSnapshotView { snapshot: self.snapshot.release(), ..self }
    }
}

/// A consistent view anchored in a transaction: the database as of the
/// moment the snapshot was taken (as of the start of the transaction, where
/// the transaction holds on to it), seen through the transaction's buffered
/// writes. The snapshot borrows the transaction and cannot outlive it.
pub struct OptimisticTransactionSnapshot<'a> {
    txn: &'a OptimisticTransaction,
    sequence: u64,
    released: bool,
}

impl<'a> View for OptimisticTransactionSnapshot<'a> {
    type V = TxnSnapshotView;

    closed spec fn view(&self) -> TxnSnapshotView {
        TxnSnapshotView {
            txn: self.txn@,
            snapshot: SnapshotView { sequence: self.sequence, released: self.released },
        }
    }
}

impl<'a> OptimisticTransactionSnapshot<'a> {
    /// The transaction the snapshot was taken from.
    pub(crate) fn owner(&self) -> (txn: &OptimisticTransaction)
        ensures
            txn@ == self@.txn,
    {
        self.txn
    }

    /// What reads through the snapshot are pinned to.
    pub fn pin(&self) -> (pin: SnapshotPin)
        ensures
            pin == self@.snapshot.pin(),
    {
        if self.released {
            SnapshotPin::Released
        } else {
            SnapshotPin::At(self.sequence)
        }
    }

    /// Releases the snapshot. Reads through it are refused from now on.
    /// Releasing a snapshot that is already released changes nothing.
    pub fn release(&mut self)
        ensures
            final(self)@ == old(self)@.release(),
            old(self)@.snapshot.released ==> final(self)@ == old(self)@,
    {
        self.released = true;
    }

    /// Reads `key` as of the snapshot: from family `cf` or, without one, from
    /// the default family. Of `readopts` everything but the pin is kept.
    pub fn get_cf_full(
        &self,
        db: &DB,
        cf: Option<&ColumnFamily>,
        key: &[u8],
        readopts: Option<&ReadOptions>,
    ) -> (r: Result<Option<DBVector>, Error>)
        ensures
            outcome_view(r) == self@.read(db@, family_of(cf), key@),
    {
        let ro = attach(readopts, self.pin());
        self.txn.fetch(db, ro.pin, family_id(cf), key)
    }

    /// Reads `key` of the default family as of the snapshot.
    pub fn get(&self, db: &DB, key: &[u8]) -> (r: Result<Option<DBVector>, Error>)
        ensures
            outcome_view(r) == self@.read(db@, DEFAULT_FAMILY, key@),
    {
        self.get_cf_full(db, None, key, None)
    }

    /// Reads `key` of family `cf` as of the snapshot.
    pub fn get_cf(&self, db: &DB, cf: &ColumnFamily, key: &[u8]) -> (r: Result<
        Option<DBVector>,
        Error,
    >)
        ensures
            outcome_view(r) == self@.read(db@, cf@, key@),
    {
        self.get_cf_full(db, Some(cf), key, None)
    }

    /// Reads `key` as of the snapshot without copying where that is possible.
    pub fn get_pinned_cf_full<'b>(
        &'b self,
        db: &'b DB,
        cf: Option<&ColumnFamily>,
        key: &[u8],
        readopts: Option<&ReadOptions>,
    ) -> (r: Result<Option<DBPinnableSlice<'b>>, Error>)
        ensures
            pinned_outcome_view(r) == self@.read(db@, family_of(cf), key@),
    {
        let ro = attach(readopts, self.pin());
        self.txn.peek(db, ro.pin, family_id(cf), key)
    }

    /// Reads `key` of the default family as of the snapshot without copying.
    pub fn get_pinned<'b>(&'b self, db: &'b DB, key: &[u8]) -> (r: Result<
        Option<DBPinnableSlice<'b>>,
        Error,
    >)
        ensures
            pinned_outcome_view(r) == self@.read(db@, DEFAULT_FAMILY, key@),
    {
        self.get_pinned_cf_full(db, None, key, None)
    }

    /// Reads `keys` of the default family as of the snapshot. Of `readopts`
    /// everything but the pin is kept.
    pub fn multi_get_full(&self, db: &DB, keys: &[&[u8]], readopts: Option<&ReadOptions>) -> (out:
        Vec<Result<Option<DBVector>, Error>>)
        ensures
            out@.len() == keys@.len(),
            forall|i: int|
                0 <= i < keys@.len() ==> outcome_view(#[trigger] out@[i]) == self@.read(
                    db@,
                    DEFAULT_FAMILY,
                    keys@[i]@,
                ),
    {
        let ro = attach(readopts, self.pin());
        let mut out: Vec<Result<Option<DBVector>, Error>> = Vec::new();
        let mut i: usize = 0;
        while i < keys.len()
            invariant
                i <= keys@.len(),
                ro.pin == self@.snapshot.pin(),
                out@.len() == i,
                forall|j: int|
                    0 <= j < i ==> outcome_view(#[trigger] out@[j]) == self@.read(
                        db@,
                        DEFAULT_FAMILY,
                        keys@[j]@,
                    ),
            decreases keys@.len() - i,
        {
            let r = self.txn.fetch(db, ro.pin, DEFAULT_FAMILY, keys[i]);
            out.push(r);
            i += 1;
        }
        out
    }

    /// Reads `keys` of the default family as of the snapshot.
    pub fn multi_get(&self, db: &DB, keys: &[&[u8]]) -> (out: Vec<Result<Option<DBVector>, Error>>)
        ensures
            out@.len() == keys@.len(),
            forall|i: int|
                0 <= i < keys@.len() ==> outcome_view(#[trigger] out@[i]) == self@.read(
                    db@,
                    DEFAULT_FAMILY,
                    keys@[i]@,
                ),
    {
        self.multi_get_full(db, keys, None)
    }

    /// Reads `keys_cf`, each key from the family given with it, as of the
    /// snapshot. Of `readopts` everything but the pin is kept.
    pub fn multi_get_cf_full(
        &self,
        db: &DB,
        keys_cf: &[(&ColumnFamily, &[u8])],
        readopts: Option<&ReadOptions>,
    ) -> (out: Vec<Result<Option<DBVector>, Error>>)
        ensures
            out@.len() == keys_cf@.len(),
            forall|i: int|
                0 <= i < keys_cf@.len() ==> outcome_view(#[trigger] out@[i]) == self@.read(
                    db@,
                    keys_cf@[i].0@,
                    keys_cf@[i].1@,
                ),
    {
        let ro = attach(readopts, self.pin());
        let mut out: Vec<Result<Option<DBVector>, Error>> = Vec::new();
        let mut i: usize = 0;
        while i < keys_cf.len()
            invariant
                i <= keys_cf@.len(),
                ro.pin == self@.snapshot.pin(),
                out@.len() == i,
                forall|j: int|
                    0 <= j < i ==> outcome_view(#[trigger] out@[j]) == self@.read(
                        db@,
                        keys_cf@[j].0@,
                        keys_cf@[j].1@,
                    ),
            decreases keys_cf@.len() - i,
        {
            let r = self.txn.fetch(db, ro.pin, keys_cf[i].0.id(), keys_cf[i].1);
            out.push(r);
            i += 1;
        }
        out
    }

    /// Reads `keys_cf`, each key from the family given with it, as of the snapshot.
    pub fn multi_get_cf(&self, db: &DB, keys_cf: &[(&ColumnFamily, &[u8])]) -> (out: Vec<
        Result<Option<DBVector>, Error>,
    >)
        ensures
            out@.len() == keys_cf@.len(),
            forall|i: int|
                0 <= i < keys_cf@.len() ==> outcome_view(#[trigger] out@[i]) == self@.read(
                    db@,
                    keys_cf@[i].0@,
                    keys_cf@[i].1@,
                ),
    {
        self.multi_get_cf_full(db, keys_cf, None)
    }
}

} // verus!
