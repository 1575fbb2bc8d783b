//! Transactions typed by the kind of database they belong to. They buffer,
//! read and commit as optimistic transactions do; the type parameter keeps
//! transactions of different kinds of database apart.

use std::marker::PhantomData;
use vstd::prelude::*;
use crate::bytes::{DBPinnableSlice, DBVector};
use crate::column_family::{family_of, ColumnFamily, DEFAULT_FAMILY};
use crate::db::{outcome_view, pinned_outcome_view, DB};
use crate::error::{no_savepoint_text, Error, ErrorKind, ErrorView};
use crate::optimistic_transaction::{
    default_reads, family_reads, OptimisticTransaction, OptimisticTransactionSnapshot,
    TxnSnapshotView, TxnView,
};
use crate::options::{effective_pin, ReadOptions, SnapshotPin};
use crate::snapshot::SnapshotView;
use crate::write_batch::{delete_op, merge_op, put_op};

verus! {

/// A buffered, isolated unit of work on a database of kind `T`.
#[verifier::reject_recursive_types(T)]
pub struct Transaction<T> {
    inner: OptimisticTransaction,
    db: PhantomData<T>,
}

impl<T> View for Transaction<T> {
    type V = TxnView;

    closed spec fn view(&self) -> TxnView {
        self.inner@
    }
}

impl<T> Transaction<T> {
    /// A transaction that starts from the state with sequence number
    /// `start`. With `pinned` it holds on to that state: its writes and its
    /// reads for update are checked against it rather than against the
    /// state they were made on.
    pub fn new(start: u64, pinned: bool) -> (txn: Transaction<T>)
        ensures
            txn@ == TxnView::begun(start, pinned),
            txn@.wf(),
    {
        Transaction { inner: OptimisticTransaction::new(start, pinned), db: PhantomData }
    }

    /// The transaction that does the work.
    pub(crate) fn inner(&self) -> (txn: &OptimisticTransaction)
        ensures
            txn@ == self@,
    {
        &self.inner
    }

    /// commits a transaction
    pub fn commit(&mut self, db: &mut DB) -> (r: Result<(), Error>)
        ensures
            match old(self)@.commit_outcome(old(db)@) {
                Ok(_) => r is Ok && final(db)@ == old(self)@.committed_db(old(db)@) && final(self)@
                    == old(self)@.committed(old(db)@),
                Err(e) => r matches Err(x) && x@ == e && final(db)@ == old(db)@ && final(self)@
                    == old(self)@,
            },
            old(db)@.wf() ==> final(db)@.wf(),
            old(self)@.wf() ==> final(self)@.wf(),
    {
        self.inner.commit(db)
    }

    /// Transaction rollback
    pub fn rollback(&mut self) -> (r: Result<(), Error>)
        ensures
            r is Ok,
            final(self)@ == old(self)@.rolled_back(),
            final(self)@.wf(),
    {
        self.inner.rollback()
    }

    /// Transaction rollback to savepoint
    pub fn rollback_to_savepoint(&mut self) -> (r: Result<(), Error>)
        ensures
            old(self)@.buffer.savepoints.len() > 0 <==> r is Ok,
            r is Ok ==> final(self)@ == old(self)@.rolled_back_to_savepoint(),
            r matches Err(e) ==> final(self)@ == old(self)@ && e@ == (ErrorView {
                kind: ErrorKind::Misuse,
                message: no_savepoint_text(),
            }),
            old(self)@.wf() ==> final(self)@.wf(),
    {
        self.inner.rollback_to_savepoint()
    }

    /// Set savepoint for transaction
    pub fn set_savepoint(&mut self)
        ensures
            final(self)@ == old(self)@.with_savepoint(),
            old(self)@.wf() ==> final(self)@.wf(),
    {
        self.inner.set_savepoint()
    }

    /// Get Snapshot: the view of the database as of now or, for a
    /// transaction that holds on to the state it started from, as of that
    /// state, seen through the writes the transaction has buffered.
    pub fn snapshot(&self, db: &DB) -> (s: TransactionSnapshot<'_, T>)
        ensures
            s@ == (TxnSnapshotView {
                txn: self@,
                snapshot: SnapshotView { sequence: self@.snapshot_sequence(db@), released: false },
            }),
    {
        TransactionSnapshot { inner: self.inner.snapshot(db), db: PhantomData }
    }

    /// Get For Update
    /// ReadOptions: Default
    /// exclusive: true
    pub fn get_for_update(&mut self, db: &DB, key: &[u8]) -> (r: Result<Option<DBVector>, Error>)
        ensures
            outcome_view(r) == old(self)@.read(db@, SnapshotPin::Latest, DEFAULT_FAMILY, key@),
            final(self)@ == old(self)@.after_get_for_update(
                db@,
                SnapshotPin::Latest,
                DEFAULT_FAMILY,
                key@,
                true,
            ),
            old(self)@.wf() ==> final(self)@.wf(),
    {
        let opt = ReadOptions::default();
        self.get_for_update_opt(db, key, &opt, true)
    }

    /// Get For Update with custom ReadOptions and exclusive
    pub fn get_for_update_opt(&mut self, db: &DB, key: &[u8], readopts: &ReadOptions, exclusive: bool) -> (r:
        Result<Option<DBVector>, Error>)
        ensures
            outcome_view(r) == old(self)@.read(db@, readopts.pin, DEFAULT_FAMILY, key@),
            final(self)@ == old(self)@.after_get_for_update(
                db@,
                readopts.pin,
                DEFAULT_FAMILY,
                key@,
                exclusive,
            ),
            old(self)@.wf() ==> final(self)@.wf(),
    {
        self.inner.get_for_update_opt(db, key, readopts, exclusive)
    }

    /// Get For Update in family `cf`, with the default options and a claim
    /// to the key.
    pub fn get_for_update_cf(&mut self, db: &DB, cf: &ColumnFamily, key: &[u8]) -> (r: Result<
        Option<DBVector>,
        Error,
    >)
        ensures
            outcome_view(r) == old(self)@.read(db@, SnapshotPin::Latest, cf@, key@),
            final(self)@ == old(self)@.after_get_for_update(
                db@,
                SnapshotPin::Latest,
                cf@,
                key@,
                true,
            ),
            old(self)@.wf() ==> final(self)@.wf(),
    {
        let opt = ReadOptions::default();
        self.get_for_update_cf_opt(db, cf, key, &opt, true)
    }

    /// Get For Update in family `cf` with custom ReadOptions and exclusive.
    pub fn get_for_update_cf_opt(
        &mut self,
        db: &DB,
        cf: &ColumnFamily,
        key: &[u8],
        readopts: &ReadOptions,
        exclusive: bool,
    ) -> (r: Result<Option<DBVector>, Error>)
        ensures
            outcome_view(r) == old(self)@.read(db@, readopts.pin, cf@, key@),
            final(self)@ == old(self)@.after_get_for_update(
                db@,
                readopts.pin,
                cf@,
                key@,
                exclusive,
            ),
            old(self)@.wf() ==> final(self)@.wf(),
    {
        self.inner.get_for_update_cf_opt(db, cf, key, readopts, exclusive)
    }

    /// Reads `key` through the transaction: from family `cf` or, without
    /// one, from the default family; under `readopts` or, without them, from
    /// the latest committed state. The transaction's own buffered writes are
    /// seen; a read of the latest state that succeeds is noted in the
    /// tracking set.
    pub fn get_cf_full(
        &mut self,
        db: &DB,
        cf: Option<&ColumnFamily>,
        key: &[u8],
        readopts: Option<&ReadOptions>,
    ) -> (r: Result<Option<DBVector>, Error>)
        ensures
            outcome_view(r) == old(self)@.read(
                db@,
                effective_pin(readopts),
                family_of(cf),
                key@,
            ),
            final(self)@ == old(self)@.after_get(
                db@,
                effective_pin(readopts),
                family_of(cf),
                key@,
            ),
            old(self)@.wf() ==> final(self)@.wf(),
    {
        self.inner.get_cf_full(db, cf, key, readopts)
    }

    /// Reads `key` of the default family from the latest committed state
    /// through the transaction.
    pub fn get(&mut self, db: &DB, key: &[u8]) -> (r: Result<Option<DBVector>, Error>)
        ensures
            outcome_view(r) == old(self)@.read(db@, SnapshotPin::Latest, DEFAULT_FAMILY, key@),
            final(self)@ == old(self)@.after_get(db@, SnapshotPin::Latest, DEFAULT_FAMILY, key@),
            old(self)@.wf() ==> final(self)@.wf(),
    {
        self.inner.get_cf_full(db, None, key, None)
    }

    /// Reads `key` through the transaction without copying where that is
    /// possible. The read is not noted in the tracking set.
    pub fn get_pinned_cf_full<'a>(
        &'a self,
        db: &'a DB,
        cf: Option<&ColumnFamily>,
        key: &[u8],
        readopts: Option<&ReadOptions>,
    ) -> (r: Result<Option<DBPinnableSlice<'a>>, Error>)
        ensures
            pinned_outcome_view(r) == self@.read(db@, effective_pin(readopts), family_of(cf), key@),
    {
        self.inner.get_pinned_cf_full(db, cf, key, readopts)
    }

    /// Reads `keys` of the default family through the transaction as a run
    /// of plain reads, in the order of the keys.
    pub fn multi_get_full(&mut self, db: &DB, keys: &[&[u8]], readopts: Option<&ReadOptions>) -> (out:
        Vec<Result<Option<DBVector>, Error>>)
        ensures
            out@.len() == keys@.len(),
            forall|i: int|
                0 <= i < keys@.len() ==> outcome_view(#[trigger] out@[i]) == old(self)@.read(
                    db@,
                    effective_pin(readopts),
                    DEFAULT_FAMILY,
                    keys@[i]@,
                ),
            final(self)@ == old(self)@.after_gets(
                db@,
                effective_pin(readopts),
                default_reads(keys@),
            ),
            old(self)@.wf() ==> final(self)@.wf(),
    {
        self.inner.multi_get_full(db, keys, readopts)
    }

    /// Reads `keys_cf`, each key from the family given with it, through the
    /// transaction as a run of plain reads, in the order of the keys.
    pub fn multi_get_cf_full(
        &mut self,
        db: &DB,
        keys_cf: &[(&ColumnFamily, &[u8])],
        readopts: Option<&ReadOptions>,
    ) -> (out: Vec<Result<Option<DBVector>, Error>>)
        ensures
            out@.len() == keys_cf@.len(),
            forall|i: int|
                0 <= i < keys_cf@.len() ==> outcome_view(#[trigger] out@[i]) == old(self)@.read(
                    db@,
                    effective_pin(readopts),
                    keys_cf@[i].0@,
                    keys_cf@[i].1@,
                ),
            final(self)@ == old(self)@.after_gets(
                db@,
                effective_pin(readopts),
                family_reads(keys_cf@),
            ),
            old(self)@.wf() ==> final(self)@.wf(),
    {
        self.inner.multi_get_cf_full(db, keys_cf, readopts)
    }

    /// Buffers a put of `value` under `key`: in family `cf` or, without one,
    /// in the default family. The database is looked at for its sequence
    /// number, against which the key is checked at commit, and is not
    /// changed.
    pub fn put_cf_full(
        &mut self,
        db: &DB,
        cf: Option<&ColumnFamily>,
        key: &[u8],
        value: &[u8],
        writeopts: Option<&()>,
    ) -> (r: Result<(), Error>)
        ensures
            r is Ok,
            final(self)@ == old(self)@.buffered(db@, put_op(family_of(cf), key@, value@)),
            old(self)@.wf() ==> final(self)@.wf(),
    {
        self.inner.put_cf_full(db, cf, key, value, writeopts)
    }

    /// Buffers a put of `value` under `key` of the default family.
    pub fn put(&mut self, db: &DB, key: &[u8], value: &[u8]) -> (r: Result<(), Error>)
        ensures
            r is Ok,
            final(self)@ == old(self)@.buffered(db@, put_op(DEFAULT_FAMILY, key@, value@)),
            old(self)@.wf() ==> final(self)@.wf(),
    {
        self.inner.put_cf_full(db, None, key, value, None)
    }

    /// Buffers a merge of `operand` into `key`: in family `cf` or, without
    /// one, in the default family. The database is looked at for its
    /// sequence number and is not changed.
    pub fn merge_cf_full(
        &mut self,
        db: &DB,
        cf: Option<&ColumnFamily>,
        key: &[u8],
        operand: &[u8],
        writeopts: Option<&()>,
    ) -> (r: Result<(), Error>)
        ensures
            r is Ok,
            final(self)@ == old(self)@.buffered(db@, merge_op(family_of(cf), key@, operand@)),
            old(self)@.wf() ==> final(self)@.wf(),
    {
        self.inner.merge_cf_full(db, cf, key, operand, writeopts)
    }

    /// Buffers the removal of `key`: from family `cf` or, without one, from
    /// the default family. The database is looked at for its sequence
    /// number and is not changed.
    pub fn delete_cf_full(
        &mut self,
        db: &DB,
        cf: Option<&ColumnFamily>,
        key: &[u8],
        writeopts: Option<&()>,
    ) -> (r: Result<(), Error>)
        ensures
            r is Ok,
            final(self)@ == old(self)@.buffered(db@, delete_op(family_of(cf), key@)),
            old(self)@.wf() ==> final(self)@.wf(),
    {
        self.inner.delete_cf_full(db, cf, key, writeopts)
    }

    /// Buffers the removal of `key` from the default family.
    pub fn delete(&mut self, db: &DB, key: &[u8]) -> (r: Result<(), Error>)
        ensures
            r is Ok,
            final(self)@ == old(self)@.buffered(db@, delete_op(DEFAULT_FAMILY, key@)),
            old(self)@.wf() ==> final(self)@.wf(),
    {
        self.inner.delete_cf_full(db, None, key, None)
    }
}

/// A consistent view anchored in a transaction on a database of kind `T`:
/// the database as of the moment the snapshot was taken (as of the start of
/// the transaction, where the transaction holds on to it), seen through the
/// transaction's buffered writes. The snapshot borrows the transaction and
/// cannot outlive it.
#[verifier::reject_recursive_types(T)]
pub struct TransactionSnapshot<'a, T> {
    inner: OptimisticTransactionSnapshot<'a>,
    db: PhantomData<T>,
}

impl<'a, T> View for TransactionSnapshot<'a, T> {
    type V = TxnSnapshotView;

    closed spec fn view(&self) -> TxnSnapshotView {
        self.inner@
    }
}

impl<'a, T> TransactionSnapshot<'a, T> {
    /// The snapshot that does the work.
    pub(crate) fn inner(&self) -> (s: &OptimisticTransactionSnapshot<'a>)
        ensures
            s@ == self@,
    {
        &self.inner
    }

    /// What reads through the snapshot are pinned to.
    pub fn pin(&self) -> (pin: SnapshotPin)
        ensures
            pin == self@.snapshot.pin(),
    {
        self.inner.pin()
    }

    /// Releases the snapshot. Reads through it are refused from now on.
    /// Releasing a snapshot that is already released changes nothing.
    pub fn release(&mut self)
        ensures
            final(self)@ == old(self)@.release(),
            old(self)@.snapshot.released ==> final(self)@ == old(self)@,
    {
        self.inner.release()
    }

    /// Reads `key` as of the snapshot: from family `cf` or, without one, from
    /// the default family. Of `readopts` everything but the pin is kept.
    pub fn get_cf_full(
        &self,
        db: &DB,
        cf: Option<&ColumnFamily>,
        key: &[u8],
        readopts: Option<&ReadOptions>,
    ) -> (r: Result<Option<DBVector>, Error>)
        ensures
            outcome_view(r) == self@.read(db@, family_of(cf), key@),
    {
        self.inner.get_cf_full(db, cf, key, readopts)
    }

    /// Reads `key` of the default family as of the snapshot.
    pub fn get(&self, db: &DB, key: &[u8]) -> (r: Result<Option<DBVector>, Error>)
        ensures
            outcome_view(r) == self@.read(db@, DEFAULT_FAMILY, key@),
    {
        self.inner.get_cf_full(db, None, key, None)
    }

    /// Reads `key` as of the snapshot without copying where that is possible.
    pub fn get_pinned_cf_full<'b>(
        &'b self,
        db: &'b DB,
        cf: Option<&ColumnFamily>,
        key: &[u8],
        readopts: Option<&ReadOptions>,
    ) -> (r: Result<Option<DBPinnableSlice<'b>>, Error>)
        ensures
            pinned_outcome_view(r) == self@.read(db@, family_of(cf), key@),
    {
        self.inner.get_pinned_cf_full(db, cf, key, readopts)
    }

    /// Reads `keys` of the default family as of the snapshot.
    pub fn multi_get_full(&self, db: &DB, keys: &[&[u8]], readopts: Option<&ReadOptions>) -> (out:
        Vec<Result<Option<DBVector>, Error>>)
        ensures
            out@.len() == keys@.len(),
            forall|i: int|
                0 <= i < keys@.len() ==> outcome_view(#[trigger] out@[i]) == self@.read(
                    db@,
                    DEFAULT_FAMILY,
                    keys@[i]@,
                ),
    {
        self.inner.multi_get_full(db, keys, readopts)
    }

    /// Reads `keys_cf`, each key from the family given with it, as of the snapshot.
    pub fn multi_get_cf_full(
        &self,
        db: &DB,
        keys_cf: &[(&ColumnFamily, &[u8])],
        readopts: Option<&ReadOptions>,
    ) -> (out: Vec<Result<Option<DBVector>, Error>>)
        ensures
            out@.len() == keys_cf@.len(),
            forall|i: int|
                0 <= i < keys_cf@.len() ==> outcome_view(#[trigger] out@[i]) == self@.read(
                    db@,
                    keys_cf@[i].0@,
                    keys_cf@[i].1@,
                ),
    {
        self.inner.multi_get_cf_full(db, keys_cf, readopts)
    }
}

impl DB {
    /// Begins a transaction typed by this kind of database. With `pinned`
    /// the transaction holds on to the state it starts from.
    pub fn begin(&self, pinned: bool) -> (txn: Transaction<DB>)
        ensures
            txn@ == TxnView::begun(self@.sequence() as u64, pinned),
            txn@.start == self@.sequence(),
            txn@.wf(),
    {
        Transaction::new(self.latest_sequence_number(), pinned)
    }
}

} // verus!
