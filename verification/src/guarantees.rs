//! What the transaction layer promises, stated over the models of the
//! database and of transactions and proved from their definitions.

use vstd::prelude::*;
use crate::db::{lemma_extends_transitive, DbView};
use crate::error::{conflict_text, released_snapshot_text, ErrorKind, ErrorView};
use crate::optimistic_transaction::{touch_ops, TrackMode, TrackedView, TxnSnapshotView, TxnView};
use crate::options::SnapshotPin;
use crate::snapshot::SnapshotView;
use crate::write_batch::{
    apply_ops, delete_op, lemma_apply_concat, lemma_apply_push, lemma_apply_untouched, put_op,
    touches, WriteOpView,
};

verus! {

/// Buffering a run of writes appends them to the buffer, gives each its
/// stamp and changes nothing else.
pub proof fn lemma_with_writes(txn: TxnView, at: DbView, ops: Seq<WriteOpView>)
    ensures
        txn.with_writes(at, ops).buffer.ops == txn.buffer.ops + ops,
        txn.with_writes(at, ops).buffer.savepoints == txn.buffer.savepoints,
        txn.with_writes(at, ops).stamps == txn.stamps + Seq::new(
            ops.len(),
            |i: int| txn.anchor(at),
        ),
        txn.with_writes(at, ops).watched == txn.watched,
        txn.with_writes(at, ops).start == txn.start,
        txn.with_writes(at, ops).pinned == txn.pinned,
    decreases ops.len(),
{
    if ops.len() == 0 {
        assert(txn.buffer.ops + ops =~= txn.buffer.ops);
        assert(txn.stamps + Seq::new(ops.len(), |i: int| txn.anchor(at)) =~= txn.stamps);
    } else {
        lemma_with_writes(txn, at, ops.drop_last());
        assert((txn.buffer.ops + ops.drop_last()).push(ops.last()) =~= txn.buffer.ops + ops);
        assert((txn.stamps + Seq::new(ops.drop_last().len(), |i: int| txn.anchor(at))).push(
            txn.anchor(at),
        ) =~= txn.stamps + Seq::new(ops.len(), |i: int| txn.anchor(at)));
    }
}

/// Read-your-writes: once a transaction has buffered a put of `value` under
/// a key, and whatever it has buffered since for other keys, it reads
/// `value` for that key, on every state of the database that has the family
/// and under every pin that the database accepts. Buffering does not change
/// the database, so nobody else sees the value before the transaction
/// commits.
pub proof fn read_your_writes(
    txn: TxnView,
    at: DbView,
    db: DbView,
    pin: SnapshotPin,
    cf: u64,
    key: Seq<u8>,
    value: Seq<u8>,
    later: Seq<WriteOpView>,
)
    requires
        db.has_family(cf),
        db.pin_refusal(pin) is None,
        !touches(later, cf, key),
    ensures
        txn.buffered(at, put_op(cf, key, value)).read(db, pin, cf, key) == Ok::<
            Option<Seq<u8>>,
            ErrorView,
        >(Some(value)),
        txn.buffered(at, put_op(cf, key, value)).with_writes(at, later).read(db, pin, cf, key)
            == Ok::<Option<Seq<u8>>, ErrorView>(Some(value)),
{
    let base = db.value_at(db.horizon(pin), cf, key);
    let put = put_op(cf, key, value);
    lemma_apply_push(db.merge_operator, base, txn.buffer.ops, put, cf, key);
    lemma_with_writes(txn.buffered(at, put), at, later);
    lemma_apply_concat(db.merge_operator, base, txn.buffer.ops.push(put), later, cf, key);
    lemma_apply_untouched(db.merge_operator, Some(value), later, cf, key);
}

/// Read-your-writes for removals: once a transaction has buffered the
/// removal of a key, and whatever it has buffered since for other keys, it
/// reads nothing for that key.
pub proof fn read_your_deletes(
    txn: TxnView,
    at: DbView,
    db: DbView,
    pin: SnapshotPin,
    cf: u64,
    key: Seq<u8>,
    later: Seq<WriteOpView>,
)
    requires
        db.has_family(cf),
        db.pin_refusal(pin) is None,
        !touches(later, cf, key),
    ensures
        txn.buffered(at, delete_op(cf, key)).with_writes(at, later).read(db, pin, cf, key) == Ok::<
            Option<Seq<u8>>,
            ErrorView,
        >(None),
{
    let base = db.value_at(db.horizon(pin), cf, key);
    let gone = delete_op(cf, key);
    lemma_apply_push(db.merge_operator, base, txn.buffer.ops, gone, cf, key);
    lemma_with_writes(txn.buffered(at, gone), at, later);
    lemma_apply_concat(db.merge_operator, base, txn.buffer.ops.push(gone), later, cf, key);
    lemma_apply_untouched(db.merge_operator, None, later, cf, key);
}

/// A read pinned to a sequence number the database has reached yields the
/// same in every later state of the database.
pub proof fn pinned_read_is_stable(
    earlier: DbView,
    later: DbView,
    sequence: u64,
    cf: u64,
    key: Seq<u8>,
)
    requires
        later.extends(earlier),
        sequence <= earlier.sequence(),
    ensures
        later.value_at(later.horizon(SnapshotPin::At(sequence)), cf, key) == earlier.value_at(
            earlier.horizon(SnapshotPin::At(sequence)),
            cf,
            key,
        ),
{
    assert(later.log.take(sequence as int) =~= later.log.take(earlier.log.len() as int).take(
        sequence as int,
    ));
}

/// Snapshot isolation: a snapshot taken of a database yields, in every later
/// state of that database, what the database held when the snapshot was
/// taken, for every key of a family that the database still has.
pub proof fn snapshot_isolation(
    earlier: DbView,
    later: DbView,
    snapshot: SnapshotView,
    cf: u64,
    key: Seq<u8>,
)
    requires
        earlier.wf(),
        later.extends(earlier),
        snapshot == (SnapshotView { sequence: earlier.sequence() as u64, released: false }),
        earlier.has_family(cf),
        later.has_family(cf),
    ensures
        later.read(snapshot.pin(), cf, key) == earlier.read(SnapshotPin::Latest, cf, key),
{
    pinned_read_is_stable(earlier, later, snapshot.sequence, cf, key);
    assert(earlier.log.take(earlier.log.len() as int) =~= earlier.log);
}

/// Snapshot isolation inside a transaction: a snapshot taken from a
/// transaction yields in every later state of the database what it yielded
/// when it was taken, for every key of a family that the database still has.
pub proof fn transaction_snapshot_isolation(
    earlier: DbView,
    later: DbView,
    snapshot: TxnSnapshotView,
    cf: u64,
    key: Seq<u8>,
)
    requires
        later.extends(earlier),
        snapshot.snapshot.sequence <= earlier.sequence(),
        earlier.has_family(cf),
        later.has_family(cf),
    ensures
        snapshot.read(later, cf, key) == snapshot.read(earlier, cf, key),
{
    if !snapshot.snapshot.released {
        pinned_read_is_stable(earlier, later, snapshot.snapshot.sequence, cf, key);
    }
}

/// A snapshot taken from a transaction is of the moment it is taken: for a
/// transaction that does not hold on to its start, the snapshot yields in
/// every later state of the database what the transaction read from the
/// latest state when the snapshot was taken.
pub proof fn transaction_snapshot_is_of_its_moment(
    txn: TxnView,
    taken: DbView,
    later: DbView,
    cf: u64,
    key: Seq<u8>,
)
    requires
        taken.wf(),
        !txn.pinned,
        later.extends(taken),
        taken.has_family(cf),
        later.has_family(cf),
    ensures
        (TxnSnapshotView {
            txn,
            snapshot: SnapshotView { sequence: txn.snapshot_sequence(taken), released: false },
        }).read(later, cf, key) == txn.read(taken, SnapshotPin::Latest, cf, key),
{
    pinned_read_is_stable(taken, later, txn.snapshot_sequence(taken), cf, key);
    assert(taken.log.take(taken.log.len() as int) =~= taken.log);
}

/// Savepoint rollback: setting a savepoint, buffering any writes and rolling
/// back to the savepoint leaves the transaction exactly as it was before
/// the savepoint was set. What was buffered before stays buffered.
pub proof fn savepoint_rollback(txn: TxnView, at: DbView, ops: Seq<WriteOpView>)
    requires
        txn.wf(),
    ensures
        txn.with_savepoint().with_writes(at, ops).buffer.savepoints.len() > 0,
        txn.with_savepoint().with_writes(at, ops).rolled_back_to_savepoint() == txn,
{
    let marked = txn.with_savepoint();
    lemma_with_writes(marked, at, ops);
    let after = marked.with_writes(at, ops).rolled_back_to_savepoint();
    assert(after.buffer.ops =~= txn.buffer.ops);
    assert(after.buffer.savepoints =~= txn.buffer.savepoints);
    assert(after.stamps =~= txn.stamps);
}

/// A key the transaction has a claim to is among the marks of its commit.
proof fn lemma_claim_is_marked(watched: Seq<TrackedView>, i: int)
    requires
        0 <= i < watched.len(),
        watched[i].mode == TrackMode::Exclusive,
    ensures
        touches(touch_ops(watched), watched[i].cf, watched[i].key),
    decreases watched.len(),
{
    let earlier = touch_ops(watched.drop_last());
    if i == watched.len() - 1 {
        let marks = touch_ops(watched);
        assert(marks[marks.len() - 1].hits(watched[i].cf, watched[i].key));
    } else {
        lemma_claim_is_marked(watched.drop_last(), i);
        let k = choose|k: int|
            0 <= k < earlier.len() && (#[trigger] earlier[k]).hits(watched[i].cf, watched[i].key);
        assert(touch_ops(watched)[k] == earlier[k]);
    }
}

/// The marks of a commit change no value.
proof fn lemma_marks_change_nothing(
    db: DbView,
    base: Option<Seq<u8>>,
    watched: Seq<TrackedView>,
    cf: u64,
    key: Seq<u8>,
)
    ensures
        apply_ops(db.merge_operator, base, touch_ops(watched), cf, key) == base,
    decreases watched.len(),
{
    if watched.len() > 0 {
        lemma_marks_change_nothing(db, base, watched.drop_last(), cf, key);
        if watched.last().mode == TrackMode::Exclusive {
            lemma_apply_push(
                db.merge_operator,
                base,
                touch_ops(watched.drop_last()),
                crate::write_batch::touch_op(watched.last().cf, watched.last().key),
                cf,
                key,
            );
        }
    }
}

/// A commit publishes what the transaction saw: after a commit that
/// succeeds, the database holds for every key what the transaction read for
/// it from the latest state just before.
pub proof fn commit_publishes(txn: TxnView, db: DbView, cf: u64, key: Seq<u8>)
    requires
        txn.commit_outcome(db) is Ok,
        db.has_family(cf),
    ensures
        txn.committed_db(db).read(SnapshotPin::Latest, cf, key) == txn.read(
            db,
            SnapshotPin::Latest,
            cf,
            key,
        ),
{
    let after = txn.committed_db(db);
    let marks = touch_ops(txn.watched);
    assert(after.log.take(after.log.len() as int) =~= db.log + txn.buffer.ops + marks);
    assert(db.log.take(db.log.len() as int) =~= db.log);
    lemma_apply_concat(db.merge_operator, None, db.log + txn.buffer.ops, marks, cf, key);
    lemma_apply_concat(db.merge_operator, None, db.log, txn.buffer.ops, cf, key);
    lemma_marks_change_nothing(
        db,
        apply_ops(db.merge_operator, None, db.log + txn.buffer.ops, cf, key),
        txn.watched,
        cf,
        key,
    );
}

/// Commit conflict: when a transaction that has a claim to a key commits,
/// every other transaction that holds a read for update of that key, made
/// against a state no later than the one the first committed on, fails to
/// commit with a conflict, on the state the first produced and on every
/// later one.
pub proof fn commit_conflict(
    first: TxnView,
    second: TxnView,
    db: DbView,
    later: DbView,
    i: int,
    j: int,
)
    requires
        first.commit_outcome(db) is Ok,
        later.extends(first.committed_db(db)),
        0 <= i < first.watched.len(),
        first.watched[i].mode == TrackMode::Exclusive,
        0 <= j < second.watched.len(),
        second.watched[j].mode != TrackMode::Read,
        second.watched[j].cf == first.watched[i].cf,
        second.watched[j].key == first.watched[i].key,
        second.watched[j].sequence <= db.sequence(),
    ensures
        second.commit_outcome(later) == Err::<(), ErrorView>(
            ErrorView { kind: ErrorKind::Conflict, message: conflict_text() },
        ),
{
    let cf = first.watched[i].cf;
    let key = first.watched[i].key;
    let marks = touch_ops(first.watched);
    lemma_claim_is_marked(first.watched, i);
    let k = choose|k: int| 0 <= k < marks.len() && (#[trigger] marks[k]).hits(cf, key);
    let after = first.committed_db(db);
    let at = db.log.len() + first.buffer.ops.len() + k;
    assert(after.log[at] == marks[k]);
    assert(later.log.take(after.log.len() as int)[at] == later.log[at]);
    let since = second.watched[j].sequence as int;
    assert(later.log.skip(since)[at - since] == later.log[at]);
    assert(later.modified_since(since as nat, cf, key));
    assert(second.read_conflict(later));
}

/// Commit conflict between two transactions that both read a key for update
/// with a claim to it on the same state: when the first commits, the commit
/// of the second on the state the first produced fails with a conflict.
pub proof fn racing_claims_conflict(first: TxnView, second: TxnView, db: DbView, cf: u64, key: Seq<u8>)
    requires
        db.wf(),
        db.has_family(cf),
        second.start <= db.sequence(),
        first.after_get_for_update(db, SnapshotPin::Latest, cf, key, true).commit_outcome(db) is Ok,
    ensures
        second.after_get_for_update(db, SnapshotPin::Latest, cf, key, true).commit_outcome(
            first.after_get_for_update(db, SnapshotPin::Latest, cf, key, true).committed_db(db),
        ) == Err::<(), ErrorView>(ErrorView { kind: ErrorKind::Conflict, message: conflict_text() }),
{
    let a = first.after_get_for_update(db, SnapshotPin::Latest, cf, key, true);
    let b = second.after_get_for_update(db, SnapshotPin::Latest, cf, key, true);
    let after = a.committed_db(db);
    assert(after.log.take(after.log.len() as int) =~= after.log);
    commit_conflict(a, b, db, after, a.watched.len() - 1, b.watched.len() - 1);
}

/// A write conflicts only with what came after it: a transaction that
/// tracks nothing for the commit's check and buffers one write on a state
/// of the database commits on that state, whatever was written to the key
/// before, unless it holds on to a start of its own.
pub proof fn late_write_commits(txn: TxnView, db: DbView, op: WriteOpView)
    requires
        txn.wf(),
        db.wf(),
        !txn.pinned,
        txn.buffer.ops.len() == 0,
        forall|i: int| 0 <= i < txn.watched.len() ==> (#[trigger] txn.watched[i]).mode == TrackMode::Read,
        db.has_family(op.cf),
    ensures
        txn.buffered(db, op).commit_outcome(db) == Ok::<(), ErrorView>(()),
{
    let after = txn.buffered(db, op);
    assert(touch_ops(after.watched) =~= Seq::<WriteOpView>::empty()) by {
        lemma_reads_leave_no_marks(after.watched);
    }
    assert(after.commit_ops() =~= seq![op]);
    assert(after.buffer.ops =~= seq![op]);
    assert(after.stamps =~= seq![txn.anchor(db)]);
    assert(!after.write_conflict(db));
    assert(!after.read_conflict(db));
    assert(db.accepts(seq![op])) by {
        assert forall|i: int| 0 <= i < seq![op].len() implies db.has_family(
            (#[trigger] seq![op][i]).cf,
        ) by {}
    }
}

/// A tracking set of plain reads leaves no mark.
proof fn lemma_reads_leave_no_marks(watched: Seq<TrackedView>)
    requires
        forall|i: int| 0 <= i < watched.len() ==> (#[trigger] watched[i]).mode == TrackMode::Read,
    ensures
        touch_ops(watched) == Seq::<WriteOpView>::empty(),
    decreases watched.len(),
{
    if watched.len() > 0 {
        assert forall|i: int| 0 <= i < watched.drop_last().len() implies (
        #[trigger] watched.drop_last()[i]).mode == TrackMode::Read by {
            assert(watched.drop_last()[i] == watched[i]);
        }
        lemma_reads_leave_no_marks(watched.drop_last());
        assert(watched.last() == watched[watched.len() - 1]);
    }
}

/// A transaction stays usable: after a rollback, and after a commit that
/// succeeded, a write that the transaction buffers on a state of the
/// database commits on that state, whatever happened to the key before.
pub proof fn usable_after_rollback_and_commit(
    txn: TxnView,
    earlier: DbView,
    db: DbView,
    op: WriteOpView,
)
    requires
        db.wf(),
        db.has_family(op.cf),
    ensures
        txn.rolled_back().buffered(db, op).commit_outcome(db) == Ok::<(), ErrorView>(()),
        txn.committed(earlier).buffered(db, op).commit_outcome(db) == Ok::<(), ErrorView>(()),
{
    late_write_commits(txn.rolled_back(), db, op);
    late_write_commits(txn.committed(earlier), db, op);
}

/// Two transactions that both buffered a write to a key before either
/// committed conflict: when the first commits, the commit of the second
/// fails with a conflict, on the state the first produced and on every
/// later one.
pub proof fn racing_writes_conflict(
    first: TxnView,
    second: TxnView,
    db: DbView,
    later: DbView,
    i: int,
    j: int,
)
    requires
        first.commit_outcome(db) is Ok,
        later.extends(first.committed_db(db)),
        0 <= i < first.buffer.ops.len(),
        0 <= j < second.buffer.ops.len(),
        j < second.stamps.len(),
        second.buffer.ops[j].cf == first.buffer.ops[i].cf,
        second.buffer.ops[j].key == first.buffer.ops[i].key,
        second.stamps[j] <= db.sequence(),
    ensures
        second.commit_outcome(later) == Err::<(), ErrorView>(
            ErrorView { kind: ErrorKind::Conflict, message: conflict_text() },
        ),
{
    let after = first.committed_db(db);
    let at = db.log.len() + i;
    assert(after.log[at] == first.buffer.ops[i]);
    assert(later.log.take(after.log.len() as int)[at] == later.log[at]);
    let since = second.stamps[j] as int;
    assert(later.log.skip(since)[at - since] == later.log[at]);
    assert(later.modified_since(since as nat, second.buffer.ops[j].cf, second.buffer.ops[j].key));
    assert(second.write_conflict(later));
}

/// Idempotent release: releasing a snapshot that is already released changes
/// nothing, and reads through a released snapshot are refused whatever the
/// database holds.
pub proof fn release_is_idempotent(snapshot: SnapshotView, db: DbView, cf: u64, key: Seq<u8>)
    ensures
        snapshot.release().release() == snapshot.release(),
        db.read(snapshot.release().pin(), cf, key) == Err::<Option<Seq<u8>>, ErrorView>(
            ErrorView { kind: ErrorKind::Validation, message: released_snapshot_text() },
        ),
{
}

/// Every change to a database leads to a later state of it: applying
/// writes, committing a transaction, adding a family and dropping one all
/// keep the writes that were there, in their order.
pub proof fn changes_lead_to_later_states(
    db: DbView,
    ops: Seq<WriteOpView>,
    txn: TxnView,
    name: Seq<char>,
    cf: nat,
)
    ensures
        db.with_ops(ops).extends(db),
        txn.committed_db(db).extends(db),
        db.with_family(name).extends(db),
        db.without_family(cf).extends(db),
        forall|family: u64, settings: crate::options::Settings| #[trigger]
            db.with_settings(family, settings).extends(db),
{
    assert((db.log + ops).take(db.log.len() as int) =~= db.log);
    assert((db.log + txn.commit_ops()).take(db.log.len() as int) =~= db.log);
    assert(db.log.take(db.log.len() as int) =~= db.log);
}

/// A later state of a later state of a database is a later state of it, so
/// what is said above of later states holds across any number of writes
/// and commits.
pub proof fn later_states_compose(first: DbView, second: DbView, third: DbView)
    requires
        second.extends(first),
        third.extends(second),
    ensures
        third.extends(first),
{
    lemma_extends_transitive(first, second, third);
}

} // verus!
