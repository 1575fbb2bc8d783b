//! Iteration over the keys of a column family in ascending order, as of one
//! state of the database and, for a transaction, through its buffered writes.

use vstd::prelude::*;
use crate::bytes::copy_bytes;
use crate::column_family::{ColumnFamily, DEFAULT_FAMILY};
use crate::db::{DbView, DB};
use crate::error::{unknown_family_text, Error, ErrorKind, ErrorView};
use crate::optimistic_transaction::{OptimisticTransaction, OptimisticTransactionSnapshot};
use crate::options::{MergeOperator, ReadOptions, SnapshotPin};
use crate::snapshot::Snapshot;
use crate::transaction::{Transaction, TransactionSnapshot};
use crate::write_batch::{
    apply_ops, fold_ops, lemma_apply_untouched, lemma_ops_view, ops_view, touches, WriteOp,
    WriteOpView,
};

verus! {

/// Whether `a` comes before `b` in the order of keys: at the first position
/// where they differ `a` has the smaller byte, or `a` ends there and `b`
/// does not.
pub open spec fn key_lt(a: Seq<u8>, b: Seq<u8>) -> bool {
    exists|k: int|
        0 <= k <= a.len() && k <= b.len() && #[trigger] a.take(k) == b.take(k) && (if k == a.len() {
            k < b.len()
        } else {
            k < b.len() && a[k] < b[k]
        })
}

/// How one key stands to another in the order of keys.
#[derive(Clone, Copy, Debug, PartialEq, Eq, Structural)]
pub enum Placement {
    Before,
    Same,
    After,
}

/// Places `a` relative to `b` in the order of keys.
pub fn place(a: &[u8], b: &[u8]) -> (p: Placement)
    ensures
        p == Placement::Before ==> key_lt(a@, b@),
        p == Placement::Same ==> a@ == b@,
        p == Placement::After ==> key_lt(b@, a@),
{
    let mut i: usize = 0;
    while i < a.len() && i < b.len()
        invariant
            i <= a@.len(),
            i <= b@.len(),
            a@.take(i as int) == b@.take(i as int),
        decreases a@.len() - i,
    {
        if a[i] < b[i] {
            return Placement::Before;
        }
        if a[i] > b[i] {
            return Placement::After;
        }
        assert(a@.take(i + 1) =~= a@.take(i as int).push(a@[i as int]));
        assert(b@.take(i + 1) =~= b@.take(i as int).push(b@[i as int]));
        i += 1;
    }
    if a.len() < b.len() {
        Placement::Before
    } else if a.len() > b.len() {
        Placement::After
    } else {
        assert(a@.take(i as int) =~= a@);
        assert(b@.take(i as int) =~= b@);
        Placement::Same
    }
}

/// No key comes before itself.
pub proof fn lemma_key_lt_irreflexive(a: Seq<u8>)
    ensures
        !key_lt(a, a),
{
}

/// The contents of a list of keys.
pub open spec fn keys_view(keys: Seq<Vec<u8>>) -> Seq<Seq<u8>> {
    keys.map_values(|k: Vec<u8>| k@)
}

/// Whether each key of the list comes before the next.
pub open spec fn ascending(keys: Seq<Seq<u8>>) -> bool {
    forall|i: int| 0 <= i < keys.len() - 1 ==> key_lt(#[trigger] keys[i], keys[i + 1])
}

/// Adds `key` to an ascending list of keys, unless it is there already.
pub fn insert_key(keys: &mut Vec<Vec<u8>>, key: &[u8])
    ensures
        ascending(keys_view(old(keys)@)) ==> ascending(keys_view(final(keys)@)),
        keys_view(final(keys)@).contains(key@),
        forall|k: Seq<u8>| keys_view(old(keys)@).contains(k) ==> keys_view(final(keys)@).contains(k),
        forall|k: Seq<u8>|
            keys_view(final(keys)@).contains(k) ==> k == key@ || keys_view(old(keys)@).contains(k),
{
    let ghost before = keys_view(keys@);
    let mut at: usize = 0;
    let mut stop = false;
    while at < keys.len() && !stop
        invariant
            at <= keys@.len(),
            keys@ == old(keys)@,
            before == keys_view(keys@),
            forall|j: int| 0 <= j < at ==> key_lt(#[trigger] before[j], key@),
            stop ==> at < keys@.len() && key_lt(key@, before[at as int]),
        decreases keys@.len() - at + if stop { 0int } else { 1int },
    {
        assert(before[at as int] == keys@[at as int]@);
        match place(keys[at].as_slice(), key) {
            Placement::Before => {
                at += 1;
            },
            Placement::Same => {
                assert(before[at as int] == key@);
                return ;
            },
            Placement::After => {
                stop = true;
            },
        }
    }
    keys.insert(at, copy_bytes(key));
    proof {
        let after = keys_view(keys@);
        assert(after =~= before.insert(at as int, key@));
        assert(after[at as int] == key@);
        if ascending(before) {
            assert forall|i: int| 0 <= i < after.len() - 1 implies key_lt(
                #[trigger] after[i],
                after[i + 1],
            ) by {
                if i + 1 < at {
                    assert(after[i] == before[i] && after[i + 1] == before[i + 1]);
                } else if i + 1 == at {
                    assert(after[i] == before[i]);
                } else if i == at {
                    assert(after[i + 1] == before[i]);
                } else {
                    assert(after[i] == before[i - 1] && after[i + 1] == before[i]);
                }
            }
        }
        assert forall|k: Seq<u8>| before.contains(k) implies after.contains(k) by {
            let j = choose|j: int| 0 <= j < before.len() && before[j] == k;
            if j < at {
                assert(after[j] == k);
            } else {
                assert(after[j + 1] == k);
            }
        }
        assert forall|k: Seq<u8>| after.contains(k) implies k == key@ || before.contains(k) by {
            let j = choose|j: int| 0 <= j < after.len() && after[j] == k;
            if j < at {
                assert(before[j] == k);
            } else if j > at {
                assert(before[j - 1] == k);
            }
        }
    }
}

/// The order of keys is transitive.
pub proof fn lemma_key_lt_transitive(a: Seq<u8>, b: Seq<u8>, c: Seq<u8>)
    requires
        key_lt(a, b),
        key_lt(b, c),
    ensures
        key_lt(a, c),
{
    let k1 = choose|k: int|
        0 <= k <= a.len() && k <= b.len() && #[trigger] a.take(k) == b.take(k) && (if k == a.len() {
            k < b.len()
        } else {
            k < b.len() && a[k] < b[k]
        });
    let k2 = choose|k: int|
        0 <= k <= b.len() && k <= c.len() && #[trigger] b.take(k) == c.take(k) && (if k == b.len() {
            k < c.len()
        } else {
            k < c.len() && b[k] < c[k]
        });
    let k = if k1 <= k2 {
        k1
    } else {
        k2
    };
    assert(a.take(k) =~= c.take(k)) by {
        assert forall|i: int| 0 <= i < k implies a[i] == c[i] by {
            assert(a.take(k1)[i] == b.take(k1)[i]);
            assert(b.take(k2)[i] == c.take(k2)[i]);
        }
    }
    if k1 < k2 {
        assert(b.take(k2)[k1] == c.take(k2)[k1]);
    } else if k2 < k1 {
        assert(a.take(k1)[k2] == b.take(k1)[k2]);
    }
    assert(a.take(k) == c.take(k) && (if k == a.len() {
        k < c.len()
    } else {
        k < c.len() && a[k] < c[k]
    }));
}

/// In an ascending list every key comes before every later one.
pub proof fn lemma_ascending_pairs(keys: Seq<Seq<u8>>, i: int, j: int)
    requires
        ascending(keys),
        0 <= i < j < keys.len(),
    ensures
        key_lt(keys[i], keys[j]),
    decreases j - i,
{
    if i + 1 < j {
        lemma_ascending_pairs(keys, i, j - 1);
        assert(key_lt(keys[j - 1], keys[j - 1 + 1]));
        lemma_key_lt_transitive(keys[i], keys[j - 1], keys[j]);
    }
}

/// What `key` of family `cf` holds for a reader that sees the first `upto`
/// writes of `log` and, over them, the writes `overlay`.
pub open spec fn seen_value(
    operator: MergeOperator,
    log: Seq<WriteOpView>,
    upto: nat,
    overlay: Seq<WriteOpView>,
    cf: u64,
    key: Seq<u8>,
) -> Option<Seq<u8>> {
    apply_ops(operator, apply_ops(operator, None, log.take(upto as int), cf, key), overlay, cf, key)
}

/// A key with its value.
#[derive(Debug)]
pub struct Entry {
    pub key: Vec<u8>,
    pub value: Vec<u8>,
}

impl View for Entry {
    type V = (Seq<u8>, Seq<u8>);

    open spec fn view(&self) -> (Seq<u8>, Seq<u8>) {
        (self.key@, self.value@)
    }
}

/// The contents of a list of entries.
pub open spec fn entries_view(entries: Seq<Entry>) -> Seq<(Seq<u8>, Seq<u8>)> {
    entries.map_values(|e: Entry| e@)
}

/// The keys of a list of entries.
pub open spec fn entry_keys(entries: Seq<(Seq<u8>, Seq<u8>)>) -> Seq<Seq<u8>> {
    entries.map_values(|e: (Seq<u8>, Seq<u8>)| e.0)
}

/// Whether `entries` is the listing of family `cf` for a reader that sees
/// the first `upto` writes of `log` and, over them, the writes `overlay`:
/// the keys ascend, every entry holds what its key holds for that reader,
/// and every key that holds something for that reader has an entry.
pub open spec fn is_listing(
    entries: Seq<(Seq<u8>, Seq<u8>)>,
    operator: MergeOperator,
    log: Seq<WriteOpView>,
    upto: nat,
    overlay: Seq<WriteOpView>,
    cf: u64,
) -> bool {
    &&& ascending(entry_keys(entries))
    &&& forall|i: int|
        0 <= i < entries.len() ==> seen_value(
            operator,
            log,
            upto,
            overlay,
            cf,
            (#[trigger] entries[i]).0,
        ) == Some(entries[i].1)
    &&& forall|key: Seq<u8>|
        #[trigger] seen_value(operator, log, upto, overlay, cf, key) is Some ==> entry_keys(
            entries,
        ).contains(key)
}

/// Writes that address a key among one more write.
proof fn lemma_touches_push(ops: Seq<WriteOpView>, op: WriteOpView, cf: u64, key: Seq<u8>)
    ensures
        touches(ops.push(op), cf, key) <==> touches(ops, cf, key) || op.hits(cf, key),
{
    let more = ops.push(op);
    if touches(ops, cf, key) {
        let i = choose|i: int| 0 <= i < ops.len() && (#[trigger] ops[i]).hits(cf, key);
        assert(more[i].hits(cf, key));
    }
    if op.hits(cf, key) {
        assert(more[ops.len() as int].hits(cf, key));
    }
    if touches(more, cf, key) {
        let i = choose|i: int| 0 <= i < more.len() && (#[trigger] more[i]).hits(cf, key);
        if i < ops.len() {
            assert(ops[i].hits(cf, key));
        }
    }
}

/// Whether `now` holds the keys of `start` and the keys of family `cf` that
/// the writes `ops` address, and no others.
pub open spec fn gathers(now: Seq<Seq<u8>>, start: Seq<Seq<u8>>, ops: Seq<WriteOpView>, cf: u64) -> bool {
    forall|k: Seq<u8>| #[trigger] now.contains(k) <==> start.contains(k) || touches(ops, cf, k)
}

/// Adds to an ascending list of keys every key of family `cf` that one of
/// the first `upto` writes of `ops` addresses.
fn collect_keys(ops: &Vec<WriteOp>, upto: usize, cf: u64, keys: &mut Vec<Vec<u8>>)
    requires
        upto <= ops@.len(),
        ascending(keys_view(old(keys)@)),
    ensures
        ascending(keys_view(final(keys)@)),
        gathers(
            keys_view(final(keys)@),
            keys_view(old(keys)@),
            ops_view(ops@).take(upto as int),
            cf,
        ),
{
    let ghost all = ops_view(ops@);
    let ghost start = keys_view(keys@);
    let mut i: usize = 0;
    proof {
        lemma_ops_view(ops@);
        assert(all.take(0) =~= Seq::<WriteOpView>::empty());
    }
    while i < upto
        invariant
            i <= upto <= ops@.len(),
            all == ops_view(ops@),
            all.len() == ops@.len(),
            start == keys_view(old(keys)@),
            ascending(keys_view(keys@)),
            gathers(keys_view(keys@), start, all.take(i as int), cf),
        decreases upto - i,
    {
        let op = &ops[i];
        let ghost held = keys_view(keys@);
        proof {
            lemma_ops_view(ops@);
            assert(all.take(i + 1) =~= all.take(i as int).push(all[i as int]));
            assert(all[i as int] == op@);
        }
        if op.cf == cf {
            insert_key(keys, op.key.as_slice());
        }
        proof {
            assert forall|k: Seq<u8>| #[trigger]
                keys_view(keys@).contains(k) <==> start.contains(k) || touches(
                    all.take(i + 1),
                    cf,
                    k,
                ) by {
                lemma_touches_push(all.take(i as int), all[i as int], cf, k);
                assert(held.contains(k) <==> start.contains(k) || touches(all.take(i as int), cf, k));
                let now = keys_view(keys@);
                if op.cf == cf {
                    assert(all[i as int].hits(cf, k) <==> k == op.key@);
                    assert(now.contains(op.key@));
                    assert(held.contains(k) ==> now.contains(k));
                    assert(now.contains(k) ==> k == op.key@ || held.contains(k));
                } else {
                    assert(!all[i as int].hits(cf, k));
                    assert(now == held);
                }
            }
        }
        i += 1;
    }
}

/// Lists family `cf` for a reader that sees the first `upto` writes of `log`
/// and, over them, the writes `overlay`.
pub(crate) fn list_family(
    operator: MergeOperator,
    log: &Vec<WriteOp>,
    upto: usize,
    overlay: &Vec<WriteOp>,
    cf: u64,
) -> (entries: Vec<Entry>)
    requires
        upto <= log@.len(),
    ensures
        is_listing(
            entries_view(entries@),
            operator,
            ops_view(log@),
            upto as nat,
            ops_view(overlay@),
            cf,
        ),
{
    let ghost below = ops_view(log@);
    let ghost above = ops_view(overlay@);
    let mut keys: Vec<Vec<u8>> = Vec::new();
    proof {
        lemma_ops_view(log@);
        lemma_ops_view(overlay@);
        assert(above.take(above.len() as int) =~= above);
    }
    collect_keys(log, upto, cf, &mut keys);
    collect_keys(overlay, overlay.len(), cf, &mut keys);
    let ghost names = keys_view(keys@);
    proof {
        assert forall|key: Seq<u8>| #[trigger]
            seen_value(operator, below, upto as nat, above, cf, key) is Some implies names.contains(
            key,
        ) by {
            assert(keys_view(Seq::<Vec<u8>>::empty()) =~= Seq::<Seq<u8>>::empty());
            if !names.contains(key) {
                lemma_apply_untouched(operator, None, below.take(upto as int), cf, key);
                lemma_apply_untouched(operator, None, above, cf, key);
            }
        }
    }
    let mut entries: Vec<Entry> = Vec::new();
    let mut i: usize = 0;
    while i < keys.len()
        invariant
            i <= keys@.len(),
            upto <= log@.len(),
            below == ops_view(log@),
            above == ops_view(overlay@),
            names == keys_view(keys@),
            names.len() == keys@.len(),
            ascending(names),
            ascending(entry_keys(entries_view(entries@))),
            forall|j: int|
                0 <= j < entries@.len() ==> seen_value(
                    operator,
                    below,
                    upto as nat,
                    above,
                    cf,
                    (#[trigger] entries_view(entries@)[j]).0,
                ) == Some(entries_view(entries@)[j].1),
            forall|j: int|
                0 <= j < entries@.len() ==> exists|m: int|
                    0 <= m < i && names[m] == (#[trigger] entries_view(entries@)[j]).0,
            forall|m: int|
                0 <= m < i && seen_value(operator, below, upto as nat, above, cf, #[trigger] names[m])
                    is Some ==> entry_keys(entries_view(entries@)).contains(names[m]),
        decreases keys@.len() - i,
    {
        let key = keys[i].as_slice();
        assert(names[i as int] == key@);
        let base = fold_ops(operator, None, log, upto, cf, key);
        proof {
            assert(above.take(overlay@.len() as int) =~= above);
        }
        let ghost listed = entries_view(entries@);
        match fold_ops(operator, base, overlay, overlay.len(), cf, key) {
            Some(held) => {
                let entry = Entry { key: copy_bytes(key), value: held.to_vec() };
                entries.push(entry);
                proof {
                    let now = entries_view(entries@);
                    assert(now =~= listed.push((key@, entry.value@)));
                    assert(entry_keys(now) =~= entry_keys(listed).push(key@));
                    assert forall|j: int| 0 <= j < entry_keys(now).len() - 1 implies key_lt(
                        #[trigger] entry_keys(now)[j],
                        entry_keys(now)[j + 1],
                    ) by {
                        if j + 1 < listed.len() {
                            assert(key_lt(entry_keys(listed)[j], entry_keys(listed)[j + 1]));
                        } else {
                            let m = choose|m: int| 0 <= m < i && names[m] == listed[j].0;
                            lemma_ascending_pairs(names, m, i as int);
                        }
                    }
                    assert forall|j: int| 0 <= j < now.len() implies exists|m: int|
                        0 <= m < i + 1 && names[m] == (#[trigger] now[j]).0 by {
                        if j < listed.len() {
                            let m = choose|m: int| 0 <= m < i && names[m] == listed[j].0;
                            assert(names[m] == now[j].0);
                        } else {
                            assert(names[i as int] == now[j].0);
                        }
                    }
                    assert forall|m: int|
                        0 <= m < i + 1 && seen_value(
                            operator,
                            below,
                            upto as nat,
                            above,
                            cf,
                            #[trigger] names[m],
                        ) is Some implies entry_keys(now).contains(names[m]) by {
                        if m < i {
                            let j = choose|j: int|
                                0 <= j < entry_keys(listed).len() && entry_keys(listed)[j] == names[m];
                            assert(entry_keys(now)[j] == names[m]);
                        } else {
                            assert(entry_keys(now)[listed.len() as int] == names[m]);
                        }
                    }
                }
            },
            None => {},
        }
        i += 1;
    }
    proof {
        let done = entries_view(entries@);
        assert forall|key: Seq<u8>| #[trigger]
            seen_value(operator, below, upto as nat, above, cf, key) is Some implies entry_keys(
            done,
        ).contains(key) by {
            let m = choose|m: int| 0 <= m < names.len() && names[m] == key;
            assert(entry_keys(done).contains(names[m]));
        }
    }
    entries
}

/// No two keys come before each other.
pub proof fn lemma_key_lt_asymmetric(a: Seq<u8>, b: Seq<u8>)
    requires
        key_lt(a, b),
    ensures
        !key_lt(b, a),
{
    if key_lt(b, a) {
        lemma_key_lt_transitive(a, b, a);
        lemma_key_lt_irreflexive(a);
    }
}

/// The mathematical content of an iterator.
pub struct IterView {
    /// The entries the iterator walks over, in ascending order of their keys.
    pub entries: Seq<(Seq<u8>, Seq<u8>)>,
    /// Where the iterator stands; at the number of entries it stands nowhere.
    pub position: nat,
    /// The error with which the iterator was refused, if it was.
    pub status: Option<ErrorView>,
}

impl IterView {
    /// Whether the iterator stands on an entry.
    pub open spec fn valid(self) -> bool {
        self.position < self.entries.len()
    }

    /// The iterator moved to `position`.
    pub open spec fn at(self, position: nat) -> IterView {
        IterView { position, ..self }
    }

    /// An iterator that was refused with `error`: it has no entries.
    pub open spec fn refused(error: ErrorView) -> IterView {
        IterView { entries: Seq::empty(), position: 0, status: Some(error) }
    }

    /// Whether the iterator walks over family `cf` of `db` as a reader under
    /// `pin` sees it through the writes `overlay`, and stands nowhere yet.
    pub open spec fn walks(self, db: DbView, overlay: Seq<WriteOpView>, pin: SnapshotPin, cf: u64) -> bool {
        &&& self.status is None
        &&& self.position == self.entries.len()
        &&& is_listing(
            self.entries,
            db.merge_operator,
            db.log,
            db.horizon(pin),
            overlay,
            cf,
        )
    }

    /// Whether the iterator is what a scan of family `cf` of `db` under
    /// `pin` through the writes `overlay` hands out: a scan is refused as a
    /// read is, where the pin is refused or the database does not have the
    /// family.
    pub open spec fn scans(self, db: DbView, overlay: Seq<WriteOpView>, pin: SnapshotPin, cf: u64) -> bool {
        if db.pin_refusal(pin) is Some {
            self == IterView::refused(db.pin_refusal(pin).unwrap())
        } else if !db.has_family(cf) {
            self == IterView::refused(
                ErrorView { kind: ErrorKind::Validation, message: unknown_family_text() },
            )
        } else {
            self.walks(db, overlay, pin, cf)
        }
    }
}

/// Where an iterator is placed when it is made.
#[derive(Clone, Copy, Debug, PartialEq, Eq, Structural)]
pub enum IteratorMode {
    /// On the entry with the smallest key.
    Start,
    /// On the entry with the largest key.
    End,
}

/// An iterator over the entries of one column family, in ascending order of
/// their keys, as of the moment it was made.
pub struct DBRawIterator {
    entries: Vec<Entry>,
    position: usize,
    status: Option<Error>,
}

impl View for DBRawIterator {
    type V = IterView;

    closed spec fn view(&self) -> IterView {
        IterView {
            entries: entries_view(self.entries@),
            position: self.position as nat,
            status: match self.status {
                Some(e) => Some(e@),
                None => None,
            },
        }
    }
}

impl DBRawIterator {
    fn over(entries: Vec<Entry>) -> (it: DBRawIterator)
        ensures
            it@ == (IterView {
                entries: entries_view(entries@),
                position: entries@.len(),
                status: None,
            }),
    {
        let position = entries.len();
        DBRawIterator { entries, position, status: None }
    }

    fn refused(error: Error) -> (it: DBRawIterator)
        ensures
            it@ == IterView::refused(error@),
    {
        let it = DBRawIterator { entries: Vec::new(), position: 0, status: Some(error) };
        assert(it@.entries =~= Seq::empty());
        it
    }

    /// Whether the iterator stands on an entry.
    pub fn valid(&self) -> (b: bool)
        ensures
            b == self@.valid(),
    {
        self.position < self.entries.len()
    }

    /// The error with which the iterator was refused, if it was.
    pub fn status(&self) -> (r: Result<(), Error>)
        ensures
            match self@.status {
                Some(e) => r matches Err(x) && x@ == e,
                None => r is Ok,
            },
    {
        match &self.status {
            Some(e) => Err(e.clone()),
            None => Ok(()),
        }
    }

    /// Number of entries the iterator walks over.
    pub fn len(&self) -> (n: usize)
        ensures
            n == self@.entries.len(),
    {
        self.entries.len()
    }

    /// Moves to the entry with the smallest key, if there is an entry.
    pub fn seek_to_first(&mut self)
        ensures
            final(self)@ == old(self)@.at(0),
    {
        self.position = 0;
    }

    /// Moves to the entry with the largest key, if there is an entry.
    pub fn seek_to_last(&mut self)
        ensures
            final(self)@ == old(self)@.at(
                if old(self)@.entries.len() > 0 {
                    (old(self)@.entries.len() - 1) as nat
                } else {
                    0
                },
            ),
    {
        if self.entries.len() > 0 {
            self.position = self.entries.len() - 1;
        } else {
            self.position = 0;
        }
    }

    /// Moves to the first entry whose key does not come before `key`; where
    /// every key comes before `key`, the iterator stands nowhere.
    pub fn seek(&mut self, key: &[u8])
        ensures
            final(self)@ == old(self)@.at(final(self)@.position),
            final(self)@.position <= old(self)@.entries.len(),
            forall|j: int|
                0 <= j < final(self)@.position ==> key_lt((#[trigger] old(self)@.entries[j]).0, key@),
            final(self)@.valid() ==> !key_lt(
                old(self)@.entries[final(self)@.position as int].0,
                key@,
            ),
    {
        let mut at: usize = 0;
        let mut stop = false;
        while at < self.entries.len() && !stop
            invariant
                at <= self.entries@.len(),
                *self == *old(self),
                forall|j: int| 0 <= j < at ==> key_lt((#[trigger] self@.entries[j]).0, key@),
                stop ==> at < self.entries@.len() && !key_lt(self@.entries[at as int].0, key@),
            decreases self.entries@.len() - at + if stop { 0int } else { 1int },
        {
            assert(self@.entries[at as int] == self.entries@[at as int]@);
            match place(self.entries[at].key.as_slice(), key) {
                Placement::Before => {
                    at += 1;
                },
                Placement::Same => {
                    proof {
                        lemma_key_lt_irreflexive(key@);
                    }
                    stop = true;
                },
                Placement::After => {
                    proof {
                        lemma_key_lt_asymmetric(key@, self@.entries[at as int].0);
                    }
                    stop = true;
                },
            }
        }
        self.position = at;
    }

    /// Moves to the next entry; from the last entry the iterator moves to
    /// nowhere, and from nowhere it does not move.
    pub fn next(&mut self)
        ensures
            final(self)@ == old(self)@.at(
                if old(self)@.valid() {
                    old(self)@.position + 1
                } else {
                    old(self)@.position
                },
            ),
    {
        if self.position < self.entries.len() {
            self.position = self.position + 1;
        }
    }

    /// Moves to the previous entry; from the first entry, and from nowhere,
    /// the iterator moves to nowhere.
    pub fn prev(&mut self)
        ensures
            final(self)@ == old(self)@.at(
                if old(self)@.valid() && old(self)@.position > 0 {
                    (old(self)@.position - 1) as nat
                } else {
                    old(self)@.entries.len()
                },
            ),
    {
        if self.position < self.entries.len() && self.position > 0 {
            self.position = self.position - 1;
        } else {
            self.position = self.entries.len();
        }
    }

    /// The key of the entry the iterator stands on.
    pub fn key(&self) -> (k: Option<&[u8]>)
        ensures
            match k {
                Some(bytes) => self@.valid() && bytes@ == self@.entries[self@.position as int].0,
                None => !self@.valid(),
            },
    {
        if self.position < self.entries.len() {
            assert(self@.entries[self.position as int] == self.entries@[self.position as int]@);
            Some(self.entries[self.position].key.as_slice())
        } else {
            None
        }
    }

    /// The value of the entry the iterator stands on.
    pub fn value(&self) -> (v: Option<&[u8]>)
        ensures
            match v {
                Some(bytes) => self@.valid() && bytes@ == self@.entries[self@.position as int].1,
                None => !self@.valid(),
            },
    {
        if self.position < self.entries.len() {
            assert(self@.entries[self.position as int] == self.entries@[self.position as int]@);
            Some(self.entries[self.position].value.as_slice())
        } else {
            None
        }
    }

    /// Copies of the entries from the one the iterator stands on to the last.
    pub fn collect_forward(&self) -> (rest: Vec<(Vec<u8>, Vec<u8>)>)
        ensures
            rest@.len() == if self@.valid() {
                self@.entries.len() - self@.position
            } else {
                0
            },
            forall|i: int|
                0 <= i < rest@.len() ==> ((#[trigger] rest@[i]).0@, rest@[i].1@) == self@.entries[self@.position
                    + i],
    {
        let mut rest: Vec<(Vec<u8>, Vec<u8>)> = Vec::new();
        let mut i: usize = self.position;
        while i < self.entries.len()
            invariant
                self.position <= i,
                self.position < self.entries@.len() ==> i <= self.entries@.len(),
                rest@.len() == if self.position < self.entries@.len() {
                    i - self.position
                } else {
                    0
                },
                forall|j: int|
                    0 <= j < rest@.len() ==> ((#[trigger] rest@[j]).0@, rest@[j].1@) == self@.entries[self.position
                        + j],
            decreases self.entries@.len() - i,
        {
            let entry = &self.entries[i];
            assert(self@.entries[i as int] == entry@);
            rest.push((copy_bytes(entry.key.as_slice()), copy_bytes(entry.value.as_slice())));
            i += 1;
        }
        rest
    }
}

/// Scans family `cf` of `db` under `pin` through the writes `overlay`.
pub(crate) fn scan_family(db: &DB, overlay: &Vec<WriteOp>, pin: SnapshotPin, cf: u64) -> (it:
    DBRawIterator)
    ensures
        it@.scans(db@, ops_view(overlay@), pin, cf),
{
    let upto = match db.check_pin(pin) {
        Ok(upto) => upto,
        Err(e) => {
            return DBRawIterator::refused(e);
        },
    };
    if !db.has_family(cf) {
        return DBRawIterator::refused(Error::unknown_family());
    }
    let entries = list_family(db.merge_operator(), db.log(), upto, overlay, cf);
    DBRawIterator::over(entries)
}

/// What a scan that can fail hands out: the iterator, or the error with
/// which it was refused.
pub(crate) fn checked(it: DBRawIterator) -> (r: Result<DBRawIterator, Error>)
    ensures
        match it@.status {
            Some(e) => r matches Err(x) && x@ == e,
            None => r matches Ok(same) && same@ == it@,
        },
{
    match it.status() {
        Err(e) => Err(e),
        Ok(_) => Ok(it),
    }
}

/// What a scan that can fail hands out, held against what the scan is of.
pub open spec fn checked_scan(
    r: Result<DBRawIterator, Error>,
    db: DbView,
    overlay: Seq<WriteOpView>,
    pin: SnapshotPin,
    cf: u64,
) -> bool {
    match r {
        Ok(it) => it@.status is None && it@.scans(db, overlay, pin, cf),
        Err(e) => IterView::refused(e@).scans(db, overlay, pin, cf),
    }
}

fn no_overlay() -> (none: Vec<WriteOp>)
    ensures
        ops_view(none@) == Seq::<WriteOpView>::empty(),
{
    let none: Vec<WriteOp> = Vec::new();
    assert(ops_view(none@) =~= Seq::<WriteOpView>::empty());
    none
}

impl DB {
    /// An iterator over the default family under `readopts`.
    pub fn get_raw_iter(&self, readopts: &ReadOptions) -> (it: DBRawIterator)
        ensures
            it@.scans(self@, Seq::empty(), readopts.pin, DEFAULT_FAMILY),
    {
        let none = no_overlay();
        scan_family(self, &none, readopts.pin, DEFAULT_FAMILY)
    }

    /// An iterator over family `cf` under `readopts`.
    pub fn get_raw_iter_cf(&self, cf_handle: &ColumnFamily, readopts: &ReadOptions) -> (r: Result<
        DBRawIterator,
        Error,
    >)
        ensures
            checked_scan(r, self@, Seq::empty(), readopts.pin, cf_handle@),
    {
        let none = no_overlay();
        checked(scan_family(self, &none, readopts.pin, cf_handle.id()))
    }

    /// An iterator over the default family as it is now, standing nowhere.
    pub fn raw_iterator(&self) -> (it: DBRawIterator)
        ensures
            it@.scans(self@, Seq::empty(), SnapshotPin::Latest, DEFAULT_FAMILY),
    {
        let opts = ReadOptions::default();
        self.get_raw_iter(&opts)
    }

    /// An iterator over the default family as it is now, standing on the
    /// first entry or on the last as `mode` says.
    pub fn iterator(&self, mode: IteratorMode) -> (it: DBRawIterator)
        ensures
            it@.at(it@.entries.len()).scans(self@, Seq::empty(), SnapshotPin::Latest, DEFAULT_FAMILY),
            it@.position == match mode {
                IteratorMode::Start => 0,
                IteratorMode::End => if it@.entries.len() > 0 {
                    (it@.entries.len() - 1) as nat
                } else {
                    0
                },
            },
    {
        let mut it = self.raw_iterator();
        match mode {
            IteratorMode::Start => it.seek_to_first(),
            IteratorMode::End => it.seek_to_last(),
        }
        it
    }
}

impl Snapshot {
    /// An iterator over the default family as of the snapshot. Of `readopts`
    /// everything but the pin is kept.
    pub fn get_raw_iter(&self, db: &DB, readopts: &ReadOptions) -> (it: DBRawIterator)
        ensures
            it@.scans(db@, Seq::empty(), self@.pin(), DEFAULT_FAMILY),
    {
        let mut ro = *readopts;
        ro.set_snapshot(self);
        db.get_raw_iter(&ro)
    }

    /// An iterator over family `cf` as of the snapshot. Of `readopts`
    /// everything but the pin is kept.
    pub fn get_raw_iter_cf(&self, db: &DB, cf_handle: &ColumnFamily, readopts: &ReadOptions) -> (r:
        Result<DBRawIterator, Error>)
        ensures
            checked_scan(r, db@, Seq::empty(), self@.pin(), cf_handle@),
    {
        let mut ro = *readopts;
        ro.set_snapshot(self);
        db.get_raw_iter_cf(cf_handle, &ro)
    }
}

impl OptimisticTransaction {
    /// An iterator over the default family as the transaction sees it under
    /// `readopts`: the committed state with the transaction's buffered
    /// writes applied over it.
    pub fn get_raw_iter(&self, db: &DB, readopts: &ReadOptions) -> (it: DBRawIterator)
        ensures
            it@.scans(db@, self@.buffer.ops, readopts.pin, DEFAULT_FAMILY),
    {
        scan_family(db, self.buffered_ops(), readopts.pin, DEFAULT_FAMILY)
    }

    /// An iterator over family `cf` as the transaction sees it under `readopts`.
    pub fn get_raw_iter_cf(&self, db: &DB, cf_handle: &ColumnFamily, readopts: &ReadOptions) -> (r:
        Result<DBRawIterator, Error>)
        ensures
            checked_scan(r, db@, self@.buffer.ops, readopts.pin, cf_handle@),
    {
        checked(scan_family(db, self.buffered_ops(), readopts.pin, cf_handle.id()))
    }

    /// An iterator over the default family as the transaction sees it now.
    pub fn raw_iterator(&self, db: &DB) -> (it: DBRawIterator)
        ensures
            it@.scans(db@, self@.buffer.ops, SnapshotPin::Latest, DEFAULT_FAMILY),
    {
        let opts = ReadOptions::default();
        self.get_raw_iter(db, &opts)
    }
}

impl<'a> OptimisticTransactionSnapshot<'a> {
    /// An iterator over the default family as of the snapshot. Of `readopts`
    /// everything but the pin is kept.
    pub fn get_raw_iter(&self, db: &DB, readopts: &ReadOptions) -> (it: DBRawIterator)
        ensures
            it@.scans(db@, self@.txn.buffer.ops, self@.snapshot.pin(), DEFAULT_FAMILY),
    {
        let mut ro = *readopts;
        ro.set_pin(self.pin());
        self.owner().get_raw_iter(db, &ro)
    }

    /// An iterator over family `cf` as of the snapshot. Of `readopts`
    /// everything but the pin is kept.
    pub fn get_raw_iter_cf(&self, db: &DB, cf_handle: &ColumnFamily, readopts: &ReadOptions) -> (r:
        Result<DBRawIterator, Error>)
        ensures
            checked_scan(r, db@, self@.txn.buffer.ops, self@.snapshot.pin(), cf_handle@),
    {
        let mut ro = *readopts;
        ro.set_pin(self.pin());
        self.owner().get_raw_iter_cf(db, cf_handle, &ro)
    }
}

impl<T> Transaction<T> {
    /// An iterator over the default family as the transaction sees it under `readopts`.
    pub fn get_raw_iter(&self, db: &DB, readopts: &ReadOptions) -> (it: DBRawIterator)
        ensures
            it@.scans(db@, self@.buffer.ops, readopts.pin, DEFAULT_FAMILY),
    {
        self.inner().get_raw_iter(db, readopts)
    }

    /// An iterator over family `cf` as the transaction sees it under `readopts`.
    pub fn get_raw_iter_cf(&self, db: &DB, cf_handle: &ColumnFamily, readopts: &ReadOptions) -> (r:
        Result<DBRawIterator, Error>)
        ensures
            checked_scan(r, db@, self@.buffer.ops, readopts.pin, cf_handle@),
    {
        self.inner().get_raw_iter_cf(db, cf_handle, readopts)
    }
}

impl<'a, T> TransactionSnapshot<'a, T> {
    /// An iterator over the default family as of the snapshot.
    pub fn get_raw_iter(&self, db: &DB, readopts: &ReadOptions) -> (it: DBRawIterator)
        ensures
            it@.scans(db@, self@.txn.buffer.ops, self@.snapshot.pin(), DEFAULT_FAMILY),
    {
        self.inner().get_raw_iter(db, readopts)
    }

    /// An iterator over family `cf` as of the snapshot.
    pub fn get_raw_iter_cf(&self, db: &DB, cf_handle: &ColumnFamily, readopts: &ReadOptions) -> (r:
        Result<DBRawIterator, Error>)
        ensures
            checked_scan(r, db@, self@.txn.buffer.ops, self@.snapshot.pin(), cf_handle@),
    {
        self.inner().get_raw_iter_cf(db, cf_handle, readopts)
    }
}

/// What an iterator shows is what a read yields: the value of every entry
/// of a scan through a transaction is what the transaction reads for the
/// entry's key, and a key the transaction reads a value for has an entry.
pub proof fn scan_agrees_with_read(
    it: IterView,
    db: DbView,
    overlay: Seq<WriteOpView>,
    pin: SnapshotPin,
    cf: u64,
    key: Seq<u8>,
)
    requires
        it.walks(db, overlay, pin, cf),
    ensures
        entry_keys(it.entries).contains(key) <==> seen_value(
            db.merge_operator,
            db.log,
            db.horizon(pin),
            overlay,
            cf,
            key,
        ) is Some,
        forall|i: int|
            0 <= i < it.entries.len() && (#[trigger] it.entries[i]).0 == key ==> Some(it.entries[i].1)
                == seen_value(db.merge_operator, db.log, db.horizon(pin), overlay, cf, key),
{
    if entry_keys(it.entries).contains(key) {
        let i = choose|i: int| 0 <= i < entry_keys(it.entries).len() && entry_keys(it.entries)[i] == key;
        assert(it.entries[i].0 == key);
    }
}

} // verus!
