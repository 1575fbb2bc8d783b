//! Writes as data: the record of a single write, the rule by which a run of
//! writes determines the value of a key, and the batch that collects writes
//! before they reach the store.

use vstd::prelude::*;
use crate::bytes::{bytes_eq, copy_bytes, slice_view, DBPinnableSlice};
use crate::column_family::{ColumnFamily, DEFAULT_FAMILY};
use crate::error::{no_savepoint_text, Error, ErrorKind, ErrorView};
use crate::options::{merged, MergeOperator};

verus! {

/// What a write does to its key.
#[derive(Debug)]
pub enum OpKind {
    /// The key now holds these bytes.
    Put(Vec<u8>),
    /// The key now holds nothing.
    Delete,
    /// These bytes are merged into what the key holds.
    Merge(Vec<u8>),
    /// The value is left alone; the key only counts as modified.
    Touch,
}

/// A single write to one key of one column family.
#[derive(Debug)]
pub struct WriteOp {
    pub cf: u64,
    pub key: Vec<u8>,
    pub kind: OpKind,
}

/// The mathematical content of an [`OpKind`].
pub enum OpKindView {
    Put(Seq<u8>),
    Delete,
    Merge(Seq<u8>),
    Touch,
}

/// The mathematical content of a [`WriteOp`].
pub struct WriteOpView {
    pub cf: u64,
    pub key: Seq<u8>,
    pub kind: OpKindView,
}

impl View for OpKind {
    type V = OpKindView;

    open spec fn view(&self) -> OpKindView {
        match *self {
            OpKind::Put(v) => OpKindView::Put(v@),
            OpKind::Delete => OpKindView::Delete,
            OpKind::Merge(v) => OpKindView::Merge(v@),
            OpKind::Touch => OpKindView::Touch,
        }
    }
}

impl View for WriteOp {
    type V = WriteOpView;

    open spec fn view(&self) -> WriteOpView {
        WriteOpView { cf: self.cf, key: self.key@, kind: self.kind@ }
    }
}

impl WriteOpView {
    /// Whether the write addresses `key` of family `cf`.
    pub open spec fn hits(self, cf: u64, key: Seq<u8>) -> bool {
        self.cf == cf && self.key == key
    }
}

/// The contents of a run of writes.
pub open spec fn ops_view(ops: Seq<WriteOp>) -> Seq<WriteOpView> {
    ops.map_values(|o: WriteOp| o@)
}

/// What a key holds after one write of the given kind, when it held `before`.
pub open spec fn step(operator: MergeOperator, before: Option<Seq<u8>>, kind: OpKindView) -> Option<
    Seq<u8>,
> {
    match kind {
        OpKindView::Put(v) => Some(v),
        OpKindView::Delete => None,
        OpKindView::Merge(operand) => Some(merged(operator, before, operand)),
        OpKindView::Touch => before,
    }
}

/// What `key` of family `cf` holds after the writes `ops` are applied in
/// order to a state in which it held `base`.
pub open spec fn apply_ops(
    operator: MergeOperator,
    base: Option<Seq<u8>>,
    ops: Seq<WriteOpView>,
    cf: u64,
    key: Seq<u8>,
) -> Option<Seq<u8>>
    decreases ops.len(),
{
    if ops.len() == 0 {
        base
    } else {
        let before = apply_ops(operator, base, ops.drop_last(), cf, key);
        if ops.last().hits(cf, key) {
            step(operator, before, ops.last().kind)
        } else {
            before
        }
    }
}

/// Whether any of the writes `ops` addresses `key` of family `cf`.
pub open spec fn touches(ops: Seq<WriteOpView>, cf: u64, key: Seq<u8>) -> bool {
    exists|i: int| 0 <= i < ops.len() && (#[trigger] ops[i]).hits(cf, key)
}

/// Applying one more write extends the result by one step.
pub proof fn lemma_apply_push(
    operator: MergeOperator,
    base: Option<Seq<u8>>,
    ops: Seq<WriteOpView>,
    op: WriteOpView,
    cf: u64,
    key: Seq<u8>,
)
    ensures
        apply_ops(operator, base, ops.push(op), cf, key) == if op.hits(cf, key) {
            step(operator, apply_ops(operator, base, ops, cf, key), op.kind)
        } else {
            apply_ops(operator, base, ops, cf, key)
        },
{
    assert(ops.push(op).drop_last() =~= ops);
}

/// Applying two runs of writes one after the other is applying their concatenation.
pub proof fn lemma_apply_concat(
    operator: MergeOperator,
    base: Option<Seq<u8>>,
    first: Seq<WriteOpView>,
    second: Seq<WriteOpView>,
    cf: u64,
    key: Seq<u8>,
)
    ensures
        apply_ops(operator, base, first + second, cf, key) == apply_ops(
            operator,
            apply_ops(operator, base, first, cf, key),
            second,
            cf,
            key,
        ),
    decreases second.len(),
{
    if second.len() == 0 {
        assert(first + second =~= first);
    } else {
        lemma_apply_concat(operator, base, first, second.drop_last(), cf, key);
        assert((first + second).drop_last() =~= first + second.drop_last());
    }
}

/// Writes that do not address a key leave what it holds unchanged.
pub proof fn lemma_apply_untouched(
    operator: MergeOperator,
    base: Option<Seq<u8>>,
    ops: Seq<WriteOpView>,
    cf: u64,
    key: Seq<u8>,
)
    requires
        !touches(ops, cf, key),
    ensures
        apply_ops(operator, base, ops, cf, key) == base,
    decreases ops.len(),
{
    if ops.len() > 0 {
        assert(ops[ops.len() - 1] == ops.last());
        assert forall|i: int| 0 <= i < ops.drop_last().len() implies !(#[trigger] ops.drop_last()[i]).hits(
            cf,
            key,
        ) by {
            assert(ops.drop_last()[i] == ops[i]);
        }
        lemma_apply_untouched(operator, base, ops.drop_last(), cf, key);
    }
}

/// The contents of a run of writes, element by element.
pub proof fn lemma_ops_view(ops: Seq<WriteOp>)
    ensures
        ops_view(ops).len() == ops.len(),
        forall|i: int| 0 <= i < ops.len() ==> (#[trigger] ops_view(ops)[i]) == ops[i]@,
{
}

/// The contents of a run of writes that grew by one.
pub proof fn lemma_ops_view_push(ops: Seq<WriteOp>, op: WriteOp)
    ensures
        ops_view(ops.push(op)) == ops_view(ops).push(op@),
{
    assert(ops_view(ops.push(op)) =~= ops_view(ops).push(op@));
}

/// The contents of a prefix of a run of writes.
pub proof fn lemma_ops_view_take(ops: Seq<WriteOp>, n: int)
    requires
        0 <= n <= ops.len(),
    ensures
        ops_view(ops.take(n)) == ops_view(ops).take(n),
{
    assert(ops_view(ops.take(n)) =~= ops_view(ops).take(n));
}

/// The bytes a key holds after `operand` is merged into `existing`.
pub fn merge_bytes(operator: MergeOperator, existing: &Option<DBPinnableSlice<'_>>, operand: &[u8]) -> (out:
    Vec<u8>)
    ensures
        out@ == merged(operator, slice_view(*existing), operand@),
{
    match operator {
        MergeOperator::Replace => copy_bytes(operand),
        MergeOperator::Append => {
            let mut out: Vec<u8> = match existing {
                Some(bytes) => bytes.to_vec(),
                None => Vec::new(),
            };
            let ghost start = out@;
            let mut i: usize = 0;
            while i < operand.len()
                invariant
                    i <= operand.len(),
                    out@ == start + operand@.subrange(0, i as int),
                decreases operand.len() - i,
            {
                out.push(operand[i]);
                i += 1;
                assert(out@ =~= start + operand@.subrange(0, i as int));
            }
            assert(operand@.subrange(0, operand.len() as int) =~= operand@);
            assert(start + Seq::<u8>::empty() =~= start);
            out
        },
    }
}

/// Applies the first `upto` writes of `ops` to a state in which `key` of
/// family `cf` held `base`, lending out stored bytes where a put decides.
pub(crate) fn fold_ops<'a>(
    operator: MergeOperator,
    base: Option<DBPinnableSlice<'a>>,
    ops: &'a Vec<WriteOp>,
    upto: usize,
    cf: u64,
    key: &[u8],
) -> (held: Option<DBPinnableSlice<'a>>)
    requires
        upto <= ops@.len(),
    ensures
        slice_view(held) == apply_ops(
            operator,
            slice_view(base),
            ops_view(ops@).take(upto as int),
            cf,
            key@,
        ),
{
    let ghost all = ops_view(ops@);
    let ghost start = slice_view(base);
    let mut held = base;
    let mut i: usize = 0;
    proof {
        lemma_ops_view(ops@);
        assert(all.take(0) =~= Seq::<WriteOpView>::empty());
    }
    while i < upto
        invariant
            i <= upto <= ops@.len(),
            all == ops_view(ops@),
            all.len() == ops@.len(),
            slice_view(held) == apply_ops(operator, start, all.take(i as int), cf, key@),
        decreases upto - i,
    {
        let op = &ops[i];
        proof {
            lemma_ops_view(ops@);
            assert(all.take(i + 1) =~= all.take(i as int).push(all[i as int]));
            lemma_apply_push(operator, start, all.take(i as int), all[i as int], cf, key@);
        }
        if op.cf == cf && bytes_eq(op.key.as_slice(), key) {
            match &op.kind {
                OpKind::Put(v) => {
                    held = Some(DBPinnableSlice::pinned(v.as_slice()));
                },
                OpKind::Delete => {
                    held = None;
                },
                OpKind::Merge(operand) => {
                    let bytes = merge_bytes(operator, &held, operand.as_slice());
                    held = Some(DBPinnableSlice::owned(bytes));
                },
                OpKind::Touch => {},
            }
        }
        i += 1;
    }
    held
}

/// Whether any write of `ops` from position `from` on addresses `key` of family `cf`.
pub(crate) fn touched_from(ops: &Vec<WriteOp>, from: usize, cf: u64, key: &[u8]) -> (hit: bool)
    requires
        from <= ops@.len(),
    ensures
        hit == touches(ops_view(ops@).skip(from as int), cf, key@),
{
    let ghost tail = ops_view(ops@).skip(from as int);
    let mut i: usize = from;
    proof {
        lemma_ops_view(ops@);
    }
    while i < ops.len()
        invariant
            from <= i <= ops@.len(),
            tail == ops_view(ops@).skip(from as int),
            ops_view(ops@).len() == ops@.len(),
            forall|j: int| 0 <= j < i - from ==> !(#[trigger] tail[j]).hits(cf, key@),
        decreases ops@.len() - i,
    {
        let op = &ops[i];
        proof {
            lemma_ops_view(ops@);
            assert(tail[i - from] == ops@[i as int]@);
        }
        if op.cf == cf && bytes_eq(op.key.as_slice(), key) {
            return true;
        }
        i += 1;
    }
    false
}

/// The write that stores `value` under `key` of family `cf`.
pub open spec fn put_op(cf: u64, key: Seq<u8>, value: Seq<u8>) -> WriteOpView {
    WriteOpView { cf, key, kind: OpKindView::Put(value) }
}

/// The write that removes `key` of family `cf`.
pub open spec fn delete_op(cf: u64, key: Seq<u8>) -> WriteOpView {
    WriteOpView { cf, key, kind: OpKindView::Delete }
}

/// The write that merges `operand` into `key` of family `cf`.
pub open spec fn merge_op(cf: u64, key: Seq<u8>, operand: Seq<u8>) -> WriteOpView {
    WriteOpView { cf, key, kind: OpKindView::Merge(operand) }
}

/// The write that marks `key` of family `cf` as modified without changing it.
pub open spec fn touch_op(cf: u64, key: Seq<u8>) -> WriteOpView {
    WriteOpView { cf, key, kind: OpKindView::Touch }
}

impl WriteOp {
    /// The write that stores `value` under `key` of family `cf`.
    pub fn put(cf: u64, key: &[u8], value: &[u8]) -> (op: WriteOp)
        ensures
            op@ == put_op(cf, key@, value@),
    {
        WriteOp { cf, key: copy_bytes(key), kind: OpKind::Put(copy_bytes(value)) }
    }

    /// The write that removes `key` of family `cf`.
    pub fn delete(cf: u64, key: &[u8]) -> (op: WriteOp)
        ensures
            op@ == delete_op(cf, key@),
    {
        WriteOp { cf, key: copy_bytes(key), kind: OpKind::Delete }
    }

    /// The write that merges `operand` into `key` of family `cf`.
    pub fn merge(cf: u64, key: &[u8], operand: &[u8]) -> (op: WriteOp)
        ensures
            op@ == merge_op(cf, key@, operand@),
    {
        WriteOp { cf, key: copy_bytes(key), kind: OpKind::Merge(copy_bytes(operand)) }
    }

    /// The write that marks `key` of family `cf` as modified without changing it.
    pub fn touch(cf: u64, key: &[u8]) -> (op: WriteOp)
        ensures
            op@ == touch_op(cf, key@),
    {
        WriteOp { cf, key: copy_bytes(key), kind: OpKind::Touch }
    }

    /// A copy of this write.
    pub fn duplicate(&self) -> (op: WriteOp)
        ensures
            op@ == self@,
    {
        let kind = match &self.kind {
            OpKind::Put(v) => OpKind::Put(copy_bytes(v.as_slice())),
            OpKind::Delete => OpKind::Delete,
            OpKind::Merge(v) => OpKind::Merge(copy_bytes(v.as_slice())),
            OpKind::Touch => OpKind::Touch,
        };
        WriteOp { cf: self.cf, key: copy_bytes(self.key.as_slice()), kind }
    }
}

/// Bytes every batch occupies before its first record.
pub const BATCH_HEADER_LEN: usize = 12;

/// Bytes one write occupies in a batch: a tag, the family, the length and
/// bytes of the key and, where the write carries a value, its length and bytes.
pub open spec fn record_len(op: WriteOpView) -> nat {
    let payload: nat = match op.kind {
        OpKindView::Put(v) => 4 + v.len(),
        OpKindView::Merge(v) => 4 + v.len(),
        _ => 0,
    };
    9 + op.key.len() + payload
}

/// Bytes a run of writes occupies in a batch.
pub open spec fn records_len(ops: Seq<WriteOpView>) -> nat
    decreases ops.len(),
{
    if ops.len() == 0 {
        0
    } else {
        records_len(ops.drop_last()) + record_len(ops.last())
    }
}

/// The sum of two sizes, held at the largest size that can be represented.
pub open spec fn capped(n: nat) -> usize {
    if n <= usize::MAX {
        n as usize
    } else {
        usize::MAX
    }
}

fn capped_add(a: usize, b: usize) -> (sum: usize)
    ensures
        sum == capped((a + b) as nat),
{
    if usize::MAX - a < b {
        usize::MAX
    } else {
        a + b
    }
}

fn op_len(op: &WriteOp) -> (n: usize)
    ensures
        n == capped(record_len(op@)),
{
    let with_key = capped_add(9, op.key.len());
    match &op.kind {
        OpKind::Put(v) => capped_add(with_key, capped_add(4, v.len())),
        OpKind::Merge(v) => capped_add(with_key, capped_add(4, v.len())),
        _ => with_key,
    }
}

/// The mathematical content of a [`WriteBatch`].
pub struct WriteBatchView {
    /// The buffered writes, oldest first.
    pub ops: Seq<WriteOpView>,
    /// The savepoints, oldest first: each is the number of writes that were
    /// buffered when it was set.
    pub savepoints: Seq<nat>,
}

impl WriteBatchView {
    /// Savepoints never point past the buffered writes, and a later savepoint
    /// never points before an earlier one.
    pub open spec fn wf(self) -> bool {
        forall|i: int|
            0 <= i < self.savepoints.len() ==> {
                &&& (#[trigger] self.savepoints[i]) <= self.ops.len()
                &&& (i > 0 ==> self.savepoints[i - 1] <= self.savepoints[i])
            }
    }

    /// The batch with nothing buffered and no savepoint.
    pub open spec fn empty() -> WriteBatchView {
        WriteBatchView { ops: Seq::empty(), savepoints: Seq::empty() }
    }

    /// The batch after one more write is buffered.
    pub open spec fn with_op(self, op: WriteOpView) -> WriteBatchView {
        WriteBatchView { ops: self.ops.push(op), ..self }
    }

    /// The batch after a savepoint is set.
    pub open spec fn with_savepoint(self) -> WriteBatchView {
        WriteBatchView { savepoints: self.savepoints.push(self.ops.len()), ..self }
    }

    /// The batch after it is rolled back to its latest savepoint, which is
    /// thereby used up: the writes buffered before the savepoint stay.
    pub open spec fn rolled_back(self) -> WriteBatchView
        recommends
            self.savepoints.len() > 0,
    {
        WriteBatchView {
            ops: if self.savepoints.last() <= self.ops.len() {
                self.ops.take(self.savepoints.last() as int)
            } else {
                self.ops
            },
            savepoints: self.savepoints.drop_last(),
        }
    }

    /// Bytes the batch occupies.
    pub open spec fn encoded_len(self) -> nat {
        BATCH_HEADER_LEN as nat + records_len(self.ops)
    }
}

/// An ordered collection of writes that reach the store together, with
/// savepoints to which the collection can be cut back.
pub struct WriteBatch {
    ops: Vec<WriteOp>,
    savepoints: Vec<usize>,
}

impl View for WriteBatch {
    type V = WriteBatchView;

    closed spec fn view(&self) -> WriteBatchView {
        WriteBatchView {
            ops: ops_view(self.ops@),
            savepoints: self.savepoints@.map_values(|s: usize| s as nat),
        }
    }
}

impl Default for WriteBatch {
    fn default() -> (batch: WriteBatch)
        ensures
            batch@ == WriteBatchView::empty(),
            batch@.wf(),
    {
        WriteBatch::new()
    }
}

impl WriteBatch {
    /// A batch with nothing buffered and no savepoint.
    pub fn new() -> (batch: WriteBatch)
        ensures
            batch@ == WriteBatchView::empty(),
            batch@.wf(),
    {
        let batch = WriteBatch { ops: Vec::new(), savepoints: Vec::new() };
        assert(batch@.ops =~= Seq::empty());
        assert(batch@.savepoints =~= Seq::empty());
        batch
    }

    /// Buffers `op` behind the writes already in the batch.
    pub fn push(&mut self, op: WriteOp)
        ensures
            final(self)@ == old(self)@.with_op(op@),
            old(self)@.wf() ==> final(self)@.wf(),
    {
        proof {
            lemma_ops_view_push(self.ops@, op);
            if self@.wf() {
                lemma_with_op_wf(self@, op@);
            }
        }
        self.ops.push(op);
    }

    /// Buffers a put of `value` under `key` in the default family.
    pub fn put(&mut self, key: &[u8], value: &[u8]) -> (r: Result<(), Error>)
        ensures
            r is Ok,
            final(self)@ == old(self)@.with_op(put_op(DEFAULT_FAMILY, key@, value@)),
            old(self)@.wf() ==> final(self)@.wf(),
    {
        self.push(WriteOp::put(DEFAULT_FAMILY, key, value));
        Ok(())
    }

    /// Buffers a put of `value` under `key` in family `cf`.
    pub fn put_cf(&mut self, cf: &ColumnFamily, key: &[u8], value: &[u8]) -> (r: Result<(), Error>)
        ensures
            r is Ok,
            final(self)@ == old(self)@.with_op(put_op(cf@, key@, value@)),
            old(self)@.wf() ==> final(self)@.wf(),
    {
        self.push(WriteOp::put(cf.id(), key, value));
        Ok(())
    }

    /// Buffers a merge of `operand` into `key` in the default family.
    pub fn merge(&mut self, key: &[u8], operand: &[u8]) -> (r: Result<(), Error>)
        ensures
            r is Ok,
            final(self)@ == old(self)@.with_op(merge_op(DEFAULT_FAMILY, key@, operand@)),
            old(self)@.wf() ==> final(self)@.wf(),
    {
        self.push(WriteOp::merge(DEFAULT_FAMILY, key, operand));
        Ok(())
    }

    /// Buffers a merge of `operand` into `key` in family `cf`.
    pub fn merge_cf(&mut self, cf: &ColumnFamily, key: &[u8], operand: &[u8]) -> (r: Result<
        (),
        Error,
    >)
        ensures
            r is Ok,
            final(self)@ == old(self)@.with_op(merge_op(cf@, key@, operand@)),
            old(self)@.wf() ==> final(self)@.wf(),
    {
        self.push(WriteOp::merge(cf.id(), key, operand));
        Ok(())
    }

    /// Buffers the removal of `key` from the default family.
    pub fn delete(&mut self, key: &[u8]) -> (r: Result<(), Error>)
        ensures
            r is Ok,
            final(self)@ == old(self)@.with_op(delete_op(DEFAULT_FAMILY, key@)),
            old(self)@.wf() ==> final(self)@.wf(),
    {
        self.push(WriteOp::delete(DEFAULT_FAMILY, key));
        Ok(())
    }

    /// Buffers the removal of `key` from family `cf`.
    pub fn delete_cf(&mut self, cf: &ColumnFamily, key: &[u8]) -> (r: Result<(), Error>)
        ensures
            r is Ok,
            final(self)@ == old(self)@.with_op(delete_op(cf@, key@)),
            old(self)@.wf() ==> final(self)@.wf(),
    {
        self.push(WriteOp::delete(cf.id(), key));
        Ok(())
    }

    /// Number of writes in the batch.
    pub fn len(&self) -> (n: usize)
        ensures
            n == self@.ops.len(),
    {
        proof {
            lemma_ops_view(self.ops@);
        }
        self.ops.len()
    }

    /// Whether the batch holds no write.
    pub fn is_empty(&self) -> (b: bool)
        ensures
            b == (self@.ops.len() == 0),
    {
        proof {
            lemma_ops_view(self.ops@);
        }
        self.ops.len() == 0
    }

    /// The buffered writes, oldest first.
    pub fn ops(&self) -> (ops: &Vec<WriteOp>)
        ensures
            ops_view(ops@) == self@.ops,
    {
        &self.ops
    }

    /// Bytes the batch occupies, held at the largest size that can be represented.
    pub fn size_in_bytes(&self) -> (n: usize)
        ensures
            n == capped(self@.encoded_len()),
    {
        let ghost all = ops_view(self.ops@);
        let mut total: usize = BATCH_HEADER_LEN;
        let mut i: usize = 0;
        proof {
            lemma_ops_view(self.ops@);
            assert(all.take(0) =~= Seq::<WriteOpView>::empty());
        }
        while i < self.ops.len()
            invariant
                i <= self.ops@.len(),
                all == ops_view(self.ops@),
                all.len() == self.ops@.len(),
                total == capped(BATCH_HEADER_LEN as nat + records_len(all.take(i as int))),
            decreases self.ops@.len() - i,
        {
            proof {
                lemma_ops_view(self.ops@);
                assert(all.take(i + 1).drop_last() =~= all.take(i as int));
                assert(all.take(i + 1).last() == self.ops@[i as int]@);
            }
            total = capped_add(total, op_len(&self.ops[i]));
            i += 1;
        }
        assert(all.take(i as int) =~= all);
        total
    }

    /// Forgets every buffered write and every savepoint.
    pub fn clear(&mut self)
        ensures
            final(self)@ == WriteBatchView::empty(),
            final(self)@.wf(),
    {
        self.savepoints.clear();
        self.ops.clear();
        assert(self@.ops =~= Seq::empty());
        assert(self@.savepoints =~= Seq::empty());
    }

    /// Remembers the current end of the batch as a point to roll back to.
    pub fn set_save_point(&mut self)
        ensures
            final(self)@ == old(self)@.with_savepoint(),
            old(self)@.wf() ==> final(self)@.wf(),
    {
        proof {
            lemma_ops_view(self.ops@);
        }
        let mark = self.ops.len();
        self.savepoints.push(mark);
        assert(self@.savepoints =~= old(self)@.savepoints.push(mark as nat));
    }

    /// Drops every write buffered since the latest savepoint and uses that
    /// savepoint up. Without a savepoint the batch is left as it is and the
    /// call is refused.
    pub fn rollback_to_save_point(&mut self) -> (r: Result<(), Error>)
        ensures
            old(self)@.savepoints.len() > 0 <==> r is Ok,
            r is Ok ==> final(self)@ == old(self)@.rolled_back(),
            r matches Err(e) ==> final(self)@ == old(self)@ && e@ == (ErrorView {
                kind: ErrorKind::Misuse,
                message: no_savepoint_text(),
            }),
            old(self)@.wf() ==> final(self)@.wf(),
    {
        proof {
            lemma_ops_view(self.ops@);
        }
        match self.savepoints.pop() {
            None => Err(Error::no_savepoint()),
            Some(mark) => {
                assert(old(self)@.savepoints.last() == mark as nat);
                assert(self@.savepoints =~= old(self)@.savepoints.drop_last());
                proof {
                    if old(self)@.wf() {
                        assert forall|i: int| 0 <= i < self@.savepoints.len() implies (
                        #[trigger] self@.savepoints[i]) <= mark by {
                            lemma_savepoints_below_last(old(self)@, i);
                        }
                    }
                }
                self.ops.truncate(mark);
                proof {
                    if mark <= old(self).ops@.len() {
                        assert(self.ops@ =~= old(self).ops@.take(mark as int));
                        lemma_ops_view_take(old(self).ops@, mark as int);
                    }
                }
                Ok(())
            },
        }
    }
}

/// Buffering one more write keeps a batch well-formed.
pub proof fn lemma_with_op_wf(batch: WriteBatchView, op: WriteOpView)
    requires
        batch.wf(),
    ensures
        batch.with_op(op).wf(),
{
    let after = batch.with_op(op);
    assert forall|i: int| 0 <= i < after.savepoints.len() implies {
        &&& (#[trigger] after.savepoints[i]) <= after.ops.len()
        &&& (i > 0 ==> after.savepoints[i - 1] <= after.savepoints[i])
    } by {
        assert(batch.savepoints[i] <= batch.ops.len());
    }
}

/// Every savepoint of a well-formed batch lies at or below the latest one.
pub proof fn lemma_savepoints_below_last(batch: WriteBatchView, i: int)
    requires
        batch.wf(),
        0 <= i < batch.savepoints.len(),
    ensures
        batch.savepoints[i] <= batch.savepoints.last(),
    decreases batch.savepoints.len() - i,
{
    if i < batch.savepoints.len() - 1 {
        lemma_savepoints_below_last(batch, i + 1);
        assert(batch.savepoints[i + 1 - 1] <= batch.savepoints[i + 1]);
    }
}

} // verus!
