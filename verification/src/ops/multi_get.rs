//! Reading many keys in one call. Results come back in the order of the
//! keys, one per key, and what one key yields does not depend on the others.

use vstd::prelude::*;
use crate::bytes::{copy_bytes, DBPinnableSlice, DBVector};
use crate::column_family::{ColumnFamily, DEFAULT_FAMILY};
use crate::db::{outcome_view, pinned_outcome_view, DB};
use crate::error::{unknown_family_text, Error, ErrorKind, ErrorView};
use crate::options::{effective_pin, ReadOptions};

verus! {

/// Reads of many keys of the default family.
pub trait MultiGet<R> {
    /// What a read of `key` of the default family yields under `readopts`.
    spec fn get_spec(&self, key: Seq<u8>, readopts: Option<&R>) -> Result<Option<Seq<u8>>, ErrorView>;

    /// Reads `keys` under `readopts` or, without them, from the latest state.
    fn multi_get_full(&self, keys: &[&[u8]], readopts: Option<&R>) -> (out: Vec<
        Result<Option<DBVector>, Error>,
    >)
        ensures
            out@.len() == keys@.len(),
            forall|i: int|
                0 <= i < keys@.len() ==> outcome_view(#[trigger] out@[i]) == self.get_spec(
                    keys@[i]@,
                    readopts,
                ),
    ;

    /// Reads `keys` from the latest state.
    fn multi_get(&self, keys: &[&[u8]]) -> (out: Vec<Result<Option<DBVector>, Error>>)
        ensures
            out@.len() == keys@.len(),
            forall|i: int|
                0 <= i < keys@.len() ==> outcome_view(#[trigger] out@[i]) == self.get_spec(
                    keys@[i]@,
                    None,
                ),
    {
        self.multi_get_full(keys, None)
    }

    /// Reads `keys` under `readopts`.
    fn multi_get_opt(&self, keys: &[&[u8]], readopts: &R) -> (out: Vec<
        Result<Option<DBVector>, Error>,
    >)
        ensures
            out@.len() == keys@.len(),
            forall|i: int|
                0 <= i < keys@.len() ==> outcome_view(#[trigger] out@[i]) == self.get_spec(
                    keys@[i]@,
                    Some(readopts),
                ),
    {
        self.multi_get_full(keys, Some(readopts))
    }
}

/// Reads of many keys, each of a column family of its own.
pub trait MultiGetCF<R> {
    /// What a read of `key` of family `cf` yields under `readopts`.
    spec fn get_cf_spec(&self, cf: u64, key: Seq<u8>, readopts: Option<&R>) -> Result<
        Option<Seq<u8>>,
        ErrorView,
    >;

    /// Reads `keys_cf` under `readopts` or, without them, from the latest state.
    fn multi_get_cf_full(&self, keys_cf: &[(&ColumnFamily, &[u8])], readopts: Option<&R>) -> (out:
        Vec<Result<Option<DBVector>, Error>>)
        ensures
            out@.len() == keys_cf@.len(),
            forall|i: int|
                0 <= i < keys_cf@.len() ==> outcome_view(#[trigger] out@[i]) == self.get_cf_spec(
                    keys_cf@[i].0@,
                    keys_cf@[i].1@,
                    readopts,
                ),
    ;

    /// Reads `keys_cf` from the latest state.
    fn multi_get_cf(&self, keys_cf: &[(&ColumnFamily, &[u8])]) -> (out: Vec<
        Result<Option<DBVector>, Error>,
    >)
        ensures
            out@.len() == keys_cf@.len(),
            forall|i: int|
                0 <= i < keys_cf@.len() ==> outcome_view(#[trigger] out@[i]) == self.get_cf_spec(
                    keys_cf@[i].0@,
                    keys_cf@[i].1@,
                    None,
                ),
    {
        self.multi_get_cf_full(keys_cf, None)
    }

    /// Reads `keys_cf` under `readopts`.
    fn multi_get_cf_opt(&self, keys_cf: &[(&ColumnFamily, &[u8])], readopts: &R) -> (out: Vec<
        Result<Option<DBVector>, Error>,
    >)
        ensures
            out@.len() == keys_cf@.len(),
            forall|i: int|
                0 <= i < keys_cf@.len() ==> outcome_view(#[trigger] out@[i]) == self.get_cf_spec(
                    keys_cf@[i].0@,
                    keys_cf@[i].1@,
                    Some(readopts),
                ),
    {
        self.multi_get_cf_full(keys_cf, Some(readopts))
    }
}

/// Reads of many keys of one column family that hand values out without
/// copying where that is possible.
///
/// `sorted_input` is a promise by the caller that the keys come in ascending
/// order, which an engine may use to read neighbouring keys together. It is
/// the caller's obligation to keep that promise: it is not checked.
pub trait BatchedMultiGetCF<R> {
    /// What a read of `key` of family `cf` yields under `readopts`.
    spec fn batched_get_spec(&self, cf: u64, key: Seq<u8>, readopts: Option<&R>) -> Result<
        Option<Seq<u8>>,
        ErrorView,
    >;

    /// Reads `keys` of family `cf` under `readopts` or, without them, from the latest state.
    fn batched_multi_get_cf_full<'a>(
        &'a self,
        cf: &ColumnFamily,
        keys: &[&[u8]],
        sorted_input: bool,
        readopts: Option<&R>,
    ) -> (out: Vec<Result<Option<DBPinnableSlice<'a>>, Error>>)
        ensures
            out@.len() == keys@.len(),
            forall|i: int|
                0 <= i < keys@.len() ==> pinned_outcome_view(#[trigger] out@[i])
                    == self.batched_get_spec(cf@, keys@[i]@, readopts),
    ;

    /// Reads `keys` of family `cf` from the latest state.
    fn batched_multi_get_cf<'a>(&'a self, cf: &ColumnFamily, keys: &[&[u8]], sorted_input: bool) -> (out:
        Vec<Result<Option<DBPinnableSlice<'a>>, Error>>)
        ensures
            out@.len() == keys@.len(),
            forall|i: int|
                0 <= i < keys@.len() ==> pinned_outcome_view(#[trigger] out@[i])
                    == self.batched_get_spec(cf@, keys@[i]@, None),
    {
        self.batched_multi_get_cf_full(cf, keys, sorted_input, None)
    }

    /// Reads `keys` of family `cf` under `readopts`.
    fn batched_multi_get_cf_opt<'a>(
        &'a self,
        cf: &ColumnFamily,
        keys: &[&[u8]],
        sorted_input: bool,
        readopts: &R,
    ) -> (out: Vec<Result<Option<DBPinnableSlice<'a>>, Error>>)
        ensures
            out@.len() == keys@.len(),
            forall|i: int|
                0 <= i < keys@.len() ==> pinned_outcome_view(#[trigger] out@[i])
                    == self.batched_get_spec(cf@, keys@[i]@, Some(readopts)),
    {
        self.batched_multi_get_cf_full(cf, keys, sorted_input, Some(readopts))
    }
}

/// The smallest of three lengths.
pub open spec fn shortest(a: nat, b: nat, c: nat) -> nat {
    if a <= b && a <= c {
        a
    } else if b <= c {
        b
    } else {
        c
    }
}

/// What one slot of a raw batch answer stands for: the error where there is
/// one; otherwise nothing where there is no buffer; otherwise the first
/// `size` bytes of the buffer, or all of it where it is shorter.
pub open spec fn slot_outcome(value: Option<Vec<u8>>, size: usize, error: Option<Error>) -> Result<
    Option<Seq<u8>>,
    ErrorView,
> {
    match error {
        Some(e) => Err(e@),
        None => match value {
            None => Ok(None),
            Some(v) => Ok(Some(v@.take(if size <= v@.len() { size as int } else { v@.len() as int }))),
        },
    }
}

/// Turns a raw batch answer (value buffers, how many bytes of each are valid,
/// and errors, slot by slot) into one result per slot. The answer is as long
/// as the shortest of the three.
pub fn convert_values(
    values: Vec<Option<Vec<u8>>>,
    values_sizes: Vec<usize>,
    errors: Vec<Option<Error>>,
) -> (out: Vec<Result<Option<DBVector>, Error>>)
    ensures
        out@.len() == shortest(values@.len(), values_sizes@.len(), errors@.len()),
        forall|i: int|
            0 <= i < out@.len() ==> outcome_view(#[trigger] out@[i]) == slot_outcome(
                values@[i],
                values_sizes@[i],
                errors@[i],
            ),
{
    let mut count = values.len();
    if values_sizes.len() < count {
        count = values_sizes.len();
    }
    if errors.len() < count {
        count = errors.len();
    }
    let mut out: Vec<Result<Option<DBVector>, Error>> = Vec::new();
    let mut i: usize = 0;
    while i < count
        invariant
            i <= count,
            count == shortest(values@.len(), values_sizes@.len(), errors@.len()),
            out@.len() == i,
            forall|j: int|
                0 <= j < i ==> outcome_view(#[trigger] out@[j]) == slot_outcome(
                    values@[j],
                    values_sizes@[j],
                    errors@[j],
                ),
        decreases count - i,
    {
        let slot = match &errors[i] {
            Some(e) => Err(e.clone()),
            None => match &values[i] {
                None => Ok(None),
                Some(v) => {
                    let size = if values_sizes[i] <= v.len() {
                        values_sizes[i]
                    } else {
                        v.len()
                    };
                    let bytes = copy_bytes(vstd::slice::slice_subrange(v.as_slice(), 0, size));
                    assert(bytes@ == v@.take(size as int));
                    Ok(Some(DBVector::from_vec(bytes)))
                },
            },
        };
        out.push(slot);
        i += 1;
    }
    out
}

/// As many results as asked for, each the same error.
pub fn uniform_errors<T>(count: usize, error: &Error) -> (out: Vec<Result<Option<T>, Error>>)
    ensures
        out@.len() == count,
        forall|i: int| 0 <= i < count ==> (#[trigger] out@[i] matches Err(e) && e@ == error@),
{
    let mut out: Vec<Result<Option<T>, Error>> = Vec::new();
    let mut i: usize = 0;
    while i < count
        invariant
            i <= count,
            out@.len() == i,
            forall|j: int| 0 <= j < i ==> (#[trigger] out@[j] matches Err(e) && e@ == error@),
        decreases count - i,
    {
        out.push(Err(error.clone()));
        i += 1;
    }
    out
}

/// Answers one more slot of a raw batch: what `key` of family `cf` held when
/// `upto` writes had been applied, or an error where the database does not
/// have the family.
fn read_slot(
    db: &DB,
    upto: usize,
    cf: u64,
    key: &[u8],
    values: &mut Vec<Option<Vec<u8>>>,
    values_sizes: &mut Vec<usize>,
    errors: &mut Vec<Option<Error>>,
)
    requires
        upto <= db@.log.len(),
    ensures
        final(values)@.len() == old(values)@.len() + 1,
        final(values_sizes)@.len() == old(values_sizes)@.len() + 1,
        final(errors)@.len() == old(errors)@.len() + 1,
        final(values)@.drop_last() == old(values)@,
        final(values_sizes)@.drop_last() == old(values_sizes)@,
        final(errors)@.drop_last() == old(errors)@,
        slot_outcome(final(values)@.last(), final(values_sizes)@.last(), final(errors)@.last())
            == if db@.has_family(cf) {
            Ok::<Option<Seq<u8>>, ErrorView>(db@.value_at(upto as nat, cf, key@))
        } else {
            Err(ErrorView { kind: ErrorKind::Validation, message: unknown_family_text() })
        },
{
    if !db.has_family(cf) {
        values.push(None);
        values_sizes.push(0);
        errors.push(Some(Error::unknown_family()));
    } else {
        match db.lookup(upto, cf, key) {
            Some(held) => {
                let bytes = held.to_vec();
                values_sizes.push(bytes.len());
                assert(bytes@.take(bytes@.len() as int) =~= bytes@);
                values.push(Some(bytes));
            },
            None => {
                values.push(None);
                values_sizes.push(0);
            },
        }
        errors.push(None);
    }
    proof {
        assert(values@.drop_last() =~= old(values)@);
        assert(values_sizes@.drop_last() =~= old(values_sizes)@);
        assert(errors@.drop_last() =~= old(errors)@);
    }
}

impl MultiGet<ReadOptions> for DB {
    open spec fn get_spec(&self, key: Seq<u8>, readopts: Option<&ReadOptions>) -> Result<
        Option<Seq<u8>>,
        ErrorView,
    > {
        self@.read(effective_pin(readopts), DEFAULT_FAMILY, key)
    }

    /// Returns the values associated with the given keys using read options.
    fn multi_get_full(&self, keys: &[&[u8]], readopts: Option<&ReadOptions>) -> (out: Vec<
        Result<Option<DBVector>, Error>,
    >) {
        let upto = match self.check_options(readopts) {
            Ok(upto) => upto,
            Err(e) => {
                return uniform_errors(keys.len(), &e);
            },
        };
        let mut values: Vec<Option<Vec<u8>>> = Vec::new();
        let mut values_sizes: Vec<usize> = Vec::new();
        let mut errors: Vec<Option<Error>> = Vec::new();
        let mut i: usize = 0;
        while i < keys.len()
            invariant
                i <= keys@.len(),
                upto <= self@.log.len(),
                upto == self@.horizon(effective_pin(readopts)),
                self@.pin_refusal(effective_pin(readopts)) is None,
                values@.len() == i,
                values_sizes@.len() == i,
                errors@.len() == i,
                forall|j: int|
                    0 <= j < i ==> slot_outcome(
                        #[trigger] values@[j],
                        values_sizes@[j],
                        errors@[j],
                    ) == self.get_spec(keys@[j]@, readopts),
            decreases keys@.len() - i,
        {
            let ghost before = (values@, values_sizes@, errors@);
            read_slot(self, upto, DEFAULT_FAMILY, keys[i], &mut values, &mut values_sizes, &mut errors);
            proof {
                assert forall|j: int| 0 <= j < i + 1 implies slot_outcome(
                    #[trigger] values@[j],
                    values_sizes@[j],
                    errors@[j],
                ) == self.get_spec(keys@[j]@, readopts) by {
                    if j < i {
                        assert(values@[j] == before.0[j]);
                        assert(values_sizes@[j] == before.1[j]);
                        assert(errors@[j] == before.2[j]);
                    }
                }
            }
            i += 1;
        }
        convert_values(values, values_sizes, errors)
    }
}

impl MultiGetCF<ReadOptions> for DB {
    open spec fn get_cf_spec(&self, cf: u64, key: Seq<u8>, readopts: Option<&ReadOptions>) -> Result<
        Option<Seq<u8>>,
        ErrorView,
    > {
        self@.read(effective_pin(readopts), cf, key)
    }

    /// Returns the values associated with the given keys and column families
    /// using read options.
    fn multi_get_cf_full(&self, keys_cf: &[(&ColumnFamily, &[u8])], readopts: Option<&ReadOptions>) -> (out:
        Vec<Result<Option<DBVector>, Error>>) {
        let upto = match self.check_options(readopts) {
            Ok(upto) => upto,
            Err(e) => {
                return uniform_errors(keys_cf.len(), &e);
            },
        };
        let mut values: Vec<Option<Vec<u8>>> = Vec::new();
        let mut values_sizes: Vec<usize> = Vec::new();
        let mut errors: Vec<Option<Error>> = Vec::new();
        let mut i: usize = 0;
        while i < keys_cf.len()
            invariant
                i <= keys_cf@.len(),
                upto <= self@.log.len(),
                upto == self@.horizon(effective_pin(readopts)),
                self@.pin_refusal(effective_pin(readopts)) is None,
                values@.len() == i,
                values_sizes@.len() == i,
                errors@.len() == i,
                forall|j: int|
                    0 <= j < i ==> slot_outcome(
                        #[trigger] values@[j],
                        values_sizes@[j],
                        errors@[j],
                    ) == self.get_cf_spec(keys_cf@[j].0@, keys_cf@[j].1@, readopts),
            decreases keys_cf@.len() - i,
        {
            let ghost before = (values@, values_sizes@, errors@);
            let cf = keys_cf[i].0.id();
            read_slot(self, upto, cf, keys_cf[i].1, &mut values, &mut values_sizes, &mut errors);
            proof {
                assert forall|j: int| 0 <= j < i + 1 implies slot_outcome(
                    #[trigger] values@[j],
                    values_sizes@[j],
                    errors@[j],
                ) == self.get_cf_spec(keys_cf@[j].0@, keys_cf@[j].1@, readopts) by {
                    if j < i {
                        assert(values@[j] == before.0[j]);
                        assert(values_sizes@[j] == before.1[j]);
                        assert(errors@[j] == before.2[j]);
                    }
                }
            }
            i += 1;
        }
        convert_values(values, values_sizes, errors)
    }
}

impl BatchedMultiGetCF<ReadOptions> for DB {
    open spec fn batched_get_spec(&self, cf: u64, key: Seq<u8>, readopts: Option<&ReadOptions>) -> Result<
        Option<Seq<u8>>,
        ErrorView,
    > {
        self@.read(effective_pin(readopts), cf, key)
    }

    /// Returns the values associated with the given keys of one column
    /// family. The lookup of a key does not depend on where it stands among
    /// the others, so the answer is exact whether or not the keys are sorted
    /// as `sorted_input` promises.
    fn batched_multi_get_cf_full<'a>(
        &'a self,
        cf: &ColumnFamily,
        keys: &[&[u8]],
        sorted_input: bool,
        readopts: Option<&ReadOptions>,
    ) -> (out: Vec<Result<Option<DBPinnableSlice<'a>>, Error>>) {
        let upto = match self.check_options(readopts) {
            Ok(upto) => upto,
            Err(e) => {
                return uniform_errors(keys.len(), &e);
            },
        };
        let known = self.has_family(cf.id());
        let mut out: Vec<Result<Option<DBPinnableSlice<'a>>, Error>> = Vec::new();
        let mut i: usize = 0;
        while i < keys.len()
            invariant
                i <= keys@.len(),
                upto <= self@.log.len(),
                upto == self@.horizon(effective_pin(readopts)),
                self@.pin_refusal(effective_pin(readopts)) is None,
                known == self@.has_family(cf@),
                out@.len() == i,
                forall|j: int|
                    0 <= j < i ==> pinned_outcome_view(#[trigger] out@[j]) == self.batched_get_spec(
                        cf@,
                        keys@[j]@,
                        readopts,
                    ),
            decreases keys@.len() - i,
        {
            let slot = if known {
                Ok(self.lookup(upto, cf.id(), keys[i]))
            } else {
                Err(Error::unknown_family())
            };
            out.push(slot);
            i += 1;
        }
        out
    }
}

} // verus!
