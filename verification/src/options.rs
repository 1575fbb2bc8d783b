//! Configuration bundles: how a database is opened, how reads and writes are
//! carried out, and how a transaction is begun.

use vstd::prelude::*;
use crate::error::{
    nul_option_text, option_value_text, released_snapshot_text, unknown_option_text, Error,
    ErrorKind, ErrorView,
};
use crate::text::{has_nul, holds_nul, same_text};

verus! {

/// The rule by which a merge operand is folded into the value a key already has.
#[derive(Clone, Copy, Debug, PartialEq, Eq, Structural)]
pub enum MergeOperator {
    /// The operand is appended to the existing bytes.
    Append,
    /// The operand takes the place of the existing bytes.
    Replace,
}

/// The bytes a key holds after `operand` is merged into `existing`.
pub open spec fn merged(operator: MergeOperator, existing: Option<Seq<u8>>, operand: Seq<u8>) -> Seq<
    u8,
> {
    match operator {
        MergeOperator::Append => match existing {
            Some(bytes) => bytes + operand,
            None => operand,
        },
        MergeOperator::Replace => operand,
    }
}

/// The mathematical content of [`Options`].
pub struct OptionsView {
    pub create_if_missing: bool,
    pub create_missing_column_families: bool,
    pub merge_operator: MergeOperator,
    pub merge_operator_name: Seq<char>,
}

/// How a database is opened.
pub struct Options {
    create_if_missing: bool,
    create_missing_column_families: bool,
    merge_operator: MergeOperator,
    merge_operator_name: String,
}

impl View for Options {
    type V = OptionsView;

    closed spec fn view(&self) -> OptionsView {
        OptionsView {
            create_if_missing: self.create_if_missing,
            create_missing_column_families: self.create_missing_column_families,
            merge_operator: self.merge_operator,
            merge_operator_name: self.merge_operator_name@,
        }
    }
}

/// Name of the merge operator a database uses unless told otherwise.
pub open spec fn default_operator_name() -> Seq<char> {
    "append"@
}

impl Default for Options {
    fn default() -> (o: Options)
        ensures
            o@ == (OptionsView {
                create_if_missing: false,
                create_missing_column_families: false,
                merge_operator: MergeOperator::Append,
                merge_operator_name: default_operator_name(),
            }),
    {
        Options {
            create_if_missing: false,
            create_missing_column_families: false,
            merge_operator: MergeOperator::Append,
            merge_operator_name: "append".to_owned(),
        }
    }
}

impl Options {
    /// Whether opening may create the database.
    pub fn create_if_missing(&mut self, create: bool)
        ensures
            final(self)@ == (OptionsView { create_if_missing: create, ..old(self)@ }),
    {
        self.create_if_missing = create;
    }

    /// Whether opening may create the column families it is asked for.
    pub fn create_missing_column_families(&mut self, create: bool)
        ensures
            final(self)@ == (OptionsView { create_missing_column_families: create, ..old(self)@ }),
    {
        self.create_missing_column_families = create;
    }

    /// Chooses the associative merge operator of the database and names it.
    pub fn set_merge_operator_associative(&mut self, name: &str, operator: MergeOperator)
        ensures
            final(self)@ == (OptionsView {
                merge_operator: operator,
                merge_operator_name: name@,
                ..old(self)@
            }),
    {
        self.merge_operator = operator;
        self.merge_operator_name = name.to_owned();
    }

    /// The merge operator these options select.
    pub fn merge_operator(&self) -> (operator: MergeOperator)
        ensures
            operator == self@.merge_operator,
    {
        self.merge_operator
    }

    /// Whether these options allow a database to be created.
    pub fn creates_if_missing(&self) -> (b: bool)
        ensures
            b == self@.create_if_missing,
    {
        self.create_if_missing
    }

    /// Whether these options allow column families to be created.
    pub fn creates_missing_column_families(&self) -> (b: bool)
        ensures
            b == self@.create_missing_column_families,
    {
        self.create_missing_column_families
    }
}

/// Which state of the database a read looks at.
#[derive(Clone, Copy, Debug, PartialEq, Eq, Structural)]
pub enum SnapshotPin {
    /// The last committed state at the time of the read.
    Latest,
    /// The state as of the given sequence number.
    At(u64),
    /// A snapshot that has been released: reads through it are refused.
    Released,
}

/// Per-call configuration of a read.
#[derive(Clone, Copy, Debug)]
pub struct ReadOptions {
    pub pin: SnapshotPin,
    pub total_order_seek: bool,
    pub readahead_size: usize,
}

impl Default for ReadOptions {
    fn default() -> (o: ReadOptions)
        ensures
            o == (ReadOptions { pin: SnapshotPin::Latest, total_order_seek: false, readahead_size: 0 }),
    {
        ReadOptions { pin: SnapshotPin::Latest, total_order_seek: false, readahead_size: 0 }
    }
}

/// The pin that governs a read: the one of the options given, or the latest
/// state where no options are given.
pub open spec fn effective_pin(readopts: Option<&ReadOptions>) -> SnapshotPin {
    match readopts {
        Some(ro) => ro.pin,
        None => SnapshotPin::Latest,
    }
}

/// What a read that passes validation is pinned to: `None` for the latest
/// state, `Some(s)` for the state as of sequence number `s`.
pub open spec fn pinned_sequence(pin: SnapshotPin) -> Option<u64> {
    match pin {
        SnapshotPin::At(s) => Some(s),
        _ => None,
    }
}

impl ReadOptions {
    /// Pins reads to the state a snapshot stands for.
    pub fn set_pin(&mut self, pin: SnapshotPin)
        ensures
            *final(self) == (ReadOptions { pin, ..*old(self) }),
    {
        self.pin = pin;
    }

    /// Asks iterators to ignore prefix bloom filters.
    pub fn set_total_order_seek(&mut self, v: bool)
        ensures
            *final(self) == (ReadOptions { total_order_seek: v, ..*old(self) }),
    {
        self.total_order_seek = v;
    }

    /// Sets how many bytes a scan may read ahead.
    pub fn set_readahead_size(&mut self, v: usize)
        ensures
            *final(self) == (ReadOptions { readahead_size: v, ..*old(self) }),
    {
        self.readahead_size = v;
    }

    /// Validates the options of a read, supplying the defaults where none are
    /// given. Options that refer to a released snapshot are refused; otherwise
    /// the result says what the read is pinned to.
    pub fn input_or_default(input: Option<&ReadOptions>) -> (r: Result<Option<u64>, Error>)
        ensures
            effective_pin(input) is Released <==> r is Err,
            r matches Err(e) ==> e@ == (ErrorView {
                kind: ErrorKind::Validation,
                message: released_snapshot_text(),
            }),
            r matches Ok(p) ==> p == pinned_sequence(effective_pin(input)),
    {
        match input {
            None => Ok(None),
            Some(ro) => match ro.pin {
                SnapshotPin::Latest => Ok(None),
                SnapshotPin::At(s) => Ok(Some(s)),
                SnapshotPin::Released => Err(Error::released_snapshot()),
            },
        }
    }
}

/// Per-call configuration of a write. The store lives in memory, so neither
/// setting changes what a write does.
#[derive(Clone, Copy, Debug)]
pub struct WriteOptions {
    pub sync: bool,
    pub disable_wal: bool,
}

impl Default for WriteOptions {
    fn default() -> (o: WriteOptions)
        ensures
            o == (WriteOptions { sync: false, disable_wal: false }),
    {
        WriteOptions { sync: false, disable_wal: false }
    }
}

impl WriteOptions {
    /// Asks for the write to be durable before the call returns.
    pub fn set_sync(&mut self, sync: bool)
        ensures
            *final(self) == (WriteOptions { sync, ..*old(self) }),
    {
        self.sync = sync;
    }

    /// Asks for the write to bypass the write-ahead log.
    pub fn disable_wal(&mut self, disable: bool)
        ensures
            *final(self) == (WriteOptions { disable_wal: disable, ..*old(self) }),
    {
        self.disable_wal = disable;
    }
}

/// How an optimistic transaction is begun.
#[derive(Clone, Copy, Debug)]
pub struct OptimisticTransactionOptions {
    pub set_snapshot: bool,
}

impl OptimisticTransactionOptions {
    /// Options under which the transaction does not hold on to the state it starts from.
    pub fn new() -> (o: OptimisticTransactionOptions)
        ensures
            o == (OptimisticTransactionOptions { set_snapshot: false }),
    {
        OptimisticTransactionOptions { set_snapshot: false }
    }

    /// Whether the transaction holds on to the state it starts from: its
    /// writes and its reads for update are then checked against that state
    /// rather than against the state at the time of each, and its snapshot
    /// is of that state.
    pub fn set_snapshot(&mut self, snapshot: bool)
        ensures
            *final(self) == (OptimisticTransactionOptions { set_snapshot: snapshot }),
    {
        self.set_snapshot = snapshot;
    }
}

/// The settings of a column family that can be changed while the database
/// is open. The store lives in memory, so they are kept and reported, and
/// change nothing about what reads and writes do.
#[derive(Clone, Copy, Debug, PartialEq, Eq, Structural)]
pub struct Settings {
    pub disable_auto_compactions: bool,
    pub paranoid_file_checks: bool,
    pub report_bg_io_stats: bool,
}

impl Default for Settings {
    fn default() -> (s: Settings)
        ensures
            s == Settings::initial(),
    {
        Settings {
            disable_auto_compactions: false,
            paranoid_file_checks: false,
            report_bg_io_stats: false,
        }
    }
}

/// The truth value a text stands for, if it stands for one.
pub open spec fn flag_value(value: Seq<char>) -> Option<bool> {
    if value == "true"@ || value == "1"@ {
        Some(true)
    } else if value == "false"@ || value == "0"@ {
        Some(false)
    } else {
        None
    }
}

impl Settings {
    /// The settings a column family starts with.
    pub open spec fn initial() -> Settings {
        Settings {
            disable_auto_compactions: false,
            paranoid_file_checks: false,
            report_bg_io_stats: false,
        }
    }

    /// The settings after the option `name` is set to `value`. A name or
    /// value with a NUL character is refused, then a name that is not known,
    /// then a value that is no truth value.
    pub open spec fn with_option(self, name: Seq<char>, value: Seq<char>) -> Result<
        Settings,
        ErrorView,
    > {
        if has_nul(name) || has_nul(value) {
            Err(ErrorView { kind: ErrorKind::Validation, message: nul_option_text() })
        } else if name != "disable_auto_compactions"@ && name != "paranoid_file_checks"@ && name
            != "report_bg_io_stats"@ {
            Err(ErrorView { kind: ErrorKind::Validation, message: unknown_option_text() })
        } else {
            match flag_value(value) {
                None => Err(
                    ErrorView { kind: ErrorKind::Validation, message: option_value_text() },
                ),
                Some(flag) => Ok(
                    if name == "disable_auto_compactions"@ {
                        Settings { disable_auto_compactions: flag, ..self }
                    } else if name == "paranoid_file_checks"@ {
                        Settings { paranoid_file_checks: flag, ..self }
                    } else {
                        Settings { report_bg_io_stats: flag, ..self }
                    },
                ),
            }
        }
    }

    /// The settings after the options `pairs` are set in order; the first
    /// option that is refused decides the error.
    pub open spec fn with_options(self, pairs: Seq<(Seq<char>, Seq<char>)>) -> Result<
        Settings,
        ErrorView,
    >
        decreases pairs.len(),
    {
        if pairs.len() == 0 {
            Ok(self)
        } else {
            match self.with_options(pairs.drop_last()) {
                Err(e) => Err(e),
                Ok(earlier) => earlier.with_option(pairs.last().0, pairs.last().1),
            }
        }
    }

    /// Sets the option `name` to `value`.
    pub fn set(self, name: &str, value: &str) -> (r: Result<Settings, Error>)
        ensures
            match self.with_option(name@, value@) {
                Ok(s) => r == Ok::<Settings, Error>(s),
                Err(e) => r matches Err(x) && x@ == e,
            },
    {
        if holds_nul(name) || holds_nul(value) {
            return Err(Error::nul_option());
        }
        let compactions = same_text(name, "disable_auto_compactions");
        let checks = same_text(name, "paranoid_file_checks");
        let stats = same_text(name, "report_bg_io_stats");
        if !compactions && !checks && !stats {
            return Err(Error::unknown_option());
        }
        let flag = if same_text(value, "true") || same_text(value, "1") {
            true
        } else if same_text(value, "false") || same_text(value, "0") {
            false
        } else {
            return Err(Error::option_value());
        };
        if compactions {
            Ok(Settings { disable_auto_compactions: flag, ..self })
        } else if checks {
            Ok(Settings { paranoid_file_checks: flag, ..self })
        } else {
            Ok(Settings { report_bg_io_stats: flag, ..self })
        }
    }

    /// Sets the options `opts` in order, all of them or, where one is
    /// refused, none.
    pub fn set_all(self, opts: &[(&str, &str)]) -> (r: Result<Settings, Error>)
        ensures
            match self.with_options(option_pairs(opts@)) {
                Ok(s) => r == Ok::<Settings, Error>(s),
                Err(e) => r matches Err(x) && x@ == e,
            },
    {
        let ghost pairs = option_pairs(opts@);
        let mut now = self;
        let mut i: usize = 0;
        proof {
            assert(pairs.take(0) =~= Seq::<(Seq<char>, Seq<char>)>::empty());
        }
        while i < opts.len()
            invariant
                i <= opts@.len(),
                pairs == option_pairs(opts@),
                self.with_options(pairs.take(i as int)) == Ok::<Settings, ErrorView>(now),
            decreases opts@.len() - i,
        {
            proof {
                assert(pairs.take(i + 1).drop_last() =~= pairs.take(i as int));
                assert(pairs.take(i + 1).last() == (opts@[i as int].0@, opts@[i as int].1@));
            }
            match now.set(opts[i].0, opts[i].1) {
                Ok(next) => {
                    now = next;
                },
                Err(e) => {
                    proof {
                        lemma_refusal_sticks(self, pairs, i + 1);
                    }
                    return Err(e);
                },
            }
            i += 1;
        }
        proof {
            assert(pairs.take(i as int) =~= pairs);
        }
        Ok(now)
    }
}

/// The names and values in a list of options.
pub open spec fn option_pairs(opts: Seq<(&str, &str)>) -> Seq<(Seq<char>, Seq<char>)> {
    Seq::new(opts.len(), |i: int| (opts[i].0@, opts[i].1@))
}

/// An option that is refused among the first of a list decides the outcome
/// of the whole list.
proof fn lemma_refusal_sticks(start: Settings, pairs: Seq<(Seq<char>, Seq<char>)>, n: int)
    requires
        0 <= n <= pairs.len(),
        start.with_options(pairs.take(n)) is Err,
    ensures
        start.with_options(pairs) == start.with_options(pairs.take(n)),
    decreases pairs.len() - n,
{
    if n < pairs.len() {
        assert(pairs.take(n + 1).drop_last() =~= pairs.take(n));
        lemma_refusal_sticks(start, pairs, n + 1);
    } else {
        assert(pairs.take(n) =~= pairs);
    }
}

} // verus!
