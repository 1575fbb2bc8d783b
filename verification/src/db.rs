//! The storage engine: an append-only log of writes over named column
//! families. The number of writes applied so far is the sequence number of
//! the database, and the state as of a sequence number is what the writes up
//! to it determine.

use vstd::prelude::*;
use crate::bytes::{slice_view, vector_view, DBPinnableSlice, DBVector};
use crate::column_family::{family_id, family_of, ColumnFamily, DEFAULT_FAMILY};
use crate::error::{
    default_family_text, family_exists_text, foreign_snapshot_text, missing_database_text,
    no_options_text, released_snapshot_text, unknown_family_text, Error, ErrorKind, ErrorView,
};
use crate::options::{
    effective_pin, option_pairs, MergeOperator, Options, ReadOptions, Settings, SnapshotPin,
    WriteOptions,
};
use crate::write_batch::{
    apply_ops, delete_op, fold_ops, lemma_ops_view, lemma_ops_view_push, merge_op, ops_view,
    put_op, touched_from, touches, WriteBatch, WriteOp, WriteOpView,
};

verus! {

/// The mathematical content of a column family's entry in the database.
pub struct FamilyView {
    pub name: Seq<char>,
    /// Whether the family is still part of the database.
    pub live: bool,
    /// The settings of the family that can be changed while the database is open.
    pub settings: Settings,
}

struct Family {
    name: String,
    live: bool,
    settings: Settings,
}

impl View for Family {
    type V = FamilyView;

    closed spec fn view(&self) -> FamilyView {
        FamilyView { name: self.name@, live: self.live, settings: self.settings }
    }
}

/// Name of the column family every database starts with.
pub open spec fn default_family_name() -> Seq<char> {
    "default"@
}

/// The position of the first live family called `name` at or after `from`.
pub open spec fn find_family(families: Seq<FamilyView>, name: Seq<char>, from: nat) -> Option<nat>
    decreases families.len() - from,
{
    if from >= families.len() {
        None
    } else if families[from as int].live && families[from as int].name == name {
        Some(from)
    } else {
        find_family(families, name, from + 1)
    }
}

/// The mathematical content of a [`DB`].
pub struct DbView {
    /// The name the database was opened under.
    pub path: Seq<char>,
    /// The rule for merges.
    pub merge_operator: MergeOperator,
    /// Every family the database ever had; a family's identifier is its position.
    pub families: Seq<FamilyView>,
    /// Every write applied so far, oldest first.
    pub log: Seq<WriteOpView>,
}

impl DbView {
    /// The default family is first, is called "default" and is never dropped,
    /// and the number of writes is one the machine can count.
    pub open spec fn wf(self) -> bool {
        &&& self.families.len() > 0
        &&& self.families[0].name == default_family_name()
        &&& self.families[0].live
        &&& self.log.len() <= usize::MAX
    }

    /// A database without data that has only the default family.
    pub open spec fn fresh(path: Seq<char>, merge_operator: MergeOperator) -> DbView {
        DbView {
            path,
            merge_operator,
            families: seq![
                FamilyView { name: default_family_name(), live: true, settings: Settings::initial() },
            ],
            log: Seq::empty(),
        }
    }

    /// The sequence number of the database: the number of writes applied so far.
    pub open spec fn sequence(self) -> nat {
        self.log.len()
    }

    /// Whether `cf` identifies a family that is part of the database.
    pub open spec fn has_family(self, cf: u64) -> bool {
        cf < self.families.len() && self.families[cf as int].live
    }

    /// The error with which a read under `pin` is refused whatever it asks
    /// for: a released snapshot is refused, and so is a snapshot with a
    /// sequence number that the database has not reached, which cannot have
    /// been taken of this database.
    pub open spec fn pin_refusal(self, pin: SnapshotPin) -> Option<ErrorView> {
        match pin {
            SnapshotPin::Released => Some(
                ErrorView { kind: ErrorKind::Validation, message: released_snapshot_text() },
            ),
            SnapshotPin::At(s) => if s <= self.log.len() {
                None
            } else {
                Some(ErrorView { kind: ErrorKind::Validation, message: foreign_snapshot_text() })
            },
            SnapshotPin::Latest => None,
        }
    }

    /// The number of writes a read under `pin` takes into account.
    pub open spec fn horizon(self, pin: SnapshotPin) -> nat {
        match pin {
            SnapshotPin::At(s) => if s <= self.log.len() {
                s as nat
            } else {
                self.log.len()
            },
            _ => self.log.len(),
        }
    }

    /// What `key` of family `cf` held when `s` writes had been applied.
    pub open spec fn value_at(self, s: nat, cf: u64, key: Seq<u8>) -> Option<Seq<u8>>
        recommends
            s <= self.log.len(),
    {
        apply_ops(self.merge_operator, None, self.log.take(s as int), cf, key)
    }

    /// What `key` of family `cf` holds now.
    pub open spec fn latest(self, cf: u64, key: Seq<u8>) -> Option<Seq<u8>> {
        self.value_at(self.log.len(), cf, key)
    }

    /// Whether `key` of family `cf` was written after `s` writes had been applied.
    pub open spec fn modified_since(self, s: nat, cf: u64, key: Seq<u8>) -> bool {
        s < self.log.len() && touches(self.log.skip(s as int), cf, key)
    }

    /// What a read of `key` in family `cf` under `pin` yields: the read is
    /// refused where the pin is, then where the family is not part of the
    /// database, and otherwise yields what the key held at the pin.
    pub open spec fn read(self, pin: SnapshotPin, cf: u64, key: Seq<u8>) -> Result<
        Option<Seq<u8>>,
        ErrorView,
    > {
        if self.pin_refusal(pin) is Some {
            Err(self.pin_refusal(pin).unwrap())
        } else if !self.has_family(cf) {
            Err(ErrorView { kind: ErrorKind::Validation, message: unknown_family_text() })
        } else {
            Ok(self.value_at(self.horizon(pin), cf, key))
        }
    }

    /// The identifier of the live family called `name`, if there is one.
    pub open spec fn family_named(self, name: Seq<char>) -> Option<nat> {
        find_family(self.families, name, 0)
    }

    /// The database after a family called `name` is added.
    pub open spec fn with_family(self, name: Seq<char>) -> DbView {
        DbView {
            families: self.families.push(
                FamilyView { name, live: true, settings: Settings::initial() },
            ),
            ..self
        }
    }

    /// The database after the family with identifier `cf` is dropped.
    pub open spec fn without_family(self, cf: nat) -> DbView
        recommends
            cf < self.families.len(),
    {
        DbView {
            families: self.families.update(
                cf as int,
                FamilyView { live: false, ..self.families[cf as int] },
            ),
            ..self
        }
    }

    /// The database after each of `names` that no live family bears has been
    /// added as a family, in order.
    pub open spec fn with_families(self, names: Seq<Seq<char>>) -> DbView
        decreases names.len(),
    {
        if names.len() == 0 {
            self
        } else {
            let before = self.with_families(names.drop_last());
            if before.family_named(names.last()) is Some {
                before
            } else {
                before.with_family(names.last())
            }
        }
    }

    /// The settings of family `cf` after the options `pairs` are set, or the
    /// error with which setting them is refused: setting no option at all is
    /// refused, then a family the database does not have, then the first
    /// option that is malformed.
    pub open spec fn options_outcome(self, cf: u64, pairs: Seq<(Seq<char>, Seq<char>)>) -> Result<
        Settings,
        ErrorView,
    > {
        if pairs.len() == 0 {
            Err(ErrorView { kind: ErrorKind::Validation, message: no_options_text() })
        } else if !self.has_family(cf) {
            Err(ErrorView { kind: ErrorKind::Validation, message: unknown_family_text() })
        } else {
            self.families[cf as int].settings.with_options(pairs)
        }
    }

    /// The database after family `cf` is given the settings `settings`.
    pub open spec fn with_settings(self, cf: u64, settings: Settings) -> DbView
        recommends
            cf < self.families.len(),
    {
        DbView {
            families: self.families.update(
                cf as int,
                FamilyView { settings, ..self.families[cf as int] },
            ),
            ..self
        }
    }

    /// The database after the writes `ops` are applied.
    pub open spec fn with_ops(self, ops: Seq<WriteOpView>) -> DbView {
        DbView { log: self.log + ops, ..self }
    }

    /// Whether every write of `ops` goes to a family of the database.
    pub open spec fn accepts(self, ops: Seq<WriteOpView>) -> bool {
        forall|i: int| 0 <= i < ops.len() ==> self.has_family((#[trigger] ops[i]).cf)
    }

    /// Whether this database is a later state of `earlier`: it has every write
    /// `earlier` has, in the same order, and possibly more.
    pub open spec fn extends(self, earlier: DbView) -> bool {
        &&& self.merge_operator == earlier.merge_operator
        &&& earlier.log.len() <= self.log.len()
        &&& self.log.take(earlier.log.len() as int) == earlier.log
    }
}

/// What a read returned, as plain values.
pub open spec fn outcome_view(r: Result<Option<DBVector>, Error>) -> Result<Option<Seq<u8>>, ErrorView> {
    match r {
        Ok(v) => Ok(vector_view(v)),
        Err(e) => Err(e@),
    }
}

/// What a pinned read returned, as plain values.
pub open spec fn pinned_outcome_view(r: Result<Option<DBPinnableSlice<'_>>, Error>) -> Result<
    Option<Seq<u8>>,
    ErrorView,
> {
    match r {
        Ok(v) => Ok(slice_view(v)),
        Err(e) => Err(e@),
    }
}

/// A database on which optimistic transactions run. Every database of this
/// engine runs them, so this is the database type itself.
pub type OptimisticTransactionDB = DB;

/// A database on which typed transactions run.
pub type TransactionDB = DB;

/// A database that lives in memory. The path it is opened under is its
/// name and nothing more: nothing is stored under it, and two databases
/// opened under one path have nothing in common.
pub struct DB {
    path: String,
    merge_operator: MergeOperator,
    families: Vec<Family>,
    log: Vec<WriteOp>,
}

impl View for DB {
    type V = DbView;

    closed spec fn view(&self) -> DbView {
        DbView {
            path: self.path@,
            merge_operator: self.merge_operator,
            families: self.families@.map_values(|f: Family| f@),
            log: ops_view(self.log@),
        }
    }
}

impl DB {
    /// The sequence number of the database: the number of writes applied so far.
    pub fn latest_sequence_number(&self) -> (s: u64)
        ensures
            s == self@.sequence(),
    {
        proof {
            lemma_ops_view(self.log@);
        }
        self.log.len() as u64
    }

    /// The rule this database uses for merges.
    pub fn merge_operator(&self) -> (operator: MergeOperator)
        ensures
            operator == self@.merge_operator,
    {
        self.merge_operator
    }

    /// The name the database was opened under.
    pub fn path(&self) -> (p: &str)
        ensures
            p@ == self@.path,
    {
        self.path.as_str()
    }

    /// Whether `cf` identifies a family that is part of the database.
    pub fn has_family(&self, cf: u64) -> (b: bool)
        ensures
            b == self@.has_family(cf),
    {
        if cf < self.families.len() as u64 {
            self.families[cf as usize].live
        } else {
            false
        }
    }

    /// Where the family with identifier `cf` is kept, if the database has it.
    fn slot(&self, cf: u64) -> (at: Option<usize>)
        ensures
            match at {
                Some(i) => i == cf && self@.has_family(cf) && i < self.families@.len(),
                None => !self@.has_family(cf),
            },
    {
        if cf < self.families.len() as u64 && self.families[cf as usize].live {
            Some(cf as usize)
        } else {
            None
        }
    }

    /// Accepts a read under `pin`, or refuses it: the result is the number of
    /// writes the read takes into account.
    pub fn check_pin(&self, pin: SnapshotPin) -> (r: Result<usize, Error>)
        ensures
            match self@.pin_refusal(pin) {
                Some(e) => r matches Err(x) && x@ == e,
                None => r matches Ok(n) && n == self@.horizon(pin) && n <= self@.log.len(),
            },
    {
        proof {
            lemma_ops_view(self.log@);
        }
        match pin {
            SnapshotPin::Released => Err(Error::released_snapshot()),
            SnapshotPin::Latest => Ok(self.log.len()),
            SnapshotPin::At(s) => if s <= self.log.len() as u64 {
                Ok(s as usize)
            } else {
                Err(Error::foreign_snapshot())
            },
        }
    }

    /// Accepts a read under `readopts`, or refuses it where the options are
    /// not valid for this database: the result is the number of writes the
    /// read takes into account.
    pub fn check_options(&self, readopts: Option<&ReadOptions>) -> (r: Result<usize, Error>)
        ensures
            match self@.pin_refusal(effective_pin(readopts)) {
                Some(e) => r matches Err(x) && x@ == e,
                None => r matches Ok(n) && n == self@.horizon(effective_pin(readopts)) && n
                    <= self@.log.len(),
            },
    {
        match ReadOptions::input_or_default(readopts) {
            Err(e) => Err(e),
            Ok(None) => self.check_pin(SnapshotPin::Latest),
            Ok(Some(s)) => self.check_pin(SnapshotPin::At(s)),
        }
    }

    /// The number of writes a read pinned to `pin` takes into account.
    pub fn horizon(&self, pin: Option<u64>) -> (n: usize)
        ensures
            n <= self@.log.len(),
            n == self@.horizon(
                match pin {
                    Some(s) => SnapshotPin::At(s),
                    None => SnapshotPin::Latest,
                },
            ),
    {
        proof {
            lemma_ops_view(self.log@);
        }
        match pin {
            Some(s) => if s <= self.log.len() as u64 {
                s as usize
            } else {
                self.log.len()
            },
            None => self.log.len(),
        }
    }

    /// What `key` of family `cf` held when the first `upto` writes had been
    /// applied, lent out of the log where a put decides.
    pub(crate) fn lookup<'a>(&'a self, upto: usize, cf: u64, key: &[u8]) -> (held: Option<DBPinnableSlice<'a>>)
        requires
            upto <= self@.log.len(),
        ensures
            slice_view(held) == self@.value_at(upto as nat, cf, key@),
    {
        proof {
            lemma_ops_view(self.log@);
        }
        fold_ops(self.merge_operator, None, &self.log, upto, cf, key)
    }

    /// Whether `key` of family `cf` was written after `s` writes had been applied.
    pub fn modified_since(&self, s: u64, cf: u64, key: &[u8]) -> (hit: bool)
        ensures
            hit == self@.modified_since(s as nat, cf, key@),
    {
        proof {
            lemma_ops_view(self.log@);
        }
        if s < self.log.len() as u64 {
            touched_from(&self.log, s as usize, cf, key)
        } else {
            false
        }
    }

    /// The writes applied so far, oldest first.
    pub fn log(&self) -> (log: &Vec<WriteOp>)
        ensures
            ops_view(log@) == self@.log,
    {
        &self.log
    }
}

/// The names in a list of text slices.
pub open spec fn names_view(names: Seq<&str>) -> Seq<Seq<char>> {
    names.map_values(|n: &str| n@)
}

/// Whether any of `names` is not the name of the default family.
pub open spec fn names_new_family(names: Seq<Seq<char>>) -> bool {
    exists|i: int| 0 <= i < names.len() && #[trigger] names[i] != default_family_name()
}

/// A search for a family from a later position agrees with the search from
/// the start when no earlier family matches.
proof fn lemma_find_skip(families: Seq<FamilyView>, name: Seq<char>, upto: nat)
    requires
        upto <= families.len(),
        forall|j: int| 0 <= j < upto ==> !((#[trigger] families[j]).live && families[j].name == name),
    ensures
        find_family(families, name, 0) == find_family(families, name, upto),
    decreases upto,
{
    if upto > 0 {
        lemma_find_skip(families, name, (upto - 1) as nat);
    }
}

/// A family that is found is live, bears the name and is the first to do so.
pub proof fn lemma_find_family(families: Seq<FamilyView>, name: Seq<char>, from: nat)
    ensures
        match find_family(families, name, from) {
            Some(i) => from <= i < families.len() && families[i as int].live
                && families[i as int].name == name,
            None => forall|j: int|
                from <= j < families.len() ==> !((#[trigger] families[j]).live && families[j].name
                    == name),
        },
    decreases families.len() - from,
{
    if from < families.len() && !(families[from as int].live && families[from as int].name == name) {
        lemma_find_family(families, name, from + 1);
    }
}

impl DB {
    /// Opens a new database under `path` with the default settings.
    pub fn open_default(path: &str) -> (r: Result<DB, Error>)
        ensures
            r matches Ok(db) && db@ == DbView::fresh(path@, MergeOperator::Append) && db@.wf(),
    {
        let db = DB::create(path, MergeOperator::Append);
        Ok(db)
    }

    /// Opens a new database under `path`. Nothing is stored under any path
    /// yet, so the database has to be created: options that forbid that make
    /// the call fail.
    pub fn open(opts: &Options, path: &str) -> (r: Result<DB, Error>)
        ensures
            opts@.create_if_missing <==> r is Ok,
            r matches Ok(db) ==> db@ == DbView::fresh(path@, opts@.merge_operator) && db@.wf(),
            r matches Err(e) ==> e@ == (ErrorView {
                kind: ErrorKind::Validation,
                message: missing_database_text(),
            }),
    {
        if !opts.creates_if_missing() {
            return Err(Error::missing_database());
        }
        Ok(DB::create(path, opts.merge_operator()))
    }

    /// Opens a new database under `path` with the column families `names`.
    /// The database has to be created, and so has every family but the
    /// default one: options that forbid either make the call fail.
    pub fn open_cf(opts: &Options, path: &str, names: &[&str]) -> (r: Result<DB, Error>)
        ensures
            (opts@.create_if_missing && (opts@.create_missing_column_families || !names_new_family(
                names_view(names@),
            ))) <==> r is Ok,
            r matches Ok(db) ==> db@ == DbView::fresh(path@, opts@.merge_operator).with_families(
                names_view(names@),
            ) && db@.wf(),
            r matches Err(e) ==> e@ == (ErrorView {
                kind: ErrorKind::Validation,
                message: if opts@.create_if_missing {
                    unknown_family_text()
                } else {
                    missing_database_text()
                },
            }),
    {
        if !opts.creates_if_missing() {
            return Err(Error::missing_database());
        }
        let mut db = DB::create(path, opts.merge_operator());
        let ghost start = db@;
        let ghost all = names_view(names@);
        let mut i: usize = 0;
        while i < names.len()
            invariant
                i <= names@.len(),
                all == names_view(names@),
                start == DbView::fresh(path@, opts@.merge_operator),
                db@ == start.with_families(all.take(i as int)),
                db@.wf(),
                opts@.create_if_missing,
                !opts@.create_missing_column_families ==> db@ == start,
                !opts@.create_missing_column_families ==> forall|j: int|
                    0 <= j < i ==> #[trigger] all[j] == default_family_name(),
            decreases names@.len() - i,
        {
            proof {
                assert(all.take(i + 1).drop_last() =~= all.take(i as int));
                assert(all.take(i + 1).last() == names@[i as int]@);
            }
            let found = db.cf_handle(names[i]);
            proof {
                lemma_find_family(db@.families, names@[i as int]@, 0);
            }
            if found.is_none() {
                if !opts.creates_missing_column_families() {
                    proof {
                        assert(db@.families[0].live);
                        assert(all[i as int] != default_family_name());
                    }
                    return Err(Error::unknown_family());
                }
                db.add_family(names[i]);
            }
            i += 1;
        }
        proof {
            assert(all.take(i as int) =~= all);
        }
        Ok(db)
    }

    fn create(path: &str, merge_operator: MergeOperator) -> (db: DB)
        ensures
            db@ == DbView::fresh(path@, merge_operator),
            db@.wf(),
    {
        let mut families: Vec<Family> = Vec::new();
        families.push(Family { name: "default".to_owned(), live: true, settings: Settings::default() });
        let db = DB { path: path.to_owned(), merge_operator, families, log: Vec::new() };
        proof {
            assert(db@.families =~= DbView::fresh(path@, merge_operator).families);
            assert(db@.log =~= Seq::empty());
        }
        db
    }

    fn add_family(&mut self, name: &str) -> (cf: ColumnFamily)
        ensures
            final(self)@ == old(self)@.with_family(name@),
            cf@ == old(self)@.families.len(),
            old(self)@.wf() ==> final(self)@.wf(),
    {
        let id = self.families.len();
        self.families.push(Family { name: name.to_owned(), live: true, settings: Settings::default() });
        proof {
            assert(self@.families =~= old(self)@.with_family(name@).families);
        }
        ColumnFamily::from_id(id as u64)
    }

    /// The handle of the live family called `name`, if there is one.
    pub fn cf_handle(&self, name: &str) -> (cf: Option<ColumnFamily>)
        ensures
            match self@.family_named(name@) {
                Some(id) => cf matches Some(h) && h@ == id && self@.has_family(h@),
                None => cf is None,
            },
    {
        let wanted = name.to_owned();
        let mut i: usize = 0;
        while i < self.families.len()
            invariant
                i <= self.families@.len(),
                wanted@ == name@,
                forall|j: int|
                    0 <= j < i ==> !((#[trigger] self@.families[j]).live && self@.families[j].name
                        == name@),
            decreases self.families@.len() - i,
        {
            if self.families[i].live && self.families[i].name == wanted {
                proof {
                    lemma_find_skip(self@.families, name@, i as nat);
                }
                return Some(ColumnFamily::from_id(i as u64));
            }
            i += 1;
        }
        proof {
            lemma_find_skip(self@.families, name@, i as nat);
        }
        None
    }

    /// Adds a column family called `name`. A name borne by a live family is refused.
    pub fn create_cf(&mut self, name: &str) -> (r: Result<ColumnFamily, Error>)
        ensures
            old(self)@.family_named(name@) is None <==> r is Ok,
            r matches Ok(cf) ==> final(self)@ == old(self)@.with_family(name@) && cf@ == old(
                self,
            )@.families.len() && final(self)@.has_family(cf@),
            r matches Err(e) ==> final(self)@ == old(self)@ && e@ == (ErrorView {
                kind: ErrorKind::Validation,
                message: family_exists_text(),
            }),
            old(self)@.wf() ==> final(self)@.wf(),
    {
        if self.cf_handle(name).is_some() {
            return Err(Error::family_exists());
        }
        Ok(self.add_family(name))
    }

    /// Drops the column family called `name`. Its handles stop being
    /// accepted; the default family cannot be dropped.
    pub fn drop_cf(&mut self, name: &str) -> (r: Result<(), Error>)
        ensures
            (name@ != default_family_name() && old(self)@.family_named(name@) is Some) <==> r is Ok,
            r is Ok ==> final(self)@ == old(self)@.without_family(
                old(self)@.family_named(name@).unwrap(),
            ),
            r matches Err(e) ==> final(self)@ == old(self)@ && e@ == (ErrorView {
                kind: ErrorKind::Validation,
                message: if name@ == default_family_name() {
                    default_family_text()
                } else {
                    unknown_family_text()
                },
            }),
            old(self)@.wf() ==> final(self)@.wf(),
    {
        if name.to_owned() == "default".to_owned() {
            return Err(Error::default_family());
        }
        match self.cf_handle(name) {
            None => {
                Err(Error::unknown_family())
            },
            Some(cf) => {
                proof {
                    lemma_find_family(self@.families, name@, 0);
                }
                let i = match self.slot(cf.id()) {
                    Some(i) => i,
                    None => {
                        return Err(Error::unknown_family());
                    },
                };
                let kept = self.families[i].name.clone();
                let settings = self.families[i].settings;
                self.families[i] = Family { name: kept, live: false, settings };
                proof {
                    assert(self@.families =~= old(self)@.without_family(i as nat).families);
                }
                Ok(())
            },
        }
    }
}

/// A later state of a later state is a later state.
pub proof fn lemma_extends_transitive(first: DbView, second: DbView, third: DbView)
    requires
        second.extends(first),
        third.extends(second),
    ensures
        third.extends(first),
{
    assert(third.log.take(first.log.len() as int) =~= third.log.take(second.log.len() as int).take(
        first.log.len() as int,
    ));
}

impl DB {
    /// Reads `key`: from family `cf` or, without one, from the default family;
    /// under `readopts` or, without them, from the latest state.
    pub fn get_cf_full(
        &self,
        cf: Option<&ColumnFamily>,
        key: &[u8],
        readopts: Option<&ReadOptions>,
    ) -> (r: Result<Option<DBVector>, Error>)
        ensures
            outcome_view(r) == self@.read(effective_pin(readopts), family_of(cf), key@),
    {
        match self.get_pinned_cf_full(cf, key, readopts) {
            Ok(Some(held)) => Ok(Some(DBVector::from_vec(held.to_vec()))),
            Ok(None) => Ok(None),
            Err(e) => Err(e),
        }
    }

    /// Reads `key` as [`DB::get_cf_full`] does, lending the bytes out of the
    /// store where that is possible instead of copying them.
    pub fn get_pinned_cf_full<'a>(
        &'a self,
        cf: Option<&ColumnFamily>,
        key: &[u8],
        readopts: Option<&ReadOptions>,
    ) -> (r: Result<Option<DBPinnableSlice<'a>>, Error>)
        ensures
            pinned_outcome_view(r) == self@.read(effective_pin(readopts), family_of(cf), key@),
    {
        let upto = match self.check_options(readopts) {
            Ok(upto) => upto,
            Err(e) => {
                return Err(e);
            },
        };
        let id = family_id(cf);
        if !self.has_family(id) {
            return Err(Error::unknown_family());
        }
        Ok(self.lookup(upto, id, key))
    }

    /// Reads `key` of the default family from the latest state.
    pub fn get(&self, key: &[u8]) -> (r: Result<Option<DBVector>, Error>)
        ensures
            outcome_view(r) == self@.read(SnapshotPin::Latest, DEFAULT_FAMILY, key@),
    {
        self.get_cf_full(None, key, None)
    }

    /// Reads `key` of family `cf` from the latest state.
    pub fn get_cf(&self, cf: &ColumnFamily, key: &[u8]) -> (r: Result<Option<DBVector>, Error>)
        ensures
            outcome_view(r) == self@.read(SnapshotPin::Latest, cf@, key@),
    {
        self.get_cf_full(Some(cf), key, None)
    }

    /// Reads `key` of the default family under `readopts`.
    pub fn get_opt(&self, key: &[u8], readopts: &ReadOptions) -> (r: Result<Option<DBVector>, Error>)
        ensures
            outcome_view(r) == self@.read(readopts.pin, DEFAULT_FAMILY, key@),
    {
        self.get_cf_full(None, key, Some(readopts))
    }

    /// Reads `key` of family `cf` under `readopts`.
    pub fn get_cf_opt(&self, cf: &ColumnFamily, key: &[u8], readopts: &ReadOptions) -> (r: Result<
        Option<DBVector>,
        Error,
    >)
        ensures
            outcome_view(r) == self@.read(readopts.pin, cf@, key@),
    {
        self.get_cf_full(Some(cf), key, Some(readopts))
    }

    /// Reads `key` of the default family from the latest state without copying.
    pub fn get_pinned<'a>(&'a self, key: &[u8]) -> (r: Result<Option<DBPinnableSlice<'a>>, Error>)
        ensures
            pinned_outcome_view(r) == self@.read(SnapshotPin::Latest, DEFAULT_FAMILY, key@),
    {
        self.get_pinned_cf_full(None, key, None)
    }

    /// Reads `key` of family `cf` from the latest state without copying.
    pub fn get_pinned_cf<'a>(&'a self, cf: &ColumnFamily, key: &[u8]) -> (r: Result<
        Option<DBPinnableSlice<'a>>,
        Error,
    >)
        ensures
            pinned_outcome_view(r) == self@.read(SnapshotPin::Latest, cf@, key@),
    {
        self.get_pinned_cf_full(Some(cf), key, None)
    }

    /// Applies one write, unless it goes to a family the database does not have.
    pub fn apply(&mut self, op: WriteOp) -> (r: Result<(), Error>)
        ensures
            old(self)@.has_family(op@.cf) <==> r is Ok,
            r is Ok ==> final(self)@ == old(self)@.with_ops(seq![op@]),
            r matches Err(e) ==> final(self)@ == old(self)@ && e@ == (ErrorView {
                kind: ErrorKind::Validation,
                message: unknown_family_text(),
            }),
            old(self)@.wf() ==> final(self)@.wf(),
    {
        if !self.has_family(op.cf) {
            return Err(Error::unknown_family());
        }
        proof {
            lemma_ops_view_push(self.log@, op);
            assert(old(self)@.log.push(op@) =~= old(self)@.log + seq![op@]);
        }
        self.log.push(op);
        proof {
            lemma_ops_view(self.log@);
            assert(self.log@.len() == self.log.len());
        }
        Ok(())
    }

    /// Whether every write of `ops` goes to a family of the database.
    pub fn accepts(&self, ops: &Vec<WriteOp>) -> (ok: bool)
        ensures
            ok == self@.accepts(ops_view(ops@)),
    {
        let ghost all = ops_view(ops@);
        let mut i: usize = 0;
        proof {
            lemma_ops_view(ops@);
        }
        while i < ops.len()
            invariant
                i <= ops@.len(),
                all == ops_view(ops@),
                all.len() == ops@.len(),
                forall|j: int| 0 <= j < i ==> self@.has_family((#[trigger] all[j]).cf),
            decreases ops@.len() - i,
        {
            proof {
                lemma_ops_view(ops@);
            }
            if !self.has_family(ops[i].cf) {
                assert(!self@.has_family(all[i as int].cf));
                return false;
            }
            i += 1;
        }
        true
    }

    /// Applies the writes `ops` in order, whatever families they go to.
    pub(crate) fn append(&mut self, ops: &Vec<WriteOp>)
        ensures
            final(self)@ == old(self)@.with_ops(ops_view(ops@)),
            old(self)@.wf() ==> final(self)@.wf(),
    {
        let ghost all = ops_view(ops@);
        let mut i: usize = 0;
        proof {
            lemma_ops_view(ops@);
            assert(old(self)@.log + all.take(0) =~= old(self)@.log);
        }
        while i < ops.len()
            invariant
                i <= ops@.len(),
                all == ops_view(ops@),
                all.len() == ops@.len(),
                self@ == old(self)@.with_ops(all.take(i as int)),
            decreases ops@.len() - i,
        {
            let op = ops[i].duplicate();
            proof {
                lemma_ops_view(ops@);
                lemma_ops_view_push(self.log@, op);
                assert(all.take(i + 1) =~= all.take(i as int).push(all[i as int]));
                assert((old(self)@.log + all.take(i as int)).push(op@) =~= old(self)@.log + all.take(
                    i + 1,
                ));
            }
            self.log.push(op);
            i += 1;
        }
        proof {
            lemma_ops_view(self.log@);
            assert(self.log@.len() == self.log.len());
            assert(all.take(i as int) =~= all);
        }
    }

    /// Stores `value` under `key`: in family `cf` or, without one, in the default family.
    pub fn put_cf_full(
        &mut self,
        cf: Option<&ColumnFamily>,
        key: &[u8],
        value: &[u8],
        writeopts: Option<&WriteOptions>,
    ) -> (r: Result<(), Error>)
        ensures
            old(self)@.has_family(family_of(cf)) <==> r is Ok,
            r is Ok ==> final(self)@ == old(self)@.with_ops(
                seq![put_op(family_of(cf), key@, value@)],
            ),
            r matches Err(e) ==> final(self)@ == old(self)@ && e@ == (ErrorView {
                kind: ErrorKind::Validation,
                message: unknown_family_text(),
            }),
            old(self)@.wf() ==> final(self)@.wf(),
    {
        self.apply(WriteOp::put(family_id(cf), key, value))
    }

    /// Stores `value` under `key` of the default family.
    pub fn put(&mut self, key: &[u8], value: &[u8]) -> (r: Result<(), Error>)
        ensures
            old(self)@.has_family(DEFAULT_FAMILY) <==> r is Ok,
            r is Ok ==> final(self)@ == old(self)@.with_ops(
                seq![put_op(DEFAULT_FAMILY, key@, value@)],
            ),
            r is Err ==> final(self)@ == old(self)@,
            old(self)@.wf() ==> final(self)@.wf(),
    {
        self.put_cf_full(None, key, value, None)
    }

    /// Stores `value` under `key` of family `cf`.
    pub fn put_cf(&mut self, cf: &ColumnFamily, key: &[u8], value: &[u8]) -> (r: Result<(), Error>)
        ensures
            old(self)@.has_family(cf@) <==> r is Ok,
            r is Ok ==> final(self)@ == old(self)@.with_ops(seq![put_op(cf@, key@, value@)]),
            r matches Err(e) ==> final(self)@ == old(self)@ && e@ == (ErrorView {
                kind: ErrorKind::Validation,
                message: unknown_family_text(),
            }),
            old(self)@.wf() ==> final(self)@.wf(),
    {
        self.put_cf_full(Some(cf), key, value, None)
    }

    /// Merges `operand` into `key`: in family `cf` or, without one, in the default family.
    pub fn merge_cf_full(
        &mut self,
        cf: Option<&ColumnFamily>,
        key: &[u8],
        operand: &[u8],
        writeopts: Option<&WriteOptions>,
    ) -> (r: Result<(), Error>)
        ensures
            old(self)@.has_family(family_of(cf)) <==> r is Ok,
            r is Ok ==> final(self)@ == old(self)@.with_ops(
                seq![merge_op(family_of(cf), key@, operand@)],
            ),
            r matches Err(e) ==> final(self)@ == old(self)@ && e@ == (ErrorView {
                kind: ErrorKind::Validation,
                message: unknown_family_text(),
            }),
            old(self)@.wf() ==> final(self)@.wf(),
    {
        self.apply(WriteOp::merge(family_id(cf), key, operand))
    }

    /// Merges `operand` into `key` of the default family.
    pub fn merge(&mut self, key: &[u8], operand: &[u8]) -> (r: Result<(), Error>)
        ensures
            old(self)@.has_family(DEFAULT_FAMILY) <==> r is Ok,
            r is Ok ==> final(self)@ == old(self)@.with_ops(
                seq![merge_op(DEFAULT_FAMILY, key@, operand@)],
            ),
            r is Err ==> final(self)@ == old(self)@,
            old(self)@.wf() ==> final(self)@.wf(),
    {
        self.merge_cf_full(None, key, operand, None)
    }

    /// Merges `operand` into `key` of family `cf`.
    pub fn merge_cf(&mut self, cf: &ColumnFamily, key: &[u8], operand: &[u8]) -> (r: Result<
        (),
        Error,
    >)
        ensures
            old(self)@.has_family(cf@) <==> r is Ok,
            r is Ok ==> final(self)@ == old(self)@.with_ops(seq![merge_op(cf@, key@, operand@)]),
            r matches Err(e) ==> final(self)@ == old(self)@ && e@ == (ErrorView {
                kind: ErrorKind::Validation,
                message: unknown_family_text(),
            }),
            old(self)@.wf() ==> final(self)@.wf(),
    {
        self.merge_cf_full(Some(cf), key, operand, None)
    }

    /// Removes `key`: from family `cf` or, without one, from the default family.
    pub fn delete_cf_full(
        &mut self,
        cf: Option<&ColumnFamily>,
        key: &[u8],
        writeopts: Option<&WriteOptions>,
    ) -> (r: Result<(), Error>)
        ensures
            old(self)@.has_family(family_of(cf)) <==> r is Ok,
            r is Ok ==> final(self)@ == old(self)@.with_ops(seq![delete_op(family_of(cf), key@)]),
            r matches Err(e) ==> final(self)@ == old(self)@ && e@ == (ErrorView {
                kind: ErrorKind::Validation,
                message: unknown_family_text(),
            }),
            old(self)@.wf() ==> final(self)@.wf(),
    {
        self.apply(WriteOp::delete(family_id(cf), key))
    }

    /// Removes `key` from the default family.
    pub fn delete(&mut self, key: &[u8]) -> (r: Result<(), Error>)
        ensures
            old(self)@.has_family(DEFAULT_FAMILY) <==> r is Ok,
            r is Ok ==> final(self)@ == old(self)@.with_ops(seq![delete_op(DEFAULT_FAMILY, key@)]),
            r is Err ==> final(self)@ == old(self)@,
            old(self)@.wf() ==> final(self)@.wf(),
    {
        self.delete_cf_full(None, key, None)
    }

    /// Removes `key` from family `cf`.
    pub fn delete_cf(&mut self, cf: &ColumnFamily, key: &[u8]) -> (r: Result<(), Error>)
        ensures
            old(self)@.has_family(cf@) <==> r is Ok,
            r is Ok ==> final(self)@ == old(self)@.with_ops(seq![delete_op(cf@, key@)]),
            r matches Err(e) ==> final(self)@ == old(self)@ && e@ == (ErrorView {
                kind: ErrorKind::Validation,
                message: unknown_family_text(),
            }),
            old(self)@.wf() ==> final(self)@.wf(),
    {
        self.delete_cf_full(Some(cf), key, None)
    }

    /// Applies the writes of `batch` together: all of them, or none where one
    /// goes to a family the database does not have.
    pub fn write(&mut self, batch: &WriteBatch) -> (r: Result<(), Error>)
        ensures
            old(self)@.accepts(batch@.ops) <==> r is Ok,
            r is Ok ==> final(self)@ == old(self)@.with_ops(batch@.ops),
            r matches Err(e) ==> final(self)@ == old(self)@ && e@ == (ErrorView {
                kind: ErrorKind::Validation,
                message: unknown_family_text(),
            }),
            old(self)@.wf() ==> final(self)@.wf(),
    {
        if !self.accepts(batch.ops()) {
            return Err(Error::unknown_family());
        }
        self.append(batch.ops());
        Ok(())
    }

    /// Applies the writes of `batch` as [`DB::write`] does.
    pub fn write_opt(&mut self, batch: &WriteBatch, writeopts: &WriteOptions) -> (r: Result<(), Error>)
        ensures
            old(self)@.accepts(batch@.ops) <==> r is Ok,
            r is Ok ==> final(self)@ == old(self)@.with_ops(batch@.ops),
            r matches Err(e) ==> final(self)@ == old(self)@ && e@ == (ErrorView {
                kind: ErrorKind::Validation,
                message: unknown_family_text(),
            }),
            old(self)@.wf() ==> final(self)@.wf(),
    {
        self.write(batch)
    }
}

impl DB {
    /// Sets options of family `cf` while the database is open: all of them
    /// or, where one is refused, none.
    pub fn set_options_cf(&mut self, cf: &ColumnFamily, opts: &[(&str, &str)]) -> (r: Result<
        (),
        Error,
    >)
        ensures
            match old(self)@.options_outcome(cf@, option_pairs(opts@)) {
                Ok(settings) => r is Ok && final(self)@ == old(self)@.with_settings(cf@, settings),
                Err(e) => r matches Err(x) && x@ == e && final(self)@ == old(self)@,
            },
            old(self)@.wf() ==> final(self)@.wf(),
    {
        if opts.len() == 0 {
            return Err(Error::no_options());
        }
        let i = match self.slot(cf.id()) {
            Some(i) => i,
            None => {
                return Err(Error::unknown_family());
            },
        };
        match self.families[i].settings.set_all(opts) {
            Err(e) => Err(e),
            Ok(settings) => {
                let name = self.families[i].name.clone();
                let live = self.families[i].live;
                self.families[i] = Family { name, live, settings };
                proof {
                    assert(self@.families =~= old(self)@.with_settings(cf@, settings).families);
                }
                Ok(())
            },
        }
    }

    /// Sets options of the default family while the database is open.
    pub fn set_options(&mut self, opts: &[(&str, &str)]) -> (r: Result<(), Error>)
        ensures
            match old(self)@.options_outcome(DEFAULT_FAMILY, option_pairs(opts@)) {
                Ok(settings) => r is Ok && final(self)@ == old(self)@.with_settings(
                    DEFAULT_FAMILY,
                    settings,
                ),
                Err(e) => r matches Err(x) && x@ == e && final(self)@ == old(self)@,
            },
            old(self)@.wf() ==> final(self)@.wf(),
    {
        let cf = ColumnFamily::from_id(DEFAULT_FAMILY);
        self.set_options_cf(&cf, opts)
    }

    /// The settings of family `cf`.
    pub fn settings_cf(&self, cf: &ColumnFamily) -> (r: Result<Settings, Error>)
        ensures
            self@.has_family(cf@) <==> r is Ok,
            r matches Ok(settings) ==> settings == self@.families[cf@ as int].settings,
            r matches Err(e) ==> e@ == (ErrorView {
                kind: ErrorKind::Validation,
                message: unknown_family_text(),
            }),
    {
        match self.slot(cf.id()) {
            Some(i) => Ok(self.families[i].settings),
            None => Err(Error::unknown_family()),
        }
    }
}

} // verus!
