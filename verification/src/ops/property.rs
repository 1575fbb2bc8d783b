//! Named properties of a database: figures the engine reports about itself
//! as text, and their reading as integers.

use vstd::prelude::*;
use crate::column_family::{ColumnFamily, DEFAULT_FAMILY};
use crate::db::{DbView, DB};
use crate::error::{unknown_family_text, Error, ErrorKind, ErrorView};
use crate::options::MergeOperator;
use crate::text::{has_nul, holds_nul, same_text};
use crate::write_batch::{lemma_ops_view, ops_view, OpKind, WriteOp, WriteOpView};

verus! {

/// The character that stands for the digit `d`.
pub open spec fn digit_char(d: nat) -> char {
    if d == 0 {
        '0'
    } else if d == 1 {
        '1'
    } else if d == 2 {
        '2'
    } else if d == 3 {
        '3'
    } else if d == 4 {
        '4'
    } else if d == 5 {
        '5'
    } else if d == 6 {
        '6'
    } else if d == 7 {
        '7'
    } else if d == 8 {
        '8'
    } else {
        '9'
    }
}

/// The digit a character stands for, if it is a decimal digit.
pub open spec fn digit_value(c: char) -> Option<nat> {
    if c == '0' {
        Some(0)
    } else if c == '1' {
        Some(1)
    } else if c == '2' {
        Some(2)
    } else if c == '3' {
        Some(3)
    } else if c == '4' {
        Some(4)
    } else if c == '5' {
        Some(5)
    } else if c == '6' {
        Some(6)
    } else if c == '7' {
        Some(7)
    } else if c == '8' {
        Some(8)
    } else if c == '9' {
        Some(9)
    } else {
        None
    }
}

/// The decimal notation of `n`, without leading zeros.
pub open spec fn decimal_text(n: nat) -> Seq<char>
    decreases n,
{
    if n < 10 {
        seq![digit_char(n)]
    } else {
        decimal_text(n / 10).push(digit_char(n % 10))
    }
}

/// Why a text is not the notation of an integer.
#[derive(Clone, Copy, Debug, PartialEq, Eq, Structural)]
pub enum ParseFailure {
    /// The text is empty.
    Empty,
    /// The text holds something that is not a digit.
    InvalidDigit,
    /// The digits stand for a number that is too large.
    Overflow,
}

/// The number a run of digits stands for, read from the left: the first
/// character that is not a digit, or the first digit with which the number
/// no longer fits in 64 bits, decides the failure.
pub open spec fn scan_digits(s: Seq<char>) -> Result<nat, ParseFailure>
    decreases s.len(),
{
    if s.len() == 0 {
        Ok(0)
    } else {
        match scan_digits(s.drop_last()) {
            Err(f) => Err(f),
            Ok(before) => match digit_value(s.last()) {
                None => Err(ParseFailure::InvalidDigit),
                Some(d) => if before * 10 + d > u64::MAX {
                    Err(ParseFailure::Overflow)
                } else {
                    Ok(before * 10 + d)
                },
            },
        }
    }
}

/// The integer a text stands for: an optional plus sign followed by at least
/// one digit and nothing else, for a number that fits in 64 bits.
pub open spec fn parse_int(s: Seq<char>) -> Result<nat, ParseFailure> {
    if s.len() == 0 {
        Err(ParseFailure::Empty)
    } else {
        let digits = if s[0] == '+' {
            s.skip(1)
        } else {
            s
        };
        if digits.len() == 0 {
            Err(ParseFailure::InvalidDigit)
        } else {
            scan_digits(digits)
        }
    }
}

/// What is said of a text that is not the notation of an integer.
pub open spec fn failure_text(f: ParseFailure) -> Seq<char> {
    match f {
        ParseFailure::Empty => "cannot parse integer from empty string"@,
        ParseFailure::InvalidDigit => "invalid digit found in string"@,
        ParseFailure::Overflow => "number too large to fit in target type"@,
    }
}

/// The message of the error for a property value that is not an integer.
pub open spec fn int_failure_text(value: Seq<char>, f: ParseFailure) -> Seq<char> {
    "Failed to convert property value "@ + value + " to int: "@ + failure_text(f)
}

/// The message of the error for a property name that holds a NUL character.
pub open spec fn nul_name_text() -> Seq<char> {
    "Failed to convert property name to CString: nul byte found in provided data"@
}

fn digit_text(d: u64) -> (s: &'static str)
    requires
        d < 10,
    ensures
        s@ == seq![digit_char(d as nat)],
{
    proof {
        reveal_strlit("0");
        reveal_strlit("1");
        reveal_strlit("2");
        reveal_strlit("3");
        reveal_strlit("4");
        reveal_strlit("5");
        reveal_strlit("6");
        reveal_strlit("7");
        reveal_strlit("8");
        reveal_strlit("9");
    }
    let s = if d == 0 {
        "0"
    } else if d == 1 {
        "1"
    } else if d == 2 {
        "2"
    } else if d == 3 {
        "3"
    } else if d == 4 {
        "4"
    } else if d == 5 {
        "5"
    } else if d == 6 {
        "6"
    } else if d == 7 {
        "7"
    } else if d == 8 {
        "8"
    } else {
        "9"
    };
    assert(s@ =~= seq![digit_char(d as nat)]);
    s
}

fn digit_of(c: char) -> (d: Option<u64>)
    ensures
        match digit_value(c) {
            Some(v) => d == Some(v as u64) && v < 10,
            None => d is None,
        },
{
    if c == '0' {
        Some(0)
    } else if c == '1' {
        Some(1)
    } else if c == '2' {
        Some(2)
    } else if c == '3' {
        Some(3)
    } else if c == '4' {
        Some(4)
    } else if c == '5' {
        Some(5)
    } else if c == '6' {
        Some(6)
    } else if c == '7' {
        Some(7)
    } else if c == '8' {
        Some(8)
    } else if c == '9' {
        Some(9)
    } else {
        None
    }
}

/// Writes `n` in decimal notation.
pub fn render_u64(n: u64) -> (s: String)
    ensures
        s@ == decimal_text(n as nat),
    decreases n,
{
    if n < 10 {
        digit_text(n).to_owned()
    } else {
        let mut s = render_u64(n / 10);
        s.append(digit_text(n % 10));
        assert(s@ =~= decimal_text(n as nat));
        s
    }
}

/// Reads `value` as an integer.
pub fn parse_u64(value: &str) -> (r: Result<u64, ParseFailure>)
    ensures
        match parse_int(value@) {
            Ok(n) => r == Ok::<u64, ParseFailure>(n as u64) && n <= u64::MAX,
            Err(f) => r == Err::<u64, ParseFailure>(f),
        },
{
    let len = value.unicode_len();
    if len == 0 {
        return Err(ParseFailure::Empty);
    }
    let start: usize = if value.get_char(0) == '+' {
        1
    } else {
        0
    };
    if start == len {
        return Err(ParseFailure::InvalidDigit);
    }
    let ghost digits = value@.skip(start as int);
    let mut acc: u64 = 0;
    let mut i: usize = start;
    proof {
        assert(digits.take(0) =~= Seq::<char>::empty());
        assert(value@.skip(0) =~= value@);
        assert(digits.len() == len - start);
        assert(parse_int(value@) == scan_digits(digits));
    }
    while i < len
        invariant
            start <= i <= len,
            len == value@.len(),
            digits == value@.skip(start as int),
            digits.len() == len - start,
            parse_int(value@) == scan_digits(digits),
            scan_digits(digits.take(i - start)) == Ok::<nat, ParseFailure>(acc as nat),
        decreases len - i,
    {
        let c = value.get_char(i);
        proof {
            assert(digits.take(i + 1 - start).drop_last() =~= digits.take(i - start));
            assert(digits.take(i + 1 - start).last() == c);
        }
        match digit_of(c) {
            None => {
                proof {
                    lemma_scan_sticks(digits, i + 1 - start);
                }
                return Err(ParseFailure::InvalidDigit);
            },
            Some(d) => {
                if acc > u64::MAX / 10 || acc * 10 > u64::MAX - d {
                    proof {
                        lemma_scan_sticks(digits, i + 1 - start);
                    }
                    return Err(ParseFailure::Overflow);
                }
                acc = acc * 10 + d;
            },
        }
        i += 1;
    }
    proof {
        assert(digits.take(len - start) =~= digits);
    }
    Ok(acc)
}

/// A failure found in a prefix of a run of digits is the failure of the whole run.
proof fn lemma_scan_sticks(s: Seq<char>, n: int)
    requires
        0 <= n <= s.len(),
        scan_digits(s.take(n)) is Err,
    ensures
        scan_digits(s) == scan_digits(s.take(n)),
    decreases s.len() - n,
{
    if n < s.len() {
        assert(s.take(n + 1).drop_last() =~= s.take(n));
        lemma_scan_sticks(s, n + 1);
    } else {
        assert(s.take(n) =~= s);
    }
}

/// Every character of a decimal notation is a digit, and the digits stand
/// for the number that was written.
proof fn lemma_scan_decimal(n: nat)
    requires
        n <= u64::MAX,
    ensures
        scan_digits(decimal_text(n)) == Ok::<nat, ParseFailure>(n),
        decimal_text(n).len() > 0,
        decimal_text(n)[0] != '+',
    decreases n,
{
    if n < 10 {
        assert(decimal_text(n).drop_last() =~= Seq::<char>::empty());
        assert(scan_digits(Seq::<char>::empty()) == Ok::<nat, ParseFailure>(0));
    } else {
        lemma_scan_decimal(n / 10);
        assert(decimal_text(n).drop_last() =~= decimal_text(n / 10));
        assert(decimal_text(n)[0] == decimal_text(n / 10)[0]);
    }
}

/// Reading back what was written: the decimal notation of a number that fits
/// in 64 bits is read as that number.
pub proof fn parse_of_rendered(n: nat)
    requires
        n <= u64::MAX,
    ensures
        parse_int(decimal_text(n)) == Ok::<nat, ParseFailure>(n),
{
    lemma_scan_decimal(n);
}

/// The text that says why `value` is not an integer.
fn describe_failure(value: &str, f: ParseFailure) -> (message: String)
    ensures
        message@ == int_failure_text(value@, f),
{
    let reason = match f {
        ParseFailure::Empty => "cannot parse integer from empty string",
        ParseFailure::InvalidDigit => "invalid digit found in string",
        ParseFailure::Overflow => "number too large to fit in target type",
    };
    let message = "Failed to convert property value ".to_owned();
    let message = message.concat(value);
    let message = message.concat(" to int: ");
    message.concat(reason)
}

/// What reading a property value as an integer yields: the integer, or an
/// engine error that quotes the value and says why it is no integer.
pub open spec fn int_reading(value: Seq<char>) -> Result<u64, ErrorView> {
    match parse_int(value) {
        Ok(n) => Ok(n as u64),
        Err(f) => Err(ErrorView { kind: ErrorKind::Engine, message: int_failure_text(value, f) }),
    }
}

/// What a fallible result holds, with its error as plain values.
pub open spec fn int_view(r: Result<u64, Error>) -> Result<u64, ErrorView> {
    match r {
        Ok(n) => Ok(n),
        Err(e) => Err(e@),
    }
}

/// Reads a property value as an integer.
pub fn parse_property_int_value(value: &str) -> (r: Result<u64, Error>)
    ensures
        int_view(r) == int_reading(value@),
{
    match parse_u64(value) {
        Ok(n) => Ok(n),
        Err(f) => Err(Error::new(describe_failure(value, f))),
    }
}

/// Number of puts, merges and removals among `log` that go to family `cf`.
pub open spec fn count_entries(log: Seq<WriteOpView>, cf: u64) -> nat
    decreases log.len(),
{
    if log.len() == 0 {
        0
    } else {
        count_entries(log.drop_last(), cf) + if log.last().cf == cf && !(log.last().kind is Touch) {
            1nat
        } else {
            0nat
        }
    }
}

/// Number of removals among `log` that go to family `cf`.
pub open spec fn count_deletes(log: Seq<WriteOpView>, cf: u64) -> nat
    decreases log.len(),
{
    if log.len() == 0 {
        0
    } else {
        count_deletes(log.drop_last(), cf) + if log.last().cf == cf && log.last().kind is Delete {
            1nat
        } else {
            0nat
        }
    }
}

/// The name a merge operator goes by.
pub open spec fn operator_name(operator: MergeOperator) -> Seq<char> {
    match operator {
        MergeOperator::Append => "append"@,
        MergeOperator::Replace => "replace"@,
    }
}

/// Name of the property that holds the sequence number of the database.
pub open spec fn sequence_property() -> Seq<char> {
    "engine.latest-sequence-number"@
}

/// Name of the property that holds the number of writes a family received.
pub open spec fn entries_property() -> Seq<char> {
    "engine.num-entries"@
}

/// Name of the property that holds the number of removals a family received.
pub open spec fn deletes_property() -> Seq<char> {
    "engine.num-deletes"@
}

/// Name of the property that holds the name of the merge operator.
pub open spec fn operator_property() -> Seq<char> {
    "engine.merge-operator"@
}

impl DbView {
    /// What the engine reports under `name` for family `cf`; nothing for a
    /// name it does not know.
    pub open spec fn property(self, cf: u64, name: Seq<char>) -> Option<Seq<char>> {
        if name == sequence_property() {
            Some(decimal_text(self.sequence()))
        } else if name == entries_property() {
            Some(decimal_text(count_entries(self.log, cf)))
        } else if name == deletes_property() {
            Some(decimal_text(count_deletes(self.log, cf)))
        } else if name == operator_property() {
            Some(operator_name(self.merge_operator))
        } else {
            None
        }
    }

    /// What asking for the property `name` of family `cf` yields: a name
    /// with a NUL character is refused, and so is a family the database does
    /// not have.
    pub open spec fn property_outcome(self, cf: u64, name: Seq<char>) -> Result<
        Option<Seq<char>>,
        ErrorView,
    > {
        if has_nul(name) {
            Err(ErrorView { kind: ErrorKind::Validation, message: nul_name_text() })
        } else if !self.has_family(cf) {
            Err(ErrorView { kind: ErrorKind::Validation, message: unknown_family_text() })
        } else {
            Ok(self.property(cf, name))
        }
    }

    /// What asking for the property `name` of family `cf` as an integer
    /// yields: as for the text, and a text that is no integer is an error.
    pub open spec fn int_property_outcome(self, cf: u64, name: Seq<char>) -> Result<
        Option<u64>,
        ErrorView,
    > {
        match self.property_outcome(cf, name) {
            Err(e) => Err(e),
            Ok(None) => Ok(None),
            Ok(Some(text)) => match int_reading(text) {
                Ok(n) => Ok(Some(n)),
                Err(e) => Err(e),
            },
        }
    }
}

/// What a property lookup returned, as plain values.
pub open spec fn text_outcome_view(r: Result<Option<String>, Error>) -> Result<
    Option<Seq<char>>,
    ErrorView,
> {
    match r {
        Ok(Some(s)) => Ok(Some(s@)),
        Ok(None) => Ok(None),
        Err(e) => Err(e@),
    }
}

/// What an integer property lookup returned, as plain values.
pub open spec fn int_outcome_view(r: Result<Option<u64>, Error>) -> Result<Option<u64>, ErrorView> {
    match r {
        Ok(v) => Ok(v),
        Err(e) => Err(e@),
    }
}

fn entries_of(log: &Vec<WriteOp>, cf: u64, deletes_only: bool) -> (n: usize)
    ensures
        n == if deletes_only {
            count_deletes(ops_view(log@), cf)
        } else {
            count_entries(ops_view(log@), cf)
        },
{
    let ghost all = ops_view(log@);
    let mut n: usize = 0;
    let mut i: usize = 0;
    proof {
        lemma_ops_view(log@);
        assert(all.take(0) =~= Seq::<WriteOpView>::empty());
    }
    while i < log.len()
        invariant
            i <= log@.len(),
            all == ops_view(log@),
            all.len() == log@.len(),
            n <= i,
            n == if deletes_only {
                count_deletes(all.take(i as int), cf)
            } else {
                count_entries(all.take(i as int), cf)
            },
        decreases log@.len() - i,
    {
        let op = &log[i];
        proof {
            lemma_ops_view(log@);
            assert(all.take(i + 1).drop_last() =~= all.take(i as int));
            assert(all.take(i + 1).last() == op@);
        }
        if op.cf == cf {
            let counts = match &op.kind {
                OpKind::Delete => true,
                OpKind::Touch => false,
                _ => !deletes_only,
            };
            if counts {
                n += 1;
            }
        }
        i += 1;
    }
    proof {
        assert(all.take(i as int) =~= all);
    }
    n
}

impl DB {
    /// What the engine reports under `name` for family `cf`.
    pub fn raw_property(&self, cf: u64, name: &str) -> (value: Option<String>)
        ensures
            match self@.property(cf, name@) {
                Some(text) => value matches Some(s) && s@ == text,
                None => value is None,
            },
    {
        if same_text(name, "engine.latest-sequence-number") {
            Some(render_u64(self.latest_sequence_number()))
        } else if same_text(name, "engine.num-entries") {
            Some(render_u64(entries_of(self.log(), cf, false) as u64))
        } else if same_text(name, "engine.num-deletes") {
            Some(render_u64(entries_of(self.log(), cf, true) as u64))
        } else if same_text(name, "engine.merge-operator") {
            match self.merge_operator() {
                MergeOperator::Append => Some("append".to_owned()),
                MergeOperator::Replace => Some("replace".to_owned()),
            }
        } else {
            None
        }
    }
}

/// Implementation for property_value et al methods.
///
/// `name` is the name of the property. A name that holds a NUL character is
/// refused before the engine is asked, and so is a family the database does
/// not have. Otherwise the result is what the engine reports under the name
/// for the family, or nothing where it does not know the name.
pub fn property_value_impl(db: &DB, cf: u64, name: &str) -> (r: Result<Option<String>, Error>)
    ensures
        text_outcome_view(r) == db@.property_outcome(cf, name@),
{
    if holds_nul(name) {
        return Err(
            Error::with_kind(
                ErrorKind::Validation,
                "Failed to convert property name to CString: nul byte found in provided data",
            ),
        );
    }
    if !db.has_family(cf) {
        return Err(Error::unknown_family());
    }
    Ok(db.raw_property(cf, name))
}

/// Implementation for the integer forms of the property methods: the text
/// the engine reports is read as an integer.
pub fn property_int_value_impl(db: &DB, cf: u64, name: &str) -> (r: Result<Option<u64>, Error>)
    ensures
        int_outcome_view(r) == db@.int_property_outcome(cf, name@),
{
    match property_value_impl(db, cf, name) {
        Err(e) => Err(e),
        Ok(None) => Ok(None),
        Ok(Some(text)) => match parse_property_int_value(text.as_str()) {
            Ok(n) => Ok(Some(n)),
            Err(e) => Err(e),
        },
    }
}

/// Properties of a database as a whole.
pub trait GetProperty {
    /// What asking for the property `name` yields.
    spec fn property_spec(&self, name: Seq<char>) -> Result<Option<Seq<char>>, ErrorView>;

    /// What asking for the property `name` as an integer yields.
    spec fn int_property_spec(&self, name: Seq<char>) -> Result<Option<u64>, ErrorView>;

    /// Retrieves a property by name.
    fn property_value(&self, name: &str) -> (r: Result<Option<String>, Error>)
        ensures
            text_outcome_view(r) == self.property_spec(name@),
    ;

    /// Retrieves a property and casts it to an integer.
    fn property_int_value(&self, name: &str) -> (r: Result<Option<u64>, Error>)
        ensures
            int_outcome_view(r) == self.int_property_spec(name@),
    ;
}

/// Properties of one column family of a database.
pub trait GetPropertyCF {
    /// What asking for the property `name` of family `cf` yields.
    spec fn property_cf_spec(&self, cf: u64, name: Seq<char>) -> Result<Option<Seq<char>>, ErrorView>;

    /// What asking for the property `name` of family `cf` as an integer yields.
    spec fn int_property_cf_spec(&self, cf: u64, name: Seq<char>) -> Result<Option<u64>, ErrorView>;

    /// Retrieves a property by name, for a specific column family.
    fn property_value_cf(&self, cf: &ColumnFamily, name: &str) -> (r: Result<Option<String>, Error>)
        ensures
            text_outcome_view(r) == self.property_cf_spec(cf@, name@),
    ;

    /// Retrieves a property for a specific column family and casts it to an integer.
    fn property_int_value_cf(&self, cf: &ColumnFamily, name: &str) -> (r: Result<Option<u64>, Error>)
        ensures
            int_outcome_view(r) == self.int_property_cf_spec(cf@, name@),
    ;
}

impl GetProperty for DB {
    open spec fn property_spec(&self, name: Seq<char>) -> Result<Option<Seq<char>>, ErrorView> {
        self@.property_outcome(DEFAULT_FAMILY, name)
    }

    open spec fn int_property_spec(&self, name: Seq<char>) -> Result<Option<u64>, ErrorView> {
        self@.int_property_outcome(DEFAULT_FAMILY, name)
    }

    fn property_value(&self, name: &str) -> (r: Result<Option<String>, Error>) {
        property_value_impl(self, DEFAULT_FAMILY, name)
    }

    fn property_int_value(&self, name: &str) -> (r: Result<Option<u64>, Error>) {
        property_int_value_impl(self, DEFAULT_FAMILY, name)
    }
}

impl GetPropertyCF for DB {
    open spec fn property_cf_spec(&self, cf: u64, name: Seq<char>) -> Result<
        Option<Seq<char>>,
        ErrorView,
    > {
        self@.property_outcome(cf, name)
    }

    open spec fn int_property_cf_spec(&self, cf: u64, name: Seq<char>) -> Result<
        Option<u64>,
        ErrorView,
    > {
        self@.int_property_outcome(cf, name)
    }

    fn property_value_cf(&self, cf: &ColumnFamily, name: &str) -> (r: Result<Option<String>, Error>) {
        property_value_impl(self, cf.id(), name)
    }

    fn property_int_value_cf(&self, cf: &ColumnFamily, name: &str) -> (r: Result<Option<u64>, Error>) {
        property_int_value_impl(self, cf.id(), name)
    }
}

/// An integer property that the engine wrote is read back as the number it
/// stands for: the sequence number of a well-formed database comes back as
/// an integer.
pub proof fn sequence_property_is_an_integer(db: DbView, cf: u64)
    requires
        db.wf(),
        db.has_family(cf),
        !has_nul(sequence_property()),
    ensures
        db.int_property_outcome(cf, sequence_property()) == Ok::<Option<u64>, ErrorView>(
            Some(db.sequence() as u64),
        ),
{
    parse_of_rendered(db.sequence());
}

} // verus!
