//! The error type shared by every fallible operation of the engine.

use vstd::prelude::*;

verus! {

/// The class an error belongs to.
#[derive(Clone, Copy, Debug, PartialEq, Eq, Structural)]
pub enum ErrorKind {
    /// A commit found that a tracked key was modified by someone else.
    Conflict,
    /// The caller supplied malformed input.
    Validation,
    /// The storage engine itself reported a failure.
    Engine,
    /// An operation was used in a state that does not allow it.
    Misuse,
}

/// The mathematical content of an [`Error`].
pub struct ErrorView {
    pub kind: ErrorKind,
    pub message: Seq<char>,
}

/// A failure reported by the engine or by the transaction layer.
#[derive(Debug)]
pub struct Error {
    kind: ErrorKind,
    message: String,
}

impl View for Error {
    type V = ErrorView;

    closed spec fn view(&self) -> ErrorView {
        ErrorView { kind: self.kind, message: self.message@ }
    }
}

impl Clone for Error {
    fn clone(&self) -> (copy: Error)
        ensures
            copy@ == self@,
    {
        Error { kind: self.kind, message: self.message.clone() }
    }
}

/// Text of the error reported when read options refer to a released snapshot.
pub open spec fn released_snapshot_text() -> Seq<char> {
    "Invalid argument: read options refer to a released snapshot"@
}

/// Text of the error reported when read options refer to a snapshot with a
/// sequence number the database has not reached.
pub open spec fn foreign_snapshot_text() -> Seq<char> {
    "Invalid argument: read options refer to a snapshot the database has not reached"@
}

/// Text of the error reported when a column family handle is not known to the database.
pub open spec fn unknown_family_text() -> Seq<char> {
    "Invalid argument: column family not found"@
}

/// Text of the error reported when a commit detects a conflicting write.
pub open spec fn conflict_text() -> Seq<char> {
    "Resource busy: a tracked key was modified by another writer"@
}

/// Text of the error reported when there is no savepoint to roll back to.
pub open spec fn no_savepoint_text() -> Seq<char> {
    "NotFound: no savepoint has been set"@
}

/// Text of the error reported when a database that does not exist may not be created.
pub open spec fn missing_database_text() -> Seq<char> {
    "Invalid argument: database does not exist (create_if_missing is false)"@
}

/// Text of the error reported when a column family is created under a name in use.
pub open spec fn family_exists_text() -> Seq<char> {
    "Invalid argument: column family already exists"@
}

/// Text of the error reported when the default column family is to be dropped.
pub open spec fn default_family_text() -> Seq<char> {
    "Invalid argument: cannot drop the default column family"@
}

/// Text of the error reported when no option is given to set.
pub open spec fn no_options_text() -> Seq<char> {
    "Invalid argument: no options given"@
}

/// Text of the error reported when an option name or value holds a NUL character.
pub open spec fn nul_option_text() -> Seq<char> {
    "Failed to convert option to CString: nul byte found in provided data"@
}

/// Text of the error reported when an option name is not known.
pub open spec fn unknown_option_text() -> Seq<char> {
    "Invalid argument: unrecognized option"@
}

/// Text of the error reported when an option value cannot be read.
pub open spec fn option_value_text() -> Seq<char> {
    "Invalid argument: error parsing option value"@
}

impl Error {
    /// The error for setting no option at all.
    pub fn no_options() -> (e: Error)
        ensures
            e@ == (ErrorView { kind: ErrorKind::Validation, message: no_options_text() }),
    {
        Error::with_kind(ErrorKind::Validation, "Invalid argument: no options given")
    }

    /// The error for an option name or value that holds a NUL character.
    pub fn nul_option() -> (e: Error)
        ensures
            e@ == (ErrorView { kind: ErrorKind::Validation, message: nul_option_text() }),
    {
        Error::with_kind(
            ErrorKind::Validation,
            "Failed to convert option to CString: nul byte found in provided data",
        )
    }

    /// The error for an option name that is not known.
    pub fn unknown_option() -> (e: Error)
        ensures
            e@ == (ErrorView { kind: ErrorKind::Validation, message: unknown_option_text() }),
    {
        Error::with_kind(ErrorKind::Validation, "Invalid argument: unrecognized option")
    }

    /// The error for an option value that cannot be read.
    pub fn option_value() -> (e: Error)
        ensures
            e@ == (ErrorView { kind: ErrorKind::Validation, message: option_value_text() }),
    {
        Error::with_kind(ErrorKind::Validation, "Invalid argument: error parsing option value")
    }

    /// The error for opening a database that may not be created.
    pub fn missing_database() -> (e: Error)
        ensures
            e@ == (ErrorView { kind: ErrorKind::Validation, message: missing_database_text() }),
    {
        Error::with_kind(
            ErrorKind::Validation,
            "Invalid argument: database does not exist (create_if_missing is false)",
        )
    }

    /// The error for creating a column family under a name in use.
    pub fn family_exists() -> (e: Error)
        ensures
            e@ == (ErrorView { kind: ErrorKind::Validation, message: family_exists_text() }),
    {
        Error::with_kind(ErrorKind::Validation, "Invalid argument: column family already exists")
    }

    /// The error for dropping the default column family.
    pub fn default_family() -> (e: Error)
        ensures
            e@ == (ErrorView { kind: ErrorKind::Validation, message: default_family_text() }),
    {
        Error::with_kind(
            ErrorKind::Validation,
            "Invalid argument: cannot drop the default column family",
        )
    }

    /// An engine error carrying `message` verbatim.
    pub fn new(message: String) -> (e: Error)
        ensures
            e@ == (ErrorView { kind: ErrorKind::Engine, message: message@ }),
    {
        Error { kind: ErrorKind::Engine, message }
    }

    /// An error of the given kind carrying `message`.
    pub fn with_kind(kind: ErrorKind, message: &str) -> (e: Error)
        ensures
            e@ == (ErrorView { kind, message: message@ }),
    {
        Error { kind, message: message.to_owned() }
    }

    /// The error for read options that refer to a released snapshot.
    pub fn released_snapshot() -> (e: Error)
        ensures
            e@ == (ErrorView { kind: ErrorKind::Validation, message: released_snapshot_text() }),
    {
        Error::with_kind(
            ErrorKind::Validation,
            "Invalid argument: read options refer to a released snapshot",
        )
    }

    /// The error for read options that refer to a snapshot the database has
    /// not reached.
    pub fn foreign_snapshot() -> (e: Error)
        ensures
            e@ == (ErrorView { kind: ErrorKind::Validation, message: foreign_snapshot_text() }),
    {
        Error::with_kind(
            ErrorKind::Validation,
            "Invalid argument: read options refer to a snapshot the database has not reached",
        )
    }

    /// The error for a column family handle the database does not know.
    pub fn unknown_family() -> (e: Error)
        ensures
            e@ == (ErrorView { kind: ErrorKind::Validation, message: unknown_family_text() }),
    {
        Error::with_kind(ErrorKind::Validation, "Invalid argument: column family not found")
    }

    /// The error for a commit that lost a race on a tracked key.
    pub fn conflict() -> (e: Error)
        ensures
            e@ == (ErrorView { kind: ErrorKind::Conflict, message: conflict_text() }),
    {
        Error::with_kind(
            ErrorKind::Conflict,
            "Resource busy: a tracked key was modified by another writer",
        )
    }

    /// The error for a rollback to a savepoint that was never set.
    pub fn no_savepoint() -> (e: Error)
        ensures
            e@ == (ErrorView { kind: ErrorKind::Misuse, message: no_savepoint_text() }),
    {
        Error::with_kind(ErrorKind::Misuse, "NotFound: no savepoint has been set")
    }

    /// The class of this error.
    pub fn kind(&self) -> (k: ErrorKind)
        ensures
            k == self@.kind,
    {
        self.kind
    }

    /// The message of this error.
    pub fn message(&self) -> (m: &str)
        ensures
            m@ == self@.message,
    {
        self.message.as_str()
    }

    /// A copy of the message of this error.
    pub fn to_string(&self) -> (m: String)
        ensures
            m@ == self@.message,
    {
        self.message.clone()
    }

    /// Gives up the error for its message.
    pub fn into_string(self) -> (m: String)
        ensures
            m@ == self@.message,
    {
        self.message
    }
}

} // verus!
