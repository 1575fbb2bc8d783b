//! Handles to the named partitions of a database.

use vstd::prelude::*;

verus! {

/// Identifier of the column family every database starts with.
pub const DEFAULT_FAMILY: u64 = 0;

/// A reference to a column family of a database. The handle does not own the
/// partition: it stays meaningful as long as the database keeps the family.
#[derive(Clone, Copy, Debug, PartialEq, Eq, Structural)]
pub struct ColumnFamily {
    id: u64,
}

impl View for ColumnFamily {
    type V = u64;

    closed spec fn view(&self) -> u64 {
        self.id
    }
}

impl ColumnFamily {
    /// The handle of the family with identifier `id`.
    pub fn from_id(id: u64) -> (cf: ColumnFamily)
        ensures
            cf@ == id,
    {
        ColumnFamily { id }
    }

    /// The identifier the database assigned to this family.
    pub fn id(&self) -> (id: u64)
        ensures
            id == self@,
    {
        self.id
    }
}

/// The family a handle stands for, or the default family without a handle.
pub open spec fn family_of(cf: Option<&ColumnFamily>) -> u64 {
    match cf {
        Some(c) => c@,
        None => DEFAULT_FAMILY,
    }
}

/// The family a handle stands for, or the default family without a handle.
pub fn family_id(cf: Option<&ColumnFamily>) -> (id: u64)
    ensures
        id == family_of(cf),
{
    match cf {
        Some(c) => c.id(),
        None => DEFAULT_FAMILY,
    }
}

} // verus!
