//! An in-memory key-value engine with optimistic transactions, snapshots
//! and batched reads.

pub mod bytes;
pub mod column_family;
pub mod db;
pub mod error;
pub mod guarantees;
pub mod iterator;
pub mod ops;
pub mod optimistic_transaction;
pub mod options;
pub mod snapshot;
pub mod text;
pub mod transaction;
pub mod write_batch;
