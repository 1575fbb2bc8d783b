//! Capabilities that every handle able to answer reads on its own offers.

pub mod multi_get;
pub mod property;
