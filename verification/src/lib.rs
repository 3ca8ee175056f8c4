//! An in-memory key-value store with expiring entries and a line-based
//! command protocol, with the store's rules and the protocol's decisions
//! verified by Verus.

pub mod text;
pub mod types;
pub mod store;
pub mod cleaner;
pub mod protocol;
pub mod aof;
pub mod laws;
pub mod clock;
