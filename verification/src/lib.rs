//! A versioned key-value store in front of a transactional table.
//!
//! Every operation is one round trip to the table. The library decides what
//! is asked of the table ([`store`], [`calls`]) and what the table's reply
//! means for the caller; [`table`] states how the table answers, and [`laws`]
//! what follows for callers of the store.

pub mod types;
pub mod calls;
pub mod store;
pub mod table;
pub mod laws;
pub mod api;
