//! The aggregate of the asynchronous API: what it computes between the calls to its
//! event store.
pub mod aggregate;
pub mod store;
