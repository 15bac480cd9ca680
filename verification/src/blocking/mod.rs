//! The synchronous aggregate and event store.
pub mod aggregate;
pub mod policy;
pub mod store;
