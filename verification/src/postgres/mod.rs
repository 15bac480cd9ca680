//! What the Postgres event store computes: its statements, its projector
//! persistence levels and the order in which it persists and deletes.
pub mod index;
pub mod projector;
pub mod setup;
pub mod statement;
pub mod store;
