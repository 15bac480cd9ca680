//! The SQL statements of an aggregate's event table, named by the aggregate.
pub mod migrations;
pub mod statements;
