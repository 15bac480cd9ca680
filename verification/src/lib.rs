//! Event sourcing building blocks: aggregate state reconstruction, event store
//! bookkeeping, the SQL the Postgres store speaks, and the ordered work plans the
//! stores and rebuilders follow.
use vstd::prelude::*;

pub mod aggregate;
pub mod async_impl;
pub mod blocking;
pub mod bus;
pub mod flow;
mod ids;
pub mod manager;
pub mod state;
pub mod store;
pub mod text;
pub mod postgres;
pub mod rebuilder;
pub mod sql;
pub mod sqlite;

verus! {

/// Position of an event in the stream of one aggregate instance.
pub type SequenceNumber = i32;

} // verus!
