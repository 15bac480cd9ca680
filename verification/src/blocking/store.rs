//! The synchronous event store.
use vstd::prelude::*;

pub use crate::store::StoreEvent;
use crate::SequenceNumber;

verus! {

/// A synchronous event store: it reads and persists the events of aggregate instances.
///
/// What a store reads and what it answers to a persistence depend on what it holds, which
/// changes; `reads` and `answers` name the possible outcomes. A store that does not define
/// them promises nothing of its outcomes.
pub trait EventStore<Event, Error> {
    /// Whether `r` is a possible outcome of reading the events of the instance `id`.
    closed spec fn reads(&self, id: u128, r: Result<Vec<StoreEvent<Event>>, Error>) -> bool {
        true
    }

    /// Whether `r` is a possible outcome of persisting `event` for the instance
    /// `aggregate_id` with the sequence number `sequence_number`.
    closed spec fn answers(
        &self,
        aggregate_id: u128,
        event: Event,
        sequence_number: SequenceNumber,
        r: Result<StoreEvent<Event>, Error>,
    ) -> bool {
        true
    }

    /// The events of the aggregate instance `id`, in order of sequence number.
    fn by_aggregate_id(&self, id: u128) -> (r: Result<Vec<StoreEvent<Event>>, Error>)
        ensures
            self.reads(id, r),
    ;

    /// Persists `event` for the aggregate instance `aggregate_id` with the given sequence
    /// number, and returns the store event.
    fn persist(&self, aggregate_id: u128, event: Event, sequence_number: SequenceNumber) -> (r: Result<
        StoreEvent<Event>,
        Error,
    >)
        ensures
            self.answers(aggregate_id, event, sequence_number, r),
    ;

    /// Runs the projections of a store event again.
    fn rebuild_event(&self, store_event: &StoreEvent<Event>) -> Result<(), Error>;

    /// Closes the store.
    fn close(&self);
}

} // verus!
