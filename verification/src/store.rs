//! Events as the event store records them.
use vstd::prelude::*;

use crate::SequenceNumber;

verus! {

/// An instant in UTC: whole seconds since the UNIX epoch, and the nanoseconds within
/// that second.
#[derive(Clone, Copy, Debug, PartialEq, Eq, Structural)]
pub struct Timestamp {
    pub secs: i64,
    pub nanos: u32,
}

/// An event as it stands in the event store: the payload of the aggregate's event,
/// with its own id, the id of the aggregate instance it belongs to, the moment it was
/// recorded and its position in the stream of that aggregate instance.
///
/// Identifiers are the 128-bit values of their UUIDs.
#[derive(Clone, Debug)]
pub struct StoreEvent<Event> {
    pub id: u128,
    pub aggregate_id: u128,
    pub payload: Event,
    pub occurred_on: Timestamp,
    pub sequence_number: SequenceNumber,
}

impl<Event> StoreEvent<Event> {
    pub fn sequence_number(&self) -> (n: SequenceNumber)
        ensures
            n == self.sequence_number,
    {
        self.sequence_number
    }

    pub fn payload(&self) -> (p: &Event)
        ensures
            *p == self.payload,
    {
        &self.payload
    }
}

/// The payloads of a stream of store events, in order.
pub open spec fn payloads<Event>(events: Seq<StoreEvent<Event>>) -> Seq<Event> {
    events.map_values(|e: StoreEvent<Event>| e.payload)
}

} // verus!

verus! {

/// A new store event for `payload`, with a fresh id.
pub fn new_store_event<Event>(
    aggregate_id: u128,
    payload: Event,
    occurred_on: Timestamp,
    sequence_number: SequenceNumber,
) -> (store_event: StoreEvent<Event>)
    ensures
        store_event.aggregate_id == aggregate_id,
        store_event.payload == payload,
        store_event.occurred_on == occurred_on,
        store_event.sequence_number == sequence_number,
        fresh_id(store_event.id),
{
    let id = crate::ids::new_event_id();
    StoreEvent { id, aggregate_id, payload, occurred_on, sequence_number }
}

/// What holds of every id that the store hands out: a random UUID of version 4.
pub open spec fn fresh_id(id: u128) -> bool {
    &&& (id >> 76u128) & 0xfu128 == 4
    &&& (id >> 62u128) & 0x3u128 == 2
}

/// Whether a stream of `len` events numbered from `start` fits the sequence numbers.
pub open spec fn numbering_fits(start: SequenceNumber, len: nat) -> bool {
    len == 0 || start + len - 1 <= SequenceNumber::MAX
}

/// The store events of `events` for the aggregate instance `aggregate_id`, as a
/// persistence records them: in order, all at the same instant (now), numbered from
/// `starting_sequence_number` one by one, each with a fresh id.
pub fn prepare_store_events<Event>(
    aggregate_id: u128,
    events: Vec<Event>,
    starting_sequence_number: SequenceNumber,
) -> (store_events: Vec<StoreEvent<Event>>)
    requires
        numbering_fits(starting_sequence_number, events@.len()),
    ensures
        store_events@.len() == events@.len(),
        forall|i: int|
            0 <= i < events@.len() ==> {
                &&& (#[trigger] store_events@[i]).aggregate_id == aggregate_id
                &&& store_events@[i].payload == events@[i]
                &&& store_events@[i].sequence_number == starting_sequence_number + i
                &&& store_events@[i].occurred_on == store_events@[0].occurred_on
                &&& fresh_id(store_events@[i].id)
            },
{
    let occurred_on = crate::ids::now();
    let ghost all = events@;
    let n = events.len();
    let mut store_events: Vec<StoreEvent<Event>> = Vec::new();
    let mut sequence_number = starting_sequence_number;
    for event in it: events.into_iter()
        invariant
            it.seq() == all,
            n == all.len(),
            numbering_fits(starting_sequence_number, all.len()),
            store_events@.len() == it.index(),
            it.index() < all.len() ==> sequence_number == starting_sequence_number + it.index(),
            forall|i: int|
                0 <= i < it.index() ==> {
                    &&& (#[trigger] store_events@[i]).aggregate_id == aggregate_id
                    &&& store_events@[i].payload == all[i]
                    &&& store_events@[i].sequence_number == starting_sequence_number + i
                    &&& store_events@[i].occurred_on == occurred_on
                    &&& fresh_id(store_events@[i].id)
                },
    {
        store_events.push(new_store_event(aggregate_id, event, occurred_on, sequence_number));
        if store_events.len() < n {
            sequence_number = sequence_number + 1;
        }
    }
    store_events
}

} // verus!
