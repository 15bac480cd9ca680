//! What the aggregate manager computes from the events its event store returns.
use vstd::prelude::*;

use crate::aggregate::Aggregate;
use crate::state::{replay_store_events, AggregateState};
use crate::store::StoreEvent;

verus! {

/// The state of the aggregate instance `aggregate_id` loaded from its store events, in
/// order of their sequence number: none when it has no event, else a fresh state with
/// every event applied.
pub fn state_from_events<A: Aggregate>(aggregate_id: u128, store_events: Vec<StoreEvent<A::Event>>) -> (r:
    Option<AggregateState<A::State>>)
    ensures
        r is None <==> store_events@.len() == 0,
        r matches Some(s) ==> exists|initial: A::State|
            call_ensures(A::State::default, (), initial) && s == replay_store_events::<A>(
                AggregateState { id: aggregate_id, inner: initial, sequence_number: 0 },
                store_events@,
            ),
{
    if store_events.len() == 0 {
        None
    } else {
        let aggregate_state: AggregateState<A::State> = AggregateState::with_id(aggregate_id);
        let ghost initial = aggregate_state.inner;
        proof {
            assert(aggregate_state == AggregateState { id: aggregate_id, inner: initial, sequence_number: 0 });
        }
        Some(aggregate_state.apply_store_events::<A>(store_events))
    }
}

} // verus!

verus! {

/// Two loads of the same events agree: when the aggregate's default state is always the
/// same, any two states that `state_from_events` may return for the same instance and
/// events are equal (an aggregate's state depends on nothing but its events).
pub proof fn law_loads_agree<A: Aggregate>(
    aggregate_id: u128,
    store_events: Seq<StoreEvent<A::Event>>,
    first: AggregateState<A::State>,
    second: AggregateState<A::State>,
)
    requires
        forall|a: A::State, b: A::State|
            call_ensures(A::State::default, (), a) && call_ensures(A::State::default, (), b) ==> a == b,
        exists|initial: A::State|
            call_ensures(A::State::default, (), initial) && first == replay_store_events::<A>(
                AggregateState { id: aggregate_id, inner: initial, sequence_number: 0 },
                store_events,
            ),
        exists|initial: A::State|
            call_ensures(A::State::default, (), initial) && second == replay_store_events::<A>(
                AggregateState { id: aggregate_id, inner: initial, sequence_number: 0 },
                store_events,
            ),
    ensures
        first == second,
{
    let i = choose|initial: A::State|
        call_ensures(A::State::default, (), initial) && first == replay_store_events::<A>(
            AggregateState { id: aggregate_id, inner: initial, sequence_number: 0 },
            store_events,
        );
    let j = choose|initial: A::State|
        call_ensures(A::State::default, (), initial) && second == replay_store_events::<A>(
            AggregateState { id: aggregate_id, inner: initial, sequence_number: 0 },
            store_events,
        );
    assert(i == j);
}

} // verus!
