//! The aggregate of the asynchronous API. Its event store is asynchronous; what the
//! aggregate computes from what the store reads and returns stands here.
use vstd::prelude::*;

use crate::state::AggregateState;
use crate::store::StoreEvent;
use crate::SequenceNumber;

verus! {

/// Aggregate trait. It is used to keep the state in memory and to validate commands.
pub trait Aggregate: Sized {
    type State: Default;
    type Command;
    type Event;
    type Error;

    /// The inner state after the store event `event` of the instance `id` was applied to `state`.
    closed spec fn applied(id: u128, state: Self::State, event: StoreEvent<Self::Event>) -> Self::State {
        vstd::pervasive::arbitrary()
    }

    /// Whether the aggregate accepts `cmd` in the state `state`.
    closed spec fn accepts(state: AggregateState<Self::State>, cmd: Self::Command) -> bool {
        vstd::pervasive::arbitrary()
    }

    /// Applies the event onto the inner state of the instance `id` and returns the updated one.
    fn apply_event(id: &u128, state: Self::State, event: &StoreEvent<Self::Event>) -> (next: Self::State)
        ensures
            next == Self::applied(*id, state, *event),
    ;

    /// Validates a command: `Ok` exactly when the aggregate accepts it.
    fn validate_command(aggregate_state: &AggregateState<Self::State>, cmd: &Self::Command) -> (r: Result<
        (),
        Self::Error,
    >)
        ensures
            r is Ok <==> Self::accepts(*aggregate_state, *cmd),
    ;
}

/// The inner state reached by applying the store events, in order, to `state`.
pub open spec fn replay<A: Aggregate>(id: u128, state: A::State, events: Seq<StoreEvent<A::Event>>) -> A::State
    decreases events.len(),
{
    if events.len() == 0 {
        state
    } else {
        A::applied(id, replay::<A>(id, state, events.drop_last()), events.last())
    }
}

/// The greatest sequence number among the events, or 0 when it is greater than all of them.
pub open spec fn max_sequence_number<E>(events: Seq<StoreEvent<E>>) -> SequenceNumber
    decreases events.len(),
{
    if events.len() == 0 {
        0
    } else {
        let m = max_sequence_number(events.drop_last());
        if events.last().sequence_number > m {
            events.last().sequence_number
        } else {
            m
        }
    }
}

/// The state after the events: its instance is unchanged, its inner state has every
/// event applied, in order, and its sequence number is the greatest of the events' (0
/// when none is positive).
pub open spec fn replay_events<A: Aggregate>(
    state: AggregateState<A::State>,
    events: Seq<StoreEvent<A::Event>>,
) -> AggregateState<A::State> {
    AggregateState {
        id: state.id,
        inner: replay::<A>(state.id, state.inner, events),
        sequence_number: max_sequence_number(events),
    }
}

/// Applies the events onto the state, in order.
pub fn apply_events<A: Aggregate>(aggregate_state: AggregateState<A::State>, events: Vec<StoreEvent<A::Event>>) -> (state:
    AggregateState<A::State>)
    ensures
        state == replay_events::<A>(aggregate_state, events@),
{
    let ghost all = events@;
    let id = aggregate_state.id;
    let mut inner = aggregate_state.inner;
    let mut max_seq_number: SequenceNumber = 0;
    let ghost start = inner;
    proof {
        assert(all.take(0) =~= Seq::<StoreEvent<A::Event>>::empty());
    }
    for event in it: events.iter()
        invariant
            it.seq() == all.map_values(|e: StoreEvent<A::Event>| &e),
            all == events@,
            inner == replay::<A>(id, start, all.take(it.index() as int)),
            max_seq_number == max_sequence_number(all.take(it.index() as int)),
    {
        let ghost k = it.index();
        proof {
            assert(all.take(k + 1).drop_last() =~= all.take(k as int));
            assert(*event == all[k as int]);
            assert(all.take(k + 1).last() == all[k as int]);
        }
        if event.sequence_number() > max_seq_number {
            max_seq_number = event.sequence_number();
        }
        inner = A::apply_event(&id, inner, event);
    }
    proof {
        assert(all.take(all.len() as int) =~= all);
    }
    AggregateState { id, inner, sequence_number: max_seq_number }
}

/// The state of the aggregate instance `aggregate_id` loaded from its events: none when
/// it has no event, else a fresh state with all of them applied.
pub fn state_from_events<A: Aggregate>(aggregate_id: u128, events: Vec<StoreEvent<A::Event>>) -> (r: Option<
    AggregateState<A::State>,
>)
    ensures
        r is None <==> events@.len() == 0,
        r matches Some(s) ==> exists|initial: A::State|
            call_ensures(A::State::default, (), initial) && s == replay_events::<A>(
                AggregateState { id: aggregate_id, inner: initial, sequence_number: 0 },
                events@,
            ),
{
    if events.len() == 0 {
        None
    } else {
        let fresh: AggregateState<A::State> = AggregateState::new(aggregate_id);
        let ghost initial = fresh.inner;
        proof {
            assert(fresh == AggregateState { id: aggregate_id, inner: initial, sequence_number: 0 });
        }
        Some(apply_events::<A>(fresh, events))
    }
}

/// The state after `stored` was persisted as the event that follows `state`: the event
/// applied, and the sequence number that follows the state's.
pub open spec fn persisted_state<A: Aggregate>(
    state: AggregateState<A::State>,
    stored: StoreEvent<A::Event>,
) -> AggregateState<A::State> {
    AggregateState {
        id: state.id,
        inner: A::applied(state.id, state.inner, stored),
        sequence_number: (state.sequence_number + 1) as SequenceNumber,
    }
}

/// The state after the store persisted `stored`, the event that follows the state's: the
/// event applied, and the sequence number that follows the state's.
pub fn state_after_persist<A: Aggregate>(aggregate_state: AggregateState<A::State>, stored: &StoreEvent<A::Event>) -> (state:
    AggregateState<A::State>)
    requires
        aggregate_state.sequence_number < SequenceNumber::MAX,
    ensures
        state == persisted_state::<A>(aggregate_state, *stored),
{
    let next_sequence_number = aggregate_state.next_sequence_number();
    let id = aggregate_state.id;
    let inner = A::apply_event(&id, aggregate_state.inner, stored);
    AggregateState { id, inner, sequence_number: next_sequence_number }
}

} // verus!

verus! {

proof fn lemma_max_sequence_number_nonnegative<E>(events: Seq<StoreEvent<E>>)
    ensures
        max_sequence_number(events) >= 0,
    decreases events.len(),
{
    if events.len() > 0 {
        lemma_max_sequence_number_nonnegative(events.drop_last());
    }
}

proof fn lemma_max_sequence_number_concat<E>(first: Seq<StoreEvent<E>>, then: Seq<StoreEvent<E>>)
    ensures
        max_sequence_number(first + then) == if max_sequence_number(then) > max_sequence_number(first) {
            max_sequence_number(then)
        } else {
            max_sequence_number(first)
        },
    decreases then.len(),
{
    lemma_max_sequence_number_nonnegative(first);
    if then.len() == 0 {
        assert(first + then =~= first);
    } else {
        lemma_max_sequence_number_concat(first, then.drop_last());
        assert((first + then).drop_last() =~= first + then.drop_last());
        assert((first + then).last() == then.last());
    }
}

proof fn lemma_replay_concat<A: Aggregate>(
    id: u128,
    state: A::State,
    first: Seq<StoreEvent<A::Event>>,
    then: Seq<StoreEvent<A::Event>>,
)
    ensures
        replay::<A>(id, replay::<A>(id, state, first), then) == replay::<A>(id, state, first + then),
    decreases then.len(),
{
    if then.len() == 0 {
        assert(first + then =~= first);
    } else {
        lemma_replay_concat::<A>(id, state, first, then.drop_last());
        assert((first + then).drop_last() =~= first + then.drop_last());
        assert((first + then).last() == then.last());
    }
}

/// Applying events in two parts gives the same state as applying them at once, provided
/// the later part reaches a sequence number at least as great as the earlier part.
/// (Without that condition the sequence numbers differ: the state only keeps the greatest
/// number of the events applied last.)
pub proof fn law_apply_events_concat<A: Aggregate>(
    state: AggregateState<A::State>,
    first: Seq<StoreEvent<A::Event>>,
    then: Seq<StoreEvent<A::Event>>,
)
    requires
        max_sequence_number(first) <= max_sequence_number(then),
    ensures
        replay_events::<A>(replay_events::<A>(state, first), then) == replay_events::<A>(state, first + then),
{
    lemma_replay_concat::<A>(state.id, state.inner, first, then);
    lemma_max_sequence_number_concat(first, then);
}

} // verus!

verus! {

/// The state that a persistence leaves in memory is the state that loading the stream
/// again rebuilds: when `state` was rebuilt from `events` (whose greatest sequence number
/// is the state's) and the store persisted `stored` with the next sequence number,
/// applying `stored` to `state` gives what applying all the events, `stored` last, gives.
pub proof fn law_persisted_state_is_reloaded_state<A: Aggregate>(
    id: u128,
    initial: A::State,
    events: Seq<StoreEvent<A::Event>>,
    stored: StoreEvent<A::Event>,
)
    requires
        stored.sequence_number == max_sequence_number(events) + 1,
    ensures
        persisted_state::<A>(
            replay_events::<A>(AggregateState { id, inner: initial, sequence_number: 0 }, events),
            stored,
        ) == replay_events::<A>(AggregateState { id, inner: initial, sequence_number: 0 }, events.push(stored)),
{
    assert(events.push(stored).drop_last() =~= events);
    lemma_max_sequence_number_nonnegative(events);
}

} // verus!
