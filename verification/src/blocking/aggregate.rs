//! The synchronous aggregate: it keeps its state in memory, validates commands and
//! persists events through its event store.
use vstd::prelude::*;

use crate::blocking::store::EventStore;
use crate::state::AggregateState;
use crate::store::StoreEvent;

verus! {

/// Aggregate trait. It is used to keep the state in memory and to validate commands. It
/// also persists events.
pub trait Aggregate: Sized {
    type State: Default;
    type Command;
    type Event;
    type Error;
    /// The event store of the aggregate.
    type Store: EventStore<Self::Event, Self::Error>;

    /// The aggregate's name.
    fn name(&self) -> &'static str;

    /// The event store of the aggregate, as a value.
    closed spec fn store(&self) -> Self::Store {
        vstd::pervasive::arbitrary()
    }

    /// The event store configured for the aggregate.
    fn event_store(&self) -> (store: &Self::Store)
        ensures
            *store == self.store(),
    ;

    /// The state after `event` was applied to `state`.
    closed spec fn applied(state: AggregateState<Self::State>, event: StoreEvent<Self::Event>) -> AggregateState<
        Self::State,
    > {
        vstd::pervasive::arbitrary()
    }

    /// Whether the aggregate accepts `cmd` in the state `state`.
    closed spec fn accepts(state: AggregateState<Self::State>, cmd: Self::Command) -> bool {
        vstd::pervasive::arbitrary()
    }

    /// The error with which the aggregate refuses `cmd` in the state `state`.
    closed spec fn refusal(state: AggregateState<Self::State>, cmd: Self::Command) -> Self::Error {
        vstd::pervasive::arbitrary()
    }

    /// Whether `r` is a possible outcome of handling the validated command `cmd` in the
    /// state `state`. An aggregate that does not define it promises nothing of its outcomes.
    closed spec fn handles(
        &self,
        state: AggregateState<Self::State>,
        cmd: Self::Command,
        r: Result<StoreEvent<Self::Event>, Self::Error>,
    ) -> bool {
        true
    }

    /// Applies the event onto the aggregate state and returns the updated one.
    fn apply_event(aggregate_state: AggregateState<Self::State>, event: &StoreEvent<Self::Event>) -> (next:
        AggregateState<Self::State>)
        ensures
            next == Self::applied(aggregate_state, *event),
    ;

    /// Validates a command: `Ok` exactly when the aggregate accepts it, else its refusal.
    fn validate_command(aggregate_state: &AggregateState<Self::State>, cmd: &Self::Command) -> (r: Result<
        (),
        Self::Error,
    >)
        ensures
            r is Ok <==> Self::accepts(*aggregate_state, *cmd),
            r is Err ==> r == Err::<(), Self::Error>(Self::refusal(*aggregate_state, *cmd)),
    ;

    /// Handles a command that was validated, persisting its event.
    fn do_handle_command(&self, aggregate_state: &AggregateState<Self::State>, cmd: Self::Command) -> (r: Result<
        StoreEvent<Self::Event>,
        Self::Error,
    >)
        ensures
            self.handles(*aggregate_state, cmd, r),
    ;

    /// Validates the command and, when the aggregate accepts it, handles it. A command
    /// that the aggregate does not accept is refused with the validation error and
    /// handled not at all.
    fn handle_command(&self, aggregate_state: &AggregateState<Self::State>, cmd: Self::Command) -> (r: Result<
        StoreEvent<Self::Event>,
        Self::Error,
    >)
        ensures
            Self::accepts(*aggregate_state, cmd) ==> self.handles(*aggregate_state, cmd, r),
            !Self::accepts(*aggregate_state, cmd) ==> r == Err::<StoreEvent<Self::Event>, Self::Error>(
                Self::refusal(*aggregate_state, cmd),
            ),
    {
        match Self::validate_command(aggregate_state, &cmd) {
            Ok(()) => self.do_handle_command(aggregate_state, cmd),
            Err(e) => Err(e),
        }
    }

    /// Persists `event` for the aggregate instance of `aggregate_state`, with the
    /// sequence number that follows the state's.
    fn persist(&self, aggregate_state: &AggregateState<Self::State>, event: Self::Event) -> (r: Result<
        StoreEvent<Self::Event>,
        Self::Error,
    >)
        requires
            aggregate_state.sequence_number < crate::SequenceNumber::MAX,
        ensures
            self.store().answers(
                aggregate_state.id,
                event,
                (aggregate_state.sequence_number + 1) as crate::SequenceNumber,
                r,
            ),
    {
        let next = aggregate_state.next_sequence_number();
        self.event_store().persist(aggregate_state.id, event, next)
    }
}

/// The state reached by applying the events, in order, to `state`; before each event,
/// the state takes the event's sequence number.
pub open spec fn replay<A: Aggregate>(
    state: AggregateState<A::State>,
    events: Seq<StoreEvent<A::Event>>,
) -> AggregateState<A::State>
    decreases events.len(),
{
    if events.len() == 0 {
        state
    } else {
        let e = events.last();
        A::applied(
            AggregateState { sequence_number: e.sequence_number, ..replay::<A>(state, events.drop_last()) },
            e,
        )
    }
}

/// Applies the events in order; before each one, the state takes the event's
/// sequence number.
pub fn apply_events<A: Aggregate>(aggregate_state: AggregateState<A::State>, events: Vec<StoreEvent<A::Event>>) -> (state:
    AggregateState<A::State>)
    ensures
        state == replay::<A>(aggregate_state, events@),
{
    let ghost start = aggregate_state;
    let ghost all = events@;
    let mut state = aggregate_state;
    proof {
        assert(all.take(0) =~= Seq::<StoreEvent<A::Event>>::empty());
    }
    for event in it: events.iter()
        invariant
            it.seq() == all.map_values(|e: StoreEvent<A::Event>| &e),
            all == events@,
            state == replay::<A>(start, all.take(it.index() as int)),
    {
        let ghost k = it.index();
        proof {
            assert(all.take(k + 1).drop_last() =~= all.take(k as int));
            assert(*event == all[k as int]);
            assert(all.take(k + 1).last() == all[k as int]);
        }
        let numbered = state.set_sequence_number(event.sequence_number());
        state = A::apply_event(numbered, event);
    }
    proof {
        assert(all.take(all.len() as int) =~= all);
    }
    state
}

/// The state of the aggregate instance `aggregate_id` rebuilt from its events: none
/// when it has no event, else a fresh state with all of them applied.
pub fn state_from_events<A: Aggregate>(aggregate_id: u128, events: Vec<StoreEvent<A::Event>>) -> (r: Option<
    AggregateState<A::State>,
>)
    ensures
        r is None <==> events@.len() == 0,
        r matches Some(s) ==> exists|initial: A::State|
            call_ensures(A::State::default, (), initial) && s == replay::<A>(
                AggregateState { id: aggregate_id, inner: initial, sequence_number: 0 },
                events@,
            ),
{
    if events.len() == 0 {
        None
    } else {
        let fresh: AggregateState<A::State> = AggregateState::new(aggregate_id);
        let ghost initial = fresh.inner;
        proof {
            assert(fresh == AggregateState { id: aggregate_id, inner: initial, sequence_number: 0 });
        }
        Some(apply_events::<A>(fresh, events))
    }
}

/// Whether an outcome of reading the events of an instance gives nothing to load: the
/// read failed or found no event.
pub open spec fn nothing_read<E, F>(r: Result<Vec<StoreEvent<E>>, F>) -> bool {
    match r {
        Ok(events) => events@.len() == 0,
        Err(_) => true,
    }
}

/// Loads the aggregate instance `aggregate_id` from the event store: none when the
/// store fails or has no event of it, else a fresh state with the events it returned
/// applied in order.
pub fn load<A: Aggregate>(aggregate: &A, aggregate_id: u128) -> (r: Option<AggregateState<A::State>>)
    ensures
        r is None ==> exists|read: Result<Vec<StoreEvent<A::Event>>, A::Error>|
            aggregate.store().reads(aggregate_id, read) && nothing_read(read),
        r matches Some(s) ==> exists|events: Vec<StoreEvent<A::Event>>, initial: A::State|
            aggregate.store().reads(aggregate_id, Ok(events)) && events@.len() > 0
                && call_ensures(A::State::default, (), initial) && s == replay::<A>(
                AggregateState { id: aggregate_id, inner: initial, sequence_number: 0 },
                events@,
            ),
{
    let read = aggregate.event_store().by_aggregate_id(aggregate_id);
    let ghost outcome = read;
    match read {
        Ok(events) => {
            let ghost all = events;
            let r = state_from_events::<A>(aggregate_id, events);
            proof {
                assert(aggregate.store().reads(aggregate_id, Ok(all)));
                if r is None {
                    assert(nothing_read(outcome));
                }
            }
            r
        },
        Err(_) => {
            proof {
                assert(aggregate.store().reads(aggregate_id, outcome) && nothing_read(outcome));
            }
            None
        },
    }
}

/// Applying two streams of events one after the other gives the same state as applying
/// their concatenation.
pub proof fn law_replay_concat<A: Aggregate>(
    state: AggregateState<A::State>,
    first: Seq<StoreEvent<A::Event>>,
    then: Seq<StoreEvent<A::Event>>,
)
    ensures
        replay::<A>(replay::<A>(state, first), then) == replay::<A>(state, first + then),
    decreases then.len(),
{
    if then.len() == 0 {
        assert(first + then =~= first);
    } else {
        law_replay_concat::<A>(state, first, then.drop_last());
        assert((first + then).drop_last() =~= first + then.drop_last());
        assert((first + then).last() == then.last());
    }
}

} // verus!
