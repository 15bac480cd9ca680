//! The state of one aggregate instance, as rebuilt from its events.
use vstd::prelude::*;

use crate::aggregate::{replay, Aggregate};
use crate::store::{payloads, StoreEvent};
use crate::SequenceNumber;

verus! {

/// The state of an aggregate instance: its id, its inner (domain) state, and the
/// sequence number of the last event applied to it (0 when none was).
pub struct AggregateState<S> {
    pub id: u128,
    pub inner: S,
    pub sequence_number: SequenceNumber,
}

/// Applies the store events to a state in order: each one moves the inner state
/// through the aggregate's `apply_event` and sets the sequence number to its own.
pub open spec fn replay_store_events<A: Aggregate>(
    state: AggregateState<A::State>,
    events: Seq<StoreEvent<A::Event>>,
) -> AggregateState<A::State> {
    AggregateState {
        id: state.id,
        inner: replay::<A>(state.inner, payloads(events)),
        sequence_number: if events.len() == 0 {
            state.sequence_number
        } else {
            events.last().sequence_number
        },
    }
}

impl<S> AggregateState<S> {
    /// A fresh state for the aggregate instance `id`: the default inner state (what
    /// `S::default` returns), and no event applied yet.
    pub fn new(id: u128) -> (state: Self)
        where
            S: Default,
        ensures
            state.id == id,
            call_ensures(S::default, (), state.inner),
            state.sequence_number == 0,
    {
        AggregateState { id, inner: S::default(), sequence_number: 0 }
    }

    /// The same as `new`.
    pub fn with_id(id: u128) -> (state: Self)
        where
            S: Default,
        ensures
            state.id == id,
            call_ensures(S::default, (), state.inner),
            state.sequence_number == 0,
    {
        Self::new(id)
    }

    pub fn id(&self) -> (id: &u128)
        ensures
            *id == self.id,
    {
        &self.id
    }

    pub fn inner(&self) -> (inner: &S)
        ensures
            *inner == self.inner,
    {
        &self.inner
    }

    pub fn sequence_number(&self) -> (n: SequenceNumber)
        ensures
            n == self.sequence_number,
    {
        self.sequence_number
    }

    /// The sequence number that the next event of this instance will have.
    pub fn next_sequence_number(&self) -> (n: SequenceNumber)
        requires
            self.sequence_number < SequenceNumber::MAX,
        ensures
            n == self.sequence_number + 1,
    {
        self.sequence_number + 1
    }

    /// The same state with the given sequence number.
    pub fn set_sequence_number(self, sequence_number: SequenceNumber) -> (state: Self)
        ensures
            state.id == self.id,
            state.inner == self.inner,
            state.sequence_number == sequence_number,
    {
        AggregateState { sequence_number, ..self }
    }

    /// Applies the store events in their order, through `A::apply_event`; the sequence
    /// number becomes that of the last event.
    pub fn apply_store_events<A: Aggregate<State = S>>(
        self,
        store_events: Vec<StoreEvent<A::Event>>,
    ) -> (state: Self)
        ensures
            state == replay_store_events::<A>(self, store_events@),
    {
        let ghost start = self;
        let ghost all = store_events@;
        let mut state = self;
        for store_event in it: store_events.into_iter()
            invariant
                it.seq() == all,
                state == replay_store_events::<A>(start, all.take(it.index() as int)),
        {
            let ghost k = it.index();
            assert(store_event == all[k as int]);
            let inner = A::apply_event(state.inner, store_event.payload);
            state = AggregateState { id: state.id, inner, sequence_number: store_event.sequence_number };
            proof {
                let done = all.take(k as int);
                let next = all.take(k + 1);
                assert(next.drop_last() =~= done);
                assert(payloads(next).drop_last() =~= payloads(done));
            }
        }
        proof {
            assert(all.take(all.len() as int) =~= all);
        }
        state
    }
}

} // verus!

verus! {

/// Applying a stream of store events in two parts, one after the other, gives the same
/// state as applying the whole stream at once.
pub proof fn lemma_apply_store_events_concat<A: Aggregate>(
    state: AggregateState<A::State>,
    first: Seq<StoreEvent<A::Event>>,
    then: Seq<StoreEvent<A::Event>>,
)
    ensures
        replay_store_events::<A>(replay_store_events::<A>(state, first), then)
            == replay_store_events::<A>(state, first + then),
{
    crate::aggregate::lemma_replay_concat::<A>(state.inner, payloads(first), payloads(then));
    assert(payloads(first + then) =~= payloads(first) + payloads(then));
}

} // verus!

verus! {

/// Events persisted after a state was loaded, numbered on from its sequence number (as
/// `prepare_store_events` numbers them from `next_sequence_number`), reload to that
/// state with their payloads applied in order and the sequence number of the last one.
pub proof fn law_reload_after_persist<A: Aggregate>(
    fresh: AggregateState<A::State>,
    loaded_from: Seq<StoreEvent<A::Event>>,
    persisted: Seq<StoreEvent<A::Event>>,
)
    requires
        persisted.len() > 0,
        forall|i: int|
            0 <= i < persisted.len() ==> (#[trigger] persisted[i]).sequence_number == replay_store_events::<A>(
                fresh,
                loaded_from,
            ).sequence_number + 1 + i,
    ensures
        ({
            let loaded = replay_store_events::<A>(fresh, loaded_from);
            replay_store_events::<A>(fresh, loaded_from + persisted) == AggregateState {
                id: fresh.id,
                inner: replay::<A>(loaded.inner, payloads(persisted)),
                sequence_number: (loaded.sequence_number + persisted.len()) as SequenceNumber,
            }
        }),
{
    lemma_apply_store_events_concat::<A>(fresh, loaded_from, persisted);
    assert(persisted.last() == persisted[persisted.len() - 1]);
}

} // verus!

