//! The aggregate: validates commands into events and folds events into its state.
use vstd::prelude::*;

verus! {

/// The Aggregate trait is responsible for validating commands, mapping commands to events,
/// and applying events onto the state.
///
/// An Aggregate derives its own state from nothing but its initial configuration and its
/// event stream: applying the same events, in the same order, to the same state always
/// yields an identical state. `applied` names that function; `apply_event` computes it.
pub trait Aggregate {
    /// The name of the aggregate type, unique among the aggregate types of an application.
    /// Its events live in the table `{NAME}_events`.
    const NAME: &'static str;

    /// Internal aggregate state.
    type State: Default;

    /// An action that the caller can execute over an aggregate to let it emit events.
    type Command;

    /// A fact that took place in the domain.
    type Event;

    /// A domain error raised while handling a command.
    type Error;

    /// The state after `payload` was applied to `state`.
    closed spec fn applied(state: Self::State, payload: Self::Event) -> Self::State {
        vstd::pervasive::arbitrary()
    }

    /// Handles and validates a command, and emits events.
    fn handle_command(state: &Self::State, command: Self::Command) -> Result<Vec<Self::Event>, Self::Error>;

    /// Updates the aggregate state with the new event.
    fn apply_event(state: Self::State, payload: Self::Event) -> (next: Self::State)
        ensures
            next == Self::applied(state, payload),
    ;
}

/// The state reached by applying the payloads, in order, to `state`.
pub open spec fn replay<A: Aggregate>(state: A::State, events: Seq<A::Event>) -> A::State {
    events.fold_left(state, |s: A::State, e: A::Event| A::applied(s, e))
}

} // verus!

verus! {

/// Replaying two streams one after the other reaches the same state as replaying
/// their concatenation: an aggregate's state depends on nothing but its events and
/// their order.
pub proof fn lemma_replay_concat<A: Aggregate>(state: A::State, first: Seq<A::Event>, then: Seq<A::Event>)
    ensures
        replay::<A>(replay::<A>(state, first), then) == replay::<A>(state, first + then),
{
    let all = first + then;
    let f = |s: A::State, e: A::Event| A::applied(s, e);
    all.lemma_fold_left_split(state, f, first.len() as int);
    assert(all.subrange(0, first.len() as int) =~= first);
    assert(all.subrange(first.len() as int, all.len() as int) =~= then);
}

} // verus!
