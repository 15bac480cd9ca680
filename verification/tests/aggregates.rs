use std::cell::RefCell;

use esrs::async_impl::aggregate as nonblocking;
use esrs::blocking::aggregate as blocking;
use esrs::blocking::store::EventStore;
use esrs::state::AggregateState;
use esrs::store::{StoreEvent, Timestamp};

fn event(aggregate_id: u128, sequence_number: i32, payload: i64) -> StoreEvent<i64> {
    StoreEvent { id: sequence_number as u128, aggregate_id, payload, occurred_on: Timestamp { secs: 0, nanos: 0 }, sequence_number }
}

#[derive(Debug, PartialEq)]
struct Refused;

/// Keeps a list of the payloads it saw, as `(instance, payload)` pairs.
struct Recorder;

impl nonblocking::Aggregate for Recorder {
    type State = Vec<(u128, i64)>;
    type Command = i64;
    type Event = i64;
    type Error = Refused;

    fn apply_event(id: &u128, mut state: Vec<(u128, i64)>, event: &StoreEvent<i64>) -> Vec<(u128, i64)> {
        state.push((*id, event.payload));
        state
    }

    fn validate_command(_state: &AggregateState<Vec<(u128, i64)>>, cmd: &i64) -> Result<(), Refused> {
        if *cmd > 0 {
            Ok(())
        } else {
            Err(Refused)
        }
    }
}

#[test]
fn async_apply_events_keeps_the_greatest_sequence_number() {
    let state: AggregateState<Vec<(u128, i64)>> = AggregateState::new(3);
    let state = nonblocking::apply_events::<Recorder>(state, vec![event(3, 2, 20), event(3, 5, 50), event(3, 4, 40)]);
    assert_eq!(state.id, 3);
    assert_eq!(state.inner, vec![(3, 20), (3, 50), (3, 40)]);
    assert_eq!(state.sequence_number, 5);
}

#[test]
fn async_apply_events_of_nothing_resets_the_sequence_number() {
    let state: AggregateState<Vec<(u128, i64)>> = AggregateState::new(3).set_sequence_number(7);
    let state = nonblocking::apply_events::<Recorder>(state, vec![]);
    assert_eq!(state.sequence_number, 0);
    assert!(state.inner.is_empty());
}

#[test]
fn async_apply_events_in_two_parts() {
    let first = vec![event(1, 1, 10), event(1, 2, 20)];
    let then = vec![event(1, 3, 30)];
    let all: Vec<StoreEvent<i64>> = first.iter().chain(then.iter()).cloned().collect();
    let fresh = || AggregateState::<Vec<(u128, i64)>>::new(1);
    let stepwise = nonblocking::apply_events::<Recorder>(nonblocking::apply_events::<Recorder>(fresh(), first), then);
    let at_once = nonblocking::apply_events::<Recorder>(fresh(), all);
    assert_eq!(stepwise.inner, at_once.inner);
    assert_eq!(stepwise.sequence_number, at_once.sequence_number);
}

#[test]
fn async_state_from_events() {
    assert!(nonblocking::state_from_events::<Recorder>(8, vec![]).is_none());
    let state = nonblocking::state_from_events::<Recorder>(8, vec![event(8, 1, 4), event(8, 2, 6)]).unwrap();
    assert_eq!(state.id, 8);
    assert_eq!(state.inner, vec![(8, 4), (8, 6)]);
    assert_eq!(state.sequence_number, 2);
}

#[test]
fn async_state_after_persist_moves_to_the_next_number() {
    let state: AggregateState<Vec<(u128, i64)>> = AggregateState::new(2).set_sequence_number(4);
    let state = nonblocking::state_after_persist::<Recorder>(state, &event(2, 5, 9));
    assert_eq!(state.sequence_number, 5);
    assert_eq!(state.inner, vec![(2, 9)]);
    assert_eq!(state.id, 2);
}

#[test]
fn async_validate_command() {
    let state: AggregateState<Vec<(u128, i64)>> = AggregateState::new(2);
    assert_eq!(<Recorder as nonblocking::Aggregate>::validate_command(&state, &1), Ok(()));
    assert_eq!(<Recorder as nonblocking::Aggregate>::validate_command(&state, &0), Err(Refused));
}

/// An event store in memory.
struct MemoryStore {
    events: RefCell<Vec<StoreEvent<i64>>>,
    broken: bool,
}

impl EventStore<i64, Refused> for MemoryStore {
    fn by_aggregate_id(&self, id: u128) -> Result<Vec<StoreEvent<i64>>, Refused> {
        if self.broken {
            return Err(Refused);
        }
        Ok(self.events.borrow().iter().filter(|e| e.aggregate_id == id).cloned().collect())
    }

    fn persist(&self, aggregate_id: u128, payload: i64, sequence_number: i32) -> Result<StoreEvent<i64>, Refused> {
        if self.broken {
            return Err(Refused);
        }
        let stored = event(aggregate_id, sequence_number, payload);
        self.events.borrow_mut().push(stored.clone());
        Ok(stored)
    }

    fn rebuild_event(&self, _store_event: &StoreEvent<i64>) -> Result<(), Refused> {
        Ok(())
    }

    fn close(&self) {}
}

/// A sum of the payloads, with the sequence numbers it saw.
struct Summer {
    store: MemoryStore,
}

impl blocking::Aggregate for Summer {
    type State = i64;
    type Command = i64;
    type Event = i64;
    type Error = Refused;
    type Store = MemoryStore;

    fn name(&self) -> &'static str {
        "summer"
    }

    fn event_store(&self) -> &MemoryStore {
        &self.store
    }

    fn apply_event(state: AggregateState<i64>, event: &StoreEvent<i64>) -> AggregateState<i64> {
        AggregateState { inner: state.inner + event.payload * 100 + state.sequence_number as i64, ..state }
    }

    fn validate_command(_state: &AggregateState<i64>, cmd: &i64) -> Result<(), Refused> {
        if *cmd != 0 {
            Ok(())
        } else {
            Err(Refused)
        }
    }

    fn do_handle_command(&self, state: &AggregateState<i64>, cmd: i64) -> Result<StoreEvent<i64>, Refused> {
        blocking::Aggregate::persist(self, state, cmd)
    }
}

fn summer(broken: bool) -> Summer {
    Summer { store: MemoryStore { events: RefCell::new(vec![]), broken } }
}

#[test]
fn blocking_apply_events_numbers_the_state_before_each_event() {
    let state: AggregateState<i64> = AggregateState::new(1);
    let state = blocking::apply_events::<Summer>(state, vec![event(1, 1, 1), event(1, 2, 2)]);
    // 1 * 100 + 1, then 2 * 100 + 2
    assert_eq!(state.inner, 303);
    assert_eq!(state.sequence_number, 2);
}

#[test]
fn blocking_handle_command_persists_with_the_next_number() {
    let aggregate = summer(false);
    let state: AggregateState<i64> = AggregateState::new(4).set_sequence_number(2);
    let stored = blocking::Aggregate::handle_command(&aggregate, &state, 5).unwrap();
    assert_eq!(stored.sequence_number, 3);
    assert_eq!(stored.aggregate_id, 4);
    assert_eq!(stored.payload, 5);
    assert_eq!(aggregate.store.events.borrow().len(), 1);
}

#[test]
fn blocking_handle_command_refuses_without_persisting() {
    let aggregate = summer(false);
    let state: AggregateState<i64> = AggregateState::new(4);
    assert!(matches!(blocking::Aggregate::handle_command(&aggregate, &state, 0), Err(Refused)));
    assert!(aggregate.store.events.borrow().is_empty());
}

#[test]
fn blocking_load() {
    let aggregate = summer(false);
    assert!(blocking::load(&aggregate, 4).is_none());
    let state: AggregateState<i64> = AggregateState::new(4);
    blocking::Aggregate::handle_command(&aggregate, &state, 2).unwrap();
    let loaded = blocking::load(&aggregate, 4).unwrap();
    assert_eq!(loaded.id, 4);
    assert_eq!(loaded.sequence_number, 1);
    assert_eq!(loaded.inner, 201);
    assert!(blocking::load(&summer(true), 4).is_none());
    assert!(blocking::state_from_events::<Summer>(4, vec![]).is_none());
}

#[test]
fn async_state_after_persist_is_what_a_reload_gives() {
    let previous = vec![event(6, 1, 1), event(6, 2, 2)];
    let stored = event(6, 3, 3);
    let loaded = nonblocking::apply_events::<Recorder>(AggregateState::new(6), previous.clone());
    let after = nonblocking::state_after_persist::<Recorder>(loaded, &stored);
    let mut all = previous;
    all.push(stored);
    let reloaded = nonblocking::apply_events::<Recorder>(AggregateState::new(6), all);
    assert_eq!(after.inner, reloaded.inner);
    assert_eq!(after.sequence_number, reloaded.sequence_number);
    assert_eq!(after.id, reloaded.id);
}
