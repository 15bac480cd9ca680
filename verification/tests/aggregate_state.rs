use esrs::aggregate::Aggregate;
use esrs::manager::state_from_events;
use esrs::state::AggregateState;
use esrs::store::{StoreEvent, Timestamp};

#[derive(Debug)]
struct CounterError;

struct Counter;

impl Aggregate for Counter {
    const NAME: &'static str = "counter";
    type State = i64;
    type Command = i64;
    type Event = i64;
    type Error = CounterError;

    fn handle_command(_state: &i64, command: i64) -> Result<Vec<i64>, CounterError> {
        if command == 0 {
            Err(CounterError)
        } else {
            Ok(vec![command])
        }
    }

    fn apply_event(state: i64, payload: i64) -> i64 {
        state + payload
    }
}

fn store_event(sequence_number: i32, payload: i64) -> StoreEvent<i64> {
    StoreEvent { id: 1, aggregate_id: 7, payload, occurred_on: Timestamp { secs: 0, nanos: 0 }, sequence_number }
}

#[test]
fn apply_store_events_folds_in_order() {
    let state: AggregateState<i64> = AggregateState::new(7);
    let state = state.apply_store_events::<Counter>(vec![store_event(1, 5), store_event(2, -2)]);
    assert_eq!(state.inner, 3);
    assert_eq!(state.sequence_number, 2);
    assert_eq!(state.id, 7);
}

#[test]
fn load_without_events_is_none() {
    assert!(state_from_events::<Counter>(7, vec![]).is_none());
}

#[test]
fn apply_store_events_in_two_parts_is_applying_them_at_once() {
    let first = vec![store_event(1, 5), store_event(2, 4)];
    let then = vec![store_event(3, -1)];
    let all: Vec<StoreEvent<i64>> = first.iter().chain(then.iter()).cloned().collect();
    let stepwise = AggregateState::<i64>::new(7).apply_store_events::<Counter>(first).apply_store_events::<Counter>(then);
    let at_once = AggregateState::<i64>::new(7).apply_store_events::<Counter>(all);
    assert_eq!(stepwise.inner, at_once.inner);
    assert_eq!(stepwise.sequence_number, at_once.sequence_number);
    assert_eq!(stepwise.id, at_once.id);
}

#[test]
fn apply_no_store_event_keeps_the_state() {
    let state = AggregateState::<i64>::new(7).set_sequence_number(4);
    let state = state.apply_store_events::<Counter>(vec![]);
    assert_eq!(state.sequence_number, 4);
    assert_eq!(*state.inner(), 0);
}

#[test]
fn fresh_state_and_its_getters() {
    let state = AggregateState::<i64>::with_id(11);
    assert_eq!(*state.id(), 11);
    assert_eq!(*state.inner(), 0);
    assert_eq!(state.sequence_number(), 0);
    assert_eq!(state.next_sequence_number(), 1);
    let state = state.set_sequence_number(41);
    assert_eq!(state.next_sequence_number(), 42);
    assert_eq!(*state.id(), 11);
}

#[test]
fn load_replays_every_event() {
    let state = state_from_events::<Counter>(7, vec![store_event(1, 2), store_event(2, 3)]).unwrap();
    assert_eq!(state.id, 7);
    assert_eq!(state.inner, 5);
    assert_eq!(state.sequence_number, 2);
}

#[test]
fn handle_command_refuses_zero() {
    assert!(Counter::handle_command(&0, 0).is_err());
    assert_eq!(Counter::handle_command(&0, 3).unwrap(), vec![3]);
}

#[test]
fn reload_after_persist_continues_the_numbering() {
    let loaded_from = vec![store_event(1, 2), store_event(2, 3)];
    let loaded = AggregateState::<i64>::new(7).apply_store_events::<Counter>(loaded_from.clone());
    let persisted = esrs::store::prepare_store_events(7, vec![10i64, 20], loaded.next_sequence_number());
    let mut all = loaded_from;
    all.extend(persisted.iter().cloned());
    let reloaded = AggregateState::<i64>::new(7).apply_store_events::<Counter>(all);
    assert_eq!(reloaded.sequence_number, loaded.sequence_number + 2);
    assert_eq!(reloaded.inner, 35);
    assert_eq!(reloaded.id, 7);
}
