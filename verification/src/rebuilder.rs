//! Rebuilding read sides from the events already stored: the order in which the event
//! handlers and buses replay them.
use vstd::prelude::*;

use vstd::string::*;

use crate::flow::Step;

verus! {

/// An action of a rebuild. Events are named by their position in the events being
/// replayed; handlers and buses by their position among those of the rebuilder.
#[derive(Clone, Copy, Debug, PartialEq, Eq)]
pub enum RebuildAction {
    /// The transactional event handler `handler` deletes its read side of the aggregate
    /// instance of event `event`, within the transaction.
    DeleteInTransaction { handler: usize, event: usize },
    /// The transactional event handler `handler` deletes its read side of the aggregate
    /// instance being rebuilt, within the transaction.
    DeleteInstanceInTransaction { handler: usize },
    /// The transactional event handler `handler` handles event `event`, within the transaction.
    HandleInTransaction { handler: usize, event: usize },
    /// Commit the transaction.
    Commit,
    /// The event handler `handler` deletes its read side of the aggregate instance of
    /// event `event`.
    Delete { handler: usize, event: usize },
    /// The event handler `handler` deletes its read side of the aggregate instance being
    /// rebuilt.
    DeleteInstance { handler: usize },
    /// The event handler `handler` handles event `event`.
    Handle { handler: usize, event: usize },
    /// The event bus `bus` publishes event `event`.
    Publish { bus: usize, event: usize },
}

pub open spec fn aborting(action: RebuildAction) -> Step<RebuildAction> {
    Step { action, aborts_on_failure: true }
}

pub open spec fn lenient(action: RebuildAction) -> Step<RebuildAction> {
    Step { action, aborts_on_failure: false }
}

// ---- Rebuilding all at once -------------------------------------------------------

/// For event `event`, each of the first `handlers` transactional event handlers in turn
/// deletes the read side of the event's instance and handles the event.
pub open spec fn transactional_replay_of(event: int, handlers: nat) -> Seq<Step<RebuildAction>>
    decreases handlers,
{
    if handlers == 0 {
        Seq::empty()
    } else {
        let j = (handlers - 1) as usize;
        transactional_replay_of(event, (handlers - 1) as nat) + seq![
            aborting(RebuildAction::DeleteInTransaction { handler: j, event: event as usize }),
            aborting(RebuildAction::HandleInTransaction { handler: j, event: event as usize }),
        ]
    }
}

/// The transactional replay of the first `events` events, in order.
pub open spec fn transactional_replay(events: nat, handlers: nat) -> Seq<Step<RebuildAction>>
    decreases events,
{
    if events == 0 {
        Seq::empty()
    } else {
        transactional_replay((events - 1) as nat, handlers) + transactional_replay_of(
            events - 1,
            handlers,
        )
    }
}

/// For event `event`, each of the first `handlers` event handlers in turn deletes the
/// read side of the event's instance and handles the event.
pub open spec fn replay_of(event: int, handlers: nat) -> Seq<Step<RebuildAction>>
    decreases handlers,
{
    if handlers == 0 {
        Seq::empty()
    } else {
        let j = (handlers - 1) as usize;
        replay_of(event, (handlers - 1) as nat) + seq![
            lenient(RebuildAction::Delete { handler: j, event: event as usize }),
            lenient(RebuildAction::Handle { handler: j, event: event as usize }),
        ]
    }
}

/// The bus `bus` publishes the first `events` events, in order.
pub open spec fn publications_on(bus: int, events: nat) -> Seq<Step<RebuildAction>>
    decreases events,
{
    if events == 0 {
        Seq::empty()
    } else {
        publications_on(bus, (events - 1) as nat).push(
            lenient(RebuildAction::Publish { bus: bus as usize, event: (events - 1) as usize }),
        )
    }
}

/// Each of the first `buses` buses in turn publishes all `events` events.
pub open spec fn publications(buses: nat, events: nat) -> Seq<Step<RebuildAction>>
    decreases buses,
{
    if buses == 0 {
        Seq::empty()
    } else {
        publications((buses - 1) as nat, events) + publications_on(buses - 1, events)
    }
}

/// For the first `done` of `events` events, in order: the event handlers replay it, then
/// every bus publishes all the events.
pub open spec fn replay_and_publish(done: nat, events: nat, handlers: nat, buses: nat) -> Seq<
    Step<RebuildAction>,
>
    decreases done,
{
    if done == 0 {
        Seq::empty()
    } else {
        replay_and_publish((done - 1) as nat, events, handlers, buses) + replay_of(done - 1, handlers)
            + publications(buses, events)
    }
}

/// How all read sides are rebuilt at once from the `events` stored events: in one
/// transaction, for every event in order, every transactional event handler deletes the
/// read side of the event's instance and handles the event, any failure aborting the
/// rebuild; then the commit; then, for every event in order, every event handler deletes
/// and handles, and every bus publishes all the events.
pub open spec fn all_at_once_plan_spec(events: nat, transactional_handlers: nat, handlers: nat, buses: nat) -> Seq<
    Step<RebuildAction>,
> {
    transactional_replay(events, transactional_handlers) + seq![aborting(RebuildAction::Commit)]
        + replay_and_publish(events, events, handlers, buses)
}

fn push_transactional_replay_of(plan: &mut Vec<Step<RebuildAction>>, event: usize, handlers: usize)
    ensures
        final(plan)@ == old(plan)@ + transactional_replay_of(event as int, handlers as nat),
{
    let ghost base = plan@;
    let mut j: usize = 0;
    while j < handlers
        invariant
            j <= handlers,
            plan@ == base + transactional_replay_of(event as int, j as nat),
        decreases handlers - j,
    {
        plan.push(Step { action: RebuildAction::DeleteInTransaction { handler: j, event }, aborts_on_failure: true });
        plan.push(Step { action: RebuildAction::HandleInTransaction { handler: j, event }, aborts_on_failure: true });
        proof {
            assert(plan@ =~= base + transactional_replay_of(event as int, (j + 1) as nat));
        }
        j = j + 1;
    }
}

fn push_replay_of(plan: &mut Vec<Step<RebuildAction>>, event: usize, handlers: usize)
    ensures
        final(plan)@ == old(plan)@ + replay_of(event as int, handlers as nat),
{
    let ghost base = plan@;
    let mut j: usize = 0;
    while j < handlers
        invariant
            j <= handlers,
            plan@ == base + replay_of(event as int, j as nat),
        decreases handlers - j,
    {
        plan.push(Step { action: RebuildAction::Delete { handler: j, event }, aborts_on_failure: false });
        plan.push(Step { action: RebuildAction::Handle { handler: j, event }, aborts_on_failure: false });
        proof {
            assert(plan@ =~= base + replay_of(event as int, (j + 1) as nat));
        }
        j = j + 1;
    }
}

fn push_publications(plan: &mut Vec<Step<RebuildAction>>, buses: usize, events: usize)
    ensures
        final(plan)@ == old(plan)@ + publications(buses as nat, events as nat),
{
    let ghost base = plan@;
    let mut k: usize = 0;
    while k < buses
        invariant
            k <= buses,
            plan@ == base + publications(k as nat, events as nat),
        decreases buses - k,
    {
        let ghost before = plan@;
        let mut e: usize = 0;
        while e < events
            invariant
                k < buses,
                e <= events,
                plan@ == before + publications_on(k as int, e as nat),
            decreases events - e,
        {
            plan.push(Step { action: RebuildAction::Publish { bus: k, event: e }, aborts_on_failure: false });
            proof {
                assert(plan@ =~= before + publications_on(k as int, (e + 1) as nat));
            }
            e = e + 1;
        }
        proof {
            assert(plan@ =~= base + publications((k + 1) as nat, events as nat));
        }
        k = k + 1;
    }
}

/// The plan that rebuilds all read sides at once from `events` events, with
/// `transactional_event_handlers` transactional event handlers, `event_handlers` event
/// handlers and `event_buses` buses.
pub fn all_at_once_plan(
    events: usize,
    transactional_event_handlers: usize,
    event_handlers: usize,
    event_buses: usize,
) -> (plan: Vec<Step<RebuildAction>>)
    ensures
        plan@ == all_at_once_plan_spec(
            events as nat,
            transactional_event_handlers as nat,
            event_handlers as nat,
            event_buses as nat,
        ),
{
    let mut plan: Vec<Step<RebuildAction>> = Vec::new();
    let mut i: usize = 0;
    while i < events
        invariant
            i <= events,
            plan@ == transactional_replay(i as nat, transactional_event_handlers as nat),
        decreases events - i,
    {
        push_transactional_replay_of(&mut plan, i, transactional_event_handlers);
        i = i + 1;
    }
    plan.push(Step { action: RebuildAction::Commit, aborts_on_failure: true });
    let ghost prefix = plan@;
    let mut i: usize = 0;
    while i < events
        invariant
            i <= events,
            plan@ == prefix + replay_and_publish(
                i as nat,
                events as nat,
                event_handlers as nat,
                event_buses as nat,
            ),
        decreases events - i,
    {
        push_replay_of(&mut plan, i, event_handlers);
        push_publications(&mut plan, event_buses, events);
        proof {
            assert(plan@ =~= prefix + replay_and_publish(
                (i + 1) as nat,
                events as nat,
                event_handlers as nat,
                event_buses as nat,
            ));
        }
        i = i + 1;
    }
    proof {
        assert(plan@ =~= all_at_once_plan_spec(
            events as nat,
            transactional_event_handlers as nat,
            event_handlers as nat,
            event_buses as nat,
        ));
    }
    plan
}

} // verus!

verus! {

// ---- Rebuilding one aggregate instance at a time --------------------------------------

/// The first `events` events of the instance, handled in order by the transactional
/// event handler `handler`.
pub open spec fn handled_in_transaction(handler: int, events: nat) -> Seq<Step<RebuildAction>>
    decreases events,
{
    if events == 0 {
        Seq::empty()
    } else {
        handled_in_transaction(handler, (events - 1) as nat).push(
            aborting(RebuildAction::HandleInTransaction { handler: handler as usize, event: (events - 1) as usize }),
        )
    }
}

/// The first `handlers` transactional event handlers in turn: each deletes its read side
/// of the instance, then handles its `events` events in order.
pub open spec fn instance_transactional_replay(handlers: nat, events: nat) -> Seq<Step<RebuildAction>>
    decreases handlers,
{
    if handlers == 0 {
        Seq::empty()
    } else {
        let j = handlers - 1;
        instance_transactional_replay((handlers - 1) as nat, events) + seq![
            aborting(RebuildAction::DeleteInstanceInTransaction { handler: j as usize }),
        ] + handled_in_transaction(j, events)
    }
}

/// The first `events` events of the instance, handled in order by the event handler `handler`.
pub open spec fn handled(handler: int, events: nat) -> Seq<Step<RebuildAction>>
    decreases events,
{
    if events == 0 {
        Seq::empty()
    } else {
        handled(handler, (events - 1) as nat).push(
            lenient(RebuildAction::Handle { handler: handler as usize, event: (events - 1) as usize }),
        )
    }
}

/// The first `handlers` event handlers in turn: each deletes its read side of the
/// instance, then handles its `events` events in order.
pub open spec fn instance_replay(handlers: nat, events: nat) -> Seq<Step<RebuildAction>>
    decreases handlers,
{
    if handlers == 0 {
        Seq::empty()
    } else {
        let j = handlers - 1;
        instance_replay((handlers - 1) as nat, events) + seq![
            lenient(RebuildAction::DeleteInstance { handler: j as usize }),
        ] + handled(j, events)
    }
}

/// How the read sides of one aggregate instance are rebuilt from its `events` events: in
/// one transaction every transactional event handler deletes its read side of the
/// instance and handles the events, any failure aborting the rebuild; then the commit;
/// then every event handler deletes its read side and handles the events; then every bus
/// publishes the events.
pub open spec fn instance_plan_spec(events: nat, transactional_handlers: nat, handlers: nat, buses: nat) -> Seq<
    Step<RebuildAction>,
> {
    instance_transactional_replay(transactional_handlers, events) + seq![aborting(RebuildAction::Commit)]
        + instance_replay(handlers, events) + publications(buses, events)
}

/// The plan that rebuilds the read sides of one aggregate instance from its `events`
/// events, with `transactional_event_handlers` transactional event handlers,
/// `event_handlers` event handlers and `event_buses` buses.
pub fn instance_plan(
    events: usize,
    transactional_event_handlers: usize,
    event_handlers: usize,
    event_buses: usize,
) -> (plan: Vec<Step<RebuildAction>>)
    ensures
        plan@ == instance_plan_spec(
            events as nat,
            transactional_event_handlers as nat,
            event_handlers as nat,
            event_buses as nat,
        ),
{
    let mut plan: Vec<Step<RebuildAction>> = Vec::new();
    let mut j: usize = 0;
    while j < transactional_event_handlers
        invariant
            j <= transactional_event_handlers,
            plan@ == instance_transactional_replay(j as nat, events as nat),
        decreases transactional_event_handlers - j,
    {
        let ghost before = plan@;
        plan.push(Step { action: RebuildAction::DeleteInstanceInTransaction { handler: j }, aborts_on_failure: true });
        let mut e: usize = 0;
        while e < events
            invariant
                j < transactional_event_handlers,
                e <= events,
                plan@ == before + seq![aborting(RebuildAction::DeleteInstanceInTransaction { handler: j })]
                    + handled_in_transaction(j as int, e as nat),
            decreases events - e,
        {
            plan.push(Step { action: RebuildAction::HandleInTransaction { handler: j, event: e }, aborts_on_failure: true });
            proof {
                assert(plan@ =~= before + seq![aborting(RebuildAction::DeleteInstanceInTransaction { handler: j })]
                    + handled_in_transaction(j as int, (e + 1) as nat));
            }
            e = e + 1;
        }
        proof {
            assert(plan@ =~= instance_transactional_replay((j + 1) as nat, events as nat));
        }
        j = j + 1;
    }
    plan.push(Step { action: RebuildAction::Commit, aborts_on_failure: true });
    let ghost prefix = plan@;
    let mut j: usize = 0;
    while j < event_handlers
        invariant
            j <= event_handlers,
            plan@ == prefix + instance_replay(j as nat, events as nat),
        decreases event_handlers - j,
    {
        let ghost before = plan@;
        plan.push(Step { action: RebuildAction::DeleteInstance { handler: j }, aborts_on_failure: false });
        let mut e: usize = 0;
        while e < events
            invariant
                j < event_handlers,
                e <= events,
                plan@ == before + seq![lenient(RebuildAction::DeleteInstance { handler: j })] + handled(
                    j as int,
                    e as nat,
                ),
            decreases events - e,
        {
            plan.push(Step { action: RebuildAction::Handle { handler: j, event: e }, aborts_on_failure: false });
            proof {
                assert(plan@ =~= before + seq![lenient(RebuildAction::DeleteInstance { handler: j })] + handled(
                    j as int,
                    (e + 1) as nat,
                ));
            }
            e = e + 1;
        }
        proof {
            assert(plan@ =~= prefix + instance_replay((j + 1) as nat, events as nat));
        }
        j = j + 1;
    }
    push_publications(&mut plan, event_buses, events);
    proof {
        assert(plan@ =~= instance_plan_spec(
            events as nat,
            transactional_event_handlers as nat,
            event_handlers as nat,
            event_buses as nat,
        ));
    }
    plan
}

} // verus!

verus! {

// ---- Laws ----------------------------------------------------------------------------

/// Every step of `steps` aborts its plan when it fails.
pub open spec fn all_abort(steps: Seq<Step<RebuildAction>>) -> bool {
    forall|k: int| 0 <= k < steps.len() ==> (#[trigger] steps[k]).aborts_on_failure
}

/// No step of `steps` aborts its plan when it fails.
pub open spec fn none_abort(steps: Seq<Step<RebuildAction>>) -> bool {
    forall|k: int| 0 <= k < steps.len() ==> !(#[trigger] steps[k]).aborts_on_failure
}

proof fn lemma_all_abort_concat(a: Seq<Step<RebuildAction>>, b: Seq<Step<RebuildAction>>)
    requires
        all_abort(a),
        all_abort(b),
    ensures
        all_abort(a + b),
{
    assert forall|k: int| 0 <= k < (a + b).len() implies (#[trigger] (a + b)[k]).aborts_on_failure by {
        if k >= a.len() {
            assert((a + b)[k] == b[k - a.len()]);
        }
    }
}

proof fn lemma_none_abort_concat(a: Seq<Step<RebuildAction>>, b: Seq<Step<RebuildAction>>)
    requires
        none_abort(a),
        none_abort(b),
    ensures
        none_abort(a + b),
{
    assert forall|k: int| 0 <= k < (a + b).len() implies !(#[trigger] (a + b)[k]).aborts_on_failure by {
        if k >= a.len() {
            assert((a + b)[k] == b[k - a.len()]);
        }
    }
}

proof fn lemma_transactional_replay_aborts(events: nat, handlers: nat)
    ensures
        all_abort(transactional_replay(events, handlers)),
    decreases events,
{
    if events > 0 {
        lemma_transactional_replay_aborts((events - 1) as nat, handlers);
        lemma_transactional_replay_of_aborts(events - 1, handlers);
        lemma_all_abort_concat(
            transactional_replay((events - 1) as nat, handlers),
            transactional_replay_of(events - 1, handlers),
        );
    }
}

proof fn lemma_transactional_replay_of_aborts(event: int, handlers: nat)
    ensures
        all_abort(transactional_replay_of(event, handlers)),
    decreases handlers,
{
    if handlers > 0 {
        lemma_transactional_replay_of_aborts(event, (handlers - 1) as nat);
        let j = (handlers - 1) as usize;
        lemma_all_abort_concat(
            transactional_replay_of(event, (handlers - 1) as nat),
            seq![
                aborting(RebuildAction::DeleteInTransaction { handler: j, event: event as usize }),
                aborting(RebuildAction::HandleInTransaction { handler: j, event: event as usize }),
            ],
        );
    }
}

proof fn lemma_replay_of_lenient(event: int, handlers: nat)
    ensures
        none_abort(replay_of(event, handlers)),
    decreases handlers,
{
    if handlers > 0 {
        lemma_replay_of_lenient(event, (handlers - 1) as nat);
        let j = (handlers - 1) as usize;
        lemma_none_abort_concat(
            replay_of(event, (handlers - 1) as nat),
            seq![
                lenient(RebuildAction::Delete { handler: j, event: event as usize }),
                lenient(RebuildAction::Handle { handler: j, event: event as usize }),
            ],
        );
    }
}

proof fn lemma_publications_on_lenient(bus: int, events: nat)
    ensures
        none_abort(publications_on(bus, events)),
    decreases events,
{
    if events > 0 {
        lemma_publications_on_lenient(bus, (events - 1) as nat);
    }
}

proof fn lemma_publications_lenient(buses: nat, events: nat)
    ensures
        none_abort(publications(buses, events)),
    decreases buses,
{
    if buses > 0 {
        lemma_publications_lenient((buses - 1) as nat, events);
        lemma_publications_on_lenient(buses - 1, events);
        lemma_none_abort_concat(publications((buses - 1) as nat, events), publications_on(buses - 1, events));
    }
}

proof fn lemma_replay_and_publish_lenient(done: nat, events: nat, handlers: nat, buses: nat)
    ensures
        none_abort(replay_and_publish(done, events, handlers, buses)),
    decreases done,
{
    if done > 0 {
        lemma_replay_and_publish_lenient((done - 1) as nat, events, handlers, buses);
        lemma_replay_of_lenient(done - 1, handlers);
        lemma_publications_lenient(buses, events);
        lemma_none_abort_concat(
            replay_and_publish((done - 1) as nat, events, handlers, buses),
            replay_of(done - 1, handlers),
        );
        lemma_none_abort_concat(
            replay_and_publish((done - 1) as nat, events, handlers, buses) + replay_of(done - 1, handlers),
            publications(buses, events),
        );
    }
}

proof fn lemma_handled_in_transaction_aborts(handler: int, events: nat)
    ensures
        all_abort(handled_in_transaction(handler, events)),
    decreases events,
{
    if events > 0 {
        lemma_handled_in_transaction_aborts(handler, (events - 1) as nat);
    }
}

proof fn lemma_instance_transactional_replay_aborts(handlers: nat, events: nat)
    ensures
        all_abort(instance_transactional_replay(handlers, events)),
    decreases handlers,
{
    if handlers > 0 {
        let j = handlers - 1;
        lemma_instance_transactional_replay_aborts((handlers - 1) as nat, events);
        lemma_handled_in_transaction_aborts(j, events);
        let head = instance_transactional_replay((handlers - 1) as nat, events) + seq![
            aborting(RebuildAction::DeleteInstanceInTransaction { handler: j as usize }),
        ];
        lemma_all_abort_concat(
            instance_transactional_replay((handlers - 1) as nat, events),
            seq![aborting(RebuildAction::DeleteInstanceInTransaction { handler: j as usize })],
        );
        lemma_all_abort_concat(head, handled_in_transaction(j, events));
    }
}

proof fn lemma_handled_lenient(handler: int, events: nat)
    ensures
        none_abort(handled(handler, events)),
    decreases events,
{
    if events > 0 {
        lemma_handled_lenient(handler, (events - 1) as nat);
    }
}

proof fn lemma_instance_replay_lenient(handlers: nat, events: nat)
    ensures
        none_abort(instance_replay(handlers, events)),
    decreases handlers,
{
    if handlers > 0 {
        let j = handlers - 1;
        lemma_instance_replay_lenient((handlers - 1) as nat, events);
        lemma_handled_lenient(j, events);
        let head = instance_replay((handlers - 1) as nat, events) + seq![
            lenient(RebuildAction::DeleteInstance { handler: j as usize }),
        ];
        lemma_none_abort_concat(
            instance_replay((handlers - 1) as nat, events),
            seq![lenient(RebuildAction::DeleteInstance { handler: j as usize })],
        );
        lemma_none_abort_concat(head, handled(j, events));
    }
}

/// A rebuild of all read sides at once is transactional: everything before its commit
/// aborts the rebuild when it fails, the commit too, and nothing after the commit does
/// (event handlers and buses handle their own failures).
pub proof fn law_all_at_once_transactional(events: nat, transactional_handlers: nat, handlers: nat, buses: nat)
    ensures
        ({
            let before = transactional_replay(events, transactional_handlers);
            let after = replay_and_publish(events, events, handlers, buses);
            &&& all_at_once_plan_spec(events, transactional_handlers, handlers, buses) == before
                + seq![aborting(RebuildAction::Commit)] + after
            &&& all_abort(before)
            &&& none_abort(after)
        }),
{
    lemma_transactional_replay_aborts(events, transactional_handlers);
    lemma_replay_and_publish_lenient(events, events, handlers, buses);
}

/// The rebuild of one aggregate instance is transactional in the same way.
pub proof fn law_instance_rebuild_transactional(events: nat, transactional_handlers: nat, handlers: nat, buses: nat)
    ensures
        ({
            let before = instance_transactional_replay(transactional_handlers, events);
            let after = instance_replay(handlers, events) + publications(buses, events);
            &&& instance_plan_spec(events, transactional_handlers, handlers, buses) == before
                + seq![aborting(RebuildAction::Commit)] + after
            &&& all_abort(before)
            &&& none_abort(after)
        }),
{
    lemma_instance_transactional_replay_aborts(transactional_handlers, events);
    lemma_instance_replay_lenient(handlers, events);
    lemma_publications_lenient(buses, events);
    lemma_none_abort_concat(instance_replay(handlers, events), publications(buses, events));
    let before = instance_transactional_replay(transactional_handlers, events);
    assert(instance_plan_spec(events, transactional_handlers, handlers, buses) =~= before + seq![
        aborting(RebuildAction::Commit),
    ] + (instance_replay(handlers, events) + publications(buses, events)));
}

} // verus!

verus! {

/// The query of the distinct aggregate instances of an event table.
pub open spec fn aggregate_ids_sql(table: Seq<char>) -> Seq<char> {
    "SELECT DISTINCT(aggregate_id) FROM "@ + table
}

/// The statement that lists the distinct aggregate instances of the event table `table`.
pub fn aggregate_ids_statement(table: &str) -> (s: String)
    ensures
        s@ == aggregate_ids_sql(table@),
{
    String::from_str("SELECT DISTINCT(aggregate_id) FROM ").concat(table)
}

} // verus!

verus! {

// ---- Positions -----------------------------------------------------------------------

proof fn lemma_transactional_replay_of_positions(event: int, handlers: nat)
    ensures
        transactional_replay_of(event, handlers).len() == 2 * handlers,
        forall|r: int|
            0 <= r < 2 * handlers ==> #[trigger] transactional_replay_of(event, handlers)[r] == aborting(
                if r % 2 == 0 {
                    RebuildAction::DeleteInTransaction { handler: (r / 2) as usize, event: event as usize }
                } else {
                    RebuildAction::HandleInTransaction { handler: (r / 2) as usize, event: event as usize }
                },
            ),
    decreases handlers,
{
    if handlers > 0 {
        let m = (handlers - 1) as nat;
        lemma_transactional_replay_of_positions(event, m);
        assert forall|r: int| 0 <= r < 2 * handlers implies #[trigger] transactional_replay_of(event, handlers)[r]
            == aborting(
            if r % 2 == 0 {
                RebuildAction::DeleteInTransaction { handler: (r / 2) as usize, event: event as usize }
            } else {
                RebuildAction::HandleInTransaction { handler: (r / 2) as usize, event: event as usize }
            },
        ) by {
            if r < 2 * m {
                assert(transactional_replay_of(event, handlers)[r] == transactional_replay_of(event, m)[r]);
            } else {
                crate::flow::lemma_position_in_block(r, 2, m as int);
            }
        }
    }
}

proof fn lemma_replay_of_positions(event: int, handlers: nat)
    ensures
        replay_of(event, handlers).len() == 2 * handlers,
        forall|r: int|
            0 <= r < 2 * handlers ==> #[trigger] replay_of(event, handlers)[r] == lenient(
                if r % 2 == 0 {
                    RebuildAction::Delete { handler: (r / 2) as usize, event: event as usize }
                } else {
                    RebuildAction::Handle { handler: (r / 2) as usize, event: event as usize }
                },
            ),
    decreases handlers,
{
    if handlers > 0 {
        let m = (handlers - 1) as nat;
        lemma_replay_of_positions(event, m);
        assert forall|r: int| 0 <= r < 2 * handlers implies #[trigger] replay_of(event, handlers)[r] == lenient(
            if r % 2 == 0 {
                RebuildAction::Delete { handler: (r / 2) as usize, event: event as usize }
            } else {
                RebuildAction::Handle { handler: (r / 2) as usize, event: event as usize }
            },
        ) by {
            if r < 2 * m {
                assert(replay_of(event, handlers)[r] == replay_of(event, m)[r]);
            } else {
                crate::flow::lemma_position_in_block(r, 2, m as int);
            }
        }
    }
}

proof fn lemma_publications_on_positions(bus: int, events: nat)
    ensures
        publications_on(bus, events).len() == events,
        forall|e: int|
            0 <= e < events ==> #[trigger] publications_on(bus, events)[e] == lenient(
                RebuildAction::Publish { bus: bus as usize, event: e as usize },
            ),
    decreases events,
{
    if events > 0 {
        lemma_publications_on_positions(bus, (events - 1) as nat);
    }
}

proof fn lemma_handled_in_transaction_positions(handler: int, events: nat)
    ensures
        handled_in_transaction(handler, events).len() == events,
        forall|e: int|
            0 <= e < events ==> #[trigger] handled_in_transaction(handler, events)[e] == aborting(
                RebuildAction::HandleInTransaction { handler: handler as usize, event: e as usize },
            ),
    decreases events,
{
    if events > 0 {
        lemma_handled_in_transaction_positions(handler, (events - 1) as nat);
    }
}

proof fn lemma_handled_positions(handler: int, events: nat)
    ensures
        handled(handler, events).len() == events,
        forall|e: int|
            0 <= e < events ==> #[trigger] handled(handler, events)[e] == lenient(
                RebuildAction::Handle { handler: handler as usize, event: e as usize },
            ),
    decreases events,
{
    if events > 0 {
        lemma_handled_positions(handler, (events - 1) as nat);
    }
}

proof fn lemma_transactional_replay_is_blocks(events: nat, handlers: nat)
    ensures
        transactional_replay(events, handlers) == crate::flow::blocks(
            events,
            |i: int| transactional_replay_of(i, handlers),
        ),
    decreases events,
{
    if events > 0 {
        lemma_transactional_replay_is_blocks((events - 1) as nat, handlers);
    }
}

proof fn lemma_publications_is_blocks(buses: nat, events: nat)
    ensures
        publications(buses, events) == crate::flow::blocks(buses, |b: int| publications_on(b, events)),
    decreases buses,
{
    if buses > 0 {
        lemma_publications_is_blocks((buses - 1) as nat, events);
    }
}

proof fn lemma_replay_and_publish_is_blocks(done: nat, events: nat, handlers: nat, buses: nat)
    ensures
        replay_and_publish(done, events, handlers, buses) == crate::flow::blocks(
            done,
            |i: int| replay_of(i, handlers) + publications(buses, events),
        ),
    decreases done,
{
    if done > 0 {
        lemma_replay_and_publish_is_blocks((done - 1) as nat, events, handlers, buses);
        let prev = replay_and_publish((done - 1) as nat, events, handlers, buses);
        assert(prev + replay_of(done - 1, handlers) + publications(buses, events) =~= prev + (replay_of(
            done - 1,
            handlers,
        ) + publications(buses, events)));
    }
}

proof fn lemma_instance_transactional_replay_is_blocks(handlers: nat, events: nat)
    ensures
        instance_transactional_replay(handlers, events) == crate::flow::blocks(
            handlers,
            |j: int|
                seq![aborting(RebuildAction::DeleteInstanceInTransaction { handler: j as usize })]
                    + handled_in_transaction(j, events),
        ),
    decreases handlers,
{
    if handlers > 0 {
        let j = handlers - 1;
        lemma_instance_transactional_replay_is_blocks((handlers - 1) as nat, events);
        let prev = instance_transactional_replay((handlers - 1) as nat, events);
        assert(prev + seq![aborting(RebuildAction::DeleteInstanceInTransaction { handler: j as usize })]
            + handled_in_transaction(j, events) =~= prev + (seq![
            aborting(RebuildAction::DeleteInstanceInTransaction { handler: j as usize }),
        ] + handled_in_transaction(j, events)));
    }
}

proof fn lemma_instance_replay_is_blocks(handlers: nat, events: nat)
    ensures
        instance_replay(handlers, events) == crate::flow::blocks(
            handlers,
            |j: int| seq![lenient(RebuildAction::DeleteInstance { handler: j as usize })] + handled(j, events),
        ),
    decreases handlers,
{
    if handlers > 0 {
        let j = handlers - 1;
        lemma_instance_replay_is_blocks((handlers - 1) as nat, events);
        let prev = instance_replay((handlers - 1) as nat, events);
        assert(prev + seq![lenient(RebuildAction::DeleteInstance { handler: j as usize })] + handled(j, events)
            =~= prev + (seq![lenient(RebuildAction::DeleteInstance { handler: j as usize })] + handled(j, events)));
    }
}

/// The publications of `events` events on `buses` buses: bus `q / events` publishes
/// event `q % events` at position `q`.
proof fn lemma_publications_positions(buses: nat, events: nat)
    ensures
        publications(buses, events).len() == buses * events,
        forall|q: int|
            0 <= q < buses * events ==> #[trigger] publications(buses, events)[q] == lenient(
                RebuildAction::Publish {
                    bus: (q / (events as int)) as usize,
                    event: (q % (events as int)) as usize,
                },
            ),
{
    let pb = |b: int| publications_on(b, events);
    lemma_publications_is_blocks(buses, events);
    assert forall|b: int| 0 <= b < buses implies #[trigger] pb(b).len() == events by {
        lemma_publications_on_positions(b, events);
    }
    crate::flow::lemma_blocks(buses, events, pb);
    assert forall|q: int| 0 <= q < buses * events implies #[trigger] publications(buses, events)[q] == lenient(
        RebuildAction::Publish { bus: (q / (events as int)) as usize, event: (q % (events as int)) as usize },
    ) by {
        crate::flow::lemma_block_of(q, buses, events);
        lemma_publications_on_positions(q / (events as int), events);
    }
}

} // verus!

verus! {

/// Rebuilding all read sides at once, step by step. With `t` transactional handlers, the
/// first `events * 2t` steps are, for event `k / 2t`, transactional handler `(k % 2t) / 2`
/// deleting the read side of the event's instance (even `k % 2t`) and then handling the
/// event (odd), all aborting; so every transactional handler rebuilds from every event,
/// events in order. Then the commit. Then, for each event `i` in order, a block of
/// `2 * handlers + buses * events` steps: event handler `r / 2` deletes (even `r`) and
/// handles (odd `r`) event `i`, then bus `q / events` publishes event `q % events`, where
/// `r` is the offset in the block and `q = r - 2 * handlers`; none of these aborts.
pub proof fn law_all_at_once_plan_positions(events: nat, transactional_handlers: nat, handlers: nat, buses: nat)
    ensures
        ({
            let plan = all_at_once_plan_spec(events, transactional_handlers, handlers, buses);
            let tp = 2 * (transactional_handlers as int);
            let c = (events as int) * tp;
            let h2 = 2 * (handlers as int);
            let size = h2 + (buses as int) * (events as int);
            &&& plan.len() == c + 1 + (events as int) * size
            &&& forall|k: int|
                0 <= k < c ==> #[trigger] plan[k] == aborting(
                    if (k % tp) % 2 == 0 {
                        RebuildAction::DeleteInTransaction {
                            handler: ((k % tp) / 2) as usize,
                            event: (k / tp) as usize,
                        }
                    } else {
                        RebuildAction::HandleInTransaction {
                            handler: ((k % tp) / 2) as usize,
                            event: (k / tp) as usize,
                        }
                    },
                )
            &&& plan[c] == aborting(RebuildAction::Commit)
            &&& forall|k: int|
                c < k < plan.len() ==> #[trigger] plan[k] == ({
                    let i = (k - c - 1) / size;
                    let r = (k - c - 1) % size;
                    if r < h2 {
                        lenient(
                            if r % 2 == 0 {
                                RebuildAction::Delete { handler: (r / 2) as usize, event: i as usize }
                            } else {
                                RebuildAction::Handle { handler: (r / 2) as usize, event: i as usize }
                            },
                        )
                    } else {
                        lenient(
                            RebuildAction::Publish {
                                bus: ((r - h2) / (events as int)) as usize,
                                event: ((r - h2) % (events as int)) as usize,
                            },
                        )
                    }
                })
        }),
{
    let n = events;
    let t = transactional_handlers;
    let h = handlers;
    let plan = all_at_once_plan_spec(n, t, h, buses);
    let tp = 2 * (t as int);
    let c = (n as int) * tp;
    let h2 = 2 * (h as int);
    let size = h2 + (buses as int) * (n as int);
    let tb = |i: int| transactional_replay_of(i, t);
    let rb = |i: int| replay_of(i, h) + publications(buses, n);
    lemma_transactional_replay_is_blocks(n, t);
    lemma_replay_and_publish_is_blocks(n, n, h, buses);
    lemma_publications_positions(buses, n);
    assert forall|i: int| 0 <= i < n implies #[trigger] tb(i).len() == 2 * t by {
        lemma_transactional_replay_of_positions(i, t);
    }
    assert forall|i: int| 0 <= i < n implies #[trigger] rb(i).len() == size by {
        lemma_replay_of_positions(i, h);
    }
    crate::flow::lemma_blocks(n, (2 * t) as nat, tb);
    crate::flow::lemma_blocks(n, size as nat, rb);
    let before = transactional_replay(n, t);
    let after = replay_and_publish(n, n, h, buses);
    assert(before.len() == c);
    assert forall|k: int| 0 <= k < c implies #[trigger] plan[k] == aborting(
        if (k % tp) % 2 == 0 {
            RebuildAction::DeleteInTransaction { handler: ((k % tp) / 2) as usize, event: (k / tp) as usize }
        } else {
            RebuildAction::HandleInTransaction { handler: ((k % tp) / 2) as usize, event: (k / tp) as usize }
        },
    ) by {
        assert(plan[k] == before[k]);
        crate::flow::lemma_block_of(k, n, (2 * t) as nat);
        lemma_transactional_replay_of_positions(k / tp, t);
    }
    assert forall|k: int| c < k < plan.len() implies #[trigger] plan[k] == ({
        let i = (k - c - 1) / size;
        let r = (k - c - 1) % size;
        if r < h2 {
            lenient(
                if r % 2 == 0 {
                    RebuildAction::Delete { handler: (r / 2) as usize, event: i as usize }
                } else {
                    RebuildAction::Handle { handler: (r / 2) as usize, event: i as usize }
                },
            )
        } else {
            lenient(
                RebuildAction::Publish {
                    bus: ((r - h2) / (n as int)) as usize,
                    event: ((r - h2) % (n as int)) as usize,
                },
            )
        }
    }) by {
        let k2 = k - c - 1;
        assert(plan[k] == after[k2]);
        crate::flow::lemma_block_of(k2, n, size as nat);
        let i = k2 / size;
        let r = k2 % size;
        assert(after[k2] == rb(i)[r]);
        lemma_replay_of_positions(i, h);
        if r >= h2 {
            assert(rb(i)[r] == publications(buses, n)[r - h2]);
        }
    }
}

/// Rebuilding the read sides of one aggregate instance, step by step, with `E` events and
/// blocks of `E + 1` steps. First, for each transactional handler `j` in order, a block:
/// `j` deletes its read side of the instance, then handles event `e` at offset `e + 1`;
/// all aborting. Then the commit. Then, for each event handler `j` in order, a block: `j`
/// deletes its read side, then handles event `e` at offset `e + 1`. Then bus `q / E`
/// publishes event `q % E` at offset `q`. Nothing after the commit aborts. So each handler
/// handles every event of the instance, in order, right after deleting its own read side.
pub proof fn law_instance_plan_positions(events: nat, transactional_handlers: nat, handlers: nat, buses: nat)
    ensures
        ({
            let plan = instance_plan_spec(events, transactional_handlers, handlers, buses);
            let e1 = (events as int) + 1;
            let c = (transactional_handlers as int) * e1;
            let p = c + 1 + (handlers as int) * e1;
            &&& plan.len() == p + (buses as int) * (events as int)
            &&& forall|k: int|
                0 <= k < c ==> #[trigger] plan[k] == aborting(
                    if k % e1 == 0 {
                        RebuildAction::DeleteInstanceInTransaction { handler: (k / e1) as usize }
                    } else {
                        RebuildAction::HandleInTransaction {
                            handler: (k / e1) as usize,
                            event: (k % e1 - 1) as usize,
                        }
                    },
                )
            &&& plan[c] == aborting(RebuildAction::Commit)
            &&& forall|k: int|
                c < k < p ==> #[trigger] plan[k] == lenient(
                    if (k - c - 1) % e1 == 0 {
                        RebuildAction::DeleteInstance { handler: ((k - c - 1) / e1) as usize }
                    } else {
                        RebuildAction::Handle {
                            handler: ((k - c - 1) / e1) as usize,
                            event: ((k - c - 1) % e1 - 1) as usize,
                        }
                    },
                )
            &&& forall|k: int|
                p <= k < plan.len() ==> #[trigger] plan[k] == lenient(
                    RebuildAction::Publish {
                        bus: ((k - p) / (events as int)) as usize,
                        event: ((k - p) % (events as int)) as usize,
                    },
                )
        }),
{
    let n = events;
    let t = transactional_handlers;
    let h = handlers;
    let plan = instance_plan_spec(n, t, h, buses);
    let e1 = (n as int) + 1;
    let c = (t as int) * e1;
    let p = c + 1 + (h as int) * e1;
    let tb = |j: int|
        seq![aborting(RebuildAction::DeleteInstanceInTransaction { handler: j as usize })]
            + handled_in_transaction(j, n);
    let hb = |j: int| seq![lenient(RebuildAction::DeleteInstance { handler: j as usize })] + handled(j, n);
    lemma_instance_transactional_replay_is_blocks(t, n);
    lemma_instance_replay_is_blocks(h, n);
    lemma_publications_positions(buses, n);
    assert forall|j: int| 0 <= j < t implies #[trigger] tb(j).len() == n + 1 by {
        lemma_handled_in_transaction_positions(j, n);
    }
    assert forall|j: int| 0 <= j < h implies #[trigger] hb(j).len() == n + 1 by {
        lemma_handled_positions(j, n);
    }
    crate::flow::lemma_blocks(t, (n + 1) as nat, tb);
    crate::flow::lemma_blocks(h, (n + 1) as nat, hb);
    let before = instance_transactional_replay(t, n);
    let after = instance_replay(h, n);
    let pubs = publications(buses, n);
    assert(plan =~= before + seq![aborting(RebuildAction::Commit)] + after + pubs);
    assert forall|k: int| 0 <= k < c implies #[trigger] plan[k] == aborting(
        if k % e1 == 0 {
            RebuildAction::DeleteInstanceInTransaction { handler: (k / e1) as usize }
        } else {
            RebuildAction::HandleInTransaction { handler: (k / e1) as usize, event: (k % e1 - 1) as usize }
        },
    ) by {
        assert(plan[k] == before[k]);
        crate::flow::lemma_block_of(k, t, (n + 1) as nat);
        lemma_handled_in_transaction_positions(k / e1, n);
        assert(before[k] == tb(k / e1)[k % e1]);
        if k % e1 > 0 {
            assert(tb(k / e1)[k % e1] == handled_in_transaction(k / e1, n)[k % e1 - 1]);
        }
    }
    assert forall|k: int| c < k < p implies #[trigger] plan[k] == lenient(
        if (k - c - 1) % e1 == 0 {
            RebuildAction::DeleteInstance { handler: ((k - c - 1) / e1) as usize }
        } else {
            RebuildAction::Handle {
                handler: ((k - c - 1) / e1) as usize,
                event: ((k - c - 1) % e1 - 1) as usize,
            }
        },
    ) by {
        let k2 = k - c - 1;
        assert(plan[k] == after[k2]);
        crate::flow::lemma_block_of(k2, h, (n + 1) as nat);
        lemma_handled_positions(k2 / e1, n);
        assert(after[k2] == hb(k2 / e1)[k2 % e1]);
        if k2 % e1 > 0 {
            assert(hb(k2 / e1)[k2 % e1] == handled(k2 / e1, n)[k2 % e1 - 1]);
        }
    }
    assert forall|k: int| p <= k < plan.len() implies #[trigger] plan[k] == lenient(
        RebuildAction::Publish { bus: ((k - p) / (n as int)) as usize, event: ((k - p) % (n as int)) as usize },
    ) by {
        assert(plan[k] == pubs[k - p]);
    }
}

} // verus!
