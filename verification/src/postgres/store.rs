//! What the Postgres event store decides: the order of the work that persists or
//! deletes an aggregate's events, which failures abort it, and the key of the advisory
//! lock that guards an aggregate instance.
use vstd::prelude::*;

use crate::flow::{grid, push_grid, push_row, row, Step};
use crate::postgres::projector::ProjectorPersistence;

verus! {

/// An action of the persistence of new events, with transactional event handlers, event
/// handlers and event buses.
#[derive(Clone, Copy, Debug, PartialEq, Eq)]
pub enum PersistAction {
    /// Begin the transaction.
    Begin,
    /// Insert the store event `event` in the event table, within the transaction.
    Save { event: usize },
    /// Let the transactional event handler `handler` handle the store event `event`,
    /// within the transaction.
    HandleInTransaction { event: usize, handler: usize },
    /// Commit the transaction.
    Commit,
    /// Release the lock held on the aggregate instance, if any.
    ReleaseLock,
    /// Let the event handler `handler` handle the store event `event`.
    Handle { event: usize, handler: usize },
    /// Publish the store events, in order, on every event bus.
    Publish,
}

pub open spec fn step<A>(action: A, aborts_on_failure: bool) -> Step<A> {
    Step { action, aborts_on_failure }
}

/// How `events` new store events are persisted: in one transaction, every event is
/// saved, then every event, in order, is handled by every transactional event handler,
/// in order; a failure of any of these, or of the commit, aborts the persistence (the
/// transaction is rolled back and the error returned). Once committed, the lock on the
/// aggregate is released, every event is handled by every event handler (their failures
/// are theirs), and the events are published on the buses.
pub open spec fn persist_plan_spec(events: nat, transactional_handlers: nat, handlers: nat) -> Seq<
    Step<PersistAction>,
> {
    seq![step(PersistAction::Begin, true)] + row(
        events,
        |i: int| step(PersistAction::Save { event: i as usize }, true),
    ) + grid(
        events,
        transactional_handlers,
        |i: int, j: int|
            step(PersistAction::HandleInTransaction { event: i as usize, handler: j as usize }, true),
    ) + seq![step(PersistAction::Commit, true), step(PersistAction::ReleaseLock, false)] + grid(
        events,
        handlers,
        |i: int, j: int| step(PersistAction::Handle { event: i as usize, handler: j as usize }, false),
    ) + seq![step(PersistAction::Publish, false)]
}

fn save_step(i: usize) -> (s: Step<PersistAction>)
    ensures
        s == step(PersistAction::Save { event: i }, true),
{
    Step { action: PersistAction::Save { event: i }, aborts_on_failure: true }
}

fn handle_in_transaction_step(i: usize, j: usize) -> (s: Step<PersistAction>)
    ensures
        s == step(PersistAction::HandleInTransaction { event: i, handler: j }, true),
{
    Step { action: PersistAction::HandleInTransaction { event: i, handler: j }, aborts_on_failure: true }
}

fn handle_step(i: usize, j: usize) -> (s: Step<PersistAction>)
    ensures
        s == step(PersistAction::Handle { event: i, handler: j }, false),
{
    Step { action: PersistAction::Handle { event: i, handler: j }, aborts_on_failure: false }
}

/// The plan that persists `events` store events with `transactional_event_handlers`
/// transactional event handlers and `event_handlers` event handlers.
pub fn persist_plan(events: usize, transactional_event_handlers: usize, event_handlers: usize) -> (plan:
    Vec<Step<PersistAction>>)
    ensures
        plan@ == persist_plan_spec(events as nat, transactional_event_handlers as nat, event_handlers as nat),
{
    let mut plan: Vec<Step<PersistAction>> = Vec::new();
    plan.push(Step { action: PersistAction::Begin, aborts_on_failure: true });
    push_row(
        &mut plan,
        events,
        save_step,
        Ghost(|i: int| step(PersistAction::Save { event: i as usize }, true)),
    );
    push_grid(
        &mut plan,
        events,
        transactional_event_handlers,
        handle_in_transaction_step,
        Ghost(
            |i: int, j: int|
                step(PersistAction::HandleInTransaction { event: i as usize, handler: j as usize }, true),
        ),
    );
    plan.push(Step { action: PersistAction::Commit, aborts_on_failure: true });
    plan.push(Step { action: PersistAction::ReleaseLock, aborts_on_failure: false });
    push_grid(
        &mut plan,
        events,
        event_handlers,
        handle_step,
        Ghost(|i: int, j: int| step(PersistAction::Handle { event: i as usize, handler: j as usize }, false)),
    );
    plan.push(Step { action: PersistAction::Publish, aborts_on_failure: false });
    proof {
        assert(plan@ =~= persist_plan_spec(
            events as nat,
            transactional_event_handlers as nat,
            event_handlers as nat,
        ));
    }
    plan
}

} // verus!

verus! {

/// Whether an action writes within the transaction of a persistence.
pub open spec fn writes_in_transaction(action: PersistAction) -> bool {
    match action {
        PersistAction::Begin | PersistAction::Save { .. } | PersistAction::HandleInTransaction { .. } => true,
        _ => false,
    }
}

/// The position of the commit in the persistence of `events` events with
/// `transactional_handlers` transactional event handlers.
pub open spec fn commit_position(events: nat, transactional_handlers: nat) -> int {
    (1 + events + events * transactional_handlers) as int
}

/// The persistence is transactional: the commit comes after every write of the
/// transaction (the saves of the events and their transactional handling), each of which
/// aborts the persistence when it fails, and so does the commit; right after the commit
/// the lock on the aggregate instance is released, before any event handler runs; after
/// the commit there is no write of the transaction, and nothing aborts.
pub proof fn law_persist_commits_after_every_write(events: nat, transactional_handlers: nat, handlers: nat)
    ensures
        ({
            let plan = persist_plan_spec(events, transactional_handlers, handlers);
            let c = commit_position(events, transactional_handlers);
            &&& 0 <= c < plan.len()
            &&& plan[c] == step(PersistAction::Commit, true)
            &&& plan[c + 1] == step(PersistAction::ReleaseLock, false)
            &&& forall|k: int|
                0 <= k < c ==> (#[trigger] plan[k]).aborts_on_failure && writes_in_transaction(plan[k].action)
            &&& forall|k: int|
                c < k < plan.len() ==> !(#[trigger] plan[k]).aborts_on_failure && !writes_in_transaction(
                    plan[k].action,
                ) && plan[k].action != PersistAction::Commit
        }),
{
    let n = events;
    let t = transactional_handlers;
    let h = handlers;
    let plan = persist_plan_spec(n, t, h);
    let saves = row(n, |i: int| step(PersistAction::Save { event: i as usize }, true));
    let tx = grid(
        n,
        t,
        |i: int, j: int|
            step(PersistAction::HandleInTransaction { event: i as usize, handler: j as usize }, true),
    );
    let hs = grid(
        n,
        h,
        |i: int, j: int| step(PersistAction::Handle { event: i as usize, handler: j as usize }, false),
    );
    crate::flow::lemma_grid_len(
        n,
        t,
        |i: int, j: int|
            step(PersistAction::HandleInTransaction { event: i as usize, handler: j as usize }, true),
    );
    let c = commit_position(n, t);
    assert(plan[c] == step(PersistAction::Commit, true));
    assert(plan[c + 1] == step(PersistAction::ReleaseLock, false));
    assert forall|k: int| 0 <= k < c implies (#[trigger] plan[k]).aborts_on_failure && writes_in_transaction(
        plan[k].action,
    ) by {
        if k == 0 {
        } else if k < 1 + n {
            assert(plan[k] == saves[k - 1]);
        } else {
            assert(plan[k] == tx[k - 1 - n]);
            crate::flow::lemma_grid_member(
                n,
                t,
                |i: int, j: int|
                    step(PersistAction::HandleInTransaction { event: i as usize, handler: j as usize }, true),
                k - 1 - n,
            );
        }
    }
    assert forall|k: int| c < k < plan.len() implies !(#[trigger] plan[k]).aborts_on_failure
        && !writes_in_transaction(plan[k].action) && plan[k].action != PersistAction::Commit by {
        if k == c + 1 {
        } else if k < c + 2 + hs.len() {
            assert(plan[k] == hs[k - c - 2]);
            crate::flow::lemma_grid_member(
                n,
                h,
                |i: int, j: int| step(PersistAction::Handle { event: i as usize, handler: j as usize }, false),
                k - c - 2,
            );
        } else {
        }
    }
}

} // verus!

verus! {

/// When a persistence gets past its commit (it releases the lock, runs the event handlers
/// or publishes), every write of its transaction and the commit succeeded: a failure of
/// any of them stops the persistence before anything of the aggregate is committed or
/// announced.
pub proof fn law_persist_goes_past_commit_only_after_success(
    flow: crate::flow::Flow<PersistAction>,
    events: nat,
    transactional_handlers: nat,
    handlers: nat,
    k: int,
)
    requires
        flow.wf(),
        flow.plan() == persist_plan_spec(events, transactional_handlers, handlers),
        flow.status() != crate::flow::Status::Failed,
        commit_position(events, transactional_handlers) + 1 < flow.position() || flow.status()
            == crate::flow::Status::Succeeded,
        0 <= k <= commit_position(events, transactional_handlers),
    ensures
        flow.reports()[k],
{
    law_persist_commits_after_every_write(events, transactional_handlers, handlers);
    crate::flow::lemma_flow_runs_only_after_success(flow, k);
}

/// An action of the deletion of an aggregate instance, with transactional event handlers
/// and event handlers.
#[derive(Clone, Copy, Debug, PartialEq, Eq)]
pub enum DeleteAction {
    /// Begin the transaction.
    Begin,
    /// Delete the events of the aggregate instance, within the transaction.
    DeleteEvents,
    /// Let the transactional event handler `handler` delete its read side of the
    /// instance, within the transaction.
    DeleteInTransaction { handler: usize },
    /// Commit the transaction.
    Commit,
    /// Let the event handler `handler` delete its read side of the instance.
    Delete { handler: usize },
}

/// How an aggregate instance is deleted: in one transaction its events, then the read
/// side of every transactional event handler, in order; any failure aborts the deletion.
/// Once committed, every event handler deletes its read side.
pub open spec fn delete_plan_spec(transactional_handlers: nat, handlers: nat) -> Seq<Step<DeleteAction>> {
    seq![step(DeleteAction::Begin, true), step(DeleteAction::DeleteEvents, true)] + row(
        transactional_handlers,
        |j: int| step(DeleteAction::DeleteInTransaction { handler: j as usize }, true),
    ) + seq![step(DeleteAction::Commit, true)] + row(
        handlers,
        |j: int| step(DeleteAction::Delete { handler: j as usize }, false),
    )
}

fn delete_in_transaction_step(j: usize) -> (s: Step<DeleteAction>)
    ensures
        s == step(DeleteAction::DeleteInTransaction { handler: j }, true),
{
    Step { action: DeleteAction::DeleteInTransaction { handler: j }, aborts_on_failure: true }
}

fn delete_step(j: usize) -> (s: Step<DeleteAction>)
    ensures
        s == step(DeleteAction::Delete { handler: j }, false),
{
    Step { action: DeleteAction::Delete { handler: j }, aborts_on_failure: false }
}

/// The plan that deletes an aggregate instance with `transactional_event_handlers`
/// transactional event handlers and `event_handlers` event handlers.
pub fn delete_plan(transactional_event_handlers: usize, event_handlers: usize) -> (plan: Vec<Step<DeleteAction>>)
    ensures
        plan@ == delete_plan_spec(transactional_event_handlers as nat, event_handlers as nat),
{
    let mut plan: Vec<Step<DeleteAction>> = Vec::new();
    plan.push(Step { action: DeleteAction::Begin, aborts_on_failure: true });
    plan.push(Step { action: DeleteAction::DeleteEvents, aborts_on_failure: true });
    push_row(
        &mut plan,
        transactional_event_handlers,
        delete_in_transaction_step,
        Ghost(|j: int| step(DeleteAction::DeleteInTransaction { handler: j as usize }, true)),
    );
    plan.push(Step { action: DeleteAction::Commit, aborts_on_failure: true });
    push_row(
        &mut plan,
        event_handlers,
        delete_step,
        Ghost(|j: int| step(DeleteAction::Delete { handler: j as usize }, false)),
    );
    proof {
        assert(plan@ =~= delete_plan_spec(transactional_event_handlers as nat, event_handlers as nat));
    }
    plan
}

/// The key of the advisory lock that guards the aggregate instance `aggregate_id`: the
/// most significant 64 bits of its UUID, read as a signed integer.
pub fn lock_key(aggregate_id: u128) -> (key: i64)
    ensures
        key == ((aggregate_id >> 64u128) as u64) as i64,
{
    let (high, _) = crate::ids::uuid_u64_pair(aggregate_id);
    high as i64
}

} // verus!

verus! {

/// An action of the persistence of new events with projectors and policies.
#[derive(Clone, Copy, Debug, PartialEq, Eq)]
pub enum ProjectingAction {
    /// Begin the transaction.
    Begin,
    /// Insert the store event `event` in the event table, within the transaction.
    Save { event: usize },
    /// Let the projector `projector` project the store event `event`, within the transaction.
    Project { event: usize, projector: usize },
    /// Commit the transaction.
    Commit,
    /// Let the policy `policy` handle the store event `event`.
    ApplyPolicy { event: usize, policy: usize },
}

/// Whether a failure of a projector with this persistence aborts the persistence.
pub open spec fn aborts(persistence: ProjectorPersistence) -> bool {
    persistence == ProjectorPersistence::Mandatory
}

/// How `events` new store events are persisted with projectors of the given persistence
/// levels and `policies` policies: in one transaction every event is saved, then every
/// event, in order, is projected by every projector, in order; the failure of a save, of a
/// mandatory projector or of the commit aborts the persistence, the failure of a fallible
/// projector does not. Once committed, every event is handled by every policy, whose
/// failures are ignored.
pub open spec fn projecting_persist_plan_spec(
    events: nat,
    projectors: Seq<ProjectorPersistence>,
    policies: nat,
) -> Seq<Step<ProjectingAction>> {
    seq![step(ProjectingAction::Begin, true)] + row(
        events,
        |i: int| step(ProjectingAction::Save { event: i as usize }, true),
    ) + grid(
        events,
        projectors.len(),
        |i: int, j: int|
            step(ProjectingAction::Project { event: i as usize, projector: j as usize }, aborts(projectors[j])),
    ) + seq![step(ProjectingAction::Commit, true)] + grid(
        events,
        policies,
        |i: int, j: int| step(ProjectingAction::ApplyPolicy { event: i as usize, policy: j as usize }, false),
    )
}

fn projecting_save_step(i: usize) -> (s: Step<ProjectingAction>)
    ensures
        s == step(ProjectingAction::Save { event: i }, true),
{
    Step { action: ProjectingAction::Save { event: i }, aborts_on_failure: true }
}

fn project_step(projectors: &Vec<ProjectorPersistence>, i: usize, j: usize) -> (s: Step<ProjectingAction>)
    requires
        j < projectors@.len(),
    ensures
        s == step(ProjectingAction::Project { event: i, projector: j }, aborts(projectors@[j as int])),
{
    let mandatory = match projectors[j] {
        ProjectorPersistence::Mandatory => true,
        ProjectorPersistence::Fallible => false,
    };
    Step { action: ProjectingAction::Project { event: i, projector: j }, aborts_on_failure: mandatory }
}

fn apply_policy_step(i: usize, j: usize) -> (s: Step<ProjectingAction>)
    ensures
        s == step(ProjectingAction::ApplyPolicy { event: i, policy: j }, false),
{
    Step { action: ProjectingAction::ApplyPolicy { event: i, policy: j }, aborts_on_failure: false }
}

/// The plan that persists `events` store events with projectors of the given
/// persistence levels, in order, and `policies` policies.
pub fn projecting_persist_plan(events: usize, projectors: &Vec<ProjectorPersistence>, policies: usize) -> (plan:
    Vec<Step<ProjectingAction>>)
    ensures
        plan@ == projecting_persist_plan_spec(events as nat, projectors@, policies as nat),
{
    let mut plan: Vec<Step<ProjectingAction>> = Vec::new();
    plan.push(Step { action: ProjectingAction::Begin, aborts_on_failure: true });
    push_row(
        &mut plan,
        events,
        projecting_save_step,
        Ghost(|i: int| step(ProjectingAction::Save { event: i as usize }, true)),
    );
    let project = (|i: usize, j: usize| -> (s: Step<ProjectingAction>)
        requires
            j < projectors@.len(),
        ensures
            s == step(ProjectingAction::Project { event: i, projector: j }, aborts(projectors@[j as int])),
        { project_step(projectors, i, j) });
    push_grid(
        &mut plan,
        events,
        projectors.len(),
        project,
        Ghost(
            |i: int, j: int|
                step(
                    ProjectingAction::Project { event: i as usize, projector: j as usize },
                    aborts(projectors@[j]),
                ),
        ),
    );
    plan.push(Step { action: ProjectingAction::Commit, aborts_on_failure: true });
    push_grid(
        &mut plan,
        events,
        policies,
        apply_policy_step,
        Ghost(
            |i: int, j: int| step(ProjectingAction::ApplyPolicy { event: i as usize, policy: j as usize }, false),
        ),
    );
    proof {
        assert(plan@ =~= projecting_persist_plan_spec(events as nat, projectors@, policies as nat));
    }
    plan
}

} // verus!

verus! {

/// Whether an action of a projecting persistence writes within its transaction.
pub open spec fn projecting_writes_in_transaction(action: ProjectingAction) -> bool {
    match action {
        ProjectingAction::Begin | ProjectingAction::Save { .. } | ProjectingAction::Project { .. } => true,
        _ => false,
    }
}

/// A persistence with projectors is transactional: its commit comes after every write of
/// the transaction (the saves, then the projections); the saves and the commit abort the
/// persistence when they fail, and so does a projection exactly when its projector is
/// mandatory; after the commit come the policies, and nothing aborts.
pub proof fn law_projecting_persist_commits_after_every_write(
    events: nat,
    projectors: Seq<ProjectorPersistence>,
    policies: nat,
)
    requires
        projectors.len() <= usize::MAX,
    ensures
        ({
            let plan = projecting_persist_plan_spec(events, projectors, policies);
            let c = commit_position(events, projectors.len());
            &&& 0 <= c < plan.len()
            &&& plan[c] == step(ProjectingAction::Commit, true)
            &&& forall|k: int|
                0 <= k < c ==> {
                    &&& projecting_writes_in_transaction((#[trigger] plan[k]).action)
                    &&& match plan[k].action {
                        ProjectingAction::Project { projector, .. } => projector < projectors.len()
                            && plan[k].aborts_on_failure == aborts(projectors[projector as int]),
                        _ => plan[k].aborts_on_failure,
                    }
                }
            &&& forall|k: int|
                c < k < plan.len() ==> !(#[trigger] plan[k]).aborts_on_failure && plan[k].action is ApplyPolicy
        }),
{
    let n = events;
    let m = projectors.len();
    let plan = projecting_persist_plan_spec(n, projectors, policies);
    let saves = row(n, |i: int| step(ProjectingAction::Save { event: i as usize }, true));
    let pf = |i: int, j: int|
        step(ProjectingAction::Project { event: i as usize, projector: j as usize }, aborts(projectors[j]));
    let af = |i: int, j: int| step(ProjectingAction::ApplyPolicy { event: i as usize, policy: j as usize }, false);
    let projections = grid(n, m, pf);
    let applications = grid(n, policies, af);
    crate::flow::lemma_grid_len(n, m, pf);
    let c = commit_position(n, m);
    assert(plan[c] == step(ProjectingAction::Commit, true));
    assert forall|k: int| 0 <= k < c implies {
        &&& projecting_writes_in_transaction((#[trigger] plan[k]).action)
        &&& match plan[k].action {
            ProjectingAction::Project { projector, .. } => projector < projectors.len()
                && plan[k].aborts_on_failure == aborts(projectors[projector as int]),
            _ => plan[k].aborts_on_failure,
        }
    } by {
        if k == 0 {
        } else if k < 1 + n {
            assert(plan[k] == saves[k - 1]);
        } else {
            assert(plan[k] == projections[k - 1 - n]);
            crate::flow::lemma_grid_member(n, m, pf, k - 1 - n);
            let (i, j) = choose|i: int, j: int| 0 <= i < n && 0 <= j < m && projections[k - 1 - n] == #[trigger] pf(i, j);
            assert(plan[k] == pf(i, j));
            assert((j as usize) as int == j);
        }
    }
    assert forall|k: int| c < k < plan.len() implies !(#[trigger] plan[k]).aborts_on_failure
        && plan[k].action is ApplyPolicy by {
        assert(plan[k] == applications[k - c - 1]);
        crate::flow::lemma_grid_member(n, policies, af, k - c - 1);
    }
}

/// When a persistence with projectors gets past its commit (its policies run), every save,
/// every projection by a mandatory projector, and the commit succeeded: the failure of
/// any of them stops the persistence before the events are committed.
pub proof fn law_projecting_persist_goes_past_commit_only_after_success(
    flow: crate::flow::Flow<ProjectingAction>,
    events: nat,
    projectors: Seq<ProjectorPersistence>,
    policies: nat,
    k: int,
)
    requires
        projectors.len() <= usize::MAX,
        flow.wf(),
        flow.plan() == projecting_persist_plan_spec(events, projectors, policies),
        flow.status() != crate::flow::Status::Failed,
        commit_position(events, projectors.len()) + 1 < flow.position() || flow.status()
            == crate::flow::Status::Succeeded,
        0 <= k <= commit_position(events, projectors.len()),
        match flow.plan()[k].action {
            ProjectingAction::Project { projector, .. } => aborts(projectors[projector as int]),
            _ => true,
        },
    ensures
        flow.reports()[k],
{
    law_projecting_persist_commits_after_every_write(events, projectors, policies);
    let plan = projecting_persist_plan_spec(events, projectors, policies);
    if k < commit_position(events, projectors.len()) {
        assert(projecting_writes_in_transaction(plan[k].action));
    }
    crate::flow::lemma_flow_runs_only_after_success(flow, k);
}

/// Whether an action of a deletion writes within its transaction.
pub open spec fn deletes_in_transaction(action: DeleteAction) -> bool {
    match action {
        DeleteAction::Begin | DeleteAction::DeleteEvents | DeleteAction::DeleteInTransaction { .. } => true,
        _ => false,
    }
}

/// A deletion is transactional: its commit comes after the deletion of the events and of
/// every transactional read side, each of which aborts the deletion when it fails, and so
/// does the commit; after the commit only the event handlers delete, and nothing aborts.
pub proof fn law_delete_commits_after_every_write(transactional_handlers: nat, handlers: nat)
    ensures
        ({
            let plan = delete_plan_spec(transactional_handlers, handlers);
            let c = (2 + transactional_handlers) as int;
            &&& c < plan.len()
            &&& plan[c] == step(DeleteAction::Commit, true)
            &&& forall|k: int|
                0 <= k < c ==> (#[trigger] plan[k]).aborts_on_failure && deletes_in_transaction(plan[k].action)
            &&& forall|k: int|
                c < k < plan.len() ==> !(#[trigger] plan[k]).aborts_on_failure && plan[k].action is Delete
        }),
{
    let plan = delete_plan_spec(transactional_handlers, handlers);
    let c = (2 + transactional_handlers) as int;
    assert(plan[c] == step(DeleteAction::Commit, true));
    assert forall|k: int| 0 <= k < c implies (#[trigger] plan[k]).aborts_on_failure && deletes_in_transaction(
        plan[k].action,
    ) by {
        if k >= 2 {
            assert(plan[k] == step(DeleteAction::DeleteInTransaction { handler: (k - 2) as usize }, true));
        }
    }
    assert forall|k: int| c < k < plan.len() implies !(#[trigger] plan[k]).aborts_on_failure
        && plan[k].action is Delete by {
        assert(plan[k] == step(DeleteAction::Delete { handler: (k - c - 1) as usize }, false));
    }
}

} // verus!

verus! {

/// A persistence that fails stops at or before its commit: every action it handed out is
/// a write of its transaction or the commit, so the lock is not released early by it, and
/// no event handler nor event bus sees any of its events.
pub proof fn law_failed_persist_stops_at_or_before_the_commit(
    flow: crate::flow::Flow<PersistAction>,
    events: nat,
    transactional_handlers: nat,
    handlers: nat,
)
    requires
        flow.wf(),
        flow.plan() == persist_plan_spec(events, transactional_handlers, handlers),
        flow.status() == crate::flow::Status::Failed,
    ensures
        flow.position() <= commit_position(events, transactional_handlers) + 1,
        forall|k: int|
            0 <= k < flow.position() ==> writes_in_transaction((#[trigger] flow.plan()[k]).action)
                || flow.plan()[k].action == PersistAction::Commit,
{
    law_persist_commits_after_every_write(events, transactional_handlers, handlers);
    let plan = flow.plan();
    let c = commit_position(events, transactional_handlers);
    assert(plan[flow.position() - 1].aborts_on_failure);
    assert forall|k: int| 0 <= k < flow.position() implies writes_in_transaction((#[trigger] plan[k]).action)
        || plan[k].action == PersistAction::Commit by {
        if k < c {
        } else {
            assert(k == c);
        }
    }
}

/// A deletion that fails stops at or before its commit: every action it handed out
/// deletes within its transaction or commits, so no event handler deletes anything.
pub proof fn law_failed_delete_stops_at_or_before_the_commit(
    flow: crate::flow::Flow<DeleteAction>,
    transactional_handlers: nat,
    handlers: nat,
)
    requires
        flow.wf(),
        flow.plan() == delete_plan_spec(transactional_handlers, handlers),
        flow.status() == crate::flow::Status::Failed,
    ensures
        flow.position() <= transactional_handlers + 3,
        forall|k: int|
            0 <= k < flow.position() ==> deletes_in_transaction((#[trigger] flow.plan()[k]).action)
                || flow.plan()[k].action == DeleteAction::Commit,
{
    law_delete_commits_after_every_write(transactional_handlers, handlers);
    let plan = flow.plan();
    let c = (2 + transactional_handlers) as int;
    assert(plan[flow.position() - 1].aborts_on_failure);
    assert forall|k: int| 0 <= k < flow.position() implies deletes_in_transaction((#[trigger] plan[k]).action)
        || plan[k].action == DeleteAction::Commit by {
        if k < c {
        } else {
            assert(k == c);
        }
    }
}

} // verus!

verus! {

/// The persistence with projectors, step by step: it begins; saves event `i` at position
/// `1 + i`; lets projector `j` project event `i` at position `1 + events + i * p + j`
/// (for `p` projectors), aborting exactly when that projector is mandatory; commits; then
/// lets policy `j` handle event `i` at position `c + 1 + i * policies + j` (for the commit
/// position `c`), never aborting. So every saved event is projected by every projector and
/// handled by every policy, each once.
pub proof fn law_projecting_persist_plan_positions(
    events: nat,
    projectors: Seq<ProjectorPersistence>,
    policies: nat,
)
    ensures
        ({
            let plan = projecting_persist_plan_spec(events, projectors, policies);
            let p = projectors.len() as int;
            let c = commit_position(events, projectors.len());
            &&& plan.len() == c + 1 + events * policies
            &&& plan[0] == step(ProjectingAction::Begin, true)
            &&& forall|k: int|
                1 <= k < 1 + events ==> #[trigger] plan[k] == step(
                    ProjectingAction::Save { event: (k - 1) as usize },
                    true,
                )
            &&& forall|k: int|
                1 + events <= k < c ==> #[trigger] plan[k] == step(
                    ProjectingAction::Project {
                        event: ((k - 1 - events) / p) as usize,
                        projector: ((k - 1 - events) % p) as usize,
                    },
                    aborts(projectors[(k - 1 - events) % p]),
                )
            &&& plan[c] == step(ProjectingAction::Commit, true)
            &&& forall|k: int|
                c < k < plan.len() ==> #[trigger] plan[k] == step(
                    ProjectingAction::ApplyPolicy {
                        event: ((k - c - 1) / (policies as int)) as usize,
                        policy: ((k - c - 1) % (policies as int)) as usize,
                    },
                    false,
                )
        }),
{
    let n = events;
    let m = projectors.len();
    let plan = projecting_persist_plan_spec(n, projectors, policies);
    let pf = |i: int, j: int|
        step(ProjectingAction::Project { event: i as usize, projector: j as usize }, aborts(projectors[j]));
    let af = |i: int, j: int| step(ProjectingAction::ApplyPolicy { event: i as usize, policy: j as usize }, false);
    let saves = row(n, |i: int| step(ProjectingAction::Save { event: i as usize }, true));
    crate::flow::lemma_grid_positions(n, m, pf);
    crate::flow::lemma_grid_positions(n, policies, af);
    let c = commit_position(n, m);
    assert forall|k: int| 1 <= k < 1 + n implies #[trigger] plan[k] == step(
        ProjectingAction::Save { event: (k - 1) as usize },
        true,
    ) by {
        assert(plan[k] == saves[k - 1]);
    }
    assert forall|k: int| 1 + n <= k < c implies #[trigger] plan[k] == step(
        ProjectingAction::Project {
            event: ((k - 1 - n) / (m as int)) as usize,
            projector: ((k - 1 - n) % (m as int)) as usize,
        },
        aborts(projectors[(k - 1 - n) % (m as int)]),
    ) by {
        assert(plan[k] == grid(n, m, pf)[k - 1 - n]);
    }
    assert forall|k: int| c < k < plan.len() implies #[trigger] plan[k] == step(
        ProjectingAction::ApplyPolicy {
            event: ((k - c - 1) / (policies as int)) as usize,
            policy: ((k - c - 1) % (policies as int)) as usize,
        },
        false,
    ) by {
        assert(plan[k] == grid(n, policies, af)[k - c - 1]);
    }
}

/// The persistence with transactional event handlers, step by step: it begins; saves
/// event `i` at position `1 + i`; lets transactional handler `j` handle event `i` at
/// position `1 + events + i * t + j` (for `t` transactional handlers); commits at `c`;
/// releases the lock at `c + 1`; lets event handler `j` handle event `i` at position
/// `c + 2 + i * handlers + j`; publishes last. Everything up to the commit aborts on
/// failure, nothing after it does.
pub proof fn law_persist_plan_positions(events: nat, transactional_handlers: nat, handlers: nat)
    ensures
        ({
            let plan = persist_plan_spec(events, transactional_handlers, handlers);
            let t = transactional_handlers as int;
            let c = commit_position(events, transactional_handlers);
            &&& plan.len() == c + 3 + events * handlers
            &&& plan[0] == step(PersistAction::Begin, true)
            &&& forall|k: int|
                1 <= k < 1 + events ==> #[trigger] plan[k] == step(PersistAction::Save { event: (k - 1) as usize }, true)
            &&& forall|k: int|
                1 + events <= k < c ==> #[trigger] plan[k] == step(
                    PersistAction::HandleInTransaction {
                        event: ((k - 1 - events) / t) as usize,
                        handler: ((k - 1 - events) % t) as usize,
                    },
                    true,
                )
            &&& plan[c] == step(PersistAction::Commit, true)
            &&& plan[c + 1] == step(PersistAction::ReleaseLock, false)
            &&& forall|k: int|
                c + 2 <= k < c + 2 + events * handlers ==> #[trigger] plan[k] == step(
                    PersistAction::Handle {
                        event: ((k - c - 2) / (handlers as int)) as usize,
                        handler: ((k - c - 2) % (handlers as int)) as usize,
                    },
                    false,
                )
            &&& plan[c + 2 + events * handlers] == step(PersistAction::Publish, false)
        }),
{
    let n = events;
    let t = transactional_handlers;
    let h = handlers;
    let plan = persist_plan_spec(n, t, h);
    let saves = row(n, |i: int| step(PersistAction::Save { event: i as usize }, true));
    let tf = |i: int, j: int|
        step(PersistAction::HandleInTransaction { event: i as usize, handler: j as usize }, true);
    let hf = |i: int, j: int| step(PersistAction::Handle { event: i as usize, handler: j as usize }, false);
    crate::flow::lemma_grid_positions(n, t, tf);
    crate::flow::lemma_grid_positions(n, h, hf);
    let c = commit_position(n, t);
    assert forall|k: int| 1 <= k < 1 + n implies #[trigger] plan[k] == step(
        PersistAction::Save { event: (k - 1) as usize },
        true,
    ) by {
        assert(plan[k] == saves[k - 1]);
    }
    assert forall|k: int| 1 + n <= k < c implies #[trigger] plan[k] == step(
        PersistAction::HandleInTransaction {
            event: ((k - 1 - n) / (t as int)) as usize,
            handler: ((k - 1 - n) % (t as int)) as usize,
        },
        true,
    ) by {
        assert(plan[k] == grid(n, t, tf)[k - 1 - n]);
    }
    assert forall|k: int| c + 2 <= k < c + 2 + n * h implies #[trigger] plan[k] == step(
        PersistAction::Handle {
            event: ((k - c - 2) / (h as int)) as usize,
            handler: ((k - c - 2) % (h as int)) as usize,
        },
        false,
    ) by {
        assert(plan[k] == grid(n, h, hf)[k - c - 2]);
    }
}

/// The deletion, step by step: it begins, deletes the events, lets transactional handler
/// `j` delete its read side at position `2 + j`, commits at `2 + t`, then lets event
/// handler `j` delete its read side at position `3 + t + j`.
pub proof fn law_delete_plan_positions(transactional_handlers: nat, handlers: nat)
    ensures
        ({
            let plan = delete_plan_spec(transactional_handlers, handlers);
            let t = transactional_handlers as int;
            &&& plan.len() == t + 3 + handlers
            &&& plan[0] == step(DeleteAction::Begin, true)
            &&& plan[1] == step(DeleteAction::DeleteEvents, true)
            &&& forall|k: int|
                2 <= k < 2 + t ==> #[trigger] plan[k] == step(
                    DeleteAction::DeleteInTransaction { handler: (k - 2) as usize },
                    true,
                )
            &&& plan[2 + t] == step(DeleteAction::Commit, true)
            &&& forall|k: int|
                3 + t <= k < plan.len() ==> #[trigger] plan[k] == step(
                    DeleteAction::Delete { handler: (k - 3 - t) as usize },
                    false,
                )
        }),
{
    let t = transactional_handlers;
    let plan = delete_plan_spec(t, handlers);
    let tx = row(t, |j: int| step(DeleteAction::DeleteInTransaction { handler: j as usize }, true));
    let after = row(handlers, |j: int| step(DeleteAction::Delete { handler: j as usize }, false));
    assert forall|k: int| 2 <= k < 2 + t implies #[trigger] plan[k] == step(
        DeleteAction::DeleteInTransaction { handler: (k - 2) as usize },
        true,
    ) by {
        assert(plan[k] == tx[k - 2]);
    }
    assert forall|k: int| 3 + t <= k < plan.len() implies #[trigger] plan[k] == step(
        DeleteAction::Delete { handler: (k - 3 - t) as usize },
        false,
    ) by {
        assert(plan[k] == after[k - 3 - t]);
    }
}

} // verus!
