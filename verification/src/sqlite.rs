//! What the SQLite event store decides: the order in which its policies handle events.
//! (Its persistence follows `postgres::store::projecting_persist_plan`, with every
//! projector mandatory and no policy.)
use vstd::prelude::*;

use crate::flow::{grid, push_grid, push_row, row, Flow, Status, Step};

verus! {

/// An action of the SQLite store's policies: the policy `policy` handles the event `event`.
#[derive(Clone, Copy, Debug, PartialEq, Eq)]
pub struct RunPolicy {
    pub policy: usize,
    pub event: usize,
}

/// How the policies run over new events: each policy in turn handles every event, in
/// order, and the first failure stops them all with its error.
pub open spec fn policies_plan_spec(policies: nat, events: nat) -> Seq<Step<RunPolicy>> {
    grid(
        policies,
        events,
        |p: int, e: int| Step { action: RunPolicy { policy: p as usize, event: e as usize }, aborts_on_failure: true },
    )
}

fn run_policy_step(p: usize, e: usize) -> (s: Step<RunPolicy>)
    ensures
        s == (Step { action: RunPolicy { policy: p, event: e }, aborts_on_failure: true }),
{
    Step { action: RunPolicy { policy: p, event: e }, aborts_on_failure: true }
}

/// The plan that runs `policies` policies over `events` events.
pub fn policies_plan(policies: usize, events: usize) -> (plan: Vec<Step<RunPolicy>>)
    ensures
        plan@ == policies_plan_spec(policies as nat, events as nat),
{
    let mut plan: Vec<Step<RunPolicy>> = Vec::new();
    push_grid(
        &mut plan,
        policies,
        events,
        run_policy_step,
        Ghost(
            |p: int, e: int| Step { action: RunPolicy { policy: p as usize, event: e as usize }, aborts_on_failure: true },
        ),
    );
    proof {
        assert(plan@ =~= policies_plan_spec(policies as nat, events as nat));
    }
    plan
}

} // verus!

verus! {

/// An action of the deletion of an aggregate instance by the SQLite store.
#[derive(Clone, Copy, Debug, PartialEq, Eq)]
pub enum SqliteDeleteAction {
    /// Begin the transaction.
    Begin,
    /// Delete the events of the instance, through the pool: outside the transaction.
    DeleteEvents,
    /// The projector `projector` deletes its read model of the instance, within the
    /// transaction.
    DeleteReadModel { projector: usize },
    /// Commit the transaction.
    Commit,
}

pub open spec fn must_delete(action: SqliteDeleteAction) -> Step<SqliteDeleteAction> {
    Step { action, aborts_on_failure: true }
}

/// How the SQLite store deletes an aggregate instance: it begins a transaction, deletes the
/// events outside it, then every projector, in order, deletes its read model within it,
/// then it commits. Any failure stops the deletion with its error.
pub open spec fn sqlite_delete_plan_spec(projectors: nat) -> Seq<Step<SqliteDeleteAction>> {
    seq![must_delete(SqliteDeleteAction::Begin), must_delete(SqliteDeleteAction::DeleteEvents)] + row(
        projectors,
        |j: int| must_delete(SqliteDeleteAction::DeleteReadModel { projector: j as usize }),
    ) + seq![must_delete(SqliteDeleteAction::Commit)]
}

fn delete_read_model_step(j: usize) -> (s: Step<SqliteDeleteAction>)
    ensures
        s == must_delete(SqliteDeleteAction::DeleteReadModel { projector: j }),
{
    Step { action: SqliteDeleteAction::DeleteReadModel { projector: j }, aborts_on_failure: true }
}

/// The plan that deletes an aggregate instance with `projectors` projectors.
pub fn sqlite_delete_plan(projectors: usize) -> (plan: Vec<Step<SqliteDeleteAction>>)
    ensures
        plan@ == sqlite_delete_plan_spec(projectors as nat),
{
    let mut plan: Vec<Step<SqliteDeleteAction>> = Vec::new();
    plan.push(Step { action: SqliteDeleteAction::Begin, aborts_on_failure: true });
    plan.push(Step { action: SqliteDeleteAction::DeleteEvents, aborts_on_failure: true });
    push_row(
        &mut plan,
        projectors,
        delete_read_model_step,
        Ghost(|j: int| must_delete(SqliteDeleteAction::DeleteReadModel { projector: j as usize })),
    );
    plan.push(Step { action: SqliteDeleteAction::Commit, aborts_on_failure: true });
    proof {
        assert(plan@ =~= sqlite_delete_plan_spec(projectors as nat));
    }
    plan
}

/// The events of an instance are deleted outside the deletion's transaction: when a
/// deletion by the SQLite store fails at a read model or at the commit, its events were
/// already deleted, and rolling the transaction back does not bring them back. Only a
/// failure to begin or to delete the events leaves them in place.
pub proof fn law_sqlite_delete_removes_events_outside_the_transaction(
    flow: Flow<SqliteDeleteAction>,
    projectors: nat,
)
    requires
        flow.wf(),
        flow.plan() == sqlite_delete_plan_spec(projectors),
        flow.status() == Status::Failed,
        flow.position() > 2,
    ensures
        flow.plan()[1].action == SqliteDeleteAction::DeleteEvents,
        flow.reports()[1],
{
    assert(flow.plan()[1] == must_delete(SqliteDeleteAction::DeleteEvents));
}

} // verus!


verus! {

/// The policies run policy by policy: the plan has `policies * events` steps, and the step
/// at position `p * events + e` is policy `p` handling event `e`; every failure aborts.
pub proof fn law_policies_plan_positions(policies: nat, events: nat)
    ensures
        policies_plan_spec(policies, events).len() == policies * events,
        forall|k: int|
            0 <= k < policies * events ==> #[trigger] policies_plan_spec(policies, events)[k] == (Step {
                action: RunPolicy {
                    policy: (k / (events as int)) as usize,
                    event: (k % (events as int)) as usize,
                },
                aborts_on_failure: true,
            }),
{
    crate::flow::lemma_grid_positions(
        policies,
        events,
        |p: int, e: int| Step { action: RunPolicy { policy: p as usize, event: e as usize }, aborts_on_failure: true },
    );
}

/// The deletion by the SQLite store: it begins, deletes the events, lets projector `j`
/// delete its read model at position `2 + j` for every projector, then commits; every step
/// aborts on failure.
pub proof fn law_sqlite_delete_plan_positions(projectors: nat)
    ensures
        ({
            let plan = sqlite_delete_plan_spec(projectors);
            &&& plan.len() == projectors + 3
            &&& plan[0] == must_delete(SqliteDeleteAction::Begin)
            &&& plan[1] == must_delete(SqliteDeleteAction::DeleteEvents)
            &&& forall|k: int|
                2 <= k < projectors + 2 ==> #[trigger] plan[k] == must_delete(
                    SqliteDeleteAction::DeleteReadModel { projector: (k - 2) as usize },
                )
            &&& plan[projectors + 2int] == must_delete(SqliteDeleteAction::Commit)
        }),
{
    let plan = sqlite_delete_plan_spec(projectors);
    assert forall|k: int| 2 <= k < projectors + 2 implies #[trigger] plan[k] == must_delete(
        SqliteDeleteAction::DeleteReadModel { projector: (k - 2) as usize },
    ) by {
        assert(plan[k] == row(projectors, |j: int| must_delete(SqliteDeleteAction::DeleteReadModel { projector: j as usize }))[k - 2]);
    }
}

} // verus!
