//! What the asynchronous Postgres store decides: the order of the work that persists one
//! event, and which failures abort it.
use vstd::prelude::*;

use crate::flow::{push_row, row, Step};

pub use crate::store::StoreEvent;

verus! {

/// An action of the persistence of one event by the asynchronous Postgres store.
#[derive(Clone, Copy, Debug, PartialEq, Eq)]
pub enum PostgreAction {
    /// Begin the transaction.
    Begin,
    /// Insert the event in the event table, within the transaction.
    Insert,
    /// Let the projector `projector` project the stored event, while the transaction is
    /// open (the projector does not write within it).
    Project { projector: usize },
    /// Commit the transaction.
    Commit,
    /// Let the policy `policy` handle the stored event.
    ApplyPolicy { policy: usize },
}

pub open spec fn must(action: PostgreAction) -> Step<PostgreAction> {
    Step { action, aborts_on_failure: true }
}

/// How one event is persisted: in one transaction it is inserted; while the transaction
/// is open every projector, in order, projects it (outside the transaction); then the
/// transaction is committed; then every policy, in order, handles it. Every failure aborts
/// the persistence with its error; a failure before the commit rolls the insertion back.
pub open spec fn persist_plan_spec(projectors: nat, policies: nat) -> Seq<Step<PostgreAction>> {
    seq![must(PostgreAction::Begin), must(PostgreAction::Insert)] + row(
        projectors,
        |j: int| must(PostgreAction::Project { projector: j as usize }),
    ) + seq![must(PostgreAction::Commit)] + row(
        policies,
        |j: int| must(PostgreAction::ApplyPolicy { policy: j as usize }),
    )
}

/// How a stored event is projected again: by every projector, in order, a failure
/// aborting the rebuild.
pub open spec fn rebuild_event_plan_spec(projectors: nat) -> Seq<Step<PostgreAction>> {
    row(projectors, |j: int| must(PostgreAction::Project { projector: j as usize }))
}

fn project_step(j: usize) -> (s: Step<PostgreAction>)
    ensures
        s == must(PostgreAction::Project { projector: j }),
{
    Step { action: PostgreAction::Project { projector: j }, aborts_on_failure: true }
}

fn policy_step(j: usize) -> (s: Step<PostgreAction>)
    ensures
        s == must(PostgreAction::ApplyPolicy { policy: j }),
{
    Step { action: PostgreAction::ApplyPolicy { policy: j }, aborts_on_failure: true }
}

/// The plan that persists one event with `projectors` projectors and `policies` policies.
pub fn persist_plan(projectors: usize, policies: usize) -> (plan: Vec<Step<PostgreAction>>)
    ensures
        plan@ == persist_plan_spec(projectors as nat, policies as nat),
{
    let mut plan: Vec<Step<PostgreAction>> = Vec::new();
    plan.push(Step { action: PostgreAction::Begin, aborts_on_failure: true });
    plan.push(Step { action: PostgreAction::Insert, aborts_on_failure: true });
    push_row(&mut plan, projectors, project_step, Ghost(|j: int| must(PostgreAction::Project { projector: j as usize })));
    plan.push(Step { action: PostgreAction::Commit, aborts_on_failure: true });
    push_row(&mut plan, policies, policy_step, Ghost(|j: int| must(PostgreAction::ApplyPolicy { policy: j as usize })));
    proof {
        assert(plan@ =~= persist_plan_spec(projectors as nat, policies as nat));
    }
    plan
}

/// The plan that projects a stored event again with `projectors` projectors.
pub fn rebuild_event_plan(projectors: usize) -> (plan: Vec<Step<PostgreAction>>)
    ensures
        plan@ == rebuild_event_plan_spec(projectors as nat),
{
    let mut plan: Vec<Step<PostgreAction>> = Vec::new();
    push_row(&mut plan, projectors, project_step, Ghost(|j: int| must(PostgreAction::Project { projector: j as usize })));
    proof {
        assert(plan@ =~= rebuild_event_plan_spec(projectors as nat));
    }
    plan
}

} // verus!

verus! {

/// The persistence of one event, step by step: it begins, inserts the event, lets
/// projector `j` project it at position `2 + j`, commits at `2 + projectors`, then lets
/// policy `j` handle it at position `3 + projectors + j`; every step aborts on failure.
pub proof fn law_persist_plan_positions(projectors: nat, policies: nat)
    ensures
        ({
            let plan = persist_plan_spec(projectors, policies);
            let p = projectors as int;
            &&& plan.len() == p + 3 + policies
            &&& plan[0] == must(PostgreAction::Begin)
            &&& plan[1] == must(PostgreAction::Insert)
            &&& forall|k: int|
                2 <= k < 2 + p ==> #[trigger] plan[k] == must(PostgreAction::Project { projector: (k - 2) as usize })
            &&& plan[2 + p] == must(PostgreAction::Commit)
            &&& forall|k: int|
                3 + p <= k < plan.len() ==> #[trigger] plan[k] == must(
                    PostgreAction::ApplyPolicy { policy: (k - 3 - p) as usize },
                )
        }),
{
    let p = projectors;
    let plan = persist_plan_spec(p, policies);
    let projections = row(p, |j: int| must(PostgreAction::Project { projector: j as usize }));
    let applications = row(policies, |j: int| must(PostgreAction::ApplyPolicy { policy: j as usize }));
    assert forall|k: int| 2 <= k < 2 + p implies #[trigger] plan[k] == must(
        PostgreAction::Project { projector: (k - 2) as usize },
    ) by {
        assert(plan[k] == projections[k - 2]);
    }
    assert forall|k: int| 3 + p <= k < plan.len() implies #[trigger] plan[k] == must(
        PostgreAction::ApplyPolicy { policy: (k - 3 - p) as usize },
    ) by {
        assert(plan[k] == applications[k - 3 - p]);
    }
}

/// Projecting a stored event again: projector `j` projects it at position `j`, for every
/// projector, each step aborting on failure.
pub proof fn law_rebuild_event_plan_positions(projectors: nat)
    ensures
        rebuild_event_plan_spec(projectors).len() == projectors,
        forall|k: int|
            0 <= k < projectors ==> #[trigger] rebuild_event_plan_spec(projectors)[k] == must(
                PostgreAction::Project { projector: k as usize },
            ),
{
}

} // verus!
