use esrs::async_impl::store::{persist_plan as postgre_persist_plan, rebuild_event_plan, PostgreAction};
use esrs::flow::{Flow, Next, Status, Step};
use esrs::postgres::projector::ProjectorPersistence;
use esrs::postgres::store::{
    delete_plan, persist_plan, projecting_persist_plan, DeleteAction, PersistAction, ProjectingAction,
};
use esrs::rebuilder::{all_at_once_plan, instance_plan, RebuildAction};
use esrs::sqlite::{policies_plan, sqlite_delete_plan, RunPolicy, SqliteDeleteAction};

/// Runs a plan; `fails(action)` tells whether performing it fails. Gives the actions
/// performed, in order, and how the flow ended.
fn run<A: Copy + PartialEq + std::fmt::Debug>(plan: Vec<Step<A>>, fails: impl Fn(&A) -> bool) -> (Vec<A>, Status) {
    let mut flow = Flow::new(plan);
    let mut performed = Vec::new();
    let mut succeeded = true;
    loop {
        match flow.next(succeeded) {
            Next::Perform(action) => {
                succeeded = !fails(&action);
                performed.push(action);
            }
            Next::Succeeded => {
                assert_eq!(flow.status_now(), Status::Succeeded);
                assert_eq!(flow.next(false), Next::Succeeded);
                return (performed, Status::Succeeded);
            }
            Next::Failed => {
                assert_eq!(flow.status_now(), Status::Failed);
                assert_eq!(flow.next(true), Next::Failed);
                return (performed, Status::Failed);
            }
        }
    }
}

fn must<A>(action: A) -> Step<A> {
    Step { action, aborts_on_failure: true }
}

fn may<A>(action: A) -> Step<A> {
    Step { action, aborts_on_failure: false }
}

#[test]
fn flow_of_an_empty_plan_succeeds_at_once() {
    let mut flow: Flow<u8> = Flow::new(vec![]);
    assert_eq!(flow.status_now(), Status::Running);
    assert_eq!(flow.next(false), Next::Succeeded);
}

#[test]
fn flow_stops_at_the_first_aborting_failure() {
    let plan = vec![must(1u8), must(2), must(3)];
    let (performed, status) = run(plan, |a| *a == 2);
    assert_eq!(performed, vec![1, 2]);
    assert_eq!(status, Status::Failed);
}

#[test]
fn flow_goes_on_past_a_lenient_failure() {
    let plan = vec![must(1u8), may(2), must(3)];
    let (performed, status) = run(plan, |a| *a == 2);
    assert_eq!(performed, vec![1, 2, 3]);
    assert_eq!(status, Status::Succeeded);
}

#[test]
fn flow_fails_when_the_last_aborting_step_fails() {
    let (performed, status) = run(vec![may(1u8), must(2)], |a| *a == 2);
    assert_eq!(performed, vec![1, 2]);
    assert_eq!(status, Status::Failed);
}

#[test]
fn postgres_persist_plan_order() {
    let plan = persist_plan(2, 1, 2);
    let expected = vec![
        must(PersistAction::Begin),
        must(PersistAction::Save { event: 0 }),
        must(PersistAction::Save { event: 1 }),
        must(PersistAction::HandleInTransaction { event: 0, handler: 0 }),
        must(PersistAction::HandleInTransaction { event: 1, handler: 0 }),
        must(PersistAction::Commit),
        may(PersistAction::ReleaseLock),
        may(PersistAction::Handle { event: 0, handler: 0 }),
        may(PersistAction::Handle { event: 0, handler: 1 }),
        may(PersistAction::Handle { event: 1, handler: 0 }),
        may(PersistAction::Handle { event: 1, handler: 1 }),
        may(PersistAction::Publish),
    ];
    assert_eq!(plan, expected);
}

#[test]
fn postgres_persist_commits_nothing_when_a_transactional_handler_fails() {
    let plan = persist_plan(2, 2, 1);
    let (performed, status) =
        run(plan, |a| *a == PersistAction::HandleInTransaction { event: 0, handler: 1 });
    assert_eq!(status, Status::Failed);
    assert!(!performed.contains(&PersistAction::Commit));
    assert!(!performed.contains(&PersistAction::Publish));
}

#[test]
fn postgres_persist_survives_failing_event_handlers() {
    let plan = persist_plan(1, 0, 2);
    let (performed, status) = run(plan, |a| matches!(a, PersistAction::Handle { .. }));
    assert_eq!(status, Status::Succeeded);
    assert_eq!(performed.last(), Some(&PersistAction::Publish));
}

#[test]
fn postgres_persist_plan_of_nothing() {
    let plan = persist_plan(0, 3, 3);
    assert_eq!(
        plan,
        vec![must(PersistAction::Begin), must(PersistAction::Commit), may(PersistAction::ReleaseLock), may(PersistAction::Publish)]
    );
}

#[test]
fn postgres_delete_plan_order() {
    let plan = delete_plan(1, 2);
    assert_eq!(
        plan,
        vec![
            must(DeleteAction::Begin),
            must(DeleteAction::DeleteEvents),
            must(DeleteAction::DeleteInTransaction { handler: 0 }),
            must(DeleteAction::Commit),
            may(DeleteAction::Delete { handler: 0 }),
            may(DeleteAction::Delete { handler: 1 }),
        ]
    );
}

#[test]
fn projecting_plan_aborts_only_on_mandatory_projectors() {
    let projectors = vec![ProjectorPersistence::Fallible, ProjectorPersistence::Mandatory];
    let plan = projecting_persist_plan(1, &projectors, 1);
    assert_eq!(
        plan,
        vec![
            must(ProjectingAction::Begin),
            must(ProjectingAction::Save { event: 0 }),
            may(ProjectingAction::Project { event: 0, projector: 0 }),
            must(ProjectingAction::Project { event: 0, projector: 1 }),
            must(ProjectingAction::Commit),
            may(ProjectingAction::ApplyPolicy { event: 0, policy: 0 }),
        ]
    );
    let (_, status) = run(plan.clone(), |a| *a == ProjectingAction::Project { event: 0, projector: 0 });
    assert_eq!(status, Status::Succeeded);
    let (performed, status) = run(plan, |a| *a == ProjectingAction::Project { event: 0, projector: 1 });
    assert_eq!(status, Status::Failed);
    assert!(!performed.contains(&ProjectingAction::Commit));
}

#[test]
fn postgre_store_persist_plan_order() {
    let plan = postgre_persist_plan(2, 1);
    assert_eq!(
        plan,
        vec![
            must(PostgreAction::Begin),
            must(PostgreAction::Insert),
            must(PostgreAction::Project { projector: 0 }),
            must(PostgreAction::Project { projector: 1 }),
            must(PostgreAction::Commit),
            must(PostgreAction::ApplyPolicy { policy: 0 }),
        ]
    );
    assert_eq!(rebuild_event_plan(2), vec![must(PostgreAction::Project { projector: 0 }), must(PostgreAction::Project { projector: 1 })]);
    assert!(rebuild_event_plan(0).is_empty());
}

#[test]
fn sqlite_policies_plan_is_policy_major() {
    let plan = policies_plan(2, 2);
    assert_eq!(
        plan,
        vec![
            must(RunPolicy { policy: 0, event: 0 }),
            must(RunPolicy { policy: 0, event: 1 }),
            must(RunPolicy { policy: 1, event: 0 }),
            must(RunPolicy { policy: 1, event: 1 }),
        ]
    );
    let (performed, status) = run(policies_plan(2, 2), |a| *a == RunPolicy { policy: 0, event: 1 });
    assert_eq!(status, Status::Failed);
    assert_eq!(performed.len(), 2);
}

#[test]
fn rebuild_all_at_once_plan_order() {
    let plan = all_at_once_plan(2, 1, 1, 1);
    assert_eq!(
        plan,
        vec![
            must(RebuildAction::DeleteInTransaction { handler: 0, event: 0 }),
            must(RebuildAction::HandleInTransaction { handler: 0, event: 0 }),
            must(RebuildAction::DeleteInTransaction { handler: 0, event: 1 }),
            must(RebuildAction::HandleInTransaction { handler: 0, event: 1 }),
            must(RebuildAction::Commit),
            may(RebuildAction::Delete { handler: 0, event: 0 }),
            may(RebuildAction::Handle { handler: 0, event: 0 }),
            may(RebuildAction::Publish { bus: 0, event: 0 }),
            may(RebuildAction::Publish { bus: 0, event: 1 }),
            may(RebuildAction::Delete { handler: 0, event: 1 }),
            may(RebuildAction::Handle { handler: 0, event: 1 }),
            may(RebuildAction::Publish { bus: 0, event: 0 }),
            may(RebuildAction::Publish { bus: 0, event: 1 }),
        ]
    );
}

#[test]
fn rebuild_instance_plan_order() {
    let plan = instance_plan(2, 1, 1, 2);
    assert_eq!(
        plan,
        vec![
            must(RebuildAction::DeleteInstanceInTransaction { handler: 0 }),
            must(RebuildAction::HandleInTransaction { handler: 0, event: 0 }),
            must(RebuildAction::HandleInTransaction { handler: 0, event: 1 }),
            must(RebuildAction::Commit),
            may(RebuildAction::DeleteInstance { handler: 0 }),
            may(RebuildAction::Handle { handler: 0, event: 0 }),
            may(RebuildAction::Handle { handler: 0, event: 1 }),
            may(RebuildAction::Publish { bus: 0, event: 0 }),
            may(RebuildAction::Publish { bus: 0, event: 1 }),
            may(RebuildAction::Publish { bus: 1, event: 0 }),
            may(RebuildAction::Publish { bus: 1, event: 1 }),
        ]
    );
}

#[test]
fn rebuild_rolls_back_when_a_transactional_handler_fails() {
    let (performed, status) =
        run(all_at_once_plan(3, 1, 1, 1), |a| *a == RebuildAction::HandleInTransaction { handler: 0, event: 1 });
    assert_eq!(status, Status::Failed);
    assert!(!performed.contains(&RebuildAction::Commit));
    let (_, status) = run(instance_plan(3, 1, 1, 1), |a| matches!(a, RebuildAction::Handle { .. } | RebuildAction::Publish { .. }));
    assert_eq!(status, Status::Succeeded);
}

#[test]
fn delete_commits_nothing_when_a_transactional_handler_fails() {
    let (performed, status) = run(delete_plan(2, 1), |a| *a == DeleteAction::DeleteInTransaction { handler: 1 });
    assert_eq!(status, Status::Failed);
    assert!(!performed.contains(&DeleteAction::Commit));
    assert!(!performed.contains(&DeleteAction::Delete { handler: 0 }));
    let (performed, status) = run(delete_plan(1, 2), |a| matches!(a, DeleteAction::Delete { .. }));
    assert_eq!(status, Status::Succeeded);
    assert_eq!(performed.len(), 6);
}

#[test]
fn failed_persist_runs_no_step_after_the_commit() {
    for failing in [PersistAction::Begin, PersistAction::Save { event: 1 }, PersistAction::Commit] {
        let (performed, status) = run(persist_plan(2, 1, 2), |a| *a == failing);
        assert_eq!(status, Status::Failed);
        assert_eq!(performed.last(), Some(&failing));
        assert!(performed.iter().all(|a| !matches!(
            a,
            PersistAction::ReleaseLock | PersistAction::Handle { .. } | PersistAction::Publish
        )));
    }
}

#[test]
fn failed_delete_runs_no_step_after_the_commit() {
    let (performed, status) = run(delete_plan(1, 2), |a| *a == DeleteAction::Commit);
    assert_eq!(status, Status::Failed);
    assert_eq!(performed.last(), Some(&DeleteAction::Commit));
    assert!(performed.iter().all(|a| !matches!(a, DeleteAction::Delete { .. })));
}

#[test]
fn sqlite_delete_plan_deletes_events_before_the_read_models() {
    assert_eq!(
        sqlite_delete_plan(2),
        vec![
            must(SqliteDeleteAction::Begin),
            must(SqliteDeleteAction::DeleteEvents),
            must(SqliteDeleteAction::DeleteReadModel { projector: 0 }),
            must(SqliteDeleteAction::DeleteReadModel { projector: 1 }),
            must(SqliteDeleteAction::Commit),
        ]
    );
    let (performed, status) =
        run(sqlite_delete_plan(2), |a| *a == SqliteDeleteAction::DeleteReadModel { projector: 1 });
    assert_eq!(status, Status::Failed);
    assert!(performed.contains(&SqliteDeleteAction::DeleteEvents));
    assert!(!performed.contains(&SqliteDeleteAction::Commit));
}
