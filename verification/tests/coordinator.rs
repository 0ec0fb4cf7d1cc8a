use toks_core::lifecycle::{
    disable, enable, install_router_service, install_router_service_for, LifecycleError,
    LifecycleStep,
};
use toks_core::process::control::Control;
use toks_core::process::coordinator::advance::{ActiveCheck, AdvanceStep};
use toks_core::process::coordinator::delivery::{
    admission_changed, rotate_deliveries, shutdown_complete, HandoffError, Retry,
};
use toks_core::process::coordinator::messages::{confirms_loss, Reaction};
use toks_core::process::coordinator::{is_terminal, Coordinator};
use toks_core::process::pending::HandoffId;
use toks_core::process::wait::WaitKey;
use toks_core::process::worker_session::WorkerSession;
use toks_core::process::worker_unit::{Inventory, Liveness};
use toks_core::retry::{clears, requested_intent, RetryIntent, RetryIntentError, RETRY_VERSION};
use toks_core::{BuildId, DeployPlan, DeploymentState, GenerationId, GenerationStatus, RetryId};

type TestCoordinator = Coordinator<&'static str, u32>;

fn build(name: &str) -> BuildId {
    BuildId::new(name).unwrap()
}

fn generation(raw: u64) -> GenerationId {
    GenerationId::from_raw(raw)
}

fn quiet() -> Reaction {
    Reaction { save: false, send: None, retry_pending: false }
}

/// A coordinator for `name` on an empty deployment: it stages generation 1.
fn fresh(name: &str) -> TestCoordinator {
    Coordinator::new(DeploymentState::default(), build(name), 0, None).unwrap()
}

/// Drives the first deployment of `fresh` until its worker accepts.
fn activated(name: &str) -> TestCoordinator {
    let mut coordinator = fresh(name);
    let target = generation(1);
    assert_eq!(coordinator.admit_worker(target, 42, "worker-1", true), Some(1));
    coordinator.handle_message(target, Control::Ready { generation: target }, 0).unwrap();
    loop {
        let (plan, _) = coordinator.plan_for_advance(None);
        match coordinator.advance_step(plan.unwrap()).unwrap() {
            AdvanceStep::Replan => continue,
            AdvanceStep::Send { generation, control, wait } => {
                assert_eq!(control, Control::Activate { generation });
                coordinator.arm_wait(wait, 0);
                let reaction = coordinator
                    .handle_message(generation, Control::Accepting { generation }, 1)
                    .unwrap();
                assert!(reaction.save && reaction.retry_pending);
            }
            AdvanceStep::ReconcileWorkers => return coordinator,
            AdvanceStep::Idle => panic!("the first deployment stalled"),
        }
    }
}

#[test]
fn a_fresh_coordinator_stages_its_own_build() {
    let coordinator = fresh("b1");
    assert_eq!(
        coordinator.current_plan().unwrap(),
        DeployPlan::StageTarget { target: generation(1), build: build("b1") }
    );
    assert!(coordinator.workers.is_disconnected(generation(1)));
    assert_eq!(coordinator.active, None);
    assert_eq!(coordinator.admission_block(), Some("no generation is active"));
}

#[test]
fn deployment_advances_only_after_worker_acknowledgements() {
    let mut coordinator = fresh("b1");
    let target = generation(1);
    let (plan, consumed) = coordinator.plan_for_advance(None);
    let plan = plan.unwrap();
    assert!(!consumed);
    assert_eq!(coordinator.ensure_active_accepting(&plan), ActiveCheck::Proceed);
    assert!(coordinator.needs_inventory());
    let commands = coordinator.unit_commands(&Inventory::new());
    assert_eq!(commands.start, vec![target]);
    assert!(commands.stop.is_empty() && commands.terminal.is_empty());
    coordinator.arm_ready_waits(&commands.start, 0);
    assert!(!coordinator.needs_inventory());
    assert_eq!(coordinator.advance_step(plan).unwrap(), AdvanceStep::Idle);

    assert_eq!(coordinator.admit_worker(target, 42, "worker-1", true), Some(1));
    assert_eq!(
        coordinator.handle_message(target, Control::Ready { generation: target }, 5).unwrap(),
        quiet()
    );
    let (plan, _) = coordinator.plan_for_advance(None);
    assert_eq!(coordinator.advance_step(plan.unwrap()).unwrap(), AdvanceStep::Replan);
    let (plan, _) = coordinator.plan_for_advance(None);
    assert_eq!(plan, Ok(DeployPlan::PauseAdmissions { previous: None, target }));
    assert_eq!(coordinator.advance_step(plan.unwrap()).unwrap(), AdvanceStep::Replan);
    let (plan, _) = coordinator.plan_for_advance(None);
    assert_eq!(plan, Ok(DeployPlan::StartAccepting { target }));
    let wait = WaitKey::TargetAccepting(target);
    assert_eq!(
        coordinator.advance_step(plan.unwrap()).unwrap(),
        AdvanceStep::Send { generation: target, control: Control::Activate { generation: target }, wait }
    );
    coordinator.arm_wait(wait, 6);
    let (plan, _) = coordinator.plan_for_advance(None);
    assert_eq!(coordinator.advance_step(plan.unwrap()).unwrap(), AdvanceStep::Idle);

    let reaction = coordinator.handle_message(target, Control::Accepting { generation: target }, 7).unwrap();
    assert_eq!(reaction, Reaction { save: true, send: None, retry_pending: true });
    let (plan, _) = coordinator.plan_for_advance(None);
    assert_eq!(plan, Ok(DeployPlan::Settled { active: Some(target) }));
    assert_eq!(coordinator.advance_step(plan.unwrap()).unwrap(), AdvanceStep::ReconcileWorkers);
    assert_eq!(coordinator.active, Some(target));
    assert!(coordinator.accepts_clients());
    assert_eq!(coordinator.admission_block(), None);
    assert_eq!(coordinator.reconcilable_worker_instances(), Some(vec![(1, 42)]));
}

#[test]
fn a_handoff_is_committed_and_finalized_exactly_once() {
    let mut coordinator = activated("b1");
    let target = generation(1);
    let (to, id) = coordinator.handoff(7, 100).unwrap();
    assert_eq!(to, target);
    assert_eq!(coordinator.retries_for(target), vec![Retry::Connection(target, id)]);
    assert_eq!(coordinator.retries_for_ready(), vec![Retry::Connection(target, id)]);
    assert_eq!(
        coordinator.handle_message(target, Control::ConnectionAck { handoff_id: id }, 101).unwrap(),
        Reaction { save: false, send: Some((target, Control::ConnectionCommitted { handoff_id: id })), retry_pending: false }
    );
    assert_eq!(
        coordinator.handle_message(target, Control::ConnectionCommitAck { handoff_id: id }, 102).unwrap(),
        Reaction { save: false, send: Some((target, Control::ConnectionFinalized { handoff_id: id })), retry_pending: false }
    );
    assert_eq!(coordinator.retries_for(target), vec![Retry::Finalization(target, id)]);
    assert_eq!(
        coordinator.handle_message(target, Control::ConnectionAck { handoff_id: id }, 103).unwrap(),
        quiet()
    );
    assert_eq!(
        coordinator.handle_message(target, Control::ConnectionFinalizedAck { handoff_id: id }, 104).unwrap(),
        quiet()
    );
    assert!(coordinator.pending.is_empty());
    assert!(coordinator.retries_for(target).is_empty());
}

#[test]
fn stale_connection_acknowledgements_commit_nothing() {
    let mut coordinator = activated("b1");
    let target = generation(1);
    let unknown = HandoffId::new(coordinator.epoch(), 99);
    assert_eq!(
        coordinator.handle_message(target, Control::ConnectionAck { handoff_id: unknown }, 0).unwrap(),
        quiet()
    );
    assert_eq!(
        coordinator.handle_message(target, Control::ConnectionCommitAck { handoff_id: unknown }, 0).unwrap(),
        quiet()
    );
    assert!(coordinator.pending.is_empty());
}

#[test]
fn messages_of_a_replaced_connection_are_ignored_except_acknowledgements() {
    let mut coordinator = activated("b1");
    let target = generation(1);
    let newer = coordinator.admit_worker(target, 43, "worker-1b", true).unwrap();
    assert!(coordinator.accepts_message(target, newer, &Control::Ready { generation: target }));
    assert!(!coordinator.accepts_message(target, 1, &Control::Ready { generation: target }));
    let ack = Control::ConnectionFinalizedAck { handoff_id: HandoffId::new(1, 1) };
    assert!(coordinator.accepts_message(target, 1, &ack));
    assert_eq!(coordinator.connection_closed(target, 1), Ok(false));
    assert!(coordinator.workers.contains(target));
}

#[test]
fn admission_stops_without_a_ready_accepting_worker() {
    let mut coordinator = activated("b1");
    let target = generation(1);
    assert!(coordinator.accepts_clients());
    let registration = coordinator.admit_worker(target, 44, "worker-1c", true).unwrap();
    assert_eq!(coordinator.admission_block(), Some("the active worker is not ready"));
    coordinator.handle_message(target, Control::Ready { generation: target }, 0).unwrap();
    assert_eq!(coordinator.admission_block(), Some("the active worker is not accepting"));
    assert_eq!(coordinator.connection_closed(target, registration), Ok(false));
    assert_eq!(coordinator.admission_block(), Some("the active generation has no registered worker"));
    assert_eq!(coordinator.handoff(1, 0).map(|(g, _)| g), Ok(target));
}

#[test]
fn a_handoff_without_an_active_generation_is_refused() {
    let mut coordinator = fresh("b1");
    assert_eq!(coordinator.handoff(1, 0), Err(HandoffError::NoActiveWorker));
}

#[test]
fn an_unknown_worker_cannot_register() {
    let mut coordinator = fresh("b1");
    assert_eq!(coordinator.admit_worker(generation(9), 1, "stranger", true), None);
    assert_eq!(coordinator.admit_worker(generation(1), 1, "impostor", false), None);
    assert!(!coordinator.known_generation(generation(9)));
    assert_eq!(coordinator.host_generation(generation(1)), Some(generation(1)));
    assert_eq!(coordinator.host_generation(generation(9)), None);
}

#[test]
fn a_target_that_disconnects_during_activation_fails() {
    let mut coordinator = fresh("b1");
    let target = generation(1);
    let registration = coordinator.admit_worker(target, 42, "worker-1", true).unwrap();
    assert_eq!(coordinator.connection_closed(target, registration), Ok(true));
    assert_eq!(coordinator.deployment.snapshot().generations[0].status, GenerationStatus::Failed);
    assert_eq!(
        coordinator.deployment.snapshot().generations[0].failure.as_deref(),
        Some("worker disconnected during activation")
    );
    assert!(coordinator.workers.is_disconnected(target));
}

#[test]
fn an_activation_that_is_never_acknowledged_times_out() {
    let mut coordinator = fresh("b1");
    let target = generation(1);
    coordinator.arm_ready_waits(&vec![target], 0);
    let expiry = coordinator.expire_waits(7_999).unwrap();
    assert_eq!((expiry.check_previous, expiry.failed_target), (None, None));
    let expiry = coordinator.expire_waits(8_000).unwrap();
    assert_eq!(expiry.failed_target, Some(target));
    coordinator.activation_timed_out(target).unwrap();
    let snapshot = coordinator.deployment.snapshot();
    assert_eq!(snapshot.generations[0].status, GenerationStatus::Failed);
    assert_eq!(
        snapshot.generations[0].failure.as_deref(),
        Some("worker activation acknowledgement timed out")
    );
}

#[test]
fn retiring_the_active_generation_is_refused_by_the_planner() {
    let mut coordinator = activated("b1");
    let target = generation(1);
    assert!(coordinator.retire_stopped(target).is_err());
    assert!(coordinator.workers.is_stopped(target));
    assert_eq!(coordinator.current_plan(), Ok(DeployPlan::Settled { active: Some(target) }));
}

#[test]
fn worker_corrections_reactivate_a_ready_active_worker() {
    let mut coordinator = activated("b1");
    let target = generation(1);
    coordinator.handle_message(target, Control::AdmissionsPaused { generation: target }, 0).unwrap();
    let wait = WaitKey::TargetAccepting(target);
    assert_eq!(
        coordinator.worker_corrections(),
        vec![(target, Control::Activate { generation: target }, wait)]
    );
    coordinator.arm_wait(wait, 0);
    assert!(coordinator.worker_corrections().is_empty());
}

#[test]
fn a_stored_retry_for_this_build_is_consumed_once() {
    let mut coordinator = fresh("b1");
    coordinator.stage_failed(generation(1), "staging failed".to_owned()).unwrap();
    assert_eq!(
        coordinator.current_plan(),
        Ok(DeployPlan::Unavailable { failed_target: generation(1), active: None })
    );
    let intent = RetryIntent { version: RETRY_VERSION, build: build("b1"), id: RetryId::for_test(7) };
    let (plan, consumed) = coordinator.plan_for_advance(Some(intent.duplicate()));
    assert!(consumed);
    assert_eq!(plan, Ok(DeployPlan::StageTarget { target: generation(2), build: build("b1") }));
    assert_eq!(coordinator.consumed_retry_intent, Some(intent.duplicate()));
    assert_eq!(coordinator.consume_retry_intent(Some(intent.duplicate())), Ok(true));
    let other = RetryIntent { version: RETRY_VERSION, build: build("b2"), id: RetryId::for_test(8) };
    assert_eq!(coordinator.consume_retry_intent(Some(other)), Ok(false));
}

#[test]
fn rotation_starts_retries_where_the_last_round_stopped() {
    let a = Retry::Connection(generation(1), HandoffId::new(1, 1));
    let b = Retry::Connection(generation(1), HandoffId::new(1, 2));
    let c = Retry::Finalization(generation(1), HandoffId::new(1, 3));
    assert_eq!(rotate_deliveries(&vec![a, b, c], 4), (vec![b, c, a], 1));
    assert_eq!(rotate_deliveries(&vec![], 4), (vec![], 0));
    let mut coordinator = fresh("b1");
    coordinator.finish_retries(usize::MAX, 3);
    assert_eq!(coordinator.retry_cursor, usize::MAX);
    coordinator.finish_retries(1, 2);
    assert_eq!(coordinator.retry_cursor, 3);
}

#[test]
fn shutdown_waits_for_handoffs_until_the_drain_deadline() {
    assert!(!shutdown_complete(None, true, 0));
    assert!(shutdown_complete(Some(100), true, 100));
    assert!(!shutdown_complete(Some(100), false, 10_099));
    assert!(shutdown_complete(Some(100), false, 10_100));
    assert!(!shutdown_complete(Some(100), false, 50));
}

#[test]
fn admission_changes_are_reported_once() {
    let mut admitting = true;
    assert!(!admission_changed(true, &mut admitting));
    assert!(admission_changed(false, &mut admitting));
    assert!(!admitting);
    assert!(!admission_changed(false, &mut admitting));
}

#[test]
fn lost_previous_workers_are_confirmed_by_the_inventory() {
    let mut inventory = Inventory::new();
    assert!(confirms_loss(&inventory, generation(1)));
    inventory.record(generation(1), Liveness::Unknown);
    assert!(!confirms_loss(&inventory, generation(1)));
    inventory.record(generation(1), Liveness::Stopped);
    assert!(confirms_loss(&inventory, generation(1)));
}

#[test]
fn terminal_plans_are_settled_or_unavailable() {
    assert!(is_terminal(&DeployPlan::Settled { active: None }));
    assert!(is_terminal(&DeployPlan::Unavailable { failed_target: generation(1), active: None }));
    assert!(!is_terminal(&DeployPlan::StartAccepting { target: generation(1) }));
}

#[test]
fn requesting_a_retry_twice_keeps_the_first_request() {
    let first = requested_intent(None, &build("candidate")).unwrap();
    assert_eq!(first.version, RETRY_VERSION);
    assert!(first.id.is_valid());
    assert_eq!(first.duplicate().check(), Ok(first.duplicate()));
    let again = requested_intent(Some(first.duplicate()), &build("candidate")).unwrap();
    assert_eq!(again, first);
    let other = requested_intent(Some(first.duplicate()), &build("other")).unwrap();
    assert_eq!(other.build, build("other"));
    assert!(!clears(&Some(other.duplicate()), &first));
    assert!(clears(&Some(first.duplicate()), &first));
    assert!(!clears(&None, &first));
}

#[test]
fn stored_retry_requests_are_checked() {
    let good = RetryIntent { version: RETRY_VERSION, build: build("b"), id: RetryId::default() };
    assert!(good.duplicate().check().is_ok());
    let old = RetryIntent { version: 2, build: build("b"), id: RetryId::default() };
    assert_eq!(old.check().err(), Some(RetryIntentError::UnsupportedVersion));
    let bad = RetryIntent { version: RETRY_VERSION, build: build("b"), id: RetryId::from_persisted("x".to_owned()) };
    assert_eq!(bad.check().err(), Some(RetryIntentError::InvalidId));
    assert_eq!(
        RetryIntentError::RandomnessUnavailable.message(),
        "no randomness for a router retry nonce"
    );
}

#[test]
fn lifecycle_steps_point_codex_at_an_installed_router_only() {
    assert_eq!(enable(false), Err(LifecycleError::ExecutableMissing));
    assert_eq!(
        enable(true),
        Ok(vec![LifecycleStep::InstallService, LifecycleStep::SetEnabled(true), LifecycleStep::ConfigureCodex])
    );
    assert_eq!(
        disable(),
        vec![LifecycleStep::RestoreCodex, LifecycleStep::SetEnabled(false), LifecycleStep::UninstallService]
    );
    assert_eq!(install_router_service(true), vec![LifecycleStep::InstallService]);
    assert!(install_router_service(false).is_empty());
    assert!(install_router_service_for(false, true).is_empty());
    assert_eq!(install_router_service_for(true, true), vec![LifecycleStep::InstallService]);
}

#[test]
fn a_worker_session_follows_the_coordinator() {
    let target = generation(3);
    let mut session: WorkerSession<&str> = WorkerSession::new(target);
    assert!(session.greeted(5).is_empty());
    assert_eq!(session.ready(), Control::Ready { generation: target });
    let id = HandoffId::new(5, 1);
    assert_eq!(session.offered(id, "client"), None);
    let reply = session.on_control(Control::Activate { generation: target });
    assert_eq!(reply.send, vec![Control::Accepting { generation: target }]);
    assert_eq!(session.offered(id, "client"), Some(Control::ConnectionAck { handoff_id: id }));
    let reply = session.on_control(Control::ConnectionCommitted { handoff_id: id });
    assert_eq!(reply.serve, Some("client"));
    assert_eq!(reply.send, vec![Control::ConnectionCommitAck { handoff_id: id }]);
    let replay = session.on_control(Control::ConnectionCommitted { handoff_id: id });
    assert_eq!(replay.serve, None);
    assert_eq!(replay.send, vec![Control::ConnectionCommitAck { handoff_id: id }]);
    let reply = session.on_control(Control::ConnectionFinalized { handoff_id: id });
    assert_eq!(reply.send, vec![Control::ConnectionFinalizedAck { handoff_id: id }]);
    let other = session.on_control(Control::Activate { generation: generation(4) });
    assert!(other.send.is_empty());
    let reply = session.on_control(Control::Drain { generation: target });
    assert_eq!(reply.send, vec![Control::AdmissionsPaused { generation: target }]);
    assert!(reply.report_connections);
    assert!(!session.drained(1));
    assert!(session.drained(0));
}

#[test]
fn a_new_coordinator_adopts_descriptors_parked_under_the_old_one() {
    let target = generation(3);
    let mut session: WorkerSession<&str> = WorkerSession::new(target);
    session.greeted(5);
    session.on_control(Control::Activate { generation: target });
    session.offered(HandoffId::new(5, 1), "parked");
    assert!(session.greeted(5).is_empty());
    assert_eq!(session.greeted(6), vec!["parked"]);
    assert!(session.drained(0) == false);
}


/// A retry request store held in memory, driven by the library's decisions.
struct RetryStore(Option<RetryIntent>);

impl RetryStore {
    fn request(&mut self, build: &BuildId) -> RetryIntent {
        let intent = requested_intent(self.0.as_ref().map(RetryIntent::duplicate), build).unwrap();
        self.0 = Some(intent.duplicate());
        intent
    }

    fn clear(&mut self, expected: &RetryIntent) -> bool {
        if !clears(&self.0, expected) {
            return false;
        }
        self.0 = None;
        true
    }
}

#[test]
fn retry_intent_is_durable_and_one_shot() {
    let mut store = RetryStore(None);
    let build = BuildId::new("candidate").unwrap();

    let intent = store.request(&build);
    assert_eq!(store.0, Some(intent.duplicate()));
    assert_eq!(store.request(&build), intent);
    assert!(store.clear(&intent));
    assert_eq!(store.0, None);
}

#[test]
fn stale_build_intent_cannot_clear_the_newer_pending_retry() {
    let mut store = RetryStore(None);
    let build_a = BuildId::new("build-a").unwrap();
    let build_b = BuildId::new("build-b").unwrap();

    let stale_b = store.request(&build_b);
    let current_a = store.request(&build_a);

    assert!(!store.clear(&stale_b));
    assert_eq!(store.0, Some(current_a));
}

#[test]
fn stale_coordinator_cannot_clear_a_newer_nonce_for_the_same_build() {
    let mut store = RetryStore(None);
    let build = BuildId::new("candidate").unwrap();
    let current = store.request(&build);
    let stale = RetryIntent { version: RETRY_VERSION, build, id: RetryId::for_test(999) };

    assert!(!store.clear(&stale));
    assert_eq!(store.0, Some(current));
}
