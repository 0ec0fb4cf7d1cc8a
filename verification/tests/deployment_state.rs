use serde_json::Value;
use toks_core::{
    Activation, ActivationPhase, BuildId, DeployError, DeployPlan, DeploymentEvent,
    DeploymentState, Generation, GenerationId, GenerationStatus, PersistedState, RetryId,
    RetryReceipt,
};

fn build(value: &str) -> BuildId {
    BuildId::new(value).unwrap()
}

fn stage(state: &mut DeploymentState, name: &str) -> GenerationId {
    let plan = state.plan_deploy(build(name)).unwrap();
    let DeployPlan::StageTarget { target, .. } = plan else {
        panic!("expected staging plan, got {plan:?}");
    };
    target
}

fn activate_first(state: &mut DeploymentState, name: &str) -> GenerationId {
    let target = stage(state, name);
    assert_eq!(
        state.reconcile(DeploymentEvent::Prepared { target }).unwrap(),
        DeployPlan::PauseAdmissions { previous: None, target }
    );
    assert_eq!(
        state.reconcile(DeploymentEvent::PreviousPaused { target }).unwrap(),
        DeployPlan::StartAccepting { target }
    );
    assert_eq!(
        state.reconcile(DeploymentEvent::TargetAccepting { target }).unwrap(),
        DeployPlan::Settled { active: Some(target) }
    );
    target
}

fn complete_activation(state: &mut DeploymentState, target: GenerationId) {
    state.reconcile(DeploymentEvent::Prepared { target }).unwrap();
    state.reconcile(DeploymentEvent::PreviousPaused { target }).unwrap();
    state.reconcile(DeploymentEvent::TargetAccepting { target }).unwrap();
}

fn complete_activation_failure(state: &mut DeploymentState, target: GenerationId) {
    state.reconcile(DeploymentEvent::Prepared { target }).unwrap();
    state.reconcile(DeploymentEvent::PreviousPaused { target }).unwrap();
    state
        .reconcile(DeploymentEvent::Failed { generation: target, reason: "candidate failed".into() })
        .unwrap();
}

// The persisted JSON layout: camelCase fields, generations keyed by id and
// retry receipts keyed by nonce.

fn status_name(status: GenerationStatus) -> &'static str {
    match status {
        GenerationStatus::Staged => "staged",
        GenerationStatus::Active => "active",
        GenerationStatus::Draining => "draining",
        GenerationStatus::Retired => "retired",
        GenerationStatus::Failed => "failed",
    }
}

fn status_from(name: &str) -> GenerationStatus {
    match name {
        "staged" => GenerationStatus::Staged,
        "active" => GenerationStatus::Active,
        "draining" => GenerationStatus::Draining,
        "retired" => GenerationStatus::Retired,
        "failed" => GenerationStatus::Failed,
        other => panic!("unknown status {other}"),
    }
}

fn phase_name(phase: ActivationPhase) -> &'static str {
    match phase {
        ActivationPhase::Prepared => "prepared",
        ActivationPhase::PreviousPaused => "previousPaused",
        ActivationPhase::TargetAccepting => "targetAccepting",
    }
}

fn phase_from(name: &str) -> ActivationPhase {
    match name {
        "prepared" => ActivationPhase::Prepared,
        "previousPaused" => ActivationPhase::PreviousPaused,
        "targetAccepting" => ActivationPhase::TargetAccepting,
        other => panic!("unknown phase {other}"),
    }
}

fn optional_text(value: &Option<String>) -> Value {
    value.clone().map(Value::from).unwrap_or(Value::Null)
}

fn optional_id(value: Option<GenerationId>) -> Value {
    value.map(|id| Value::from(id.get())).unwrap_or(Value::Null)
}

fn to_json(state: &DeploymentState) -> Value {
    let persisted = state.to_persisted();
    let mut generations = serde_json::Map::new();
    for (id, generation) in &persisted.generations {
        let mut record = serde_json::Map::new();
        record.insert("build".into(), Value::from(generation.build.as_str()));
        record.insert("status".into(), Value::from(status_name(generation.status)));
        record.insert(
            "activeConnections".into(),
            generation.active_connections.map(Value::from).unwrap_or(Value::Null),
        );
        record.insert("failure".into(), optional_text(&generation.failure));
        generations.insert(id.get().to_string(), Value::Object(record));
    }
    let activation = persisted.activation.as_ref().map(|activation| {
        let mut record = serde_json::Map::new();
        record.insert("target".into(), Value::from(activation.target.get()));
        record.insert("previous".into(), optional_id(activation.previous));
        record.insert("phase".into(), Value::from(phase_name(activation.phase)));
        record.insert("failure".into(), optional_text(&activation.failure));
        Value::Object(record)
    });
    let mut receipts = serde_json::Map::new();
    for (id, receipt) in &persisted.retry_receipts {
        let mut record = serde_json::Map::new();
        record.insert("build".into(), Value::from(receipt.build.as_str()));
        record.insert("generation".into(), Value::from(receipt.generation.get()));
        receipts.insert(id.as_str().to_owned(), Value::Object(record));
    }
    let mut root = serde_json::Map::new();
    root.insert("version".into(), Value::from(persisted.version));
    root.insert("nextGeneration".into(), Value::from(persisted.next_generation));
    root.insert("generations".into(), Value::Object(generations));
    root.insert("activation".into(), activation.unwrap_or(Value::Null));
    root.insert("lastRollback".into(), optional_id(persisted.last_rollback));
    root.insert("retryReceipts".into(), Value::Object(receipts));
    Value::Object(root)
}

fn text_field(value: &Value) -> Option<String> {
    value.as_str().map(str::to_owned)
}

fn id_field(value: &Value) -> Option<GenerationId> {
    value.as_u64().map(GenerationId::from_raw)
}

fn from_json(json: Value) -> DeploymentState {
    let generations = json["generations"]
        .as_object()
        .unwrap()
        .iter()
        .map(|(id, record)| {
            (
                GenerationId::from_raw(id.parse().unwrap()),
                Generation {
                    build: BuildId::from_persisted(record["build"].as_str().unwrap().to_owned()),
                    status: status_from(record["status"].as_str().unwrap()),
                    active_connections: record["activeConnections"].as_u64(),
                    failure: text_field(&record["failure"]),
                },
            )
        })
        .collect();
    let activation = json["activation"].as_object().map(|record| Activation {
        target: id_field(&record["target"]).unwrap(),
        previous: id_field(&record["previous"]),
        phase: phase_from(record["phase"].as_str().unwrap()),
        failure: text_field(&record["failure"]),
    });
    let retry_receipts = json["retryReceipts"]
        .as_object()
        .map(|receipts| {
            receipts
                .iter()
                .map(|(id, record)| {
                    (
                        RetryId::from_persisted(id.clone()),
                        RetryReceipt {
                            build: BuildId::from_persisted(record["build"].as_str().unwrap().to_owned()),
                            generation: id_field(&record["generation"]).unwrap(),
                        },
                    )
                })
                .collect()
        })
        .unwrap_or_default();
    DeploymentState::from_persisted(PersistedState {
        version: json["version"].as_u64().unwrap() as u8,
        next_generation: json["nextGeneration"].as_u64().unwrap(),
        generations,
        activation,
        last_rollback: id_field(&json["lastRollback"]),
        retry_receipts,
    })
}

fn round_trip(state: &DeploymentState) -> DeploymentState {
    from_json(serde_json::from_str(&serde_json::to_string(&to_json(state)).unwrap()).unwrap())
}

fn replayed_plan(state: &DeploymentState, build_id: &str) -> DeployPlan {
    let mut recovered = round_trip(state);
    recovered.plan_deploy(build(build_id)).unwrap()
}

#[test]
fn first_deployment_replays_every_crash_phase_idempotently() {
    let mut state = DeploymentState::default();
    let target = stage(&mut state, "build-a");
    assert_eq!(
        state.plan_deploy(build("build-a")).unwrap(),
        DeployPlan::StageTarget { target, build: build("build-a") }
    );

    let paused = state.reconcile(DeploymentEvent::Prepared { target }).unwrap();
    assert_eq!(state.plan_deploy(build("build-a")).unwrap(), paused);
    assert_eq!(
        round_trip(&state).reconcile(DeploymentEvent::Prepared { target }).unwrap(),
        paused
    );

    let accepting = state.reconcile(DeploymentEvent::PreviousPaused { target }).unwrap();
    assert_eq!(state.plan_deploy(build("build-a")).unwrap(), accepting);
    assert_eq!(
        state.reconcile(DeploymentEvent::PreviousPaused { target }).unwrap(),
        accepting
    );
    let settled = state.reconcile(DeploymentEvent::TargetAccepting { target }).unwrap();
    assert_eq!(state.plan_deploy(build("build-a")).unwrap(), settled);
    assert_eq!(
        state.reconcile(DeploymentEvent::TargetAccepting { target }).unwrap(),
        settled
    );
    assert_eq!(
        state.snapshot().activation.unwrap().phase,
        ActivationPhase::TargetAccepting
    );
}

#[test]
fn draining_requires_a_fresh_zero_after_admissions_pause() {
    let mut state = DeploymentState::default();
    let previous = activate_first(&mut state, "build-a");
    state
        .reconcile(DeploymentEvent::ConnectionsObserved { generation: previous, active: 0 })
        .unwrap();

    let target = stage(&mut state, "build-b");
    state.reconcile(DeploymentEvent::Prepared { target }).unwrap();
    state.reconcile(DeploymentEvent::PreviousPaused { target }).unwrap();
    let previous_snapshot = state
        .snapshot()
        .generations
        .into_iter()
        .find(|generation| generation.id == previous)
        .unwrap();
    assert_eq!(previous_snapshot.status, GenerationStatus::Draining);
    assert_eq!(previous_snapshot.active_connections, None);
    assert_eq!(
        state.reconcile(DeploymentEvent::TargetAccepting { target }).unwrap(),
        DeployPlan::Settled { active: Some(target) }
    );

    assert_eq!(
        state
            .reconcile(DeploymentEvent::ConnectionsObserved { generation: previous, active: 0 })
            .unwrap(),
        DeployPlan::Retire { generation: previous }
    );
    assert_eq!(
        state.reconcile(DeploymentEvent::Retired { generation: previous }).unwrap(),
        DeployPlan::Settled { active: Some(target) }
    );
}

#[test]
fn nonzero_draining_generation_is_never_retired() {
    let mut state = DeploymentState::default();
    let previous = activate_first(&mut state, "build-a");
    let target = stage(&mut state, "build-b");
    state.reconcile(DeploymentEvent::Prepared { target }).unwrap();
    state.reconcile(DeploymentEvent::PreviousPaused { target }).unwrap();
    state.reconcile(DeploymentEvent::TargetAccepting { target }).unwrap();
    assert_eq!(
        state
            .reconcile(DeploymentEvent::ConnectionsObserved { generation: previous, active: 9 })
            .unwrap(),
        DeployPlan::Settled { active: Some(target) }
    );
    let before = state.snapshot();
    assert!(matches!(
        state.reconcile(DeploymentEvent::Retired { generation: previous }),
        Err(DeployError::InvalidTransition(_))
    ));
    assert_eq!(state.snapshot(), before);
}

#[test]
fn failure_after_pause_replays_rollback_until_previous_accepts() {
    let mut state = DeploymentState::default();
    let previous = activate_first(&mut state, "build-a");
    let target = stage(&mut state, "build-b");
    state.reconcile(DeploymentEvent::Prepared { target }).unwrap();
    state.reconcile(DeploymentEvent::PreviousPaused { target }).unwrap();
    let rollback = state
        .reconcile(DeploymentEvent::Failed { generation: target, reason: "readiness failed".into() })
        .unwrap();
    assert_eq!(rollback, DeployPlan::ResumeAdmissions { previous, failed_target: target });
    let mut restored = round_trip(&state);
    assert_eq!(
        restored
            .reconcile(DeploymentEvent::Failed { generation: target, reason: "duplicate report".into() })
            .unwrap(),
        rollback
    );
    assert_eq!(
        restored
            .reconcile(DeploymentEvent::AdmissionsResumed { failed_target: target })
            .unwrap(),
        DeployPlan::Settled { active: Some(previous) }
    );
    assert!(restored
        .reconcile(DeploymentEvent::AdmissionsResumed { failed_target: target })
        .is_ok());
    assert_eq!(restored.snapshot().last_rollback, Some(target));
}

#[test]
fn failure_before_pause_leaves_previous_active() {
    let mut state = DeploymentState::default();
    let previous = activate_first(&mut state, "build-a");
    let target = stage(&mut state, "build-b");
    state.reconcile(DeploymentEvent::Prepared { target }).unwrap();
    assert_eq!(
        state
            .reconcile(DeploymentEvent::Failed { generation: target, reason: "bad artifact".into() })
            .unwrap(),
        DeployPlan::Settled { active: Some(previous) }
    );
    assert_eq!(
        state.plan_deploy(build("build-b")).unwrap(),
        DeployPlan::Unavailable { failed_target: target, active: Some(previous) }
    );
}

#[test]
fn different_build_is_rejected_during_incomplete_handoff() {
    let mut state = DeploymentState::default();
    stage(&mut state, "build-a");
    assert_eq!(state.plan_deploy(build("build-b")), Err(DeployError::DeploymentBusy));
}

#[test]
fn a_new_deployment_does_not_confuse_an_older_draining_generation() {
    let mut state = DeploymentState::default();
    let oldest = activate_first(&mut state, "build-a");
    let middle = stage(&mut state, "build-b");
    state.reconcile(DeploymentEvent::Prepared { target: middle }).unwrap();
    state.reconcile(DeploymentEvent::PreviousPaused { target: middle }).unwrap();
    state.reconcile(DeploymentEvent::TargetAccepting { target: middle }).unwrap();
    state
        .reconcile(DeploymentEvent::ConnectionsObserved { generation: oldest, active: 3 })
        .unwrap();

    let newest = stage(&mut state, "build-c");
    state.reconcile(DeploymentEvent::Prepared { target: newest }).unwrap();
    state.reconcile(DeploymentEvent::PreviousPaused { target: newest }).unwrap();
    state.reconcile(DeploymentEvent::TargetAccepting { target: newest }).unwrap();

    let snapshot = state.snapshot();
    let status = |id| {
        snapshot
            .generations
            .iter()
            .find(|generation| generation.id == id)
            .unwrap()
            .status
    };
    assert_eq!(status(oldest), GenerationStatus::Draining);
    assert_eq!(status(middle), GenerationStatus::Draining);
    assert_eq!(status(newest), GenerationStatus::Active);
    assert_eq!(
        state
            .reconcile(DeploymentEvent::ConnectionsObserved { generation: oldest, active: 0 })
            .unwrap(),
        DeployPlan::Retire { generation: oldest }
    );
}

#[test]
fn target_can_take_over_if_previous_fails_during_handoff() {
    let mut state = DeploymentState::default();
    let previous = activate_first(&mut state, "build-a");
    let target = stage(&mut state, "build-b");
    state.reconcile(DeploymentEvent::Prepared { target }).unwrap();
    assert_eq!(
        state
            .reconcile(DeploymentEvent::Failed { generation: previous, reason: "worker exited".into() })
            .unwrap(),
        DeployPlan::PauseAdmissions { previous: Some(previous), target }
    );
    assert_eq!(
        state.reconcile(DeploymentEvent::PreviousPaused { target }).unwrap(),
        DeployPlan::StartAccepting { target }
    );
    assert_eq!(
        state.reconcile(DeploymentEvent::TargetAccepting { target }).unwrap(),
        DeployPlan::Settled { active: Some(target) }
    );
}

#[test]
fn persisted_phase_names_and_invalid_state_are_detectable() {
    let mut state = DeploymentState::default();
    let target = stage(&mut state, "build-a");
    state.reconcile(DeploymentEvent::Prepared { target }).unwrap();
    state.reconcile(DeploymentEvent::PreviousPaused { target }).unwrap();
    let mut json = to_json(&state);
    assert_eq!(json["activation"]["phase"], "previousPaused");
    json["nextGeneration"] = 0.into();
    let invalid = from_json(json);
    assert_eq!(
        invalid.validate(),
        Err(DeployError::InvalidPersistedState("invalid generation id"))
    );
}

#[test]
fn blank_build_ids_are_rejected() {
    assert_eq!(BuildId::new("  "), Err(DeployError::InvalidBuildId));
}

#[test]
fn recovered_state_allocates_after_existing_generation_directories() {
    let mut state = DeploymentState::default();
    state.reserve_generation_ids_after(41).unwrap();
    assert!(matches!(
        state.plan_deploy(build("recovered-build")).unwrap(),
        DeployPlan::StageTarget { target, .. } if target.get() == 42
    ));
}

#[test]
fn stale_rollback_and_retired_connection_reports_are_rejected() {
    let mut state = DeploymentState::default();
    let active = activate_first(&mut state, "build-a");
    assert!(matches!(
        state.reconcile(DeploymentEvent::AdmissionsResumed { failed_target: active }),
        Err(DeployError::InvalidTransition(_))
    ));

    let target = stage(&mut state, "build-b");
    state.reconcile(DeploymentEvent::Prepared { target }).unwrap();
    state.reconcile(DeploymentEvent::PreviousPaused { target }).unwrap();
    state.reconcile(DeploymentEvent::TargetAccepting { target }).unwrap();
    state
        .reconcile(DeploymentEvent::ConnectionsObserved { generation: active, active: 0 })
        .unwrap();
    state.reconcile(DeploymentEvent::Retired { generation: active }).unwrap();
    assert!(matches!(
        state.reconcile(DeploymentEvent::ConnectionsObserved { generation: active, active: 1 }),
        Err(DeployError::InvalidTransition(_))
    ));
}

#[test]
fn persisted_handoff_phases_replay_the_same_next_action() {
    let mut state = DeploymentState::default();
    let previous = activate_first(&mut state, "build-a");
    let target = stage(&mut state, "build-b");
    assert!(matches!(
        replayed_plan(&state, "build-b"),
        DeployPlan::StageTarget { target: found, .. } if found == target
    ));

    state.reconcile(DeploymentEvent::Prepared { target }).unwrap();
    assert_eq!(
        replayed_plan(&state, "build-b"),
        DeployPlan::PauseAdmissions { previous: Some(previous), target }
    );

    state.reconcile(DeploymentEvent::PreviousPaused { target }).unwrap();
    assert_eq!(replayed_plan(&state, "build-b"), DeployPlan::StartAccepting { target });

    state.reconcile(DeploymentEvent::TargetAccepting { target }).unwrap();
    assert_eq!(
        replayed_plan(&state, "build-b"),
        DeployPlan::Settled { active: Some(target) }
    );

    state
        .reconcile(DeploymentEvent::ConnectionsObserved { generation: previous, active: 0 })
        .unwrap();
    assert_eq!(
        replayed_plan(&state, "build-b"),
        DeployPlan::Retire { generation: previous }
    );
}

#[test]
fn redeploying_a_retired_build_creates_a_fresh_generation() {
    let mut state = DeploymentState::default();
    let first_a = activate_first(&mut state, "build-a");
    let b = stage(&mut state, "build-b");
    complete_activation(&mut state, b);
    state
        .reconcile(DeploymentEvent::ConnectionsObserved { generation: first_a, active: 0 })
        .unwrap();
    state.reconcile(DeploymentEvent::Retired { generation: first_a }).unwrap();
    let mut state = round_trip(&state);

    let DeployPlan::StageTarget { target: second_a, build: target_build } =
        state.plan_deploy(build("build-a")).unwrap()
    else {
        panic!("retired build must be staged as a new generation");
    };
    assert_ne!(second_a, first_a);
    assert_eq!(target_build, build("build-a"));

    complete_activation(&mut state, second_a);
    assert_eq!(
        state.plan_deploy(build("build-a")).unwrap(),
        DeployPlan::Settled { active: Some(second_a) }
    );
}

#[test]
fn newest_retired_attempt_shadows_older_failure_when_redeploying_same_build() {
    let mut state = DeploymentState::default();
    let first_a = stage(&mut state, "build-a");
    state
        .reconcile(DeploymentEvent::Failed { generation: first_a, reason: "first attempt failed".into() })
        .unwrap();
    assert!(state.consume_retry(build("build-a"), RetryId::for_test(1)).unwrap());
    let second_a = state
        .snapshot()
        .generations
        .iter()
        .find(|generation| {
            generation.build == build("build-a") && generation.status == GenerationStatus::Staged
        })
        .unwrap()
        .id;
    complete_activation(&mut state, second_a);

    let b = stage(&mut state, "build-b");
    complete_activation(&mut state, b);
    state
        .reconcile(DeploymentEvent::ConnectionsObserved { generation: second_a, active: 0 })
        .unwrap();
    state.reconcile(DeploymentEvent::Retired { generation: second_a }).unwrap();
    let mut recovered = round_trip(&state);

    let DeployPlan::StageTarget { target: third_a, build: target_build } =
        recovered.plan_deploy(build("build-a")).unwrap()
    else {
        panic!("the newest retired attempt must shadow older failed history");
    };
    assert_ne!(third_a, first_a);
    assert_ne!(third_a, second_a);
    assert_eq!(target_build, build("build-a"));
}

#[test]
fn active_retry_remains_current_despite_older_failure() {
    let mut state = DeploymentState::default();
    let failed = stage(&mut state, "build-a");
    state
        .reconcile(DeploymentEvent::Failed { generation: failed, reason: "first attempt failed".into() })
        .unwrap();
    let Some(DeployPlan::StageTarget { target: retry, .. }) =
        state.retry_deploy(build("build-a")).unwrap()
    else {
        panic!("retry must stage a fresh generation");
    };
    complete_activation(&mut state, retry);

    assert_eq!(
        state.plan_deploy(build("build-a")).unwrap(),
        DeployPlan::Settled { active: Some(retry) }
    );
}

#[test]
fn newest_failed_attempt_remains_authoritative_over_older_retired_attempt() {
    let mut state = DeploymentState::default();
    let first_a = activate_first(&mut state, "build-a");
    let b = stage(&mut state, "build-b");
    complete_activation(&mut state, b);
    state
        .reconcile(DeploymentEvent::ConnectionsObserved { generation: first_a, active: 0 })
        .unwrap();
    state.reconcile(DeploymentEvent::Retired { generation: first_a }).unwrap();
    let failed_a = stage(&mut state, "build-a");
    state
        .reconcile(DeploymentEvent::Failed { generation: failed_a, reason: "new deployment failed".into() })
        .unwrap();

    assert_eq!(
        state.plan_deploy(build("build-a")).unwrap(),
        DeployPlan::Unavailable { failed_target: failed_a, active: Some(b) }
    );
}

#[test]
fn newest_draining_attempt_shadows_older_failure_when_redeploying_same_build() {
    let mut state = DeploymentState::default();
    let failed = stage(&mut state, "build-a");
    state
        .reconcile(DeploymentEvent::Failed { generation: failed, reason: "first attempt failed".into() })
        .unwrap();
    let Some(DeployPlan::StageTarget { target: retry, .. }) =
        state.retry_deploy(build("build-a")).unwrap()
    else {
        panic!("retry must stage a fresh generation");
    };
    complete_activation(&mut state, retry);
    let b = stage(&mut state, "build-b");
    complete_activation(&mut state, b);

    let DeployPlan::StageTarget { target, .. } = state.plan_deploy(build("build-a")).unwrap()
    else {
        panic!("draining attempt must shadow the obsolete failure");
    };
    assert_ne!(target, failed);
    assert_ne!(target, retry);
}

#[test]
fn terminal_failed_activation_does_not_block_a_later_deployment() {
    let mut state = DeploymentState::default();
    let failed = stage(&mut state, "build-a");
    state.reconcile(DeploymentEvent::Prepared { target: failed }).unwrap();
    state.reconcile(DeploymentEvent::PreviousPaused { target: failed }).unwrap();
    state
        .reconcile(DeploymentEvent::Failed { generation: failed, reason: "worker exited".into() })
        .unwrap();

    let recovered = round_trip(&state);
    assert!(matches!(
        recovered.clone().plan_deploy(build("build-a")),
        Ok(DeployPlan::Unavailable { failed_target, active: None }) if failed_target == failed
    ));
    assert!(matches!(
        recovered.clone().plan_deploy(build("build-b")),
        Ok(DeployPlan::StageTarget { build: target_build, .. }) if target_build == build("build-b")
    ));
}

#[test]
fn persisted_state_rejects_two_staged_attempts() {
    let mut state = DeploymentState::default();
    stage(&mut state, "build-a");
    let mut json = to_json(&state);
    let mut second = json["generations"]["1"].clone();
    second["build"] = "build-b".into();
    json["generations"]["2"] = second;
    json["nextGeneration"] = 3.into();

    let invalid = from_json(json);
    assert_eq!(
        invalid.validate(),
        Err(DeployError::InvalidPersistedState("multiple staged generations"))
    );
}

#[test]
fn explicit_retry_of_a_failed_build_allocates_a_fresh_generation() {
    let mut state = DeploymentState::default();
    let failed = stage(&mut state, "build-a");
    state
        .reconcile(DeploymentEvent::Failed { generation: failed, reason: "candidate failed".into() })
        .unwrap();

    assert!(matches!(
        state.clone().plan_deploy(build("build-a")),
        Ok(DeployPlan::Unavailable { failed_target, .. }) if failed_target == failed
    ));
    let Some(DeployPlan::StageTarget { target, build: retried }) =
        state.retry_deploy(build("build-a")).unwrap()
    else {
        panic!("explicit retry did not stage a target")
    };
    assert_ne!(target, failed);
    assert_eq!(retried, build("build-a"));
}

#[test]
fn explicit_retry_is_idempotent_after_the_fresh_attempt_is_staged() {
    let mut state = DeploymentState::default();
    let failed = stage(&mut state, "build-a");
    state
        .reconcile(DeploymentEvent::Failed { generation: failed, reason: "candidate failed".into() })
        .unwrap();
    let first = state.retry_deploy(build("build-a")).unwrap();

    assert_eq!(state.retry_deploy(build("build-a")).unwrap(), first);
}

#[test]
fn retry_intent_waits_for_failed_activation_rollback_to_settle() {
    let mut state = DeploymentState::default();
    let previous = activate_first(&mut state, "build-a");
    let failed = stage(&mut state, "build-b");
    state.reconcile(DeploymentEvent::Prepared { target: failed }).unwrap();
    state.reconcile(DeploymentEvent::PreviousPaused { target: failed }).unwrap();
    state
        .reconcile(DeploymentEvent::Failed { generation: failed, reason: "candidate failed".into() })
        .unwrap();

    assert_eq!(state.retry_deploy(build("build-b")).unwrap(), None);
    state
        .reconcile(DeploymentEvent::AdmissionsResumed { failed_target: failed })
        .unwrap();
    let Some(DeployPlan::StageTarget { target, .. }) = state.retry_deploy(build("build-b")).unwrap()
    else {
        panic!("retry did not stage after rollback")
    };
    assert_ne!(target, failed);
    assert_eq!(state.snapshot().last_rollback, Some(failed));
    assert_eq!(
        state
            .snapshot()
            .generations
            .iter()
            .find(|item| item.id == previous)
            .unwrap()
            .status,
        GenerationStatus::Active
    );
}

#[test]
fn persisted_retry_receipt_prevents_reallocation_after_the_retry_later_fails() {
    let mut state = DeploymentState::default();
    let previous = activate_first(&mut state, "build-a");
    let first_failed = stage(&mut state, "build-b");
    complete_activation_failure(&mut state, first_failed);
    state
        .reconcile(DeploymentEvent::AdmissionsResumed { failed_target: first_failed })
        .unwrap();
    let retry = RetryId::for_test(2);
    assert!(state.consume_retry(build("build-b"), retry.clone()).unwrap());
    let retried = state
        .snapshot()
        .generations
        .iter()
        .find(|generation| {
            generation.build == build("build-b")
                && generation.id != first_failed
                && generation.status == GenerationStatus::Staged
        })
        .unwrap()
        .id;

    let mut recovered = round_trip(&state);
    complete_activation_failure(&mut recovered, retried);
    recovered
        .reconcile(DeploymentEvent::AdmissionsResumed { failed_target: retried })
        .unwrap();
    let attempts_before = recovered.snapshot().generations.len();

    assert!(recovered.consume_retry(build("build-b"), retry).unwrap());
    assert_eq!(recovered.snapshot().generations.len(), attempts_before);
    assert_eq!(
        recovered.current_plan().unwrap(),
        DeployPlan::Settled { active: Some(previous) }
    );
}

#[test]
fn retry_nonce_cannot_be_reused_for_another_build_or_corrupt_receipt() {
    let mut state = DeploymentState::default();
    let failed = stage(&mut state, "build-a");
    state
        .reconcile(DeploymentEvent::Failed { generation: failed, reason: "candidate failed".into() })
        .unwrap();
    let retry = RetryId::for_test(3);
    assert!(state.consume_retry(build("build-a"), retry.clone()).unwrap());
    assert_eq!(
        state.consume_retry(build("build-b"), retry.clone()),
        Err(DeployError::InvalidTransition("retry id build mismatch"))
    );

    let mut corrupted = to_json(&state);
    corrupted["retryReceipts"][retry.as_str()]["build"] = "build-b".into();
    let corrupted = from_json(corrupted);
    assert_eq!(
        corrupted.validate(),
        Err(DeployError::InvalidPersistedState("invalid retry receipt"))
    );
}

#[test]
fn retry_ids_accept_only_canonical_uuids_and_the_legacy_sentinel() {
    assert!(RetryId::new("00000000-0000-4000-8000-000000000001").is_ok());
    assert!(RetryId::new("legacy-v1").is_ok());
    for invalid in [
        "",
        "retry-one",
        "LEGACY-V1",
        "{00000000-0000-4000-8000-000000000001}",
        "00000000-0000-4000-8000-00000000000A",
    ] {
        assert_eq!(RetryId::new(invalid), Err(DeployError::InvalidRetryId));
    }
}

#[test]
fn generated_retry_ids_are_canonical_and_distinct() {
    let first = RetryId::fresh().unwrap();
    let second = RetryId::fresh().unwrap();

    assert!(first.is_valid());
    assert!(second.is_valid());
    assert_ne!(first, second);
    assert_eq!(first.as_str(), first.as_str().to_ascii_lowercase());
}

#[test]
fn persisted_retry_receipts_reject_noncanonical_ids() {
    let mut state = DeploymentState::default();
    let failed = stage(&mut state, "candidate");
    state
        .reconcile(DeploymentEvent::Failed { generation: failed, reason: "failed".into() })
        .unwrap();
    let retry = RetryId::for_test(8);
    state.consume_retry(build("candidate"), retry.clone()).unwrap();
    let mut stored = to_json(&state);
    let receipts = stored["retryReceipts"].as_object_mut().unwrap();
    let receipt = receipts.remove(retry.as_str()).unwrap();
    receipts.insert("not-a-retry-id".into(), receipt);
    let recovered = from_json(stored);

    assert_eq!(
        recovered.validate(),
        Err(DeployError::InvalidPersistedState("invalid retry receipt"))
    );
}

#[test]
fn deploy_errors_describe_themselves_as_debug_prints_them() {
    assert_eq!(DeployError::DeploymentBusy.describe(), "DeploymentBusy");
    assert_eq!(
        DeployError::UnknownGeneration(toks_core::GenerationId(7)).describe(),
        "UnknownGeneration(GenerationId(7))"
    );
    assert_eq!(
        DeployError::InvalidTransition("no activation").describe(),
        "InvalidTransition(\"no activation\")"
    );
}

#[test]
fn a_retry_that_only_continues_another_build_binds_nothing() {
    let mut state = DeploymentState::default();
    let active = activate_first(&mut state, "build-a");
    let staged = stage(&mut state, "build-c");
    let retry = RetryId::default();
    assert_eq!(state.consume_retry(build("build-a"), retry.clone()), Ok(false));
    assert_eq!(state.validate(), Ok(()));
    assert_eq!(state.consume_retry(build("build-c"), retry.clone()), Ok(true));
    assert_eq!(state.validate(), Ok(()));
    assert_eq!(state.consume_retry(build("build-c"), retry), Ok(true));
    let snapshot = state.snapshot();
    assert_eq!(snapshot.generations.len(), 2);
    assert_ne!(active, staged);
}

#[test]
fn deploy_error_text_matches_debug_for_every_variant() {
    let errors = vec![
        DeployError::InvalidBuildId,
        DeployError::InvalidRetryId,
        DeployError::DeploymentBusy,
        DeployError::UnknownGeneration(toks_core::GenerationId(0)),
        DeployError::UnknownGeneration(toks_core::GenerationId(u64::MAX)),
        DeployError::InvalidTransition("retry id build mismatch"),
        DeployError::InvalidPersistedState("invalid retry receipt"),
        DeployError::InvalidTransition("quote \" slash \\ tab \t cr \r nl \n nul \0 bell \u{7} del \u{7f} accent é"),
        DeployError::GenerationIdsExhausted,
    ];
    for error in errors {
        assert_eq!(error.describe(), format!("{error:?}"));
    }
}
