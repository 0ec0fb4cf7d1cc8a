use toks_core::process::activated::{
    Activation as ListenerActivation, ActivationError, ActivationVar, SYSTEMD_FD_START,
};
use toks_core::process::control::{is_connection_ack, trusted_peer, Control};
use toks_core::process::handoffs::{Commit, Handoffs, Offered};
use toks_core::process::pending::{
    AbandonedStage, HandoffId, Pending, PendingError, HANDOFF_SETTLE_TIMEOUT_MS,
};
use toks_core::process::wait::{DeploymentWait, WaitKey, ACTIVATION_TIMEOUT_MS};
use toks_core::process::worker_unit::{
    parse_inventory, unit_name, unit_name_generation, Inventory, InventoryError, Liveness,
};
use toks_core::process::workers::Workers;
use toks_core::GenerationId;

fn generation(raw: u64) -> GenerationId {
    GenerationId::from_raw(raw)
}

fn activation_values(pid: &'static str, fds: &'static str, names: &'static str) -> [(&'static str, &'static str); 3] {
    [("LISTEN_PID", pid), ("LISTEN_FDS", fds), ("LISTEN_FDNAMES", names)]
}

#[test]
fn every_activation_acknowledgement_has_a_bounded_wait() {
    let now: u64 = 1_000;
    let generation = generation(3);
    for key in [
        WaitKey::WorkerReady(generation),
        WaitKey::AdmissionsPaused(generation),
        WaitKey::TargetAccepting(generation),
        WaitKey::AdmissionsResumed(generation),
    ] {
        let mut wait = DeploymentWait::default();
        wait.arm(key, now);
        assert!(wait.take_expired(now + 7_000).is_empty());
        assert_eq!(wait.take_expired(now + 8_000), [key]);
    }
}

#[test]
fn rearming_a_wait_keeps_its_first_deadline() {
    let key = WaitKey::TargetAccepting(generation(4));
    let mut wait = DeploymentWait::new();
    wait.arm(key, 100);
    wait.arm(key, 5_000);
    assert_eq!(wait.take_expired(100 + ACTIVATION_TIMEOUT_MS), [key]);
    assert!(!wait.is_armed(key));
}

#[test]
fn acknowledged_and_cleared_waits_never_expire() {
    let mut wait = DeploymentWait::new();
    wait.arm(WaitKey::WorkerReady(generation(1)), 0);
    wait.arm(WaitKey::AdmissionsPaused(generation(1)), 0);
    wait.arm(WaitKey::WorkerReady(generation(2)), 0);
    wait.acknowledge(WaitKey::WorkerReady(generation(2)));
    wait.clear_generation(generation(1));
    assert!(wait.take_expired(u64::MAX).is_empty());
}

#[test]
fn activation_requires_one_named_listener_for_this_pid() {
    let activation = ListenerActivation::new(
        &[
            ("LISTEN_PID", "71"),
            ("LISTEN_FDS", "1"),
            ("LISTEN_FDNAMES", "router"),
        ],
        71,
    );
    assert_eq!(activation.descriptor().unwrap(), 3);
}

#[test]
fn activation_and_peer_checks_reject_foreign_or_ambiguous_inputs() {
    for values in [
        activation_values("72", "1", "router"),
        activation_values("71", "2", "router"),
        activation_values("71", "1", "other"),
    ] {
        assert!(ListenerActivation::new(&values, 71).descriptor().is_err());
    }
    assert!(!trusted_peer(1001, 1000));
    assert!(trusted_peer(1000, 1000));
}

#[test]
fn activation_errors_name_what_is_wrong() {
    assert_eq!(
        ListenerActivation::new(&[("LISTEN_FDS", "1")], 71).descriptor(),
        Err(ActivationError::Missing(ActivationVar::ListenPid))
    );
    assert_eq!(
        ListenerActivation::new(&activation_values("seventy", "1", "router"), 71).descriptor(),
        Err(ActivationError::Invalid(ActivationVar::ListenPid))
    );
    assert_eq!(
        ListenerActivation::new(&activation_values("72", "1", "router"), 71).descriptor(),
        Err(ActivationError::ForeignPid(72))
    );
    assert_eq!(
        ListenerActivation::new(&activation_values("71", "0", "router"), 71).descriptor(),
        Err(ActivationError::ListenerCount(0))
    );
    assert_eq!(
        ListenerActivation::new(&activation_values("71", "1", "routers"), 71).descriptor(),
        Err(ActivationError::NotRouter)
    );
    assert_eq!(
        ListenerActivation::new(&[("LISTEN_PID", "71"), ("LISTEN_FDS", "1")], 71).descriptor(),
        Err(ActivationError::Missing(ActivationVar::ListenFdNames))
    );
    assert_eq!(ActivationVar::ListenFdNames.name(), "LISTEN_FDNAMES");
}

#[test]
fn activation_reads_numbers_as_std_parses_them() {
    let plus = ListenerActivation::new(&activation_values("+71", "+1", "router"), 71);
    assert_eq!(plus.descriptor(), Ok(SYSTEMD_FD_START));
    let spaced = ListenerActivation::new(&activation_values(" 71", "1", "router"), 71);
    assert_eq!(spaced.descriptor(), Err(ActivationError::Invalid(ActivationVar::ListenPid)));
    let huge = ListenerActivation::new(&activation_values("18446744073709551616", "1", "router"), 71);
    assert_eq!(huge.descriptor(), Err(ActivationError::Invalid(ActivationVar::ListenPid)));
    let later_wins = ListenerActivation::new(
        &[
            ("LISTEN_PID", "9"),
            ("LISTEN_PID", "71"),
            ("LISTEN_FDS", "1"),
            ("LISTEN_FDNAMES", "router"),
        ],
        71,
    );
    assert_eq!(later_wins.descriptor(), Ok(3));
}

#[test]
fn inventory_distinguishes_running_stopped_and_unknown_units() {
    let inventory = parse_inventory(
        "toks-router-worker@1.service loaded active running worker\n\
         toks-router-worker@2.service loaded failed failed worker\n\
         toks-router-worker@3.service loaded mystery mystery worker\n",
    )
    .unwrap();

    assert_eq!(inventory.get(GenerationId::from_raw(1)), Some(Liveness::Running));
    assert_eq!(inventory.get(GenerationId::from_raw(2)), Some(Liveness::Stopped));
    assert_eq!(inventory.get(GenerationId::from_raw(3)), Some(Liveness::Unknown));
}

#[test]
fn inventory_skips_blank_lines_and_keeps_the_last_row_per_unit() {
    let inventory = parse_inventory(
        "\n   \ntoks-router-worker@7.service loaded inactive dead worker\r\n\
         toks-router-worker@7.service loaded activating start worker\n",
    )
    .unwrap();
    assert_eq!(inventory.get(generation(7)), Some(Liveness::Running));
    assert_eq!(inventory.get(generation(8)), None);
    assert_eq!(inventory.entries().len(), 1);
    assert!(parse_inventory("").unwrap().entries().is_empty());
}

#[test]
fn inventory_orders_units_by_generation() {
    let inventory = parse_inventory(
        "toks-router-worker@12.service loaded active running\n\
         toks-router-worker@3.service loaded failed failed\n",
    )
    .unwrap();
    let ids: Vec<u64> = inventory.entries().iter().map(|(id, _)| id.get()).collect();
    assert_eq!(ids, vec![3, 12]);
}

#[test]
fn inventory_rejects_malformed_rows() {
    assert_eq!(
        parse_inventory("toks-router-worker@1.service").err(),
        Some(InventoryError::MissingLoadState)
    );
    assert_eq!(
        parse_inventory("toks-router-worker@1.service loaded").err(),
        Some(InventoryError::MissingActiveState)
    );
    for name in [
        "toks-router-worker@0.service",
        "toks-router-worker@x.service",
        "toks-router-worker@1.socket",
        "other@1.service",
        "toks-router-worker@.service",
    ] {
        assert_eq!(
            parse_inventory(&format!("{name} loaded active running")).err(),
            Some(InventoryError::InvalidGenerationUnit)
        );
    }
    assert_eq!(
        parse_inventory("toks-router-worker@1.service loaded active\nbroken").err(),
        Some(InventoryError::MissingLoadState)
    );
    assert_eq!(InventoryError::MissingName.message(), "worker unit row has no name");
}

#[test]
fn inventory_records_replace_earlier_units() {
    let mut inventory = Inventory::new();
    inventory.record(generation(5), Liveness::Stopped);
    inventory.record(generation(2), Liveness::Unknown);
    inventory.record(generation(5), Liveness::Running);
    assert_eq!(inventory.get(generation(5)), Some(Liveness::Running));
    assert_eq!(inventory.get(generation(2)), Some(Liveness::Unknown));
    assert_eq!(inventory.entries().len(), 2);
}

#[test]
fn connection_finalized_commit_reclaims_its_idempotency_tombstone() {
    let id = HandoffId::new(17, 3);
    let mut handoffs: Handoffs<&str> = Handoffs::default();
    handoffs.register(id, "client");
    assert!(matches!(handoffs.commit(id), Commit::New("client")));
    assert!(handoffs.is_committed(id));

    handoffs.finalize(id);

    assert!(!handoffs.is_committed(id));
}

#[test]
fn connection_finalizing_an_abandoned_handoff_drops_its_parked_descriptor() {
    let id = HandoffId::new(17, 5);
    let mut handoffs: Handoffs<&str> = Handoffs::default();
    handoffs.register(id, "client");

    handoffs.finalize(id);

    assert!(handoffs.pending_is_empty());
}

#[test]
fn connection_coordinator_epoch_change_reclaims_old_commit_tombstones() {
    let id = HandoffId::new(17, 4);
    let mut handoffs: Handoffs<&str> = Handoffs::default();
    handoffs.register(id, "client");
    assert!(matches!(handoffs.commit(id), Commit::New(_)));

    assert!(handoffs.reconcile_epoch(Some(17), 18).is_empty());

    assert!(!handoffs.is_committed(id));
}

#[test]
fn connection_tests_finalized_commit_reclaims_its_idempotency_tombstone() {
    let id = HandoffId::new(17, 3);
    let mut handoffs: Handoffs<u32> = Handoffs::new();
    handoffs.register(id, 1);
    assert!(matches!(handoffs.commit(id), Commit::New(1)));

    handoffs.finalize(id);

    assert!(!handoffs.is_committed(id));
}

#[test]
fn connection_tests_finalizing_an_abandoned_handoff_drops_its_parked_descriptor() {
    let id = HandoffId::new(17, 5);
    let mut handoffs: Handoffs<u32> = Handoffs::new();
    handoffs.register(id, 1);

    handoffs.finalize(id);

    assert!(handoffs.pending_is_empty());
}

#[test]
fn connection_tests_coordinator_epoch_change_reclaims_old_commit_tombstones() {
    let id = HandoffId::new(17, 4);
    let mut handoffs: Handoffs<u32> = Handoffs::new();
    handoffs.register(id, 1);
    assert!(matches!(handoffs.commit(id), Commit::New(1)));

    assert!(handoffs.reconcile_epoch(Some(17), 18).is_empty());

    assert!(!handoffs.is_committed(id));
}

#[test]
fn a_replayed_commit_serves_the_descriptor_once() {
    let id = HandoffId::new(9, 1);
    let mut handoffs: Handoffs<&str> = Handoffs::new();
    assert_eq!(handoffs.register(id, "first"), Offered::ConnectionAck(id));
    assert_eq!(handoffs.register(id, "duplicate"), Offered::ConnectionAck(id));
    assert!(matches!(handoffs.commit(id), Commit::New("first")));
    assert!(matches!(handoffs.commit(id), Commit::AlreadyCommitted));
    assert_eq!(handoffs.register(id, "late"), Offered::ConnectionCommitAck(id));
    assert!(handoffs.pending_is_empty());
    assert!(matches!(handoffs.commit(HandoffId::new(9, 2)), Commit::Unknown));
}

#[test]
fn a_new_coordinator_epoch_hands_back_every_parked_descriptor() {
    let mut handoffs: Handoffs<&str> = Handoffs::new();
    handoffs.register(HandoffId::new(1, 1), "a");
    handoffs.register(HandoffId::new(1, 2), "b");
    assert!(handoffs.reconcile_epoch(None, 1).is_empty());
    assert!(handoffs.reconcile_epoch(Some(1), 1).is_empty());
    assert!(handoffs.is_parked(HandoffId::new(1, 1)));
    assert_eq!(handoffs.reconcile_epoch(Some(1), 2), vec!["a", "b"]);
    assert!(handoffs.pending_is_empty());
}

#[test]
fn pending_handoffs_move_through_delivery_to_finalization() {
    let mut pending: Pending<&str> = Pending::new().unwrap();
    let epoch = pending.epoch();
    let target = generation(2);
    let id = pending.insert(target, "client", 0).unwrap();
    assert_eq!(id, HandoffId::new(epoch, 1));
    assert_eq!(pending.delivery(target, id), Some((&"client", false)));
    assert_eq!(pending.delivery(generation(3), id), None);
    assert!(pending.mark_preparing(target, id));
    assert_eq!(pending.delivery(target, id), Some((&"client", true)));
    assert!(pending.mark_committing(target, id));
    assert!(pending.begin_finalizing(target, id, 10));
    assert!(pending.begin_finalizing(target, id, 20));
    assert_eq!(pending.finalizing(target), vec![id]);
    assert!(pending.matching(target).is_empty());
    assert!(pending.has_generation(target));
    assert!(pending.acknowledge_finalized(target, id));
    assert!(!pending.acknowledge_finalized(target, id));
    assert!(pending.is_empty());
}

#[test]
fn pending_capacity_counts_tombstones_too() {
    let mut pending: Pending<u8> = Pending::with_capacity(2).unwrap();
    let target = generation(1);
    let first = pending.insert(target, 1, 0).unwrap();
    pending.insert(target, 2, 0).unwrap();
    assert!(!pending.has_capacity());
    assert_eq!(pending.insert(target, 3, 0), Err(PendingError::CapacityExhausted));
    assert!(pending.begin_finalizing(target, first, 0));
    assert!(!pending.has_capacity());
    assert!(pending.acknowledge_finalized(target, first));
    assert!(pending.has_capacity());
}

#[test]
fn unsettled_handoffs_are_reaped_after_the_settle_timeout() {
    let mut pending: Pending<u8> = Pending::new().unwrap();
    let target = generation(1);
    let queued = pending.insert(target, 1, 0).unwrap();
    let offered = pending.insert(target, 2, 0).unwrap();
    let fresh = pending.insert(target, 3, 1_000).unwrap();
    assert!(pending.mark_preparing(target, offered));
    assert!(pending.reap_expired(HANDOFF_SETTLE_TIMEOUT_MS - 1, HANDOFF_SETTLE_TIMEOUT_MS).is_empty());
    let reaped = pending.reap_expired(HANDOFF_SETTLE_TIMEOUT_MS, HANDOFF_SETTLE_TIMEOUT_MS);
    assert_eq!(reaped.len(), 2);
    assert_eq!((reaped[0].id, reaped[0].stage), (queued, AbandonedStage::Queued));
    assert_eq!((reaped[1].id, reaped[1].stage), (offered, AbandonedStage::Preparing));
    assert_eq!(reaped[1].stage.name(), "preparing");
    assert_eq!(pending.matching(target), vec![fresh]);
}

#[test]
fn worker_registry_tracks_registrations_and_flags() {
    let mut workers: Workers<&str> = Workers::new(vec![generation(1), generation(2)]);
    assert!(workers.is_disconnected(generation(1)));
    let first = workers.register(generation(1), 11, "old");
    let second = workers.register(generation(1), 12, "new");
    assert_eq!((first, second), (1, 2));
    assert!(!workers.is_disconnected(generation(1)));
    assert!(workers.is_disconnected(generation(2)));
    assert!(!workers.is_current(generation(1), first));
    assert!(workers.is_current(generation(1), second));
    assert_eq!(workers.channel_for(generation(1)), Some(&"new"));
    assert_eq!(workers.ready_instance(generation(1)), None);
    workers.mark_ready(generation(1));
    assert_eq!(workers.ready_instance(generation(1)), Some(12));
    assert_eq!(workers.ready_generations(), vec![generation(1)]);
    assert!(workers.mark_accepting(generation(1)));
    assert!(!workers.mark_accepting(generation(1)));
    workers.mark_admissions_paused(generation(1));
    assert!(!workers.is_accepting(generation(1)));
    assert!(workers.is_draining(generation(1)));
    workers.disconnect(generation(1));
    assert!(!workers.contains(generation(1)));
    assert!(workers.is_disconnected(generation(1)));
    workers.mark_stopped_generations(vec![generation(4), generation(5)]);
    workers.mark_stopped(generation(4));
    assert!(workers.is_stopped(generation(4)) && workers.is_stopped(generation(5)));
    assert!(!workers.is_stopped(generation(6)));
}

#[test]
fn connection_acknowledgements_are_recognized() {
    let id = HandoffId::new(1, 1);
    assert!(is_connection_ack(&Control::ConnectionAck { handoff_id: id }));
    assert!(is_connection_ack(&Control::ConnectionCommitAck { handoff_id: id }));
    assert!(is_connection_ack(&Control::ConnectionFinalizedAck { handoff_id: id }));
    assert!(!is_connection_ack(&Control::Ready { generation: generation(1) }));
    assert!(!is_connection_ack(&Control::ConnectionCommitted { handoff_id: id }));
}

#[test]
fn pending_errors_carry_their_messages() {
    assert_eq!(PendingError::CapacityExhausted.message(), "router handoff capacity exhausted");
    assert_eq!(PendingError::SequenceExhausted.message(), "router handoff sequence exhausted");
    assert_eq!(
        PendingError::RandomnessUnavailable.message(),
        "no randomness for the coordinator epoch"
    );
}

#[test]
fn unit_names_read_back_as_their_generation() {
    assert_eq!(unit_name(GenerationId(42)), "toks-router-worker@42.service");
    assert_eq!(unit_name(GenerationId(7)), "toks-router-worker@7.service");
    for generation in [1_u64, 9, 10, 1234567, u64::MAX] {
        let chars: Vec<char> = unit_name(GenerationId(generation)).chars().collect();
        assert_eq!(unit_name_generation(&chars), Some(generation));
    }
}

#[test]
fn a_clock_reading_before_arming_counts_as_no_time_elapsed() {
    let mut pending: Pending<u8> = Pending::new().unwrap();
    let target = generation(1);
    let id = pending.insert(target, 1, 10).unwrap();
    assert!(pending.reap_expired(5, 1).is_empty());
    let reaped = pending.reap_expired(5, 0);
    assert_eq!(reaped.len(), 1);
    assert_eq!(reaped[0].id, id);
    assert_eq!(reaped[0].stage, AbandonedStage::Queued);
}
