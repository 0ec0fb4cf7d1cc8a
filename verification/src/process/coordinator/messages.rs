//! What the coordinator does with worker connections, reports and silences.

use vstd::prelude::*;

use super::advance::recorded;
use super::{knows, known_live, Coordinator};
use crate::model::{DeployError, DeployPlan, DeploymentEvent, GenerationId};
use crate::process::control::{is_connection_ack, spec_is_connection_ack, Control};
use crate::process::pending::{DeliveryPhase, HandoffId};
use crate::process::wait::{expired, not_generation, not_key, pending_at, WaitKey};
use crate::process::worker_unit::{Inventory, Liveness};
use crate::process::workers::{WorkersModel, WorkerSlot};
use crate::search::keep;
use crate::state::{DeploymentModel, DeploymentState};

verus! {

/// What the caller must do after a worker message.
#[derive(Debug, PartialEq, Eq)]
pub struct Reaction {
    /// The deployment state changed and must be saved.
    pub save: bool,
    /// A control message to send, best effort.
    pub send: Option<(GenerationId, Control)>,
    /// The worker accepts for the first time since it registered: retry the
    /// handoffs parked for it.
    pub retry_pending: bool,
}

pub open spec fn quiet() -> Reaction {
    Reaction { save: false, send: None, retry_pending: false }
}

/// A message to `generation` when the deployment state knows it; an
/// acknowledgement can outlive its generation's entry, so a missing one is
/// retirement, not a fault.
pub open spec fn send_if_known(m: DeploymentModel, generation: GenerationId, control: Control) -> Option<
    (GenerationId, Control),
> {
    if knows(m, generation) {
        Some((generation, control))
    } else {
        None
    }
}

/// The reaction to recording an event: save when it applied.
pub open spec fn saved(outcome: Result<(), DeployError>, retry_pending: bool) -> Result<Reaction, DeployError> {
    match outcome {
        Ok(_) => Ok(Reaction { save: true, send: None, retry_pending }),
        Err(error) => Err(error),
    }
}

/// What losing the worker of `generation` does to the deployment: when the
/// plan is driving that generation's activation, the target is recorded as
/// failed because its worker disconnected, and `saved` says so; otherwise the
/// deployment is untouched and nothing is saved. A state that does not
/// validate is reported as it is.
pub open spec fn disconnect_recorded(
    before: DeploymentState,
    after: DeploymentState,
    generation: GenerationId,
    saved: Result<bool, DeployError>,
) -> bool {
    match before@.current_plan() {
        Err(error) => saved == Err::<bool, DeployError>(error) && after == before,
        Ok(plan) => if activation_target(plan) == Some(generation) {
            exists|reason: String|
                (#[trigger] reason@) == "worker disconnected during activation"@ && {
                    let (next, outcome) = recorded(before@, DeploymentEvent::Failed { generation, reason });
                    &&& after@ == next
                    &&& saved == match outcome {
                        Ok(_) => Ok::<bool, DeployError>(true),
                        Err(error) => Err(error),
                    }
                }
        } else {
            saved == Ok::<bool, DeployError>(false) && after == before
        },
    }
}

/// What a worker message of `generation` does to the coordinator.
pub open spec fn message_effect<C, S>(
    before: Coordinator<C, S>,
    after: Coordinator<C, S>,
    generation: GenerationId,
    message: Control,
    now: u64,
    result: Result<Reaction, DeployError>,
) -> bool {
    let m = before.deployment@;
    let w = before.workers@;
    let waits = before.deployment_wait@;
    let unchanged_rest = after.active == before.active && after.build == before.build && after.consumed_retry_intent
        == before.consumed_retry_intent && after.retry_cursor == before.retry_cursor;
    match message {
        Control::Ready { generation: found } if found == generation => {
            &&& after.deployment_wait@ == keep(waits, not_key(WaitKey::WorkerReady(generation)))
            &&& after.workers@ == w.with_slot(generation, WorkerSlot { ready: true, ..w.slots[generation] })
            &&& after.deployment == before.deployment
            &&& after.pending == before.pending
            &&& unchanged_rest
            &&& result == Ok::<Reaction, DeployError>(quiet())
        },
        Control::AdmissionsPaused { generation: found } if found == generation => {
            &&& after.deployment_wait@ == keep(waits, not_key(WaitKey::AdmissionsPaused(generation)))
            &&& after.workers@ == w.with_slot(
                generation,
                WorkerSlot { accepting: false, draining: true, ..w.slots[generation] },
            )
            &&& after.pending == before.pending
            &&& unchanged_rest
            &&& match m.current_plan() {
                Err(error) => result == Err::<Reaction, DeployError>(error) && after.deployment == before.deployment,
                Ok(DeployPlan::PauseAdmissions { previous: Some(previous), target }) if previous == generation => {
                    let (next, outcome) = recorded(m, DeploymentEvent::PreviousPaused { target });
                    after.deployment@ == next && result == saved(outcome, false)
                },
                Ok(_) => result == Ok::<Reaction, DeployError>(quiet()) && after.deployment == before.deployment,
            }
        },
        Control::Accepting { generation: found } if found == generation => {
            let retry = w.has(generation) && !w.slots[generation].pending_reconciled;
            &&& after.deployment_wait@ == keep(
                keep(waits, not_key(WaitKey::TargetAccepting(generation))),
                not_key(WaitKey::AdmissionsResumed(generation)),
            )
            &&& after.workers@ == w.with_slot(
                generation,
                WorkerSlot { accepting: true, draining: false, pending_reconciled: true, ..w.slots[generation] },
            )
            &&& after.pending == before.pending
            &&& unchanged_rest
            &&& match m.current_plan() {
                Err(error) => result == Err::<Reaction, DeployError>(error) && after.deployment == before.deployment,
                Ok(DeployPlan::StartAccepting { target }) if target == generation => {
                    let (next, outcome) = recorded(m, DeploymentEvent::TargetAccepting { target });
                    after.deployment@ == next && result == saved(outcome, retry)
                },
                Ok(DeployPlan::ResumeAdmissions { previous, failed_target }) if previous == generation => {
                    let (next, outcome) = recorded(m, DeploymentEvent::AdmissionsResumed { failed_target });
                    after.deployment@ == next && result == saved(outcome, retry)
                },
                Ok(_) => result == Ok::<Reaction, DeployError>(Reaction { save: false, send: None, retry_pending: retry })
                    && after.deployment == before.deployment,
            }
        },
        Control::ConnectionAck { handoff_id } => {
            &&& after.deployment == before.deployment
            &&& after.workers == before.workers
            &&& after.deployment_wait == before.deployment_wait
            &&& unchanged_rest
            &&& match before.pending@.moved_to(generation, handoff_id, DeliveryPhase::Committing) {
                Some(p) => after.pending@ == p && result == Ok::<Reaction, DeployError>(
                    Reaction {
                        save: false,
                        send: send_if_known(m, generation, Control::ConnectionCommitted { handoff_id }),
                        retry_pending: false,
                    },
                ),
                None => after.pending@ == before.pending@ && result == Ok::<Reaction, DeployError>(quiet()),
            }
        },
        Control::ConnectionCommitAck { handoff_id } => {
            &&& after.deployment == before.deployment
            &&& after.workers == before.workers
            &&& after.deployment_wait == before.deployment_wait
            &&& unchanged_rest
            &&& match before.pending@.finalization_begun(generation, handoff_id, now) {
                Some(p) => after.pending@ == p && result == Ok::<Reaction, DeployError>(
                    Reaction {
                        save: false,
                        send: send_if_known(m, generation, Control::ConnectionFinalized { handoff_id }),
                        retry_pending: false,
                    },
                ),
                None => after.pending@ == before.pending@ && result == Ok::<Reaction, DeployError>(quiet()),
            }
        },
        Control::ConnectionFinalizedAck { handoff_id } => {
            &&& after.deployment == before.deployment
            &&& after.workers == before.workers
            &&& after.deployment_wait == before.deployment_wait
            &&& unchanged_rest
            &&& result == Ok::<Reaction, DeployError>(quiet())
            &&& match before.pending@.finalization_acknowledged(generation, handoff_id) {
                Some(p) => after.pending@ == p,
                None => after.pending@ == before.pending@,
            }
        },
        Control::ConnectionsObserved { generation: found, active } if found == generation => {
            &&& after.workers == before.workers
            &&& after.pending == before.pending
            &&& after.deployment_wait == before.deployment_wait
            &&& unchanged_rest
            &&& if knows(m, generation) {
                let (next, outcome) = m.reconcile(DeploymentEvent::ConnectionsObserved { generation, active });
                after.deployment@ == next && result == Ok::<Reaction, DeployError>(
                    Reaction { save: outcome is Ok, send: None, retry_pending: false },
                )
            } else {
                after.deployment == before.deployment && result == Ok::<Reaction, DeployError>(quiet())
            }
        },
        _ => after == before && result == Ok::<Reaction, DeployError>(quiet()),
    }
}

/// What the caller checks when acknowledgement waits expired.
#[derive(Debug, PartialEq, Eq)]
pub struct Expiry {
    /// A paused handoff whose previous worker stayed away: when the unit
    /// inventory confirms it stopped, the previous generation is failed
    /// and the target takes over.
    pub check_previous: Option<(GenerationId, GenerationId)>,
    /// A target whose worker did not acknowledge in time: it fails.
    pub failed_target: Option<GenerationId>,
}

/// The target whose activation timed out, given the expired waits.
pub open spec fn timed_out_target(plan: DeployPlan, expired: Seq<WaitKey>) -> Option<GenerationId> {
    match plan {
        DeployPlan::StageTarget { target, .. } => if expired.contains(WaitKey::WorkerReady(target)) {
            Some(target)
        } else {
            None
        },
        DeployPlan::PauseAdmissions { target, .. } => if expired.contains(WaitKey::WorkerReady(target)) {
            Some(target)
        } else {
            None
        },
        DeployPlan::StartAccepting { target } => if expired.contains(WaitKey::WorkerReady(target))
            || expired.contains(WaitKey::TargetAccepting(target)) {
            Some(target)
        } else {
            None
        },
        _ => None,
    }
}

fn contains_key(keys: &Vec<WaitKey>, key: WaitKey) -> (found: bool)
    ensures
        found == keys@.contains(key),
{
    for i in 0..keys.len()
        invariant
            forall|j: int| 0 <= j < i ==> keys@[j] != key,
    {
        if keys[i] == key {
            proof {
                assert(keys@[i as int] == key);
            }
            return true;
        }
    }
    false
}

/// Whether the unit inventory confirms that `generation`'s worker is gone:
/// its unit is not listed, or listed as stopped.
pub fn confirms_loss(inventory: &Inventory, generation: GenerationId) -> (lost: bool)
    requires
        inventory.wf(),
    ensures
        lost == (!inventory@.dom().contains(generation) || inventory@[generation] == Liveness::Stopped),
{
    match inventory.get(generation) {
        None => true,
        Some(liveness) => liveness == Liveness::Stopped,
    }
}

impl<C, S> Coordinator<C, S> {
    /// Acts on one message of the worker of `generation`, received at `now`.
    /// Lifecycle reports move the worker's flags and the deployment;
    /// connection acknowledgements move the handoff they name.
    pub fn handle_message(&mut self, generation: GenerationId, message: Control, now: u64) -> (result: Result<
        Reaction,
        DeployError,
    >)
        requires
            old(self).wf(),
        ensures
            final(self).wf(),
            message_effect(*old(self), *final(self), generation, message, now, result),
    {
        let quiet = Reaction { save: false, send: None, retry_pending: false };
        match message {
            Control::Ready { generation: found } => if found == generation {
                self.on_ready(generation)
            } else {
                Ok(quiet)
            },
            Control::AdmissionsPaused { generation: found } => if found == generation {
                self.on_admissions_paused(generation)
            } else {
                Ok(quiet)
            },
            Control::Accepting { generation: found } => if found == generation {
                self.on_accepting(generation)
            } else {
                Ok(quiet)
            },
            Control::ConnectionAck { handoff_id } => self.on_connection_ack(generation, handoff_id),
            Control::ConnectionCommitAck { handoff_id } => self.on_commit_ack(generation, handoff_id, now),
            Control::ConnectionFinalizedAck { handoff_id } => {
                self.pending.acknowledge_finalized(generation, handoff_id);
                Ok(quiet)
            },
            Control::ConnectionsObserved { generation: found, active } => if found == generation {
                self.on_observed(generation, active)
            } else {
                Ok(quiet)
            },
            _ => Ok(quiet),
        }
    }

    fn on_ready(&mut self, generation: GenerationId) -> (result: Result<Reaction, DeployError>)
        requires
            old(self).wf(),
        ensures
            final(self).wf(),
            message_effect(*old(self), *final(self), generation, Control::Ready { generation }, 0, result),
    {
        self.deployment_wait.acknowledge(WaitKey::WorkerReady(generation));
        self.workers.mark_ready(generation);
        Ok(Reaction { save: false, send: None, retry_pending: false })
    }

    fn on_admissions_paused(&mut self, generation: GenerationId) -> (result: Result<Reaction, DeployError>)
        requires
            old(self).wf(),
        ensures
            final(self).wf(),
            message_effect(*old(self), *final(self), generation, Control::AdmissionsPaused { generation }, 0, result),
    {
        self.deployment_wait.acknowledge(WaitKey::AdmissionsPaused(generation));
        self.workers.mark_admissions_paused(generation);
        let plan = match self.deployment.current_plan() {
            Ok(plan) => plan,
            Err(error) => return Err(error),
        };
        match plan {
            DeployPlan::PauseAdmissions { previous: Some(previous), target } => if previous == generation {
                match self.record(DeploymentEvent::PreviousPaused { target }) {
                    Ok(()) => Ok(Reaction { save: true, send: None, retry_pending: false }),
                    Err(error) => Err(error),
                }
            } else {
                Ok(Reaction { save: false, send: None, retry_pending: false })
            },
            _ => Ok(Reaction { save: false, send: None, retry_pending: false }),
        }
    }

    fn on_accepting(&mut self, generation: GenerationId) -> (result: Result<Reaction, DeployError>)
        requires
            old(self).wf(),
        ensures
            final(self).wf(),
            message_effect(*old(self), *final(self), generation, Control::Accepting { generation }, 0, result),
    {
        self.deployment_wait.acknowledge(WaitKey::TargetAccepting(generation));
        self.deployment_wait.acknowledge(WaitKey::AdmissionsResumed(generation));
        let retry_pending = self.workers.mark_accepting(generation);
        let plan = match self.deployment.current_plan() {
            Ok(plan) => plan,
            Err(error) => return Err(error),
        };
        match plan {
            DeployPlan::StartAccepting { target } => if target == generation {
                match self.record(DeploymentEvent::TargetAccepting { target }) {
                    Ok(()) => Ok(Reaction { save: true, send: None, retry_pending }),
                    Err(error) => Err(error),
                }
            } else {
                Ok(Reaction { save: false, send: None, retry_pending })
            },
            DeployPlan::ResumeAdmissions { previous, failed_target } => if previous == generation {
                match self.record(DeploymentEvent::AdmissionsResumed { failed_target }) {
                    Ok(()) => Ok(Reaction { save: true, send: None, retry_pending }),
                    Err(error) => Err(error),
                }
            } else {
                Ok(Reaction { save: false, send: None, retry_pending })
            },
            _ => Ok(Reaction { save: false, send: None, retry_pending }),
        }
    }

    fn on_connection_ack(&mut self, generation: GenerationId, handoff_id: HandoffId) -> (result: Result<Reaction, DeployError>)
        requires
            old(self).wf(),
        ensures
            final(self).wf(),
            message_effect(*old(self), *final(self), generation, Control::ConnectionAck { handoff_id }, 0, result),
    {
        if !self.pending.mark_committing(generation, handoff_id) {
            return Ok(Reaction { save: false, send: None, retry_pending: false });
        }
        let send = match self.host_generation(generation) {
            Some(found) => Some((found, Control::ConnectionCommitted { handoff_id })),
            None => None,
        };
        Ok(Reaction { save: false, send, retry_pending: false })
    }

    fn on_commit_ack(&mut self, generation: GenerationId, handoff_id: HandoffId, now: u64) -> (result: Result<Reaction, DeployError>)
        requires
            old(self).wf(),
        ensures
            final(self).wf(),
            message_effect(*old(self), *final(self), generation, Control::ConnectionCommitAck { handoff_id }, now, result),
    {
        if !self.pending.begin_finalizing(generation, handoff_id, now) {
            return Ok(Reaction { save: false, send: None, retry_pending: false });
        }
        let send = match self.host_generation(generation) {
            Some(found) => Some((found, Control::ConnectionFinalized { handoff_id })),
            None => None,
        };
        Ok(Reaction { save: false, send, retry_pending: false })
    }

    fn on_observed(&mut self, generation: GenerationId, active: u64) -> (result: Result<Reaction, DeployError>)
        requires
            old(self).wf(),
        ensures
            final(self).wf(),
            message_effect(*old(self), *final(self), generation, Control::ConnectionsObserved { generation, active }, 0, result),
    {
        if self.host_generation(generation).is_none() {
            return Ok(Reaction { save: false, send: None, retry_pending: false });
        }
        let outcome = self.deployment.reconcile(DeploymentEvent::ConnectionsObserved { generation, active });
        Ok(Reaction { save: outcome.is_ok(), send: None, retry_pending: false })
    }

    /// The worker of `generation` went away: it is forgotten, and when the
    /// activation was waiting on it as the target, the target fails.
    /// Returns whether the deployment state changed.
    pub fn worker_disconnected(&mut self, generation: GenerationId) -> (saved: Result<bool, DeployError>)
        requires
            old(self).wf(),
        ensures
            final(self).wf(),
            final(self).workers@ == (WorkersModel {
                slots: old(self).workers@.slots.remove(generation),
                disconnected: old(self).workers@.disconnected.insert(generation),
                ..old(self).workers@
            }),
            final(self).pending == old(self).pending,
            final(self).deployment_wait == old(self).deployment_wait,
            final(self).active == old(self).active,
            disconnect_recorded(old(self).deployment, final(self).deployment, generation, saved),
    {
        self.workers.disconnect(generation);
        let plan = self.deployment.current_plan()?;
        let target = match plan {
            DeployPlan::StageTarget { target, .. } => target,
            DeployPlan::PauseAdmissions { target, .. } => target,
            DeployPlan::StartAccepting { target } => target,
            _ => return Ok(false),
        };
        if target != generation {
            return Ok(false);
        }
        let reason = "worker disconnected during activation".to_owned();
        self.record(DeploymentEvent::Failed { generation, reason })?;
        Ok(true)
    }

    /// A worker of `generation` said hello. It registers when its generation
    /// is known and live and its process identity matched (`identity_matches`,
    /// checked by the caller only for a known generation); the registration
    /// number is returned.
    pub fn admit_worker(&mut self, generation: GenerationId, instance: u64, channel: C, identity_matches: bool) -> (registration: Option<u64>)
        requires
            old(self).wf(),
        ensures
            final(self).wf(),
            !known_live(old(self).deployment@, generation) || !identity_matches ==> registration is None && *final(self)
                == *old(self),
            known_live(old(self).deployment@, generation) && identity_matches ==> {
                &&& registration == Some(old(self).workers@.next_registration)
                &&& final(self).workers@.slots == old(self).workers@.slots.insert(
                    generation,
                    WorkerSlot {
                        registration: old(self).workers@.next_registration,
                        instance,
                        ready: false,
                        accepting: false,
                        draining: false,
                        pending_reconciled: false,
                        channel,
                    },
                )
                &&& final(self).workers@.disconnected == old(self).workers@.disconnected.remove(generation)
                &&& final(self).workers@.stopped == old(self).workers@.stopped
                &&& final(self).deployment == old(self).deployment
                &&& final(self).pending == old(self).pending
                &&& final(self).deployment_wait == old(self).deployment_wait
            },
    {
        if !self.known_generation(generation) || !identity_matches {
            return None;
        }
        Some(self.workers.register(generation, instance, channel))
    }

    /// Whether a message that arrived on registration `registration` of
    /// `generation` is acted on: lifecycle reports only from the current
    /// connection, connection acknowledgements from any.
    pub fn accepts_message(&self, generation: GenerationId, registration: u64, message: &Control) -> (accepted: bool)
        requires
            self.wf(),
        ensures
            accepted == ((self.workers@.has(generation) && self.workers@.slots[generation].registration == registration)
                || spec_is_connection_ack(*message)),
    {
        self.workers.is_current(generation, registration) || is_connection_ack(message)
    }

    /// Registration `registration` of `generation` disconnected. Only the
    /// current connection counts: its waits are dropped and the worker is
    /// forgotten. Returns whether the deployment state changed.
    pub fn connection_closed(&mut self, generation: GenerationId, registration: u64) -> (saved: Result<bool, DeployError>)
        requires
            old(self).wf(),
        ensures
            final(self).wf(),
            !(old(self).workers@.has(generation) && old(self).workers@.slots[generation].registration == registration)
                ==> saved == Ok::<bool, DeployError>(false) && *final(self) == *old(self),
            old(self).workers@.has(generation) && old(self).workers@.slots[generation].registration == registration
                ==> {
                &&& final(self).deployment_wait@ == keep(old(self).deployment_wait@, not_generation(generation))
                &&& final(self).workers@ == (WorkersModel {
                    slots: old(self).workers@.slots.remove(generation),
                    disconnected: old(self).workers@.disconnected.insert(generation),
                    ..old(self).workers@
                })
                &&& final(self).pending == old(self).pending
                &&& final(self).active == old(self).active
                &&& disconnect_recorded(old(self).deployment, final(self).deployment, generation, saved)
            },
    {
        if !self.workers.is_current(generation, registration) {
            return Ok(false);
        }
        self.deployment_wait.clear_generation(generation);
        self.worker_disconnected(generation)
    }

    /// Takes the waits expired at `now` and says what they call for.
    pub fn expire_waits(&mut self, now: u64) -> (expiry: Result<Expiry, DeployError>)
        requires
            old(self).wf(),
        ensures
            final(self).wf(),
            final(self).deployment_wait@ == keep(old(self).deployment_wait@, pending_at(now)),
            final(self).deployment == old(self).deployment,
            final(self).workers == old(self).workers,
            final(self).pending == old(self).pending,
            final(self).active == old(self).active,
            ({
                let expired_keys = keep(old(self).deployment_wait@, expired(now)).map_values(|w: (WaitKey, u64)| w.0);
                if expired_keys.len() == 0 {
                    expiry == Ok::<Expiry, DeployError>(Expiry { check_previous: None, failed_target: None })
                } else {
                    match old(self).deployment@.current_plan() {
                        Err(error) => expiry == Err::<Expiry, DeployError>(error),
                        Ok(plan) => expiry == Ok::<Expiry, DeployError>(
                            Expiry {
                                check_previous: previous_to_check(*old(self), plan, expired_keys),
                                failed_target: timed_out_target(plan, expired_keys),
                            },
                        ),
                    }
                }
            }),
    {
        let expired_keys = self.deployment_wait.take_expired(now);
        if expired_keys.len() == 0 {
            return Ok(Expiry { check_previous: None, failed_target: None });
        }
        let plan = self.deployment.current_plan()?;
        let check_previous = match plan {
            DeployPlan::PauseAdmissions { previous: Some(previous), target } => {
                if contains_key(&expired_keys, WaitKey::WorkerReady(previous)) && self.workers.is_disconnected(previous)
                    && !self.workers.is_ready(previous) && self.workers.is_ready(target) {
                    Some((previous, target))
                } else {
                    None
                }
            },
            _ => None,
        };
        let failed_target = match plan {
            DeployPlan::StageTarget { target, .. } => if contains_key(&expired_keys, WaitKey::WorkerReady(target)) {
                Some(target)
            } else {
                None
            },
            DeployPlan::PauseAdmissions { target, .. } => if contains_key(&expired_keys, WaitKey::WorkerReady(target)) {
                Some(target)
            } else {
                None
            },
            DeployPlan::StartAccepting { target } => if contains_key(&expired_keys, WaitKey::WorkerReady(target))
                || contains_key(&expired_keys, WaitKey::TargetAccepting(target)) {
                Some(target)
            } else {
                None
            },
            _ => None,
        };
        Ok(Expiry { check_previous, failed_target })
    }

    /// The previous worker of a paused handoff was confirmed lost: the
    /// previous generation fails, its unit counts as stopped, and the
    /// target takes over.
    pub fn previous_lost(&mut self, previous: GenerationId, target: GenerationId) -> (result: Result<(), DeployError>)
        requires
            old(self).wf(),
        ensures
            final(self).wf(),
            final(self).pending == old(self).pending,
            final(self).deployment_wait == old(self).deployment_wait,
            final(self).active == old(self).active,
            exists|reason: String|
                (#[trigger] reason@) == "previous worker disconnected and remained stopped through the recovery deadline"@ && {
                    let (failed, first) = recorded(
                        old(self).deployment@,
                        DeploymentEvent::Failed { generation: previous, reason },
                    );
                    match first {
                        Err(error) => result == Err::<(), DeployError>(error) && final(self).deployment@ == failed
                            && final(self).workers == old(self).workers,
                        Ok(_) => {
                            let (paused, second) = recorded(failed, DeploymentEvent::PreviousPaused { target });
                            &&& final(self).deployment@ == paused
                            &&& result == second
                            &&& final(self).workers@ == (WorkersModel {
                                stopped: old(self).workers@.stopped.insert(previous),
                                ..old(self).workers@
                            })
                        },
                    }
                },
    {
        let reason = "previous worker disconnected and remained stopped through the recovery deadline".to_owned();
        self.record(DeploymentEvent::Failed { generation: previous, reason })?;
        self.workers.mark_stopped(previous);
        self.record(DeploymentEvent::PreviousPaused { target })
    }

    /// The target's worker did not acknowledge its activation in time: the
    /// target fails. The caller then stops its unit.
    pub fn activation_timed_out(&mut self, target: GenerationId) -> (result: Result<(), DeployError>)
        ensures
            exists|reason: String|
                (#[trigger] reason@) == "worker activation acknowledgement timed out"@ && (final(self).deployment@, result)
                    == recorded(old(self).deployment@, DeploymentEvent::Failed { generation: target, reason }),
            final(self).workers == old(self).workers,
            final(self).pending == old(self).pending,
            final(self).deployment_wait == old(self).deployment_wait,
            final(self).active == old(self).active,
    {
        let reason = "worker activation acknowledgement timed out".to_owned();
        self.record(DeploymentEvent::Failed { generation: target, reason })
    }
}

/// The target of the activation a plan is driving, if it has one.
pub open spec fn activation_target(plan: DeployPlan) -> Option<GenerationId> {
    match plan {
        DeployPlan::StageTarget { target, .. } => Some(target),
        DeployPlan::PauseAdmissions { target, .. } => Some(target),
        DeployPlan::StartAccepting { target } => Some(target),
        _ => None,
    }
}

/// An activation fails for a timeout exactly when its target's worker never
/// reported ready in time, or, once the target was told to accept, when it
/// never acknowledged accepting; plans that drive no activation fail nothing,
/// and whatever fails is the plan's own target.
pub proof fn law_activation_timeout(plan: DeployPlan, expired: Seq<WaitKey>)
    ensures
        timed_out_target(plan, expired) is Some ==> timed_out_target(plan, expired) == activation_target(plan),
        activation_target(plan) is None ==> timed_out_target(plan, expired) is None,
        activation_target(plan) matches Some(target) ==> (timed_out_target(plan, expired) is Some <==> (
        expired.contains(WaitKey::WorkerReady(target)) || (plan is StartAccepting && expired.contains(
            WaitKey::TargetAccepting(target),
        )))),
{
}

/// A paused handoff whose previous worker missed its ready deadline while
/// disconnected, with the target ready: its loss is worth confirming.
pub open spec fn previous_to_check<C, S>(c: Coordinator<C, S>, plan: DeployPlan, expired: Seq<WaitKey>) -> Option<
    (GenerationId, GenerationId),
> {
    match plan {
        DeployPlan::PauseAdmissions { previous: Some(previous), target } => if expired.contains(
            WaitKey::WorkerReady(previous),
        ) && c.workers@.disconnected.contains(previous) && !c.workers@.is_ready(previous) && c.workers@.is_ready(
            target,
        ) {
            Some((previous, target))
        } else {
            None
        },
        _ => None,
    }
}

} // verus!
