//! What each deployment operation does, stated over `DeploymentModel`.

use vstd::prelude::*;

use super::{Activation, DeploymentModel, Generation, RetryReceipt, STATE_VERSION};
use crate::identifiers::{blank, retry_text_valid, BuildId, RetryId};
use crate::model::{
    ActivationPhase, DeployError, DeployPlan, DeploymentEvent, GenerationId, GenerationStatus,
};
use crate::search::{first_match, last_match};

verus! {

pub type Entry = (GenerationId, Generation);

pub open spec fn with_id(id: GenerationId) -> spec_fn(Entry) -> bool {
    |e: Entry| e.0 == id
}

pub open spec fn with_status(status: GenerationStatus) -> spec_fn(Entry) -> bool {
    |e: Entry| e.1.status == status
}

pub open spec fn with_build(build: Seq<char>) -> spec_fn(Entry) -> bool {
    |e: Entry| e.1.build@ == build
}

pub open spec fn active_with_build(build: Seq<char>) -> spec_fn(Entry) -> bool {
    |e: Entry| e.1.build@ == build && e.1.status == GenerationStatus::Active
}

/// A draining generation that reported no open connection since it drained.
pub open spec fn drained() -> spec_fn(Entry) -> bool {
    |e: Entry| e.1.status == GenerationStatus::Draining && e.1.active_connections == Some(0u64)
}

pub open spec fn opt_index(index: Option<usize>) -> Option<int> {
    match index {
        Some(i) => Some(i as int),
        None => None,
    }
}

pub open spec fn text_of(value: Option<String>) -> Option<Seq<char>> {
    match value {
        Some(text) => Some(text@),
        None => None,
    }
}

/// A generation's failure reason is present exactly when it failed, and never blank.
pub open spec fn failure_consistent(generation: Generation) -> bool {
    match generation.status {
        GenerationStatus::Failed => generation.failure matches Some(reason) && !blank(reason@),
        _ => generation.failure is None,
    }
}

pub open spec fn with_generation_status(generation: Generation, status: GenerationStatus) -> Generation {
    Generation { status: status, ..generation }
}

pub open spec fn with_phase(activation: Activation, phase: ActivationPhase) -> Activation {
    Activation { phase: phase, ..activation }
}

pub open spec fn invalid_persisted(message: &'static str) -> DeployError {
    DeployError::InvalidPersistedState(message)
}

pub open spec fn invalid_transition(message: &'static str) -> DeployError {
    DeployError::InvalidTransition(message)
}

impl DeploymentModel {
    /// Generations are ordered by strictly increasing id and nonces are distinct.
    pub open spec fn wf(self) -> bool {
        &&& forall|i: int, j: int|
            0 <= i < j < self.generations.len() ==> (#[trigger] self.generations[i]).0.0
                < (#[trigger] self.generations[j]).0.0
        &&& forall|i: int, j: int|
            0 <= i < j < self.retry_receipts.len() ==> (#[trigger] self.retry_receipts[i]).0@
                != (#[trigger] self.retry_receipts[j]).0@
    }

    pub open spec fn index_of(self, id: GenerationId) -> Option<int> {
        first_match(self.generations, with_id(id))
    }

    pub open spec fn lookup(self, id: GenerationId) -> Option<Generation> {
        match self.index_of(id) {
            Some(i) => Some(self.generations[i].1),
            None => None,
        }
    }

    pub open spec fn generation(self, id: GenerationId) -> Result<Generation, DeployError> {
        match self.lookup(id) {
            Some(generation) => Ok(generation),
            None => Err(DeployError::UnknownGeneration(id)),
        }
    }

    pub open spec fn status_of(self, id: GenerationId) -> Option<GenerationStatus> {
        match self.lookup(id) {
            Some(generation) => Some(generation.status),
            None => None,
        }
    }

    pub open spec fn has_status(self, status: GenerationStatus) -> bool {
        exists|i: int| 0 <= i < self.generations.len() && (#[trigger] self.generations[i]).1.status == status
    }

    /// Two distinct generations share `status`.
    pub open spec fn status_repeated(self, status: GenerationStatus) -> bool {
        exists|i: int, j: int|
            0 <= i < j < self.generations.len() && (#[trigger] self.generations[i]).1.status == status
                && (#[trigger] self.generations[j]).1.status == status
    }

    pub open spec fn active_generation(self) -> Option<GenerationId> {
        match first_match(self.generations, with_status(GenerationStatus::Active)) {
            Some(i) => Some(self.generations[i].0),
            None => None,
        }
    }

    pub open spec fn set_generation(self, i: int, generation: Generation) -> DeploymentModel {
        DeploymentModel {
            generations: self.generations.update(i, (self.generations[i].0, generation)),
            ..self
        }
    }

    pub open spec fn with_activation(self, activation: Option<Activation>) -> DeploymentModel {
        DeploymentModel { activation: activation, ..self }
    }

    /// The failed activation's previous generation is still draining, so
    /// reopening it rolls the handoff back.
    pub open spec fn previous_draining(self, activation: Activation) -> bool {
        match activation.previous {
            Some(previous) => self.status_of(previous) == Some(GenerationStatus::Draining),
            None => false,
        }
    }

    // ------------------------------------------------------------------
    // Validation
    // ------------------------------------------------------------------

    pub open spec fn id_out_of_range(self) -> bool {
        exists|i: int|
            0 <= i < self.generations.len() && ((#[trigger] self.generations[i]).0.0 == 0
                || self.generations[i].0.0 >= self.next_generation)
    }

    pub open spec fn blank_build(self) -> bool {
        exists|i: int| 0 <= i < self.generations.len() && blank((#[trigger] self.generations[i]).1.build@)
    }

    pub open spec fn failure_contradiction(self) -> bool {
        exists|i: int| 0 <= i < self.generations.len() && !failure_consistent((#[trigger] self.generations[i]).1)
    }

    pub open spec fn rollback_invalid(self) -> bool {
        match self.last_rollback {
            Some(id) => self.status_of(id) != Some(GenerationStatus::Failed),
            None => false,
        }
    }

    pub open spec fn receipt_invalid(self, receipt: (RetryId, RetryReceipt)) -> bool {
        ||| !retry_text_valid(receipt.0@)
        ||| match self.lookup(receipt.1.generation) {
            Some(generation) => generation.build@ != receipt.1.build@,
            None => true,
        }
    }

    pub open spec fn receipts_invalid(self) -> bool {
        exists|k: int| 0 <= k < self.retry_receipts.len() && self.receipt_invalid(#[trigger] self.retry_receipts[k])
    }

    /// The previous generation's status when it is known.
    pub open spec fn previous_status(self, activation: Activation) -> Result<Option<GenerationStatus>, DeployError> {
        match activation.previous {
            None => Ok(None),
            Some(previous) => match self.generation(previous) {
                Ok(generation) => Ok(Some(generation.status)),
                Err(error) => Err(error),
            },
        }
    }

    pub open spec fn validate_activation(self) -> Result<(), DeployError> {
        match self.activation {
            None => Ok(()),
            Some(activation) => match self.generation(activation.target) {
                Err(error) => Err(error),
                Ok(target) => if activation.previous == Some(activation.target) {
                    Err(invalid_persisted("target equals previous"))
                } else {
                    match self.previous_status(activation) {
                        Err(error) => Err(error),
                        Ok(previous) => if activation.failure is Some {
                            if target.status != GenerationStatus::Failed
                                || text_of(target.failure) != text_of(activation.failure)
                                || activation.phase == ActivationPhase::Prepared
                                || !previous_after_pause(previous) {
                                Err(invalid_persisted("invalid failed activation"))
                            } else {
                                Ok(())
                            }
                        } else if activation_consistent(activation.phase, target.status, previous) {
                            Ok(())
                        } else {
                            Err(invalid_persisted("activation contradicts generations"))
                        },
                    }
                },
            },
        }
    }

    /// The checks `validate` applies, in order, with the error of the first that fails.
    pub open spec fn validate(self) -> Result<(), DeployError> {
        if self.version != STATE_VERSION {
            Err(invalid_persisted("unsupported version"))
        } else if self.next_generation == 0 || self.id_out_of_range() {
            Err(invalid_persisted("invalid generation id"))
        } else if self.blank_build() {
            Err(invalid_persisted("empty build id"))
        } else if self.status_repeated(GenerationStatus::Active) {
            Err(invalid_persisted("multiple active generations"))
        } else if self.status_repeated(GenerationStatus::Staged) {
            Err(invalid_persisted("multiple staged generations"))
        } else if self.failure_contradiction() {
            Err(invalid_persisted("generation failure contradicts status"))
        } else if self.rollback_invalid() {
            Err(invalid_persisted("invalid rollback receipt"))
        } else if self.receipts_invalid() {
            Err(invalid_persisted("invalid retry receipt"))
        } else {
            self.validate_activation()
        }
    }

    pub open spec fn valid(self) -> bool {
        self.validate() is Ok
    }
}

impl DeploymentModel {
    // ------------------------------------------------------------------
    // Planning
    // ------------------------------------------------------------------

    /// A handoff, a rollback or a staged attempt is still unfinished.
    pub open spec fn deployment_in_progress(self) -> bool {
        ||| match self.activation {
            Some(activation) => if activation.failure is Some {
                self.previous_draining(activation)
            } else {
                activation.phase != ActivationPhase::TargetAccepting
            },
            None => false,
        }
        ||| self.has_status(GenerationStatus::Staged)
    }

    /// The next idempotent host action for this state.
    pub open spec fn next_plan(self) -> DeployPlan {
        match self.activation {
            Some(activation) if activation.failure is Some => if self.previous_draining(activation) {
                DeployPlan::ResumeAdmissions {
                    previous: activation.previous->0,
                    failed_target: activation.target,
                }
            } else {
                DeployPlan::Unavailable {
                    failed_target: activation.target,
                    active: self.active_generation(),
                }
            },
            Some(activation) if activation.phase == ActivationPhase::Prepared => DeployPlan::PauseAdmissions {
                previous: activation.previous,
                target: activation.target,
            },
            Some(activation) if activation.phase == ActivationPhase::PreviousPaused => DeployPlan::StartAccepting {
                target: activation.target,
            },
            _ => self.settled_plan(),
        }
    }

    /// The plan once no handoff is in flight.
    pub open spec fn settled_plan(self) -> DeployPlan {
        match first_match(self.generations, with_status(GenerationStatus::Staged)) {
            Some(i) => DeployPlan::StageTarget {
                target: self.generations[i].0,
                build: self.generations[i].1.build,
            },
            None => match first_match(self.generations, drained()) {
                Some(i) => DeployPlan::Retire { generation: self.generations[i].0 },
                None => match (self.active_generation(), last_match(self.generations, with_status(GenerationStatus::Failed))) {
                    (None, Some(j)) => DeployPlan::Unavailable {
                        failed_target: self.generations[j].0,
                        active: None,
                    },
                    (active, _) => DeployPlan::Settled { active: active },
                },
            },
        }
    }

    /// The attempt that a deployment of `build` continues: its active
    /// generation, else its newest generation unless that one is draining or
    /// retired, since reviving an old id would let its delayed reports apply.
    pub open spec fn current_attempt_for(self, build: Seq<char>) -> Option<(GenerationId, GenerationStatus)> {
        match first_match(self.generations, active_with_build(build)) {
            Some(i) => Some((self.generations[i].0, self.generations[i].1.status)),
            None => match last_match(self.generations, with_build(build)) {
                Some(j) => if self.generations[j].1.status == GenerationStatus::Draining
                    || self.generations[j].1.status == GenerationStatus::Retired {
                    None
                } else {
                    Some((self.generations[j].0, self.generations[j].1.status))
                },
                None => None,
            },
        }
    }

    pub open spec fn plan_existing(self, id: GenerationId, status: GenerationStatus) -> Result<DeployPlan, DeployError> {
        if (self.activation matches Some(activation) && activation.target != id) && self.deployment_in_progress() {
            Err(DeployError::DeploymentBusy)
        } else if status == GenerationStatus::Failed && !(self.activation matches Some(activation)
            && activation.target == id) {
            Ok(DeployPlan::Unavailable { failed_target: id, active: self.active_generation() })
        } else {
            Ok(self.next_plan())
        }
    }

    /// Allocates the next generation id for `build` as a staged attempt.
    pub open spec fn stage(self, build: BuildId) -> Result<(DeploymentModel, DeployPlan), DeployError> {
        if self.next_generation == u64::MAX {
            Err(DeployError::GenerationIdsExhausted)
        } else {
            let id = GenerationId(self.next_generation);
            let staged = Generation {
                build: build,
                status: GenerationStatus::Staged,
                active_connections: None,
                failure: None,
            };
            Ok((
                DeploymentModel {
                    activation: None,
                    next_generation: (self.next_generation + 1) as u64,
                    generations: self.generations.push((id, staged)),
                    ..self
                },
                DeployPlan::StageTarget { target: id, build: build },
            ))
        }
    }

    pub open spec fn plan_deploy(self, build: BuildId) -> (DeploymentModel, Result<DeployPlan, DeployError>) {
        match self.validate() {
            Err(error) => (self, Err(error)),
            Ok(_) => match self.current_attempt_for(build@) {
                Some((id, status)) => (self, self.plan_existing(id, status)),
                None => if self.deployment_in_progress() {
                    (self, Err(DeployError::DeploymentBusy))
                } else {
                    match self.stage(build) {
                        Ok((staged, plan)) => (staged, Ok(plan)),
                        Err(error) => (self, Err(error)),
                    }
                },
            },
        }
    }

    pub open spec fn current_plan(self) -> Result<DeployPlan, DeployError> {
        match self.validate() {
            Err(error) => Err(error),
            Ok(_) => Ok(self.next_plan()),
        }
    }

    pub open spec fn reserve_generation_ids_after(self, existing: u64) -> (DeploymentModel, Result<(), DeployError>) {
        match self.validate() {
            Err(error) => (self, Err(error)),
            Ok(_) => if existing == u64::MAX {
                (self, Err(DeployError::GenerationIdsExhausted))
            } else {
                let after = (existing + 1) as u64;
                let next = if self.next_generation >= after { self.next_generation } else { after };
                (DeploymentModel { next_generation: next, ..self }, Ok(()))
            },
        }
    }

    // ------------------------------------------------------------------
    // Transitions
    // ------------------------------------------------------------------

    pub open spec fn activation_for(self, target: GenerationId) -> Result<Activation, DeployError> {
        match self.activation {
            Some(activation) if activation.target == target => Ok(activation),
            _ => Err(invalid_transition("activation target mismatch")),
        }
    }

    pub open spec fn prepared(self, target: GenerationId) -> Result<DeploymentModel, DeployError> {
        match self.activation {
            Some(activation) => if activation.target == target {
                Ok(self)
            } else {
                Err(DeployError::DeploymentBusy)
            },
            None => match self.generation(target) {
                Err(error) => Err(error),
                Ok(generation) => if generation.status != GenerationStatus::Staged {
                    Err(invalid_transition("target is not staged"))
                } else {
                    Ok(self.with_activation(Some(Activation {
                        target: target,
                        previous: self.active_generation(),
                        phase: ActivationPhase::Prepared,
                        failure: None,
                    })))
                },
            },
        }
    }

    pub open spec fn previous_paused(self, target: GenerationId) -> Result<DeploymentModel, DeployError> {
        match self.activation_for(target) {
            Err(error) => Err(error),
            Ok(activation) => if activation.phase != ActivationPhase::Prepared {
                Ok(self)
            } else {
                let paused = Some(with_phase(activation, ActivationPhase::PreviousPaused));
                match activation.previous {
                    None => Ok(self.with_activation(paused)),
                    Some(previous) => match self.index_of(previous) {
                        None => Err(DeployError::UnknownGeneration(previous)),
                        Some(i) => {
                            let generation = self.generations[i].1;
                            match generation.status {
                                GenerationStatus::Active => Ok(self.set_generation(
                                    i,
                                    Generation {
                                        status: GenerationStatus::Draining,
                                        active_connections: None,
                                        ..generation
                                    },
                                ).with_activation(paused)),
                                GenerationStatus::Failed => Ok(self.with_activation(paused)),
                                _ => Err(invalid_transition("previous generation cannot be paused")),
                            }
                        },
                    },
                }
            },
        }
    }

    pub open spec fn target_accepting(self, target: GenerationId) -> Result<DeploymentModel, DeployError> {
        match self.activation_for(target) {
            Err(error) => Err(error),
            Ok(activation) => if activation.phase == ActivationPhase::TargetAccepting {
                Ok(self)
            } else if activation.phase != ActivationPhase::PreviousPaused || activation.failure is Some {
                Err(invalid_transition("target cannot accept yet"))
            } else {
                match self.index_of(target) {
                    None => Err(DeployError::UnknownGeneration(target)),
                    Some(i) => Ok(self.set_generation(
                        i,
                        with_generation_status(self.generations[i].1, GenerationStatus::Active),
                    ).with_activation(Some(with_phase(activation, ActivationPhase::TargetAccepting)))),
                }
            },
        }
    }

    pub open spec fn admissions_resumed(self, failed_target: GenerationId) -> Result<DeploymentModel, DeployError> {
        match self.activation {
            None => if self.last_rollback == Some(failed_target) {
                Ok(self)
            } else {
                Err(invalid_transition("rollback is not pending"))
            },
            Some(activation) => if activation.target != failed_target || activation.failure is None {
                Err(invalid_transition("rollback is not pending"))
            } else {
                match activation.previous {
                    None => Err(invalid_transition("no previous generation")),
                    Some(previous) => match self.index_of(previous) {
                        None => Err(DeployError::UnknownGeneration(previous)),
                        Some(i) => if self.generations[i].1.status != GenerationStatus::Draining {
                            Err(invalid_transition("previous generation cannot resume"))
                        } else {
                            Ok(DeploymentModel {
                                activation: None,
                                last_rollback: Some(failed_target),
                                ..self.set_generation(
                                    i,
                                    with_generation_status(self.generations[i].1, GenerationStatus::Active),
                                )
                            })
                        },
                    },
                }
            },
        }
    }

    pub open spec fn observe_connections(self, id: GenerationId, active: u64) -> Result<DeploymentModel, DeployError> {
        match self.index_of(id) {
            None => Err(DeployError::UnknownGeneration(id)),
            Some(i) => {
                let generation = self.generations[i].1;
                match generation.status {
                    GenerationStatus::Active | GenerationStatus::Draining => Ok(self.set_generation(
                        i,
                        Generation { active_connections: Some(active), ..generation },
                    )),
                    GenerationStatus::Retired if active == 0 => Ok(self),
                    _ => Err(invalid_transition("generation cannot report active connections")),
                }
            },
        }
    }

    pub open spec fn retired(self, id: GenerationId) -> Result<DeploymentModel, DeployError> {
        match self.index_of(id) {
            None => Err(DeployError::UnknownGeneration(id)),
            Some(i) => {
                let generation = self.generations[i].1;
                if generation.status == GenerationStatus::Retired {
                    Ok(self)
                } else if generation.status != GenerationStatus::Draining
                    || generation.active_connections != Some(0u64) {
                    Err(invalid_transition("generation has not drained"))
                } else {
                    Ok(self.set_generation(i, with_generation_status(generation, GenerationStatus::Retired)))
                }
            },
        }
    }

    pub open spec fn failed(self, id: GenerationId, reason: String) -> Result<DeploymentModel, DeployError> {
        match self.index_of(id) {
            None => Err(DeployError::UnknownGeneration(id)),
            Some(i) => {
                let generation = self.generations[i].1;
                if generation.status == GenerationStatus::Failed || generation.status == GenerationStatus::Retired {
                    Ok(self)
                } else if blank(reason@) {
                    Err(invalid_transition("failure reason is empty"))
                } else {
                    let marked = self.set_generation(
                        i,
                        Generation { status: GenerationStatus::Failed, failure: Some(reason), ..generation },
                    );
                    match self.activation {
                        Some(activation) if activation.target == id => if activation.phase == ActivationPhase::Prepared {
                            Ok(marked.with_activation(None))
                        } else {
                            Ok(marked.with_activation(Some(Activation { failure: Some(reason), ..activation })))
                        },
                        _ => Ok(marked),
                    }
                }
            },
        }
    }

    pub open spec fn transition(self, event: DeploymentEvent) -> Result<DeploymentModel, DeployError> {
        match event {
            DeploymentEvent::Prepared { target } => self.prepared(target),
            DeploymentEvent::PreviousPaused { target } => self.previous_paused(target),
            DeploymentEvent::TargetAccepting { target } => self.target_accepting(target),
            DeploymentEvent::AdmissionsResumed { failed_target } => self.admissions_resumed(failed_target),
            DeploymentEvent::ConnectionsObserved { generation, active } => self.observe_connections(generation, active),
            DeploymentEvent::Retired { generation } => self.retired(generation),
            DeploymentEvent::Failed { generation, reason } => self.failed(generation, reason),
        }
    }

    /// Applies a validated event; a transition that fails, or that would
    /// leave the state invalid, leaves it as it was.
    pub open spec fn reconcile(self, event: DeploymentEvent) -> (DeploymentModel, Result<DeployPlan, DeployError>) {
        match self.validate() {
            Err(error) => (self, Err(error)),
            Ok(_) => match self.transition(event) {
                Err(error) => (self, Err(error)),
                Ok(next) => match next.validate() {
                    Err(error) => (self, Err(error)),
                    Ok(_) => (next, Ok(next.next_plan())),
                },
            },
        }
    }
}

/// A plan wrapped as an optional one, keeping the state it came with.
pub open spec fn optional_plan(outcome: (DeploymentModel, Result<DeployPlan, DeployError>)) -> (
    DeploymentModel,
    Result<Option<DeployPlan>, DeployError>,
) {
    (
        outcome.0,
        match outcome.1 {
            Ok(plan) => Ok(Some(plan)),
            Err(error) => Err(error),
        },
    )
}

/// The generation a retry nonce is bound to by the plan its retry produced.
pub open spec fn bound_generation(plan: DeployPlan) -> Option<GenerationId> {
    match plan {
        DeployPlan::StageTarget { target, .. } => Some(target),
        DeployPlan::Settled { active: Some(active) } => Some(active),
        _ => None,
    }
}

pub open spec fn with_nonce(id: Seq<char>) -> spec_fn((RetryId, RetryReceipt)) -> bool {
    |r: (RetryId, RetryReceipt)| r.0@ == id
}

impl DeploymentModel {
    pub open spec fn has_build_with_status(self, build: Seq<char>, status: GenerationStatus) -> bool {
        exists|i: int|
            0 <= i < self.generations.len() && (#[trigger] self.generations[i]).1.build@ == build
                && self.generations[i].1.status == status
    }

    /// An explicit retry of `build`: a failed build gets a fresh generation;
    /// while an unrelated handoff or rollback is unfinished the request waits (`None`).
    pub open spec fn retry_deploy(self, build: BuildId) -> (DeploymentModel, Result<Option<DeployPlan>, DeployError>) {
        match self.validate() {
            Err(error) => (self, Err(error)),
            Ok(_) => if self.deployment_in_progress() {
                if self.has_build_with_status(build@, GenerationStatus::Staged)
                    || self.has_build_with_status(build@, GenerationStatus::Active) {
                    optional_plan(self.plan_deploy(build))
                } else {
                    (self, Ok(None))
                }
            } else if self.has_build_with_status(build@, GenerationStatus::Active)
                || !self.has_build_with_status(build@, GenerationStatus::Failed) {
                optional_plan(self.plan_deploy(build))
            } else {
                match self.stage(build) {
                    Ok((staged, plan)) => (staged, Ok(Some(plan))),
                    Err(error) => (self, Err(error)),
                }
            },
        }
    }

    /// The generation `id` exists and runs `build`.
    pub open spec fn holds_build(self, id: GenerationId, build: Seq<char>) -> bool {
        self.lookup(id) matches Some(generation) && generation.build@ == build
    }

    pub open spec fn receipt_index(self, id: Seq<char>) -> Option<int> {
        first_match(self.retry_receipts, with_nonce(id))
    }

    /// Binds one durable retry nonce to the generation of `build` its retry
    /// created or found; replaying a bound nonce never allocates again. When
    /// the retry only continues another build's unfinished attempt, nothing is
    /// bound and the request stays pending (`Ok(false)`).
    pub open spec fn consume_retry(self, build: BuildId, id: RetryId) -> (DeploymentModel, Result<bool, DeployError>) {
        match self.validate() {
            Err(error) => (self, Err(error)),
            Ok(_) => match self.receipt_index(id@) {
                Some(k) => if self.retry_receipts[k].1.build@ == build@ {
                    (self, Ok(true))
                } else {
                    (self, Err(invalid_transition("retry id build mismatch")))
                },
                None => {
                    let (retried, outcome) = self.retry_deploy(build);
                    match outcome {
                        Err(error) => (retried, Err(error)),
                        Ok(None) => (retried, Ok(false)),
                        Ok(Some(plan)) => match bound_generation(plan) {
                            Some(generation) => if retried.holds_build(generation, build@) {
                                (
                                    DeploymentModel {
                                        retry_receipts: retried.retry_receipts.push(
                                            (id, RetryReceipt { build: build, generation: generation }),
                                        ),
                                        ..retried
                                    },
                                    Ok(true),
                                )
                            } else {
                                (retried, Ok(false))
                            },
                            None => (retried, Err(invalid_transition("retry did not bind to a generation"))),
                        },
                    }
                },
            },
        }
    }
}

/// Statuses the previous generation may hold once admissions were paused.
pub open spec fn previous_after_pause(previous: Option<GenerationStatus>) -> bool {
    match previous {
        None => true,
        Some(status) => status == GenerationStatus::Draining || status == GenerationStatus::Retired
            || status == GenerationStatus::Failed,
    }
}

/// What a phase that has not failed says of the target's and previous's statuses.
pub open spec fn activation_consistent(
    phase: ActivationPhase,
    target: GenerationStatus,
    previous: Option<GenerationStatus>,
) -> bool {
    match phase {
        ActivationPhase::Prepared => target == GenerationStatus::Staged && match previous {
            None => true,
            Some(status) => status == GenerationStatus::Active || status == GenerationStatus::Failed,
        },
        ActivationPhase::PreviousPaused => target == GenerationStatus::Staged && match previous {
            None => true,
            Some(status) => status == GenerationStatus::Draining || status == GenerationStatus::Failed,
        },
        ActivationPhase::TargetAccepting => target == GenerationStatus::Active
            && previous_after_pause(previous),
    }
}

} // verus!
