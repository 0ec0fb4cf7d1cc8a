//! Applying one observed host outcome.

use vstd::prelude::*;

use super::spec::{with_generation_status, with_phase};
use super::{Activation, DeploymentState, Generation};
use crate::identifiers::is_blank;
use crate::model::{
    ActivationPhase, DeployError, DeployPlan, DeploymentEvent, GenerationId, GenerationStatus,
};

verus! {

impl DeploymentState {
    fn prepared(&mut self, target: GenerationId) -> (result: Result<(), DeployError>)
        ensures
            match old(self)@.prepared(target) {
                Ok(next) => final(self)@ == next && result is Ok,
                Err(error) => final(self)@ == old(self)@ && result == Err::<(), DeployError>(error),
            },
    {
        if let Some(activation) = &self.activation {
            if activation.target == target {
                return Ok(());
            }
            return Err(DeployError::DeploymentBusy);
        }
        match self.status_of(target) {
            None => return Err(DeployError::UnknownGeneration(target)),
            Some(status) => if status != GenerationStatus::Staged {
                return Err(DeployError::InvalidTransition("target is not staged"));
            },
        }
        let previous = self.active_generation();
        self.activation = Some(Activation {
            target,
            previous,
            phase: ActivationPhase::Prepared,
            failure: None,
        });
        Ok(())
    }

    fn previous_paused(&mut self, target: GenerationId) -> (result: Result<(), DeployError>)
        ensures
            match old(self)@.previous_paused(target) {
                Ok(next) => final(self)@ == next && result is Ok,
                Err(error) => final(self)@ == old(self)@ && result == Err::<(), DeployError>(error),
            },
    {
        let ghost before = self@;
        let (phase, previous) = match &self.activation {
            Some(activation) => if activation.target == target {
                (activation.phase, activation.previous)
            } else {
                return Err(DeployError::InvalidTransition("activation target mismatch"));
            },
            None => return Err(DeployError::InvalidTransition("activation target mismatch")),
        };
        if phase != ActivationPhase::Prepared {
            return Ok(());
        }
        if let Some(previous) = previous {
            let i = match self.index_of(previous) {
                Some(i) => i,
                None => return Err(DeployError::UnknownGeneration(previous)),
            };
            match self.generations[i].1.status {
                GenerationStatus::Active => {
                    self.generations[i].1.status = GenerationStatus::Draining;
                    self.generations[i].1.active_connections = None;
                },
                GenerationStatus::Failed => {},
                _ => return Err(DeployError::InvalidTransition("previous generation cannot be paused")),
            }
        }
        if let Some(activation) = &mut self.activation {
            activation.phase = ActivationPhase::PreviousPaused;
        }
        proof {
            let a = before.activation->0;
            let paused = Some(super::spec::with_phase(a, ActivationPhase::PreviousPaused));
            match previous {
                None => assert(self@ =~= before.with_activation(paused)),
                Some(p) => {
                    let i = before.index_of(p)->0;
                    if before.generations[i].1.status == GenerationStatus::Active {
                        assert(self@ =~= before.set_generation(
                            i,
                            super::Generation {
                                status: GenerationStatus::Draining,
                                active_connections: None,
                                ..before.generations[i].1
                            },
                        ).with_activation(paused));
                    } else {
                        assert(self@ =~= before.with_activation(paused));
                    }
                },
            }
        }
        Ok(())
    }

    fn target_accepting(&mut self, target: GenerationId) -> (result: Result<(), DeployError>)
        ensures
            match old(self)@.target_accepting(target) {
                Ok(next) => final(self)@ == next && result is Ok,
                Err(error) => final(self)@ == old(self)@ && result == Err::<(), DeployError>(error),
            },
    {
        let ghost before = self@;
        let (phase, failed) = match &self.activation {
            Some(activation) => if activation.target == target {
                (activation.phase, activation.failure.is_some())
            } else {
                return Err(DeployError::InvalidTransition("activation target mismatch"));
            },
            None => return Err(DeployError::InvalidTransition("activation target mismatch")),
        };
        if phase == ActivationPhase::TargetAccepting {
            return Ok(());
        }
        if phase != ActivationPhase::PreviousPaused || failed {
            return Err(DeployError::InvalidTransition("target cannot accept yet"));
        }
        let i = match self.index_of(target) {
            Some(i) => i,
            None => return Err(DeployError::UnknownGeneration(target)),
        };
        self.generations[i].1.status = GenerationStatus::Active;
        if let Some(activation) = &mut self.activation {
            activation.phase = ActivationPhase::TargetAccepting;
        }
        proof {
            let a = before.activation->0;
            assert(self@ =~= before.set_generation(
                i as int,
                with_generation_status(before.generations[i as int].1, GenerationStatus::Active),
            ).with_activation(Some(with_phase(a, ActivationPhase::TargetAccepting))));
        }
        Ok(())
    }

    fn admissions_resumed(&mut self, failed_target: GenerationId) -> (result: Result<(), DeployError>)
        ensures
            match old(self)@.admissions_resumed(failed_target) {
                Ok(next) => final(self)@ == next && result is Ok,
                Err(error) => final(self)@ == old(self)@ && result == Err::<(), DeployError>(error),
            },
    {
        let ghost before = self@;
        let previous = match &self.activation {
            None => {
                return if self.last_rollback == Some(failed_target) {
                    Ok(())
                } else {
                    Err(DeployError::InvalidTransition("rollback is not pending"))
                };
            },
            Some(activation) => {
                if activation.target != failed_target || activation.failure.is_none() {
                    return Err(DeployError::InvalidTransition("rollback is not pending"));
                }
                match activation.previous {
                    Some(previous) => previous,
                    None => return Err(DeployError::InvalidTransition("no previous generation")),
                }
            },
        };
        let i = match self.index_of(previous) {
            Some(i) => i,
            None => return Err(DeployError::UnknownGeneration(previous)),
        };
        if self.generations[i].1.status != GenerationStatus::Draining {
            return Err(DeployError::InvalidTransition("previous generation cannot resume"));
        }
        self.generations[i].1.status = GenerationStatus::Active;
        self.activation = None;
        self.last_rollback = Some(failed_target);
        proof {
            let resumed = before.set_generation(
                i as int,
                with_generation_status(before.generations[i as int].1, GenerationStatus::Active),
            );
            assert(self@ =~= super::DeploymentModel {
                activation: None,
                last_rollback: Some(failed_target),
                ..resumed
            });
        }
        Ok(())
    }

    fn observe_connections(&mut self, id: GenerationId, active: u64) -> (result: Result<(), DeployError>)
        ensures
            match old(self)@.observe_connections(id, active) {
                Ok(next) => final(self)@ == next && result is Ok,
                Err(error) => final(self)@ == old(self)@ && result == Err::<(), DeployError>(error),
            },
    {
        let ghost before = self@;
        let i = match self.index_of(id) {
            Some(i) => i,
            None => return Err(DeployError::UnknownGeneration(id)),
        };
        let status = self.generations[i].1.status;
        if status == GenerationStatus::Active || status == GenerationStatus::Draining {
            self.generations[i].1.active_connections = Some(active);
            proof {
                assert(self@ =~= before.set_generation(
                    i as int,
                    Generation { active_connections: Some(active), ..before.generations[i as int].1 },
                ));
            }
            Ok(())
        } else if status == GenerationStatus::Retired && active == 0 {
            Ok(())
        } else {
            Err(DeployError::InvalidTransition("generation cannot report active connections"))
        }
    }

    fn retired(&mut self, id: GenerationId) -> (result: Result<(), DeployError>)
        ensures
            match old(self)@.retired(id) {
                Ok(next) => final(self)@ == next && result is Ok,
                Err(error) => final(self)@ == old(self)@ && result == Err::<(), DeployError>(error),
            },
    {
        let ghost before = self@;
        let i = match self.index_of(id) {
            Some(i) => i,
            None => return Err(DeployError::UnknownGeneration(id)),
        };
        let status = self.generations[i].1.status;
        if status == GenerationStatus::Retired {
            return Ok(());
        }
        if status != GenerationStatus::Draining || self.generations[i].1.active_connections != Some(0u64) {
            return Err(DeployError::InvalidTransition("generation has not drained"));
        }
        self.generations[i].1.status = GenerationStatus::Retired;
        proof {
            assert(self@ =~= before.set_generation(
                i as int,
                with_generation_status(before.generations[i as int].1, GenerationStatus::Retired),
            ));
        }
        Ok(())
    }

    fn failed(&mut self, id: GenerationId, reason: String) -> (result: Result<(), DeployError>)
        ensures
            match old(self)@.failed(id, reason) {
                Ok(next) => final(self)@ == next && result is Ok,
                Err(error) => final(self)@ == old(self)@ && result == Err::<(), DeployError>(error),
            },
    {
        let ghost before = self@;
        let i = match self.index_of(id) {
            Some(i) => i,
            None => return Err(DeployError::UnknownGeneration(id)),
        };
        let status = self.generations[i].1.status;
        if status == GenerationStatus::Failed || status == GenerationStatus::Retired {
            return Ok(());
        }
        if is_blank(reason.as_str()) {
            return Err(DeployError::InvalidTransition("failure reason is empty"));
        }
        let (is_target, prepared) = match &self.activation {
            Some(activation) => (activation.target == id, activation.phase == ActivationPhase::Prepared),
            None => (false, false),
        };
        self.generations[i].1.status = GenerationStatus::Failed;
        self.generations[i].1.failure = Some(reason.clone());
        let ghost marked = before.set_generation(
            i as int,
            Generation {
                status: GenerationStatus::Failed,
                failure: Some(reason),
                ..before.generations[i as int].1
            },
        );
        proof {
            assert(self@ =~= marked);
        }
        if is_target {
            if prepared {
                self.activation = None;
                proof {
                    assert(self@ =~= marked.with_activation(None));
                }
            } else if let Some(activation) = &mut self.activation {
                activation.failure = Some(reason);
                proof {
                    assert(self@ =~= marked.with_activation(
                        Some(Activation { failure: Some(reason), ..before.activation->0 }),
                    ));
                }
            }
        }
        Ok(())
    }

    fn transition(&mut self, event: DeploymentEvent) -> (result: Result<(), DeployError>)
        ensures
            match old(self)@.transition(event) {
                Ok(next) => final(self)@ == next && result is Ok,
                Err(error) => final(self)@ == old(self)@ && result == Err::<(), DeployError>(error),
            },
    {
        match event {
            DeploymentEvent::Prepared { target } => self.prepared(target),
            DeploymentEvent::PreviousPaused { target } => self.previous_paused(target),
            DeploymentEvent::TargetAccepting { target } => self.target_accepting(target),
            DeploymentEvent::AdmissionsResumed { failed_target } => self.admissions_resumed(failed_target),
            DeploymentEvent::ConnectionsObserved { generation, active } => self.observe_connections(
                generation,
                active,
            ),
            DeploymentEvent::Retired { generation } => self.retired(generation),
            DeploymentEvent::Failed { generation, reason } => self.failed(generation, reason),
        }
    }

    /// Applies an observed host outcome and returns the next idempotent action.
    ///
    /// A rejected event, or one that would leave the state inconsistent,
    /// leaves the state exactly as it was.
    pub fn reconcile(&mut self, event: DeploymentEvent) -> (plan: Result<DeployPlan, DeployError>)
        ensures
            (final(self)@, plan) == old(self)@.reconcile(event),
            old(self)@.wf() ==> final(self)@.wf(),
    {
        proof {
            if self@.wf() {
                super::laws::law_reconcile_history(self@, event);
            }
        }
        self.validate()?;
        let before = self.duplicate();
        let outcome = match self.transition(event) {
            Err(error) => Err(error),
            Ok(()) => match self.validate() {
                Err(error) => Err(error),
                Ok(()) => Ok(self.next_plan()),
            },
        };
        if outcome.is_err() {
            *self = before;
        }
        outcome
    }
}

} // verus!
