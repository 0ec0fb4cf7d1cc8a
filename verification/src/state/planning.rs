//! Choosing the next idempotent host action.

use vstd::prelude::*;

use super::{DeploymentState, Generation};
use crate::identifiers::BuildId;
use crate::model::{ActivationPhase, DeployError, DeployPlan, GenerationId, GenerationStatus};

verus! {

impl DeploymentState {
    pub(crate) fn deployment_in_progress(&self) -> (in_progress: bool)
        ensures
            in_progress == self@.deployment_in_progress(),
    {
        let handoff = match &self.activation {
            Some(activation) => if activation.failure.is_some() {
                self.previous_draining(activation)
            } else {
                activation.phase != ActivationPhase::TargetAccepting
            },
            None => false,
        };
        handoff || self.has_status(GenerationStatus::Staged)
    }

    pub(crate) fn next_plan(&self) -> (plan: DeployPlan)
        ensures
            plan == self@.next_plan(),
    {
        if let Some(activation) = &self.activation {
            if activation.failure.is_some() {
                if self.previous_draining(activation) {
                    return DeployPlan::ResumeAdmissions {
                        previous: activation.previous.unwrap(),
                        failed_target: activation.target,
                    };
                }
                return DeployPlan::Unavailable {
                    failed_target: activation.target,
                    active: self.active_generation(),
                };
            }
            match activation.phase {
                ActivationPhase::Prepared => {
                    return DeployPlan::PauseAdmissions {
                        previous: activation.previous,
                        target: activation.target,
                    };
                },
                ActivationPhase::PreviousPaused => {
                    return DeployPlan::StartAccepting { target: activation.target };
                },
                ActivationPhase::TargetAccepting => {},
            }
        }
        self.settled_plan()
    }

    fn settled_plan(&self) -> (plan: DeployPlan)
        ensures
            plan == self@.settled_plan(),
    {
        if let Some(i) = self.first_with_status(GenerationStatus::Staged) {
            let (id, generation) = &self.generations[i];
            return DeployPlan::StageTarget { target: *id, build: generation.build.clone() };
        }
        if let Some(i) = self.first_drained() {
            return DeployPlan::Retire { generation: self.generations[i].0 };
        }
        let active = self.active_generation();
        if active.is_none() {
            if let Some(j) = self.last_with_status(GenerationStatus::Failed) {
                return DeployPlan::Unavailable { failed_target: self.generations[j].0, active: None };
            }
        }
        DeployPlan::Settled { active }
    }

    pub(crate) fn current_attempt_for(&self, build: &BuildId) -> (attempt: Option<(GenerationId, GenerationStatus)>)
        ensures
            attempt == self@.current_attempt_for(build@),
    {
        if let Some(i) = self.first_active_with_build(build) {
            return Some((self.generations[i].0, self.generations[i].1.status));
        }
        match self.last_with_build(build) {
            Some(j) => {
                let (id, generation) = &self.generations[j];
                if matches!(generation.status, GenerationStatus::Draining | GenerationStatus::Retired) {
                    None
                } else {
                    Some((*id, generation.status))
                }
            },
            None => None,
        }
    }

    pub(crate) fn plan_existing(&self, id: GenerationId, status: GenerationStatus) -> (plan: Result<DeployPlan, DeployError>)
        ensures
            plan == self@.plan_existing(id, status),
    {
        let other_target = match &self.activation {
            Some(activation) => activation.target != id,
            None => false,
        };
        if other_target && self.deployment_in_progress() {
            return Err(DeployError::DeploymentBusy);
        }
        let targeted = match &self.activation {
            Some(activation) => activation.target == id,
            None => false,
        };
        if status == GenerationStatus::Failed && !targeted {
            return Ok(DeployPlan::Unavailable { failed_target: id, active: self.active_generation() });
        }
        Ok(self.next_plan())
    }

    /// Stages `build` under a fresh generation id.
    pub(crate) fn stage(&mut self, build: BuildId) -> (plan: Result<DeployPlan, DeployError>)
        ensures
            match old(self)@.stage(build) {
                Ok((staged, expected)) => final(self)@ == staged && plan == Ok::<DeployPlan, DeployError>(expected),
                Err(error) => final(self)@ == old(self)@ && plan == Err::<DeployPlan, DeployError>(error),
            },
    {
        if self.next_generation == u64::MAX {
            return Err(DeployError::GenerationIdsExhausted);
        }
        let id = GenerationId::from_raw(self.next_generation);
        self.activation = None;
        self.next_generation = self.next_generation + 1;
        self.generations.push((
            id,
            Generation {
                build: build.clone(),
                status: GenerationStatus::Staged,
                active_connections: None,
                failure: None,
            },
        ));
        Ok(DeployPlan::StageTarget { target: id, build })
    }
}

} // verus!
