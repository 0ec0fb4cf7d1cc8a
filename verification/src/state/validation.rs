//! Checks that persisted state is internally consistent.

use vstd::prelude::*;

use super::spec::{
    activation_consistent, failure_consistent, previous_after_pause, text_of,
};
use super::{Activation, DeploymentState, Generation, STATE_VERSION};
use crate::identifiers::is_blank;
use crate::model::{ActivationPhase, DeployError, GenerationStatus};

verus! {

fn same_text(a: &Option<String>, b: &Option<String>) -> (same: bool)
    ensures
        same == (text_of(*a) == text_of(*b)),
{
    match (a, b) {
        (Some(x), Some(y)) => *x == *y,
        (None, None) => true,
        _ => false,
    }
}

fn failure_is_consistent(generation: &Generation) -> (consistent: bool)
    ensures
        consistent == failure_consistent(*generation),
{
    match generation.status {
        GenerationStatus::Failed => match &generation.failure {
            Some(reason) => !is_blank(reason.as_str()),
            None => false,
        },
        _ => generation.failure.is_none(),
    }
}

fn after_pause(previous: Option<GenerationStatus>) -> (allowed: bool)
    ensures
        allowed == previous_after_pause(previous),
{
    match previous {
        None => true,
        Some(status) => matches!(
            status,
            GenerationStatus::Draining | GenerationStatus::Retired | GenerationStatus::Failed
        ),
    }
}

fn consistent_phase(
    phase: ActivationPhase,
    target: GenerationStatus,
    previous: Option<GenerationStatus>,
) -> (consistent: bool)
    ensures
        consistent == activation_consistent(phase, target, previous),
{
    match phase {
        ActivationPhase::Prepared => {
            target == GenerationStatus::Staged && match previous {
                None => true,
                Some(status) => matches!(status, GenerationStatus::Active | GenerationStatus::Failed),
            }
        },
        ActivationPhase::PreviousPaused => {
            target == GenerationStatus::Staged && match previous {
                None => true,
                Some(status) => matches!(status, GenerationStatus::Draining | GenerationStatus::Failed),
            }
        },
        ActivationPhase::TargetAccepting => {
            target == GenerationStatus::Active && after_pause(previous)
        },
    }
}

impl DeploymentState {
    /// Rejects persisted state that no sequence of planner operations produces.
    pub fn validate(&self) -> (result: Result<(), DeployError>)
        ensures
            result == self@.validate(),
    {
        if self.version != STATE_VERSION {
            return Err(DeployError::InvalidPersistedState("unsupported version"));
        }
        if self.next_generation == 0 || self.id_out_of_range() {
            return Err(DeployError::InvalidPersistedState("invalid generation id"));
        }
        if self.blank_build() {
            return Err(DeployError::InvalidPersistedState("empty build id"));
        }
        if self.status_repeated(GenerationStatus::Active) {
            return Err(DeployError::InvalidPersistedState("multiple active generations"));
        }
        if self.status_repeated(GenerationStatus::Staged) {
            return Err(DeployError::InvalidPersistedState("multiple staged generations"));
        }
        if self.failure_contradiction() {
            return Err(DeployError::InvalidPersistedState("generation failure contradicts status"));
        }
        let rollback_invalid = match self.last_rollback {
            Some(id) => self.status_of(id) != Some(GenerationStatus::Failed),
            None => false,
        };
        if rollback_invalid {
            return Err(DeployError::InvalidPersistedState("invalid rollback receipt"));
        }
        if self.receipts_invalid() {
            return Err(DeployError::InvalidPersistedState("invalid retry receipt"));
        }
        self.validate_activation()
    }

    fn id_out_of_range(&self) -> (found: bool)
        ensures
            found == self@.id_out_of_range(),
    {
        let ghost s = self@.generations;
        let mut i: usize = 0;
        while i < self.generations.len()
            invariant
                s == self@.generations,
                i <= s.len(),
                forall|j: int|
                    0 <= j < i ==> !((#[trigger] s[j]).0.0 == 0 || s[j].0.0 >= self.next_generation),
            decreases s.len() - i,
        {
            let id = self.generations[i].0.get();
            if id == 0 || id >= self.next_generation {
                return true;
            }
            i = i + 1;
        }
        false
    }

    fn blank_build(&self) -> (found: bool)
        ensures
            found == self@.blank_build(),
    {
        let ghost s = self@.generations;
        let mut i: usize = 0;
        while i < self.generations.len()
            invariant
                s == self@.generations,
                i <= s.len(),
                forall|j: int| 0 <= j < i ==> !crate::identifiers::blank((#[trigger] s[j]).1.build@),
            decreases s.len() - i,
        {
            if is_blank(self.generations[i].1.build.as_str()) {
                return true;
            }
            i = i + 1;
        }
        false
    }

    fn status_repeated(&self, status: GenerationStatus) -> (repeated: bool)
        ensures
            repeated == self@.status_repeated(status),
    {
        let ghost s = self@.generations;
        let mut seen: Option<usize> = None;
        let mut i: usize = 0;
        while i < self.generations.len()
            invariant
                s == self@.generations,
                i <= s.len(),
                match seen {
                    Some(k) => k < i && s[k as int].1.status == status,
                    None => forall|j: int| 0 <= j < i ==> (#[trigger] s[j]).1.status != status,
                },
                forall|a: int, b: int|
                    0 <= a < b < i ==> !((#[trigger] s[a]).1.status == status && (#[trigger] s[b]).1.status
                        == status),
            decreases s.len() - i,
        {
            if self.generations[i].1.status == status {
                if let Some(k) = seen {
                    assert(s[k as int].1.status == status && s[i as int].1.status == status);
                    return true;
                }
                seen = Some(i);
            }
            i = i + 1;
        }
        false
    }

    fn failure_contradiction(&self) -> (found: bool)
        ensures
            found == self@.failure_contradiction(),
    {
        let ghost s = self@.generations;
        let mut i: usize = 0;
        while i < self.generations.len()
            invariant
                s == self@.generations,
                i <= s.len(),
                forall|j: int| 0 <= j < i ==> failure_consistent((#[trigger] s[j]).1),
            decreases s.len() - i,
        {
            if !failure_is_consistent(&self.generations[i].1) {
                return true;
            }
            i = i + 1;
        }
        false
    }

    fn receipts_invalid(&self) -> (found: bool)
        ensures
            found == self@.receipts_invalid(),
    {
        let ghost r = self@.retry_receipts;
        let mut k: usize = 0;
        while k < self.retry_receipts.len()
            invariant
                r == self@.retry_receipts,
                k <= r.len(),
                forall|j: int| 0 <= j < k ==> !self@.receipt_invalid(#[trigger] r[j]),
            decreases r.len() - k,
        {
            let (id, receipt) = &self.retry_receipts[k];
            let invalid = !id.is_valid() || match self.generation(receipt.generation) {
                Some(generation) => !generation.build.same_as(&receipt.build),
                None => true,
            };
            if invalid {
                assert(self@.receipt_invalid(r[k as int]));
                return true;
            }
            k = k + 1;
        }
        false
    }

    fn validate_activation(&self) -> (result: Result<(), DeployError>)
        ensures
            result == self@.validate_activation(),
    {
        let activation: &Activation = match &self.activation {
            None => return Ok(()),
            Some(activation) => activation,
        };
        let target = match self.generation(activation.target) {
            Some(target) => target,
            None => return Err(DeployError::UnknownGeneration(activation.target)),
        };
        if activation.previous == Some(activation.target) {
            return Err(DeployError::InvalidPersistedState("target equals previous"));
        }
        let previous_status = match activation.previous {
            None => None,
            Some(previous) => match self.generation(previous) {
                Some(generation) => Some(generation.status),
                None => return Err(DeployError::UnknownGeneration(previous)),
            },
        };
        if activation.failure.is_some() {
            if target.status != GenerationStatus::Failed
                || !same_text(&target.failure, &activation.failure)
                || activation.phase == ActivationPhase::Prepared
                || !after_pause(previous_status) {
                return Err(DeployError::InvalidPersistedState("invalid failed activation"));
            }
            return Ok(());
        }
        if consistent_phase(activation.phase, target.status, previous_status) {
            Ok(())
        } else {
            Err(DeployError::InvalidPersistedState("activation contradicts generations"))
        }
    }
}

} // verus!
