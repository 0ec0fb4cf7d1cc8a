//! The persisted deployment state machine.
//!
//! A deployment attempt is a generation. At most one generation is active and
//! at most one is staged; an activation records the handoff from the previous
//! active generation to the staged target. Every operation validates the
//! state first, and every reported event either moves the state to another
//! valid state or leaves it as it was.

use vstd::prelude::*;

use crate::identifiers::{BuildId, RetryId};
use crate::model::{
    ActivationPhase, ActivationSnapshot, DeployError, DeployPlan, DeploymentSnapshot, GenerationId,
    GenerationSnapshot, GenerationStatus,
};

pub mod spec;
mod lookup;
mod validation;
mod planning;
mod transitions;
mod retry;
pub mod persisted;
pub mod laws;


verus! {

/// The version this planner writes and accepts.
pub const STATE_VERSION: u8 = 1;

/// One deployment attempt.
pub struct Generation {
    pub build: BuildId,
    pub status: GenerationStatus,
    pub active_connections: Option<u64>,
    pub failure: Option<String>,
}

/// The handoff from `previous` to `target`.
pub struct Activation {
    pub target: GenerationId,
    pub previous: Option<GenerationId>,
    pub phase: ActivationPhase,
    pub failure: Option<String>,
}

/// Binds an installer's retry nonce to the attempt it created.
pub struct RetryReceipt {
    pub build: BuildId,
    pub generation: GenerationId,
}

/// The durable deployment state.
///
/// Generations are held in increasing id order, as the persisted map orders
/// them; retry receipts are keyed by distinct nonces.
pub struct DeploymentState {
    version: u8,
    next_generation: u64,
    generations: Vec<(GenerationId, Generation)>,
    activation: Option<Activation>,
    last_rollback: Option<GenerationId>,
    retry_receipts: Vec<(RetryId, RetryReceipt)>,
}

/// The mathematical content of a `DeploymentState`.
#[verifier::ext_equal]
pub struct DeploymentModel {
    pub version: u8,
    pub next_generation: u64,
    pub generations: Seq<(GenerationId, Generation)>,
    pub activation: Option<Activation>,
    pub last_rollback: Option<GenerationId>,
    pub retry_receipts: Seq<(RetryId, RetryReceipt)>,
}

impl View for DeploymentState {
    type V = DeploymentModel;

    closed spec fn view(&self) -> DeploymentModel {
        DeploymentModel {
            version: self.version,
            next_generation: self.next_generation,
            generations: self.generations@,
            activation: self.activation,
            last_rollback: self.last_rollback,
            retry_receipts: self.retry_receipts@,
        }
    }
}

impl Default for DeploymentState {
    fn default() -> (state: Self)
        ensures
            state@ == (DeploymentModel {
                version: STATE_VERSION,
                next_generation: 1,
                generations: Seq::empty(),
                activation: None,
                last_rollback: None,
                retry_receipts: Seq::empty(),
            }),
            state@.wf(),
    {
        let state = DeploymentState {
            version: STATE_VERSION,
            next_generation: 1,
            generations: Vec::new(),
            activation: None,
            last_rollback: None,
            retry_receipts: Vec::new(),
        };
        proof {
            assert(state@ =~= DeploymentModel {
                version: STATE_VERSION,
                next_generation: 1,
                generations: Seq::empty(),
                activation: None,
                last_rollback: None,
                retry_receipts: Seq::empty(),
            });
        }
        state
    }
}

impl DeploymentState {
    /// Keeps fresh ids above every generation directory already on disk.
    pub fn reserve_generation_ids_after(&mut self, existing: u64) -> (result: Result<(), DeployError>)
        ensures
            (final(self)@, result) == old(self)@.reserve_generation_ids_after(existing),
            old(self)@.wf() ==> final(self)@.wf(),
    {
        proof {
            if self@.wf() {
                laws::law_reserve_generation_ids(self@, existing);
            }
        }
        self.validate()?;
        let after = match existing.checked_add(1) {
            Some(after) => after,
            None => return Err(DeployError::GenerationIdsExhausted),
        };
        if after > self.next_generation {
            self.next_generation = after;
        }
        Ok(())
    }

    /// Records deployment intent before returning the next idempotent host action.
    pub fn plan_deploy(&mut self, build: BuildId) -> (plan: Result<DeployPlan, DeployError>)
        ensures
            (final(self)@, plan) == old(self)@.plan_deploy(build),
            old(self)@.wf() ==> final(self)@.wf(),
    {
        proof {
            if self@.wf() {
                laws::law_plan_deploy_history(self@, build);
            }
        }
        self.validate()?;
        if let Some((id, status)) = self.current_attempt_for(&build) {
            return self.plan_existing(id, status);
        }
        if self.deployment_in_progress() {
            return Err(DeployError::DeploymentBusy);
        }
        self.stage(build)
    }

    /// Returns the action needed to converge the persisted deployment without
    /// introducing a new deployment intent.
    pub fn current_plan(&self) -> (plan: Result<DeployPlan, DeployError>)
        ensures
            plan == self@.current_plan(),
    {
        self.validate()?;
        Ok(self.next_plan())
    }

    /// Each generation's id and status, in id order.
    pub fn statuses(&self) -> (statuses: Vec<(GenerationId, GenerationStatus)>)
        ensures
            statuses@.len() == self@.generations.len(),
            forall|i: int|
                0 <= i < self@.generations.len() ==> (#[trigger] statuses@[i]) == (
                    self@.generations[i].0,
                    self@.generations[i].1.status,
                ),
    {
        let mut statuses: Vec<(GenerationId, GenerationStatus)> = Vec::new();
        let mut i: usize = 0;
        while i < self.generations.len()
            invariant
                i <= self@.generations.len(),
                statuses@.len() == i,
                forall|j: int|
                    0 <= j < i ==> (#[trigger] statuses@[j]) == (self@.generations[j].0, self@.generations[j].1.status),
            decreases self@.generations.len() - i,
        {
            statuses.push((self.generations[i].0, self.generations[i].1.status));
            i = i + 1;
        }
        statuses
    }

    pub fn snapshot(&self) -> (snapshot: DeploymentSnapshot)
        ensures
            snapshot.generations@.len() == self@.generations.len(),
            forall|i: int|
                0 <= i < self@.generations.len() ==> (#[trigger] snapshot.generations@[i]) == snapshot_of(
                    self@.generations[i],
                ),
            snapshot.activation == activation_snapshot_of(self@.activation),
            snapshot.last_rollback == self@.last_rollback,
            self@.wf() ==> forall|i: int, j: int|
                0 <= i < j < snapshot.generations@.len() ==> (#[trigger] snapshot.generations@[i]).id.0
                    < (#[trigger] snapshot.generations@[j]).id.0,
    {
        let mut generations: Vec<GenerationSnapshot> = Vec::new();
        let mut i: usize = 0;
        while i < self.generations.len()
            invariant
                i <= self@.generations.len(),
                generations@.len() == i,
                forall|j: int| 0 <= j < i ==> (#[trigger] generations@[j]) == snapshot_of(self@.generations[j]),
            decreases self@.generations.len() - i,
        {
            let (id, generation) = &self.generations[i];
            generations.push(GenerationSnapshot {
                id: *id,
                build: generation.build.clone(),
                status: generation.status,
                active_connections: generation.active_connections,
                failure: clone_text(&generation.failure),
            });
            i = i + 1;
        }
        let activation = match &self.activation {
            Some(activation) => Some(ActivationSnapshot {
                target: activation.target,
                previous: activation.previous,
                phase: activation.phase,
                failure: clone_text(&activation.failure),
            }),
            None => None,
        };
        DeploymentSnapshot { generations, activation, last_rollback: self.last_rollback }
    }
}

pub open spec fn snapshot_of(entry: (GenerationId, Generation)) -> GenerationSnapshot {
    GenerationSnapshot {
        id: entry.0,
        build: entry.1.build,
        status: entry.1.status,
        active_connections: entry.1.active_connections,
        failure: entry.1.failure,
    }
}

pub open spec fn activation_snapshot_of(activation: Option<Activation>) -> Option<ActivationSnapshot> {
    match activation {
        Some(activation) => Some(ActivationSnapshot {
            target: activation.target,
            previous: activation.previous,
            phase: activation.phase,
            failure: activation.failure,
        }),
        None => None,
    }
}

impl Clone for DeploymentState {
    fn clone(&self) -> (copy: Self)
        ensures
            copy@ == self@,
    {
        self.duplicate()
    }
}

impl Clone for Generation {
    fn clone(&self) -> (copy: Self)
        ensures
            copy == *self,
    {
        Generation {
            build: self.build.clone(),
            status: self.status,
            active_connections: self.active_connections,
            failure: clone_text(&self.failure),
        }
    }
}

impl Clone for Activation {
    fn clone(&self) -> (copy: Self)
        ensures
            copy == *self,
    {
        Activation {
            target: self.target,
            previous: self.previous,
            phase: self.phase,
            failure: clone_text(&self.failure),
        }
    }
}

impl Clone for RetryReceipt {
    fn clone(&self) -> (copy: Self)
        ensures
            copy == *self,
    {
        RetryReceipt { build: self.build.clone(), generation: self.generation }
    }
}

pub(crate) fn clone_text(text: &Option<String>) -> (copy: Option<String>)
    ensures
        copy == *text,
{
    match text {
        Some(text) => Some(text.clone()),
        None => None,
    }
}

impl DeploymentState {
    /// An equal, independently owned copy.
    pub fn duplicate(&self) -> (copy: Self)
        ensures
            copy@ == self@,
    {
        let mut generations: Vec<(GenerationId, Generation)> = Vec::new();
        let mut i: usize = 0;
        while i < self.generations.len()
            invariant
                i <= self.generations@.len(),
                generations@ =~= self.generations@.take(i as int),
            decreases self.generations@.len() - i,
        {
            let (id, generation) = &self.generations[i];
            generations.push((*id, generation.clone()));
            i = i + 1;
        }
        let mut retry_receipts: Vec<(RetryId, RetryReceipt)> = Vec::new();
        let mut k: usize = 0;
        while k < self.retry_receipts.len()
            invariant
                k <= self.retry_receipts@.len(),
                retry_receipts@ =~= self.retry_receipts@.take(k as int),
            decreases self.retry_receipts@.len() - k,
        {
            let (id, receipt) = &self.retry_receipts[k];
            retry_receipts.push((id.clone(), receipt.clone()));
            k = k + 1;
        }
        let activation = match &self.activation {
            Some(activation) => Some(activation.clone()),
            None => None,
        };
        let copy = DeploymentState {
            version: self.version,
            next_generation: self.next_generation,
            generations,
            activation,
            last_rollback: self.last_rollback,
            retry_receipts,
        };
        proof {
            assert(generations@ =~= self.generations@);
            assert(retry_receipts@ =~= self.retry_receipts@);
            assert(copy@ =~= self@);
        }
        copy
    }
}

} // verus!
