//! Explicit retries of a failed build, bound to durable installer nonces.

use vstd::prelude::*;

use super::spec::{with_nonce, opt_index};
use super::{DeploymentModel, DeploymentState, RetryReceipt};
use crate::identifiers::{BuildId, RetryId};
use crate::model::{DeployError, DeployPlan, GenerationStatus};
use crate::search::{lemma_first_match_is, lemma_first_match_none};

verus! {

impl DeploymentState {
    fn has_build_with_status(&self, build: &BuildId, status: GenerationStatus) -> (found: bool)
        ensures
            found == self@.has_build_with_status(build@, status),
    {
        let ghost s = self@.generations;
        let mut i: usize = 0;
        while i < self.generations.len()
            invariant
                s == self@.generations,
                i <= s.len(),
                forall|j: int| 0 <= j < i ==> !((#[trigger] s[j]).1.build@ == build@ && s[j].1.status == status),
            decreases s.len() - i,
        {
            let generation = &self.generations[i].1;
            if generation.status == status && generation.build.same_as(build) {
                return true;
            }
            i = i + 1;
        }
        false
    }

    fn receipt_index(&self, id: &RetryId) -> (index: Option<usize>)
        ensures
            opt_index(index) == self@.receipt_index(id@),
            index matches Some(k) ==> k < self@.retry_receipts.len(),
    {
        let ghost r = self@.retry_receipts;
        let mut k: usize = 0;
        while k < self.retry_receipts.len()
            invariant
                r == self@.retry_receipts,
                k <= r.len(),
                forall|j: int| 0 <= j < k ==> !with_nonce(id@)(#[trigger] r[j]),
            decreases r.len() - k,
        {
            if self.retry_receipts[k].0.same_as(id) {
                proof {
                    lemma_first_match_is(r, with_nonce(id@), k as int);
                }
                return Some(k);
            }
            k = k + 1;
        }
        proof {
            lemma_first_match_none(r, with_nonce(id@));
        }
        None
    }

    /// Explicitly retries a failed build with a fresh generation id.
    /// `None` keeps the request pending while an earlier rollback settles.
    pub fn retry_deploy(&mut self, build: BuildId) -> (plan: Result<Option<DeployPlan>, DeployError>)
        ensures
            (final(self)@, plan) == old(self)@.retry_deploy(build),
            old(self)@.wf() ==> final(self)@.wf(),
    {
        proof {
            if self@.wf() {
                super::laws::law_retry_deploy_history(self@, build);
            }
        }
        self.validate()?;
        if self.deployment_in_progress() {
            let known = self.has_build_with_status(&build, GenerationStatus::Staged)
                || self.has_build_with_status(&build, GenerationStatus::Active);
            if !known {
                return Ok(None);
            }
            return match self.plan_deploy(build) {
                Ok(plan) => Ok(Some(plan)),
                Err(error) => Err(error),
            };
        }
        if self.has_build_with_status(&build, GenerationStatus::Active)
            || !self.has_build_with_status(&build, GenerationStatus::Failed) {
            return match self.plan_deploy(build) {
                Ok(plan) => Ok(Some(plan)),
                Err(error) => Err(error),
            };
        }
        match self.stage(build) {
            Ok(plan) => Ok(Some(plan)),
            Err(error) => Err(error),
        }
    }

    /// Atomically binds one durable installer intent to the generation of
    /// `build` it created. Replaying an already-bound intent never allocates
    /// again; a retry that only continues another build's attempt binds
    /// nothing and reports `Ok(false)`, so the request stays pending.
    pub fn consume_retry(&mut self, build: BuildId, id: RetryId) -> (bound: Result<bool, DeployError>)
        ensures
            (final(self)@, bound) == old(self)@.consume_retry(build, id),
            old(self)@.wf() ==> final(self)@.wf(),
    {
        proof {
            if self@.wf() {
                super::laws::law_consume_retry_history(self@, build, id);
            }
        }
        self.validate()?;
        if let Some(k) = self.receipt_index(&id) {
            return if self.retry_receipts[k].1.build.same_as(&build) {
                Ok(true)
            } else {
                Err(DeployError::InvalidTransition("retry id build mismatch"))
            };
        }
        let plan = match self.retry_deploy(build.clone())? {
            Some(plan) => plan,
            None => return Ok(false),
        };
        let generation = match plan {
            DeployPlan::StageTarget { target, .. } => target,
            DeployPlan::Settled { active: Some(active) } => active,
            _ => return Err(DeployError::InvalidTransition("retry did not bind to a generation")),
        };
        let holds = match self.generation(generation) {
            Some(found) => found.build.same_as(&build),
            None => false,
        };
        if !holds {
            return Ok(false);
        }
        let ghost retried = self@;
        self.retry_receipts.push((id, RetryReceipt { build, generation }));
        proof {
            assert(self@ =~= DeploymentModel {
                retry_receipts: retried.retry_receipts.push(
                    (id, RetryReceipt { build: build, generation: generation }),
                ),
                ..retried
            });
        }
        Ok(true)
    }
}

} // verus!
