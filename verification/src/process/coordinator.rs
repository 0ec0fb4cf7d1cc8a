//! The coordinator's decisions, apart from the sockets and units it drives.
//!
//! The coordinator owns the durable deployment state, the client handoffs in
//! flight, the registry of worker connections and the acknowledgement waits.
//! Each method here takes what the outside world reported (a worker message,
//! a unit inventory, the time) and returns what the caller must do next (a
//! control message to send, units to start or stop); the caller performs it
//! and reports back. Whenever the deployment state changed the caller saves it.

use vstd::prelude::*;

use super::pending::{Pending, PendingError};
use super::wait::DeploymentWait;
use super::workers::{Workers, WorkerSlot};
use crate::identifiers::BuildId;
use crate::model::{DeployError, DeployPlan, GenerationId, GenerationStatus};
use crate::retry::RetryIntent;
use crate::search::keep;
use crate::state::{DeploymentModel, DeploymentState, Generation};

pub mod advance;
pub mod delivery;
pub mod messages;

verus! {

/// Why the coordinator could not start.
#[derive(Debug, PartialEq, Eq)]
pub enum StartupError {
    Deploy(DeployError),
    Pending(PendingError),
}

pub struct Coordinator<C, S> {
    pub deployment: DeploymentState,
    /// The build this coordinator process was built from.
    pub build: BuildId,
    pub pending: Pending<S>,
    pub workers: Workers<C>,
    /// The generation clients are handed to.
    pub active: Option<GenerationId>,
    pub deployment_wait: DeploymentWait,
    /// The retry request this coordinator consumed, to be cleared from storage.
    pub consumed_retry_intent: Option<RetryIntent>,
    /// Where the next round of handoff retries starts.
    pub retry_cursor: usize,
}

pub open spec fn is_terminal_plan(plan: DeployPlan) -> bool {
    plan is Settled || plan is Unavailable
}

/// A failed or retired generation: its worker unit should be stopped.
pub open spec fn terminal_status(status: GenerationStatus) -> bool {
    status == GenerationStatus::Failed || status == GenerationStatus::Retired
}

/// A staged, active or draining generation: its worker should be running.
pub open spec fn live_status(status: GenerationStatus) -> bool {
    status == GenerationStatus::Staged || status == GenerationStatus::Active || status == GenerationStatus::Draining
}

pub open spec fn is_live_entry() -> spec_fn((GenerationId, Generation)) -> bool {
    |e: (GenerationId, Generation)| !terminal_status(e.1.status)
}

/// The generations whose worker the coordinator expects to (re)connect.
pub open spec fn expected_workers(m: DeploymentModel) -> Seq<GenerationId> {
    keep(m.generations, is_live_entry()).map_values(|e: (GenerationId, Generation)| e.0)
}

/// Whether the deployment state knows `generation` at all.
pub open spec fn knows(m: DeploymentModel, generation: GenerationId) -> bool {
    exists|i: int| 0 <= i < m.generations.len() && (#[trigger] m.generations[i]).0 == generation
}

/// Whether `generation` is known and its worker should be running.
pub open spec fn known_live(m: DeploymentModel, generation: GenerationId) -> bool {
    exists|i: int|
        0 <= i < m.generations.len() && (#[trigger] m.generations[i]).0 == generation && live_status(
            m.generations[i].1.status,
        )
}

/// Deploys `build` once nothing older is left to settle.
pub open spec fn deploy_after(m: DeploymentModel, build: BuildId) -> Result<(DeploymentModel, Option<RetryIntent>), DeployError> {
    let (deployed, outcome) = m.plan_deploy(build);
    match outcome {
        Err(error) => Err(error),
        Ok(_) => Ok((deployed, None)),
    }
}

/// The deployment state a coordinator for `build` starts from, and the retry
/// request it consumed: ids are reserved past `highest` (the newest generation
/// directory on disk); an unfinished deployment is left to finish; otherwise a
/// stored retry request for this build is consumed, or this build is deployed.
pub open spec fn startup(
    m: DeploymentModel,
    build: BuildId,
    highest: u64,
    stored: Option<RetryIntent>,
) -> Result<(DeploymentModel, Option<RetryIntent>), DeployError> {
    let (reserved, outcome) = m.reserve_generation_ids_after(highest);
    match outcome {
        Err(error) => Err(error),
        Ok(_) => match reserved.current_plan() {
            Err(error) => Err(error),
            Ok(plan) => if !is_terminal_plan(plan) {
                Ok((reserved, None))
            } else {
                match stored {
                    Some(intent) if intent.build@ == build@ => {
                        let (consumed, bound) = reserved.consume_retry(build, intent.id);
                        match bound {
                            Err(error) => Err(error),
                            Ok(true) => Ok((consumed, Some(intent))),
                            Ok(false) => deploy_after(consumed, build),
                        }
                    },
                    _ => deploy_after(reserved, build),
                }
            },
        },
    }
}

/// Consuming a stored retry request: the deployment state afterwards and
/// whether this coordinator took the request.
pub open spec fn consume_stored(m: DeploymentModel, build: BuildId, stored: Option<RetryIntent>) -> (
    DeploymentModel,
    Result<bool, DeployError>,
) {
    match stored {
        Some(intent) if intent.build@ == build@ => m.consume_retry(build, intent.id),
        _ => (m, Ok(false)),
    }
}

/// One planning round: an unfinished deployment continues; a settled one
/// first honours a stored retry request for this build, then deploys it.
pub open spec fn advance_plan(m: DeploymentModel, build: BuildId, stored: Option<RetryIntent>) -> (
    DeploymentModel,
    Result<DeployPlan, DeployError>,
) {
    match m.current_plan() {
        Err(error) => (m, Err(error)),
        Ok(plan) => if !is_terminal_plan(plan) {
            (m, Ok(plan))
        } else {
            let (consumed, bound) = consume_stored(m, build, stored);
            match bound {
                Err(error) => (consumed, Err(error)),
                Ok(true) => (consumed, consumed.current_plan()),
                Ok(false) => consumed.plan_deploy(build),
            }
        },
    }
}

pub fn is_terminal(plan: &DeployPlan) -> (terminal: bool)
    ensures
        terminal == is_terminal_plan(*plan),
{
    match plan {
        DeployPlan::Settled { .. } => true,
        DeployPlan::Unavailable { .. } => true,
        _ => false,
    }
}

fn is_terminal_status(status: GenerationStatus) -> (terminal: bool)
    ensures
        terminal == terminal_status(status),
{
    match status {
        GenerationStatus::Failed => true,
        GenerationStatus::Retired => true,
        _ => false,
    }
}

fn deploy_build(deployment: &mut DeploymentState, build: &BuildId) -> (result: Result<Option<RetryIntent>, DeployError>)
    ensures
        match deploy_after(old(deployment)@, *build) {
            Ok((m, consumed)) => result == Ok::<Option<RetryIntent>, DeployError>(consumed) && final(deployment)@
                == m,
            Err(error) => result == Err::<Option<RetryIntent>, DeployError>(error),
        },
{
    match deployment.plan_deploy(build.clone()) {
        Ok(_) => Ok(None),
        Err(error) => Err(error),
    }
}

/// The ids of the generations whose worker is expected back, in id order.
fn expected_worker_ids(deployment: &DeploymentState) -> (ids: Vec<GenerationId>)
    ensures
        ids@ == expected_workers(deployment@),
{
    let statuses = deployment.statuses();
    let ghost all = deployment@.generations;
    let mut ids: Vec<GenerationId> = Vec::new();
    for i in 0..statuses.len()
        invariant
            all == deployment@.generations,
            statuses@.len() == all.len(),
            forall|j: int| 0 <= j < all.len() ==> (#[trigger] statuses@[j]) == (all[j].0, all[j].1.status),
            ids@ == keep(all.take(i as int), is_live_entry()).map_values(|e: (GenerationId, Generation)| e.0),
    {
        proof {
            crate::search::lemma_keep_step(all, is_live_entry(), i as int);
        }
        let (id, status) = statuses[i];
        if !is_terminal_status(status) {
            ids.push(id);
            proof {
                assert(ids@ =~= keep(all.take(i + 1), is_live_entry()).map_values(
                    |e: (GenerationId, Generation)| e.0,
                ));
            }
        }
    }
    proof {
        crate::search::lemma_keep_all(all, is_live_entry());
    }
    ids
}

impl<C, S> Coordinator<C, S> {
    pub open spec fn wf(&self) -> bool {
        self.workers.wf()
    }

    /// Takes over `deployment` for `build`: reserves generation ids past
    /// `highest` (the newest generation directory on disk), consumes the
    /// stored retry request or deploys this build once no older deployment
    /// is unfinished, and expects every live generation's worker to reconnect.
    pub fn new(
        deployment: DeploymentState,
        build: BuildId,
        highest: u64,
        stored: Option<RetryIntent>,
    ) -> (result: Result<Self, StartupError>)
        ensures
            match startup(deployment@, build, highest, stored) {
                Err(error) => result == Err::<Self, StartupError>(StartupError::Deploy(error)),
                Ok((m, consumed)) => match result {
                    Ok(coordinator) => {
                        &&& coordinator.wf()
                        &&& coordinator.deployment@ == m
                        &&& coordinator.build == build
                        &&& coordinator.consumed_retry_intent == consumed
                        &&& coordinator.active == deployment@.reserve_generation_ids_after(
                            highest,
                        ).0.active_generation()
                        &&& coordinator.workers@.slots == Map::<GenerationId, WorkerSlot<C>>::empty()
                        &&& coordinator.workers@.stopped == Set::<GenerationId>::empty()
                        &&& coordinator.workers@.disconnected == expected_workers(m).to_set()
                        &&& coordinator.workers@.next_registration == 1
                        &&& coordinator.deployment_wait@.len() == 0
                        &&& coordinator.retry_cursor == 0
                        &&& coordinator.pending@.connections.len() == 0
                        &&& coordinator.pending@.finalizing.len() == 0
                    },
                    Err(error) => error == StartupError::Pending(PendingError::RandomnessUnavailable),
                },
            },
    {
        let mut deployment = deployment;
        if let Err(error) = deployment.reserve_generation_ids_after(highest) {
            return Err(StartupError::Deploy(error));
        }
        let active = deployment.active_generation();
        let plan = match deployment.current_plan() {
            Ok(plan) => plan,
            Err(error) => return Err(StartupError::Deploy(error)),
        };
        let consumed_retry_intent = if !is_terminal(&plan) {
            None
        } else {
            let found = match stored {
                Some(intent) => if intent.build.same_as(&build) {
                    Some(intent)
                } else {
                    None
                },
                None => None,
            };
            let outcome = match found {
                Some(intent) => match deployment.consume_retry(build.clone(), intent.id.clone()) {
                    Ok(true) => Ok(Some(intent)),
                    Ok(false) => deploy_build(&mut deployment, &build),
                    Err(error) => Err(error),
                },
                None => deploy_build(&mut deployment, &build),
            };
            match outcome {
                Ok(consumed) => consumed,
                Err(error) => return Err(StartupError::Deploy(error)),
            }
        };
        let expected = expected_worker_ids(&deployment);
        let pending = match Pending::new() {
            Ok(pending) => pending,
            Err(error) => return Err(StartupError::Pending(error)),
        };
        Ok(Coordinator {
            deployment,
            build,
            pending,
            workers: Workers::new(expected),
            active,
            deployment_wait: DeploymentWait::new(),
            consumed_retry_intent,
            retry_cursor: 0,
        })
    }

    pub fn epoch(&self) -> (epoch: u64)
        ensures
            epoch == self.pending@.epoch,
    {
        self.pending.epoch()
    }

    pub fn current_plan(&self) -> (plan: Result<DeployPlan, DeployError>)
        ensures
            plan == self.deployment@.current_plan(),
    {
        self.deployment.current_plan()
    }

    /// Consumes the stored retry request when it names this coordinator's
    /// build; on success the request is remembered, so the caller saves the
    /// state and clears exactly that request from storage.
    pub fn consume_retry_intent(&mut self, stored: Option<RetryIntent>) -> (consumed: Result<bool, DeployError>)
        requires
            old(self).wf(),
        ensures
            final(self).wf(),
            (final(self).deployment@, consumed) == consume_stored(old(self).deployment@, old(self).build, stored),
            consumed == Ok::<bool, DeployError>(true) ==> final(self).consumed_retry_intent == stored,
            consumed != Ok::<bool, DeployError>(true) ==> final(self).consumed_retry_intent == old(
                self,
            ).consumed_retry_intent,
            final(self).build == old(self).build,
            final(self).workers == old(self).workers,
            final(self).pending == old(self).pending,
            final(self).active == old(self).active,
            final(self).deployment_wait == old(self).deployment_wait,
            final(self).retry_cursor == old(self).retry_cursor,
    {
        match stored {
            Some(intent) => {
                if !intent.build.same_as(&self.build) {
                    return Ok(false);
                }
                let bound = self.deployment.consume_retry(self.build.clone(), intent.id.clone());
                if let Ok(true) = bound {
                    self.consumed_retry_intent = Some(intent);
                }
                bound
            },
            None => Ok(false),
        }
    }

    /// The plan of one advance round: an unfinished deployment continues; a
    /// settled one first honours a stored retry request for this build, and
    /// otherwise deploys this build. Returns whether the request was consumed,
    /// even when planning then failed.
    pub fn plan_for_advance(&mut self, stored: Option<RetryIntent>) -> (outcome: (
        Result<DeployPlan, DeployError>,
        bool,
    ))
        requires
            old(self).wf(),
        ensures
            final(self).wf(),
            (final(self).deployment@, outcome.0) == advance_plan(old(self).deployment@, old(self).build, stored),
            outcome.1 == (old(self).deployment@.current_plan() matches Ok(plan) && is_terminal_plan(plan)
                && consume_stored(old(self).deployment@, old(self).build, stored).1 == Ok::<bool, DeployError>(true)),
            outcome.1 ==> final(self).consumed_retry_intent == stored,
            !outcome.1 ==> final(self).consumed_retry_intent == old(self).consumed_retry_intent,
            final(self).build == old(self).build,
            final(self).workers == old(self).workers,
            final(self).pending == old(self).pending,
            final(self).active == old(self).active,
            final(self).deployment_wait == old(self).deployment_wait,
            final(self).retry_cursor == old(self).retry_cursor,
    {
        let current = match self.deployment.current_plan() {
            Ok(plan) => plan,
            Err(error) => return (Err(error), false),
        };
        if !is_terminal(&current) {
            return (Ok(current), false);
        }
        match self.consume_retry_intent(stored) {
            Err(error) => (Err(error), false),
            Ok(true) => (self.deployment.current_plan(), true),
            Ok(false) => (self.deployment.plan_deploy(self.build.clone()), false),
        }
    }

    /// Whether the deployment state knows `generation`.
    pub fn host_generation(&self, generation: GenerationId) -> (found: Option<GenerationId>)
        ensures
            found == (if knows(self.deployment@, generation) {
                Some(generation)
            } else {
                None::<GenerationId>
            }),
    {
        let statuses = self.deployment.statuses();
        for i in 0..statuses.len()
            invariant
                statuses@.len() == self.deployment@.generations.len(),
                forall|j: int|
                    0 <= j < statuses@.len() ==> (#[trigger] statuses@[j]) == (
                        self.deployment@.generations[j].0,
                        self.deployment@.generations[j].1.status,
                    ),
                forall|j: int| 0 <= j < i ==> (#[trigger] self.deployment@.generations[j]).0 != generation,
        {
            if statuses[i].0 == generation {
                proof {
                    assert(self.deployment@.generations[i as int].0 == generation);
                }
                return Some(generation);
            }
        }
        None
    }

    /// Whether `generation` is known and its worker should be running, so a
    /// worker of that generation may register.
    pub fn known_generation(&self, generation: GenerationId) -> (known: bool)
        ensures
            known == known_live(self.deployment@, generation),
    {
        let statuses = self.deployment.statuses();
        for i in 0..statuses.len()
            invariant
                statuses@.len() == self.deployment@.generations.len(),
                forall|j: int|
                    0 <= j < statuses@.len() ==> (#[trigger] statuses@[j]) == (
                        self.deployment@.generations[j].0,
                        self.deployment@.generations[j].1.status,
                    ),
                forall|j: int|
                    0 <= j < i ==> !((#[trigger] self.deployment@.generations[j]).0 == generation && live_status(
                        self.deployment@.generations[j].1.status,
                    )),
        {
            let (id, status) = statuses[i];
            if id == generation && !is_terminal_status(status) {
                proof {
                    assert(self.deployment@.generations[i as int].0 == generation);
                }
                return true;
            }
        }
        false
    }

    /// Why the coordinator is refusing clients, or `None` when it is admitting.
    ///
    /// Refusing is indistinguishable from a hang at the socket (clients
    /// simply wait in the backlog) so the reason has to be reportable.
    pub fn admission_block(&self) -> (reason: Option<&'static str>)
        requires
            self.wf(),
        ensures
            !self.pending@.has_capacity() ==> reason == Some("handoff capacity is exhausted"),
            self.pending@.has_capacity() && self.active is None ==> reason == Some("no generation is active"),
            self.pending@.has_capacity() ==> (self.active matches Some(g) ==> reason == (if !self.workers@.has(g) {
                Some("the active generation has no registered worker")
            } else if !self.workers@.is_ready(g) {
                Some("the active worker is not ready")
            } else if !self.workers@.is_accepting(g) {
                Some("the active worker is not accepting")
            } else {
                None::<&'static str>
            })),
    {
        if !self.pending.has_capacity() {
            return Some("handoff capacity is exhausted");
        }
        let generation = match self.active {
            Some(generation) => generation,
            None => return Some("no generation is active"),
        };
        if !self.workers.contains(generation) {
            Some("the active generation has no registered worker")
        } else if !self.workers.is_ready(generation) {
            Some("the active worker is not ready")
        } else if !self.workers.is_accepting(generation) {
            Some("the active worker is not accepting")
        } else {
            None
        }
    }

    /// Whether the coordinator hands new clients to the active worker.
    pub fn accepts_clients(&self) -> (accepts: bool)
        requires
            self.wf(),
        ensures
            accepts == (self.pending@.has_capacity() && (self.active matches Some(g) && self.workers@.is_accepting(g)
                && self.workers@.is_ready(g))),
    {
        self.admission_block().is_none()
    }
}

} // verus!
