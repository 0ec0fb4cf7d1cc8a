//! One round of driving a deployment forward.
//!
//! The caller plans, saves the state, stops a retired generation's worker
//! or stages a target's directory, reconciles the worker units, makes sure
//! the active worker admits clients, and then asks `advance_step` what the
//! plan needs from the workers.

use vstd::prelude::*;

use super::{is_terminal_status, live_status, terminal_status, Coordinator};
use crate::model::{DeployError, DeployPlan, DeploymentEvent, GenerationId, GenerationStatus};
use crate::process::control::Control;
use crate::process::wait::{not_key, WaitKey};
use crate::process::worker_unit::Inventory;
use crate::process::workers::{WorkersModel, WorkerSlot};
use crate::search::keep;
use crate::state::{DeploymentModel, Generation};

verus! {

/// What an advance round asks of the caller.
#[derive(Debug, PartialEq, Eq)]
pub enum AdvanceStep {
    /// Nothing to do until a worker reports or the next tick.
    Idle,
    /// The deployment state changed: save it and plan again.
    Replan,
    /// Send `control` to the worker of `generation`; once it is sent, arm `wait`.
    Send { generation: GenerationId, control: Control, wait: WaitKey },
    /// The deployment settled: bring every ready worker in line with its generation's status.
    ReconcileWorkers,
}

/// Whether the active worker admits clients, checked before a build is staged.
#[derive(Debug, PartialEq, Eq)]
pub enum ActiveCheck {
    /// Staging may go on.
    Proceed,
    /// Staging waits for the active worker.
    Hold,
    /// Staging waits; send `Activate` to the active worker and, once it is
    /// sent, arm the wait for its acknowledgement.
    Activate(GenerationId),
}

/// The worker units a reconciliation round stops and starts.
pub struct UnitCommands {
    /// Failed or retired generations not yet known stopped whose unit is loaded.
    pub stop: Vec<GenerationId>,
    /// Failed or retired generations not yet known stopped.
    pub terminal: Vec<GenerationId>,
    /// Live generations without a ready worker and not already being waited for.
    pub start: Vec<GenerationId>,
}

/// The state change of recording `event`, with its plan dropped.
pub open spec fn recorded(m: DeploymentModel, event: DeploymentEvent) -> (DeploymentModel, Result<(), DeployError>) {
    let (next, outcome) = m.reconcile(event);
    (
        next,
        match outcome {
            Ok(_) => Ok(()),
            Err(error) => Err(error),
        },
    )
}

/// A step's outcome with the step itself dropped.
pub open spec fn unit_of(step: Result<AdvanceStep, DeployError>) -> Result<(), DeployError> {
    match step {
        Ok(_) => Ok(()),
        Err(error) => Err(error),
    }
}

/// Whether a generation with `previous`'s id failed.
pub open spec fn has_failed(m: DeploymentModel, previous: GenerationId) -> bool {
    exists|i: int|
        0 <= i < m.generations.len() && (#[trigger] m.generations[i]).0 == previous && m.generations[i].1.status
            == GenerationStatus::Failed
}

/// Whether the pending table holds a handoff, or a tombstone, of `generation`.
pub open spec fn holds_generation<C, S>(c: Coordinator<C, S>, generation: GenerationId) -> bool {
    (exists|i: int|
        0 <= i < c.pending@.connections.len() && (#[trigger] c.pending@.connections[i]).1.generation == generation)
        || (exists|k: int| 0 <= k < c.pending@.finalizing.len() && (#[trigger] c.pending@.finalizing[k]).0.0 == generation.0)
}

/// The correction a ready worker of entry `e` needs, if any.
pub open spec fn correction<C, S>(c: Coordinator<C, S>, e: (GenerationId, Generation)) -> Option<
    (GenerationId, Control, WaitKey),
> {
    let id = e.0;
    if !c.workers@.is_ready(id) {
        None
    } else if e.1.status == GenerationStatus::Active && !c.workers@.is_accepting(id) {
        if c.deployment_wait.armed(WaitKey::TargetAccepting(id)) {
            None
        } else {
            Some((id, Control::Activate { generation: id }, WaitKey::TargetAccepting(id)))
        }
    } else if e.1.status == GenerationStatus::Draining && !c.workers@.is_draining(id) {
        if c.deployment_wait.armed(WaitKey::AdmissionsPaused(id)) {
            None
        } else {
            Some((id, Control::Drain { generation: id }, WaitKey::AdmissionsPaused(id)))
        }
    } else {
        None
    }
}

/// The corrections of the entries `gens`, in order.
pub open spec fn corrections<C, S>(c: Coordinator<C, S>, gens: Seq<(GenerationId, Generation)>) -> Seq<
    (GenerationId, Control, WaitKey),
>
    decreases gens.len(),
{
    if gens.len() == 0 {
        Seq::empty()
    } else {
        let init = corrections(c, gens.drop_last());
        match correction(c, gens.last()) {
            Some(x) => init.push(x),
            None => init,
        }
    }
}

pub open spec fn unit_to_stop<C, S>(c: Coordinator<C, S>) -> spec_fn((GenerationId, Generation)) -> bool {
    |e: (GenerationId, Generation)| terminal_status(e.1.status) && !c.workers@.stopped.contains(e.0)
}

pub open spec fn unit_to_start<C, S>(c: Coordinator<C, S>) -> spec_fn((GenerationId, Generation)) -> bool {
    |e: (GenerationId, Generation)|
        live_status(e.1.status) && !c.workers@.is_ready(e.0) && !c.deployment_wait.armed(WaitKey::WorkerReady(e.0))
}

pub open spec fn ids(entries: Seq<(GenerationId, Generation)>) -> Seq<GenerationId> {
    entries.map_values(|e: (GenerationId, Generation)| e.0)
}

pub open spec fn loaded(inventory: Map<GenerationId, crate::process::worker_unit::Liveness>) -> spec_fn(GenerationId) -> bool {
    |g: GenerationId| inventory.dom().contains(g)
}

impl<C, S> Coordinator<C, S> {
    /// Records `event` in the deployment state.
    pub fn record(&mut self, event: DeploymentEvent) -> (result: Result<(), DeployError>)
        ensures
            (final(self).deployment@, result) == recorded(old(self).deployment@, event),
            final(self).workers == old(self).workers,
            final(self).pending == old(self).pending,
            final(self).deployment_wait == old(self).deployment_wait,
            final(self).active == old(self).active,
            final(self).build == old(self).build,
            final(self).consumed_retry_intent == old(self).consumed_retry_intent,
            final(self).retry_cursor == old(self).retry_cursor,
    {
        match self.deployment.reconcile(event) {
            Ok(_) => Ok(()),
            Err(error) => Err(error),
        }
    }

    /// Arms the wait for `key` at `now`, unless it is already armed.
    pub fn arm_wait(&mut self, key: WaitKey, now: u64)
        ensures
            old(self).deployment_wait.armed(key) ==> final(self).deployment_wait@ == old(self).deployment_wait@,
            !old(self).deployment_wait.armed(key) ==> final(self).deployment_wait@ == crate::process::wait::insert_wait(
                old(self).deployment_wait@,
                (key, now),
            ),
            final(self).deployment == old(self).deployment,
            final(self).workers == old(self).workers,
            final(self).pending == old(self).pending,
            final(self).active == old(self).active,
            final(self).build == old(self).build,
            final(self).consumed_retry_intent == old(self).consumed_retry_intent,
            final(self).retry_cursor == old(self).retry_cursor,
    {
        self.deployment_wait.arm(key, now);
    }

    /// The worker of the retired `generation` was stopped: remember that,
    /// and record the retirement.
    pub fn retire_stopped(&mut self, generation: GenerationId) -> (result: Result<(), DeployError>)
        requires
            old(self).wf(),
        ensures
            final(self).wf(),
            final(self).workers@ == (WorkersModel { stopped: old(self).workers@.stopped.insert(generation), ..old(self).workers@ }),
            (final(self).deployment@, result) == recorded(old(self).deployment@, DeploymentEvent::Retired { generation }),
            final(self).pending == old(self).pending,
            final(self).deployment_wait == old(self).deployment_wait,
            final(self).active == old(self).active,
    {
        self.workers.mark_stopped(generation);
        self.record(DeploymentEvent::Retired { generation })
    }

    /// Staging `target`'s directory failed with `reason`: the target fails.
    pub fn stage_failed(&mut self, target: GenerationId, reason: String) -> (result: Result<(), DeployError>)
        ensures
            (final(self).deployment@, result) == recorded(
                old(self).deployment@,
                DeploymentEvent::Failed { generation: target, reason },
            ),
            final(self).workers == old(self).workers,
            final(self).pending == old(self).pending,
            final(self).deployment_wait == old(self).deployment_wait,
            final(self).active == old(self).active,
    {
        self.record(DeploymentEvent::Failed { generation: target, reason })
    }

    /// Before a build is staged, the active worker must admit clients: a
    /// staged target waits while the active worker is not ready, and an
    /// active worker that is ready but not accepting is told to accept.
    pub fn ensure_active_accepting(&self, plan: &DeployPlan) -> (check: ActiveCheck)
        requires
            self.wf(),
        ensures
            !(plan is StageTarget) ==> check == ActiveCheck::Proceed,
            plan is StageTarget ==> check == match self.deployment@.active_generation() {
                None => ActiveCheck::Proceed,
                Some(active) => if !self.workers@.is_ready(active) {
                    ActiveCheck::Hold
                } else if self.workers@.is_accepting(active) {
                    ActiveCheck::Proceed
                } else if self.deployment_wait.armed(WaitKey::TargetAccepting(active)) {
                    ActiveCheck::Hold
                } else {
                    ActiveCheck::Activate(active)
                },
            },
    {
        match plan {
            DeployPlan::StageTarget { .. } => {},
            _ => return ActiveCheck::Proceed,
        }
        let active = match self.deployment.active_generation() {
            Some(active) => active,
            None => return ActiveCheck::Proceed,
        };
        if !self.workers.is_ready(active) {
            return ActiveCheck::Hold;
        }
        if self.workers.is_accepting(active) {
            return ActiveCheck::Proceed;
        }
        if self.deployment_wait.is_armed(WaitKey::TargetAccepting(active)) {
            ActiveCheck::Hold
        } else {
            ActiveCheck::Activate(active)
        }
    }

    fn previous_failed(&self, previous: GenerationId) -> (failed: bool)
        ensures
            failed == has_failed(self.deployment@, previous),
    {
        let statuses = self.deployment.statuses();
        for i in 0..statuses.len()
            invariant
                statuses@.len() == self.deployment@.generations.len(),
                forall|j: int|
                    0 <= j < statuses@.len() ==> (#[trigger] statuses@[j]) == (
                        self.deployment@.generations[j].0,
                        self.deployment@.generations[j].1.status,
                    ),
                forall|j: int|
                    0 <= j < i ==> !((#[trigger] self.deployment@.generations[j]).0 == previous
                        && self.deployment@.generations[j].1.status == GenerationStatus::Failed),
        {
            let (id, status) = statuses[i];
            if id == previous && status == GenerationStatus::Failed {
                proof {
                    assert(self.deployment@.generations[i as int].0 == previous);
                }
                return true;
            }
        }
        false
    }

    /// What the plan needs from the workers once staging and unit
    /// reconciliation are done. Each step waits for the worker it concerns
    /// to be ready; a paused previous worker is drained only when no
    /// handoff of it is still in flight.
    pub fn advance_step(&mut self, plan: DeployPlan) -> (step: Result<AdvanceStep, DeployError>)
        requires
            old(self).wf(),
        ensures
            final(self).wf(),
            final(self).pending == old(self).pending,
            final(self).build == old(self).build,
            match plan {
                DeployPlan::StageTarget { target, .. } => if !old(self).workers@.is_ready(target) {
                    step == Ok::<AdvanceStep, DeployError>(AdvanceStep::Idle) && *final(self) == *old(self)
                } else {
                    &&& (final(self).deployment@, unit_of(step)) == recorded(
                        old(self).deployment@,
                        DeploymentEvent::Prepared { target },
                    )
                    &&& step is Ok ==> step == Ok::<AdvanceStep, DeployError>(AdvanceStep::Replan)
                    &&& final(self).workers == old(self).workers
                    &&& final(self).deployment_wait == old(self).deployment_wait
                    &&& final(self).active == old(self).active
                },
                DeployPlan::PauseAdmissions { previous, target } => if !old(self).workers@.is_ready(target) {
                    step == Ok::<AdvanceStep, DeployError>(AdvanceStep::Idle) && *final(self) == *old(self)
                } else if previous is None || has_failed(old(self).deployment@, previous->0) {
                    &&& (final(self).deployment@, unit_of(step)) == recorded(
                        old(self).deployment@,
                        DeploymentEvent::PreviousPaused { target },
                    )
                    &&& step is Ok ==> step == Ok::<AdvanceStep, DeployError>(AdvanceStep::Replan)
                    &&& final(self).workers == old(self).workers
                    &&& final(self).deployment_wait == old(self).deployment_wait
                    &&& final(self).active == old(self).active
                } else {
                    let p = previous->0;
                    if !old(self).workers@.is_ready(p) {
                        step == Ok::<AdvanceStep, DeployError>(AdvanceStep::Idle) && *final(self) == *old(self)
                    } else if holds_generation(*old(self), p) {
                        &&& step == Ok::<AdvanceStep, DeployError>(AdvanceStep::Idle)
                        &&& final(self).deployment_wait@ == keep(
                            old(self).deployment_wait@,
                            not_key(WaitKey::AdmissionsPaused(p)),
                        )
                        &&& final(self).deployment == old(self).deployment
                        &&& final(self).workers == old(self).workers
                        &&& final(self).active == old(self).active
                    } else if old(self).deployment_wait.armed(WaitKey::AdmissionsPaused(p)) {
                        step == Ok::<AdvanceStep, DeployError>(AdvanceStep::Idle) && *final(self) == *old(self)
                    } else {
                        &&& step == Ok::<AdvanceStep, DeployError>(
                            AdvanceStep::Send {
                                generation: p,
                                control: Control::Drain { generation: p },
                                wait: WaitKey::AdmissionsPaused(p),
                            },
                        )
                        &&& final(self).workers@ == old(self).workers@.with_slot(
                            p,
                            WorkerSlot { accepting: false, ..old(self).workers@.slots[p] },
                        )
                        &&& final(self).deployment == old(self).deployment
                        &&& final(self).deployment_wait == old(self).deployment_wait
                        &&& final(self).active == old(self).active
                    }
                },
                DeployPlan::StartAccepting { target } => *final(self) == *old(self) && if !old(
                    self,
                ).workers@.is_ready(target) || old(self).deployment_wait.armed(WaitKey::TargetAccepting(target)) {
                    step == Ok::<AdvanceStep, DeployError>(AdvanceStep::Idle)
                } else {
                    step == Ok::<AdvanceStep, DeployError>(
                        AdvanceStep::Send {
                            generation: target,
                            control: Control::Activate { generation: target },
                            wait: WaitKey::TargetAccepting(target),
                        },
                    )
                },
                DeployPlan::ResumeAdmissions { previous, .. } => *final(self) == *old(self) && if !old(
                    self,
                ).workers@.is_ready(previous) || old(self).deployment_wait.armed(WaitKey::AdmissionsResumed(previous)) {
                    step == Ok::<AdvanceStep, DeployError>(AdvanceStep::Idle)
                } else {
                    step == Ok::<AdvanceStep, DeployError>(
                        AdvanceStep::Send {
                            generation: previous,
                            control: Control::Activate { generation: previous },
                            wait: WaitKey::AdmissionsResumed(previous),
                        },
                    )
                },
                DeployPlan::Retire { .. } => step == Ok::<AdvanceStep, DeployError>(AdvanceStep::Idle) && *final(self)
                    == *old(self),
                DeployPlan::Settled { active } => settled_step(*old(self), *final(self), active, step),
                DeployPlan::Unavailable { active, .. } => settled_step(*old(self), *final(self), active, step),
            },
    {
        match plan {
            DeployPlan::StageTarget { target, .. } => {
                if !self.workers.is_ready(target) {
                    return Ok(AdvanceStep::Idle);
                }
                self.record(DeploymentEvent::Prepared { target })?;
                Ok(AdvanceStep::Replan)
            },
            DeployPlan::PauseAdmissions { previous, target } => {
                if !self.workers.is_ready(target) {
                    return Ok(AdvanceStep::Idle);
                }
                let previous = match previous {
                    None => {
                        self.record(DeploymentEvent::PreviousPaused { target })?;
                        return Ok(AdvanceStep::Replan);
                    },
                    Some(previous) => previous,
                };
                if self.previous_failed(previous) {
                    self.record(DeploymentEvent::PreviousPaused { target })?;
                    return Ok(AdvanceStep::Replan);
                }
                if !self.workers.is_ready(previous) {
                    return Ok(AdvanceStep::Idle);
                }
                let wait = WaitKey::AdmissionsPaused(previous);
                if self.pending.has_generation(previous) {
                    self.deployment_wait.acknowledge(wait);
                    return Ok(AdvanceStep::Idle);
                }
                if self.deployment_wait.is_armed(wait) {
                    return Ok(AdvanceStep::Idle);
                }
                self.workers.mark_not_accepting(previous);
                Ok(AdvanceStep::Send { generation: previous, control: Control::Drain { generation: previous }, wait })
            },
            DeployPlan::StartAccepting { target } => {
                let wait = WaitKey::TargetAccepting(target);
                if !self.workers.is_ready(target) || self.deployment_wait.is_armed(wait) {
                    return Ok(AdvanceStep::Idle);
                }
                Ok(AdvanceStep::Send { generation: target, control: Control::Activate { generation: target }, wait })
            },
            DeployPlan::ResumeAdmissions { previous, .. } => {
                let wait = WaitKey::AdmissionsResumed(previous);
                if !self.workers.is_ready(previous) || self.deployment_wait.is_armed(wait) {
                    return Ok(AdvanceStep::Idle);
                }
                Ok(
                    AdvanceStep::Send {
                        generation: previous,
                        control: Control::Activate { generation: previous },
                        wait,
                    },
                )
            },
            DeployPlan::Retire { .. } => Ok(AdvanceStep::Idle),
            DeployPlan::Settled { active } => Ok(self.settle(active)),
            DeployPlan::Unavailable { active, .. } => Ok(self.settle(active)),
        }
    }

    fn settle(&mut self, active: Option<GenerationId>) -> (step: AdvanceStep)
        requires
            old(self).wf(),
        ensures
            settled_step(*old(self), *final(self), active, Ok::<AdvanceStep, DeployError>(step)),
            final(self).wf(),
    {
        self.active = active;
        match active {
            Some(generation) => if !self.workers.is_ready(generation) {
                AdvanceStep::Idle
            } else {
                AdvanceStep::ReconcileWorkers
            },
            None => AdvanceStep::ReconcileWorkers,
        }
    }

    /// The control messages that bring ready workers in line with their
    /// generation's status: an active generation's worker that does not
    /// accept is told to activate, a draining generation's worker that does
    /// not drain is told to drain. A correction already awaiting its
    /// acknowledgement is not sent again.
    pub fn worker_corrections(&self) -> (found: Vec<(GenerationId, Control, WaitKey)>)
        requires
            self.wf(),
        ensures
            found@ == corrections(*self, self.deployment@.generations),
    {
        let statuses = self.deployment.statuses();
        let ghost all = self.deployment@.generations;
        let mut found: Vec<(GenerationId, Control, WaitKey)> = Vec::new();
        for i in 0..statuses.len()
            invariant
                self.wf(),
                all == self.deployment@.generations,
                statuses@.len() == all.len(),
                forall|j: int| 0 <= j < all.len() ==> (#[trigger] statuses@[j]) == (all[j].0, all[j].1.status),
                found@ == corrections(*self, all.take(i as int)),
        {
            let (id, status) = statuses[i];
            proof {
                assert(all.take(i + 1).drop_last() =~= all.take(i as int));
                assert(all.take(i + 1).last() == all[i as int]);
            }
            if self.workers.is_ready(id) {
                if status == GenerationStatus::Active && !self.workers.is_accepting(id) {
                    let wait = WaitKey::TargetAccepting(id);
                    if !self.deployment_wait.is_armed(wait) {
                        found.push((id, Control::Activate { generation: id }, wait));
                    }
                } else if status == GenerationStatus::Draining && !self.workers.is_draining(id) {
                    let wait = WaitKey::AdmissionsPaused(id);
                    if !self.deployment_wait.is_armed(wait) {
                        found.push((id, Control::Drain { generation: id }, wait));
                    }
                }
            }
        }
        proof {
            assert(all.take(all.len() as int) =~= all);
        }
        found
    }

    /// Whether some worker unit must be stopped or started, which needs the
    /// unit inventory.
    pub fn needs_inventory(&self) -> (needed: bool)
        requires
            self.wf(),
        ensures
            needed == exists|i: int|
                0 <= i < self.deployment@.generations.len() && (unit_to_stop(*self)(
                    #[trigger] self.deployment@.generations[i],
                ) || unit_to_start(*self)(self.deployment@.generations[i])),
    {
        let statuses = self.deployment.statuses();
        for i in 0..statuses.len()
            invariant
                self.wf(),
                statuses@.len() == self.deployment@.generations.len(),
                forall|j: int|
                    0 <= j < statuses@.len() ==> (#[trigger] statuses@[j]) == (
                        self.deployment@.generations[j].0,
                        self.deployment@.generations[j].1.status,
                    ),
                forall|j: int|
                    0 <= j < i ==> !(unit_to_stop(*self)(#[trigger] self.deployment@.generations[j]) || unit_to_start(
                        *self,
                    )(self.deployment@.generations[j])),
        {
            let (id, status) = statuses[i];
            let stop = is_terminal_status(status) && !self.workers.is_stopped(id);
            let start = !is_terminal_status(status) && !self.workers.is_ready(id) && !self.deployment_wait.is_armed(
                WaitKey::WorkerReady(id),
            );
            if stop || start {
                proof {
                    assert(self.deployment@.generations[i as int].0 == id);
                }
                return true;
            }
        }
        false
    }

    /// The units to stop and start, given which units are loaded: failed
    /// and retired generations not known stopped are stopped (those whose
    /// unit is loaded need a command), and live generations without a ready
    /// worker that nobody waits for are started.
    pub fn unit_commands(&self, inventory: &Inventory) -> (commands: UnitCommands)
        requires
            self.wf(),
            inventory.wf(),
        ensures
            commands.terminal@ == ids(keep(self.deployment@.generations, unit_to_stop(*self))),
            commands.stop@ == keep(commands.terminal@, loaded(inventory@)),
            commands.start@ == ids(keep(self.deployment@.generations, unit_to_start(*self))),
    {
        let statuses = self.deployment.statuses();
        let ghost all = self.deployment@.generations;
        let mut stop: Vec<GenerationId> = Vec::new();
        let mut terminal: Vec<GenerationId> = Vec::new();
        let mut start: Vec<GenerationId> = Vec::new();
        for i in 0..statuses.len()
            invariant
                self.wf(),
                inventory.wf(),
                all == self.deployment@.generations,
                statuses@.len() == all.len(),
                forall|j: int| 0 <= j < all.len() ==> (#[trigger] statuses@[j]) == (all[j].0, all[j].1.status),
                terminal@ == ids(keep(all.take(i as int), unit_to_stop(*self))),
                stop@ == keep(terminal@, loaded(inventory@)),
                start@ == ids(keep(all.take(i as int), unit_to_start(*self))),
        {
            let (id, status) = statuses[i];
            proof {
                crate::search::lemma_keep_step(all, unit_to_stop(*self), i as int);
                crate::search::lemma_keep_step(all, unit_to_start(*self), i as int);
            }
            if is_terminal_status(status) && !self.workers.is_stopped(id) {
                let ghost before = terminal@;
                terminal.push(id);
                proof {
                    assert(terminal@.drop_last() =~= before);
                    assert(ids(keep(all.take(i + 1), unit_to_stop(*self))) =~= before.push(id));
                }
                if inventory.get(id).is_some() {
                    stop.push(id);
                }
                proof {
                    assert(keep(terminal@, loaded(inventory@)) =~= if inventory@.dom().contains(id) {
                        keep(before, loaded(inventory@)).push(id)
                    } else {
                        keep(before, loaded(inventory@))
                    });
                }
            }
            if !is_terminal_status(status) && !self.workers.is_ready(id) && !self.deployment_wait.is_armed(
                WaitKey::WorkerReady(id),
            ) {
                let ghost before = start@;
                start.push(id);
                proof {
                    assert(ids(keep(all.take(i + 1), unit_to_start(*self))) =~= before.push(id));
                }
            }
        }
        proof {
            assert(all.take(all.len() as int) =~= all);
        }
        UnitCommands { stop, terminal, start }
    }

    /// The workers of `generations` were told to start: each gets a bounded
    /// wait for its ready report, armed at `now`.
    pub fn arm_ready_waits(&mut self, generations: &Vec<GenerationId>, now: u64)
        ensures
            final(self).deployment == old(self).deployment,
            final(self).workers == old(self).workers,
            final(self).pending == old(self).pending,
            final(self).active == old(self).active,
            forall|g: GenerationId|
                #![auto]
                generations@.contains(g) ==> final(self).deployment_wait.armed(WaitKey::WorkerReady(g)),
            forall|key: WaitKey| #![auto] old(self).deployment_wait.armed(key) ==> final(self).deployment_wait.armed(key),
            final(self).deployment_wait@ == crate::process::wait::ready_waits_armed(
                old(self).deployment_wait@,
                generations@,
                now,
            ),
    {
        for i in 0..generations.len()
            invariant
                self.deployment_wait@ == crate::process::wait::ready_waits_armed(
                    old(self).deployment_wait@,
                    generations@.take(i as int),
                    now,
                ),
                self.deployment == old(self).deployment,
                self.workers == old(self).workers,
                self.pending == old(self).pending,
                self.active == old(self).active,
                forall|j: int| #![auto] 0 <= j < i ==> self.deployment_wait.armed(WaitKey::WorkerReady(generations@[j])),
                forall|key: WaitKey| #![auto] old(self).deployment_wait.armed(key) ==> self.deployment_wait.armed(key),
        {
            let ghost before = self.deployment_wait;
            self.deployment_wait.arm(WaitKey::WorkerReady(generations[i]), now);
            proof {
                crate::process::wait::lemma_arm_keeps(before, self.deployment_wait, WaitKey::WorkerReady(generations@[i as int]), now);
                assert(generations@.take(i + 1).drop_last() =~= generations@.take(i as int));
            }
        }
        proof {
            assert(generations@.take(generations@.len() as int) =~= generations@);
        }
    }
}

/// The settled and unavailable plans name the active generation: clients go
/// to it, and once its worker is ready the other workers are corrected.
pub open spec fn settled_step<C, S>(
    before: Coordinator<C, S>,
    after: Coordinator<C, S>,
    active: Option<GenerationId>,
    step: Result<AdvanceStep, DeployError>,
) -> bool {
    &&& after == Coordinator::<C, S> { active, ..before }
    &&& step == Ok::<AdvanceStep, DeployError>(
        match active {
            Some(generation) => if !before.workers@.is_ready(generation) {
                AdvanceStep::Idle
            } else {
                AdvanceStep::ReconcileWorkers
            },
            None => AdvanceStep::ReconcileWorkers,
        },
    )
}

} // verus!
