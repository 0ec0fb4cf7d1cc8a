//! Client handoffs: admitting a client, retrying deliveries, reaping the
//! ones that never settled, and the shutdown deadline.

use vstd::prelude::*;

use super::{live_status, Coordinator};
use crate::assoc::distinct;
use crate::model::{GenerationId, GenerationStatus};
use crate::process::control::COORDINATOR_SHUTDOWN_DRAIN_TIMEOUT_MS;
use crate::process::pending::{
    finalizing_generation, for_generation, AbandonedHandoff, AbandonedStage, HandoffId, PendingConnection,
    PendingError, PendingModel, HANDOFF_SETTLE_TIMEOUT_MS,
};
use crate::process::workers::increasing_ids;
use crate::search::keep;
use crate::state::{DeploymentModel, Generation};

verus! {

/// Why a client could not be handed off.
#[derive(Clone, Copy, Debug, PartialEq, Eq)]
pub enum HandoffError {
    NoActiveWorker,
    Pending(PendingError),
}

/// A delivery the coordinator sends again until the worker acknowledges it.
#[derive(Clone, Copy, Debug, PartialEq, Eq, Structural)]
pub enum Retry {
    /// Offer the pending connection `id` to the worker of the generation.
    Connection(GenerationId, HandoffId),
    /// Tell the worker of the generation to forget the handoff `id`.
    Finalization(GenerationId, HandoffId),
}

/// The deliveries to retry for `generation`: its pending connections, then
/// its finalizations, each in order.
pub open spec fn retries_of<S>(p: PendingModel<S>, generation: GenerationId) -> Seq<Retry> {
    keep(p.connections, for_generation::<S>(generation)).map_values(
        |c: (HandoffId, PendingConnection<S>)| Retry::Connection(generation, c.0),
    ) + keep(p.finalizing, finalizing_generation(generation)).map_values(
        |f: ((u64, u64, u64), u64)| Retry::Finalization(generation, HandoffId { coordinator_epoch: f.0.1, sequence: f.0.2 }),
    )
}

/// The deliveries of each generation of `generations`, in that order.
pub open spec fn retries_for_all<S>(p: PendingModel<S>, generations: Seq<GenerationId>) -> Seq<Retry>
    decreases generations.len(),
{
    if generations.len() == 0 {
        Seq::empty()
    } else {
        retries_for_all(p, generations.drop_last()) + retries_of(p, generations.last())
    }
}

/// `s` turned left by `start`: the element at `start` comes first.
pub open spec fn rotated<A>(s: Seq<A>, start: int) -> Seq<A> {
    s.skip(start) + s.take(start)
}

/// Whether an abandoned handoff needs the worker told: it was offered, and
/// its generation is still known.
pub open spec fn needs_notice(m: DeploymentModel) -> spec_fn(AbandonedHandoff) -> bool {
    |a: AbandonedHandoff| a.stage != AbandonedStage::Queued && super::knows(m, a.generation)
}

/// The ready worker instances of the live generations, by generation, or
/// `None` while some live generation has no ready worker.
pub open spec fn live_instances<C, S>(c: Coordinator<C, S>, gens: Seq<(GenerationId, Generation)>) -> Option<
    Seq<(u64, u64)>,
>
    decreases gens.len(),
{
    if gens.len() == 0 {
        Some(Seq::empty())
    } else {
        match live_instances(c, gens.drop_last()) {
            None => None,
            Some(found) => {
                let (id, generation) = gens.last();
                if !live_status(generation.status) {
                    Some(found)
                } else if c.workers@.is_ready(id) {
                    Some(found.push((id.0, c.workers@.slots[id].instance)))
                } else {
                    None
                }
            },
        }
    }
}

/// Whether a stopping coordinator (stopping since `stopping`, in
/// milliseconds) may exit at `now`: every handoff settled, or the drain
/// deadline passed.
pub fn shutdown_complete(stopping: Option<u64>, pending_empty: bool, now: u64) -> (done: bool)
    ensures
        done == match stopping {
            None => false,
            Some(started) => pending_empty || (now >= started && now - started >= COORDINATOR_SHUTDOWN_DRAIN_TIMEOUT_MS),
        },
{
    match stopping {
        None => false,
        Some(started) => pending_empty || now.saturating_sub(started) >= COORDINATOR_SHUTDOWN_DRAIN_TIMEOUT_MS,
    }
}

/// Tracks whether the coordinator admits clients. Returns whether that
/// changed, so each change is reported once and a steady state stays quiet.
pub fn admission_changed(accepts_clients: bool, admitting: &mut bool) -> (changed: bool)
    ensures
        changed == (accepts_clients != *old(admitting)),
        *final(admitting) == accepts_clients,
{
    if accepts_clients == *admitting {
        return false;
    }
    *admitting = accepts_clients;
    true
}

/// The deliveries starting at `cursor` modulo their number, so that one
/// stalled delivery cannot starve the ones after it. Returns the rotated
/// deliveries and where they start.
pub fn rotate_deliveries(deliveries: &Vec<Retry>, cursor: usize) -> (rotation: (Vec<Retry>, usize))
    ensures
        deliveries@.len() == 0 ==> rotation.0@.len() == 0 && rotation.1 == 0,
        deliveries@.len() > 0 ==> rotation.1 as int == (cursor as int) % (deliveries@.len() as int) && rotation.0@ == rotated(
            deliveries@,
            rotation.1 as int,
        ),
{
    let n = deliveries.len();
    if n == 0 {
        return (Vec::new(), 0);
    }
    let start = cursor % n;
    let mut out: Vec<Retry> = Vec::new();
    for i in start..n
        invariant
            start <= n,
            n == deliveries@.len(),
            out@ == deliveries@.subrange(start as int, i as int),
    {
        out.push(deliveries[i]);
        proof {
            assert(out@ =~= deliveries@.subrange(start as int, i + 1));
        }
    }
    for i in 0..start
        invariant
            start <= n,
            n == deliveries@.len(),
            out@ == deliveries@.skip(start as int) + deliveries@.take(i as int),
    {
        proof {
            assert(deliveries@.take(i + 1) =~= deliveries@.take(i as int).push(deliveries@[i as int]));
        }
        out.push(deliveries[i]);
        proof {
            assert(out@ =~= deliveries@.skip(start as int) + deliveries@.take(i + 1));
        }
    }
    (out, start)
}

impl<C, S> Coordinator<C, S> {
    /// A client arrived at `now`: it is queued for the active generation.
    pub fn handoff(&mut self, stream: S, now: u64) -> (queued: Result<(GenerationId, HandoffId), HandoffError>)
        requires
            old(self).wf(),
        ensures
            final(self).wf(),
            final(self).deployment == old(self).deployment,
            final(self).workers == old(self).workers,
            final(self).deployment_wait == old(self).deployment_wait,
            final(self).active == old(self).active,
            old(self).active is None ==> queued == Err::<(GenerationId, HandoffId), HandoffError>(
                HandoffError::NoActiveWorker,
            ) && final(self).pending == old(self).pending,
            old(self).active matches Some(generation) ==> {
                let p = old(self).pending@;
                if !p.has_capacity() {
                    queued == Err::<(GenerationId, HandoffId), HandoffError>(
                        HandoffError::Pending(PendingError::CapacityExhausted),
                    ) && final(self).pending@ == p
                } else if p.sequence == u64::MAX {
                    queued == Err::<(GenerationId, HandoffId), HandoffError>(
                        HandoffError::Pending(PendingError::SequenceExhausted),
                    ) && final(self).pending@ == p
                } else {
                    let id = HandoffId { coordinator_epoch: p.epoch, sequence: p.sequence };
                    &&& queued == Ok::<(GenerationId, HandoffId), HandoffError>((generation, id))
                    &&& final(self).pending@ == (PendingModel {
                        sequence: (p.sequence + 1) as u64,
                        connections: p.connections.push(
                            (
                                id,
                                PendingConnection {
                                    generation: generation,
                                    stream: stream,
                                    phase: crate::process::pending::DeliveryPhase::Queued,
                                    armed: now,
                                },
                            ),
                        ),
                        ..p
                    })
                }
            },
    {
        let generation = match self.active {
            Some(generation) => generation,
            None => return Err(HandoffError::NoActiveWorker),
        };
        match self.pending.insert(generation, stream, now) {
            Ok(id) => Ok((generation, id)),
            Err(error) => Err(HandoffError::Pending(error)),
        }
    }

    /// The deliveries to retry for the worker of `generation`.
    pub fn retries_for(&self, generation: GenerationId) -> (retries: Vec<Retry>)
        ensures
            retries@ == retries_of(self.pending@, generation),
    {
        let connections = self.pending.matching(generation);
        let finalizing = self.pending.finalizing(generation);
        let mut retries: Vec<Retry> = Vec::new();
        for i in 0..connections.len()
            invariant
                retries@ == connections@.take(i as int).map_values(|id: HandoffId| Retry::Connection(generation, id)),
        {
            proof {
                assert(connections@.take(i + 1) =~= connections@.take(i as int).push(connections@[i as int]));
            }
            retries.push(Retry::Connection(generation, connections[i]));
            proof {
                assert(retries@ =~= connections@.take(i + 1).map_values(|id: HandoffId| Retry::Connection(generation, id)));
            }
        }
        let ghost first = retries@;
        for k in 0..finalizing.len()
            invariant
                first == connections@.map_values(|id: HandoffId| Retry::Connection(generation, id)),
                retries@ == first + finalizing@.take(k as int).map_values(|id: HandoffId| Retry::Finalization(generation, id)),
        {
            proof {
                assert(finalizing@.take(k + 1) =~= finalizing@.take(k as int).push(finalizing@[k as int]));
            }
            retries.push(Retry::Finalization(generation, finalizing[k]));
            proof {
                assert(retries@ =~= first + finalizing@.take(k + 1).map_values(
                    |id: HandoffId| Retry::Finalization(generation, id),
                ));
            }
        }
        proof {
            assert(connections@.take(connections@.len() as int) =~= connections@);
            assert(finalizing@.take(finalizing@.len() as int) =~= finalizing@);
            assert(retries@ =~= retries_of(self.pending@, generation));
        }
        retries
    }

    /// The deliveries to retry for every ready worker, generation by
    /// generation in increasing order.
    pub fn retries_for_ready(&self) -> (retries: Vec<Retry>)
        requires
            self.wf(),
        ensures
            exists|ready: Seq<GenerationId>|
                #![trigger retries_for_all(self.pending@, ready)]
                distinct(ready) && increasing_ids(ready) && (forall|g: GenerationId| ready.contains(g)
                    == self.workers@.is_ready(g))
                    && retries@ == retries_for_all(self.pending@, ready),
    {
        let ready = self.workers.ready_generations();
        let mut retries: Vec<Retry> = Vec::new();
        for i in 0..ready.len()
            invariant
                retries@ == retries_for_all(self.pending@, ready@.take(i as int)),
        {
            proof {
                assert(ready@.take(i + 1).drop_last() =~= ready@.take(i as int));
            }
            let more = self.retries_for(ready[i]);
            let mut j: usize = 0;
            let ghost before = retries@;
            while j < more.len()
                invariant
                    j <= more@.len(),
                    retries@ == before + more@.take(j as int),
                decreases more@.len() - j,
            {
                retries.push(more[j]);
                proof {
                    assert(retries@ =~= before + more@.take(j + 1));
                }
                j = j + 1;
            }
            proof {
                assert(more@.take(more@.len() as int) =~= more@);
            }
        }
        proof {
            assert(ready@.take(ready@.len() as int) =~= ready@);
        }
        retries
    }

    /// A round of retries started at `start` and attempted `attempted` of
    /// them: the next round starts after them.
    pub fn finish_retries(&mut self, start: usize, attempted: usize)
        ensures
            final(self).retry_cursor == (if start + attempted > usize::MAX {
                usize::MAX
            } else {
                (start + attempted) as usize
            }),
            final(self).deployment == old(self).deployment,
            final(self).workers == old(self).workers,
            final(self).pending == old(self).pending,
            final(self).deployment_wait == old(self).deployment_wait,
            final(self).active == old(self).active,
    {
        self.retry_cursor = start.saturating_add(attempted);
    }

    /// Reclaims the handoffs that did not settle within the settle timeout
    /// at `now`. Every abandoned handoff is returned to be reported; a
    /// handoff a worker may have seen is also returned with its generation,
    /// to be told to the worker once, best effort, so it drops what it
    /// holds for it.
    pub fn reap_stale_handoffs(&mut self, now: u64) -> (reaped: (Vec<AbandonedHandoff>, Vec<AbandonedHandoff>))
        ensures
            reaped.0@ == old(self).pending@.abandoned_by(now, HANDOFF_SETTLE_TIMEOUT_MS),
            final(self).pending@ == old(self).pending@.reaped(now, HANDOFF_SETTLE_TIMEOUT_MS),
            reaped.1@ == keep(reaped.0@, needs_notice(old(self).deployment@)),
            final(self).deployment == old(self).deployment,
            final(self).workers == old(self).workers,
            final(self).deployment_wait == old(self).deployment_wait,
            final(self).active == old(self).active,
    {
        let abandoned = self.pending.reap_expired(now, HANDOFF_SETTLE_TIMEOUT_MS);
        let mut notices: Vec<AbandonedHandoff> = Vec::new();
        for i in 0..abandoned.len()
            invariant
                notices@ == keep(abandoned@.take(i as int), needs_notice(self.deployment@)),
        {
            proof {
                crate::search::lemma_keep_step(abandoned@, needs_notice(self.deployment@), i as int);
            }
            let handoff = abandoned[i];
            if handoff.stage != AbandonedStage::Queued && self.host_generation(handoff.generation).is_some() {
                notices.push(handoff);
            }
        }
        proof {
            crate::search::lemma_keep_all(abandoned@, needs_notice(self.deployment@));
        }
        (abandoned, notices)
    }

    /// The ready worker instance of each live generation, in generation
    /// order; `None` while some live generation has no ready worker, since
    /// connection ownership can only be reconciled against all of them.
    pub fn reconcilable_worker_instances(&self) -> (instances: Option<Vec<(u64, u64)>>)
        requires
            self.wf(),
        ensures
            match live_instances(*self, self.deployment@.generations) {
                Some(expected) => instances matches Some(found) && found@ == expected,
                None => instances is None,
            },
    {
        let statuses = self.deployment.statuses();
        let ghost all = self.deployment@.generations;
        let mut found: Vec<(u64, u64)> = Vec::new();
        for i in 0..statuses.len()
            invariant
                self.wf(),
                all == self.deployment@.generations,
                statuses@.len() == all.len(),
                forall|j: int| 0 <= j < all.len() ==> (#[trigger] statuses@[j]) == (all[j].0, all[j].1.status),
                live_instances(*self, all.take(i as int)) == Some(found@),
        {
            proof {
                assert(all.take(i + 1).drop_last() =~= all.take(i as int));
                assert(all.take(i + 1).last() == all[i as int]);
            }
            let (id, status) = statuses[i];
            if status == GenerationStatus::Staged || status == GenerationStatus::Active || status
                == GenerationStatus::Draining {
                match self.workers.ready_instance(id) {
                    Some(instance) => found.push((id.get(), instance)),
                    None => {
                        proof {
                            lemma_live_instances_stay_none(*self, all, i as int + 1);
                        }
                        return None;
                    },
                }
            }
        }
        proof {
            assert(all.take(all.len() as int) =~= all);
        }
        Some(found)
    }
}

proof fn lemma_live_instances_stay_none<C, S>(c: Coordinator<C, S>, gens: Seq<(GenerationId, Generation)>, k: int)
    requires
        0 <= k <= gens.len(),
        live_instances(c, gens.take(k)) is None,
    ensures
        live_instances(c, gens) is None,
    decreases gens.len(),
{
    if k == gens.len() {
        assert(gens.take(k) =~= gens);
    } else {
        assert(gens.drop_last().take(k) =~= gens.take(k));
        lemma_live_instances_stay_none(c, gens.drop_last(), k);
    }
}

} // verus!
