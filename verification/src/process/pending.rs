//! Client connections the coordinator is handing off to a worker.
//!
//! A handoff is queued when a client is accepted, offered to the target
//! worker (preparing), committed once the worker acknowledged it, and then
//! finalized: the coordinator keeps a tombstone until the worker confirms it
//! dropped its own idempotency state. The number of handoffs in flight is
//! capped; past the cap the coordinator stops admitting clients.

use vstd::prelude::*;

use crate::model::GenerationId;
use crate::search::{
    first_match, keep, lemma_first_match, lemma_first_match_is, lemma_first_match_none, lemma_keep_all,
    lemma_keep_facts, lemma_keep_step,
};

verus! {

/// Once this many descriptors are in flight, the socket backlog buffers new
/// clients until a worker completes a handoff.
pub const MAX_IN_FLIGHT_HANDOFFS: usize = 256;

/// A handoff that has not settled within this many milliseconds is abandoned.
pub const HANDOFF_SETTLE_TIMEOUT_MS: u64 = 15000;

/// Names one handoff: the coordinator epoch that created it and its sequence number.
#[derive(Clone, Copy, Debug, PartialEq, Eq, PartialOrd, Ord, Hash, Structural)]
pub struct HandoffId {
    pub coordinator_epoch: u64,
    pub sequence: u64,
}

impl HandoffId {
    pub fn new(coordinator_epoch: u64, sequence: u64) -> (id: Self)
        ensures
            id.coordinator_epoch == coordinator_epoch,
            id.sequence == sequence,
    {
        HandoffId { coordinator_epoch, sequence }
    }

    pub fn coordinator_epoch(self) -> (epoch: u64)
        ensures
            epoch == self.coordinator_epoch,
    {
        self.coordinator_epoch
    }

    pub fn sequence(self) -> (sequence: u64)
        ensures
            sequence == self.sequence,
    {
        self.sequence
    }
}

#[derive(Clone, Copy, Debug, PartialEq, Eq, Structural)]
pub enum DeliveryPhase {
    Queued,
    Preparing,
    Committing,
}

impl DeliveryPhase {
    pub fn stage(self) -> (name: &'static str)
        ensures
            name@ == delivery_stage_name(self)@,
    {
        match self {
            DeliveryPhase::Queued => "queued",
            DeliveryPhase::Preparing => "preparing",
            DeliveryPhase::Committing => "committing",
        }
    }
}

pub open spec fn delivery_stage_name(phase: DeliveryPhase) -> &'static str {
    match phase {
        DeliveryPhase::Queued => "queued",
        DeliveryPhase::Preparing => "preparing",
        DeliveryPhase::Committing => "committing",
    }
}

/// Where an abandoned handoff was stuck.
#[derive(Clone, Copy, Debug, PartialEq, Eq, Structural)]
pub enum AbandonedStage {
    Queued,
    Preparing,
    Committing,
    Finalizing,
}

impl AbandonedStage {
    pub fn name(self) -> (name: &'static str)
        ensures
            self == AbandonedStage::Finalizing ==> name@ == "finalizing"@,
            self != AbandonedStage::Finalizing ==> name@ == delivery_stage_name(phase_of_stage(self))@,
    {
        match self {
            AbandonedStage::Queued => "queued",
            AbandonedStage::Preparing => "preparing",
            AbandonedStage::Committing => "committing",
            AbandonedStage::Finalizing => "finalizing",
        }
    }
}

pub open spec fn phase_of_stage(stage: AbandonedStage) -> DeliveryPhase {
    match stage {
        AbandonedStage::Queued => DeliveryPhase::Queued,
        AbandonedStage::Preparing => DeliveryPhase::Preparing,
        _ => DeliveryPhase::Committing,
    }
}

pub open spec fn stage_of_phase(phase: DeliveryPhase) -> AbandonedStage {
    match phase {
        DeliveryPhase::Queued => AbandonedStage::Queued,
        DeliveryPhase::Preparing => AbandonedStage::Preparing,
        DeliveryPhase::Committing => AbandonedStage::Committing,
    }
}

/// One handoff the coordinator gave up on, reported so an unhealthy worker
/// shows up in the log instead of as an unexplained capacity leak.
#[derive(Clone, Copy, Debug, PartialEq, Eq)]
pub struct AbandonedHandoff {
    pub generation: GenerationId,
    pub id: HandoffId,
    pub stage: AbandonedStage,
}

#[derive(Clone, Copy, Debug, PartialEq, Eq)]
pub enum PendingError {
    CapacityExhausted,
    SequenceExhausted,
    RandomnessUnavailable,
}

impl PendingError {
    pub fn message(self) -> (text: &'static str)
        ensures
            self == PendingError::CapacityExhausted ==> text@ == "router handoff capacity exhausted"@,
            self == PendingError::SequenceExhausted ==> text@ == "router handoff sequence exhausted"@,
            self == PendingError::RandomnessUnavailable ==> text@ == "no randomness for the coordinator epoch"@,
    {
        match self {
            PendingError::CapacityExhausted => "router handoff capacity exhausted",
            PendingError::SequenceExhausted => "router handoff sequence exhausted",
            PendingError::RandomnessUnavailable => "no randomness for the coordinator epoch",
        }
    }
}

#[verifier::external_type_specification]
#[verifier::external_body]
pub struct ExRandomError(getrandom::Error);

/// Calls `getrandom::fill` on eight bytes and reads them as a `u64`; the
/// bytes are random, so nothing is promised of the value.
#[verifier::external_body]
fn random_u64() -> Result<u64, getrandom::Error> {
    let mut bytes = [0_u8; 8];
    getrandom::fill(&mut bytes)?;
    Ok(u64::from_ne_bytes(bytes))
}

/// A client connection held until a worker owns it.
pub struct PendingConnection<S> {
    pub generation: GenerationId,
    pub stream: S,
    pub phase: DeliveryPhase,
    /// When the handoff was queued, in milliseconds.
    pub armed: u64,
}

/// Orders finalization tombstones by generation, then epoch, then sequence.
pub open spec fn finalization_rank(key: (u64, u64, u64)) -> int {
    key.0 as int * 0x1_0000_0000_0000_0000_0000_0000_0000_0000 + key.1 as int * 0x1_0000_0000_0000_0000
        + key.2 as int
}

pub open spec fn finalization_key(generation: GenerationId, id: HandoffId) -> (u64, u64, u64) {
    (generation.0, id.coordinator_epoch, id.sequence)
}

pub struct PendingModel<S> {
    pub epoch: u64,
    pub sequence: u64,
    pub capacity: usize,
    pub connections: Seq<(HandoffId, PendingConnection<S>)>,
    pub finalizing: Seq<((u64, u64, u64), u64)>,
}

pub open spec fn with_handoff<S>(id: HandoffId) -> spec_fn((HandoffId, PendingConnection<S>)) -> bool {
    |c: (HandoffId, PendingConnection<S>)| c.0 == id
}

pub open spec fn for_generation<S>(generation: GenerationId) -> spec_fn((HandoffId, PendingConnection<S>)) -> bool {
    |c: (HandoffId, PendingConnection<S>)| c.1.generation == generation
}

pub open spec fn with_finalization(key: (u64, u64, u64)) -> spec_fn(((u64, u64, u64), u64)) -> bool {
    |f: ((u64, u64, u64), u64)| f.0 == key
}

pub open spec fn finalizing_generation(generation: GenerationId) -> spec_fn(((u64, u64, u64), u64)) -> bool {
    |f: ((u64, u64, u64), u64)| f.0.0 == generation.0
}

pub open spec fn finalization_rank_not_below(key: (u64, u64, u64)) -> spec_fn(((u64, u64, u64), u64)) -> bool {
    |f: ((u64, u64, u64), u64)| finalization_rank(f.0) >= finalization_rank(key)
}

/// The time elapsed from `armed` to `now`; a clock reading before `armed`
/// counts as no time elapsed.
pub open spec fn elapsed(now: u64, armed: u64) -> int {
    if now >= armed {
        now - armed
    } else {
        0
    }
}

/// A handoff armed at `armed` has run out its `timeout` at `now`.
pub open spec fn timed_out(now: u64, armed: u64, timeout: u64) -> bool {
    elapsed(now, armed) >= timeout
}

pub open spec fn settled_in_time<S>(now: u64, timeout: u64) -> spec_fn((HandoffId, PendingConnection<S>)) -> bool {
    |c: (HandoffId, PendingConnection<S>)| !timed_out(now, c.1.armed, timeout)
}

pub open spec fn overdue<S>(now: u64, timeout: u64) -> spec_fn((HandoffId, PendingConnection<S>)) -> bool {
    |c: (HandoffId, PendingConnection<S>)| timed_out(now, c.1.armed, timeout)
}

pub open spec fn tombstone_in_time(now: u64, timeout: u64) -> spec_fn(((u64, u64, u64), u64)) -> bool {
    |f: ((u64, u64, u64), u64)| !timed_out(now, f.1, timeout)
}

pub open spec fn tombstone_overdue(now: u64, timeout: u64) -> spec_fn(((u64, u64, u64), u64)) -> bool {
    |f: ((u64, u64, u64), u64)| timed_out(now, f.1, timeout)
}

/// Whether a handoff armed at `armed` has run out its `timeout` at `now`.
fn has_timed_out(now: u64, armed: u64, timeout: u64) -> (out: bool)
    ensures
        out == timed_out(now, armed, timeout),
{
    let elapsed: u64 = if now >= armed {
        now - armed
    } else {
        0
    };
    elapsed >= timeout
}

pub open spec fn abandoned_connection<S>(c: (HandoffId, PendingConnection<S>)) -> AbandonedHandoff {
    AbandonedHandoff { generation: c.1.generation, id: c.0, stage: stage_of_phase(c.1.phase) }
}

pub open spec fn abandoned_tombstone(f: ((u64, u64, u64), u64)) -> AbandonedHandoff {
    AbandonedHandoff {
        generation: GenerationId(f.0.0),
        id: HandoffId { coordinator_epoch: f.0.1, sequence: f.0.2 },
        stage: AbandonedStage::Finalizing,
    }
}

pub open spec fn insert_tombstone(finalizing: Seq<((u64, u64, u64), u64)>, tombstone: ((u64, u64, u64), u64)) -> Seq<
    ((u64, u64, u64), u64),
> {
    match first_match(finalizing, finalization_rank_not_below(tombstone.0)) {
        Some(i) => finalizing.insert(i, tombstone),
        None => finalizing.push(tombstone),
    }
}

impl<S> PendingModel<S> {
    /// Connections are ordered by sequence, all from this epoch and below the
    /// next sequence number.
    pub open spec fn wf(self) -> bool {
        &&& forall|i: int|
            0 <= i < self.connections.len() ==> (#[trigger] self.connections[i]).0.coordinator_epoch == self.epoch
                && self.connections[i].0.sequence < self.sequence
        &&& forall|i: int, j: int|
            0 <= i < j < self.connections.len() ==> (#[trigger] self.connections[i]).0.sequence
                < (#[trigger] self.connections[j]).0.sequence
    }

    pub open spec fn in_flight(self) -> nat {
        self.connections.len() + self.finalizing.len()
    }

    pub open spec fn has_capacity(self) -> bool {
        self.in_flight() < self.capacity
    }

    pub open spec fn index_of(self, id: HandoffId) -> Option<int> {
        first_match(self.connections, with_handoff(id))
    }

    /// The pending connection `id`, when it belongs to `generation`.
    pub open spec fn matching_index(self, generation: GenerationId, id: HandoffId) -> Option<int> {
        match self.index_of(id) {
            Some(i) => if self.connections[i].1.generation == generation {
                Some(i)
            } else {
                None
            },
            None => None,
        }
    }

    /// What `reap_expired` reports at `now`: overdue pending connections,
    /// then overdue finalizing tombstones, each in order.
    pub open spec fn abandoned_by(self, now: u64, timeout: u64) -> Seq<AbandonedHandoff> {
        keep(self.connections, overdue::<S>(now, timeout)).map_values(
            |c: (HandoffId, PendingConnection<S>)| abandoned_connection(c),
        ) + keep(self.finalizing, tombstone_overdue(now, timeout)).map_values(
            |f: ((u64, u64, u64), u64)| abandoned_tombstone(f),
        )
    }

    /// The table once every handoff overdue at `now` is dropped.
    pub open spec fn reaped(self, now: u64, timeout: u64) -> PendingModel<S> {
        PendingModel {
            connections: keep(self.connections, settled_in_time::<S>(now, timeout)),
            finalizing: keep(self.finalizing, tombstone_in_time(now, timeout)),
            ..self
        }
    }

    pub open spec fn tombstone_index(self, generation: GenerationId, id: HandoffId) -> Option<int> {
        first_match(self.finalizing, with_finalization(finalization_key(generation, id)))
    }

    /// The table once handoff `id` of `generation` moved to `phase`, when it is pending.
    pub open spec fn moved_to(self, generation: GenerationId, id: HandoffId, phase: DeliveryPhase) -> Option<PendingModel<S>> {
        match self.matching_index(generation, id) {
            Some(i) => Some(
                PendingModel {
                    connections: self.connections.update(
                        i,
                        (self.connections[i].0, PendingConnection { phase: phase, ..self.connections[i].1 }),
                    ),
                    ..self
                },
            ),
            None => None,
        }
    }

    /// The table once handoff `id` of `generation` is finalizing since
    /// `now`; `None` when it is neither pending nor finalizing.
    pub open spec fn finalization_begun(self, generation: GenerationId, id: HandoffId, now: u64) -> Option<PendingModel<S>> {
        if self.tombstone_index(generation, id) is Some {
            Some(self)
        } else {
            match self.matching_index(generation, id) {
                Some(i) => Some(
                    PendingModel {
                        connections: self.connections.remove(i),
                        finalizing: insert_tombstone(self.finalizing, (finalization_key(generation, id), now)),
                        ..self
                    },
                ),
                None => None,
            }
        }
    }

    /// The table once the tombstone of `id` of `generation` is dropped, when there is one.
    pub open spec fn finalization_acknowledged(self, generation: GenerationId, id: HandoffId) -> Option<PendingModel<S>> {
        match self.tombstone_index(generation, id) {
            Some(k) => Some(PendingModel { finalizing: self.finalizing.remove(k), ..self }),
            None => None,
        }
    }
}

pub struct Pending<S> {
    epoch: u64,
    sequence: u64,
    capacity: usize,
    connections: Vec<(HandoffId, PendingConnection<S>)>,
    finalizing: Vec<((u64, u64, u64), u64)>,
}

impl<S> View for Pending<S> {
    type V = PendingModel<S>;

    closed spec fn view(&self) -> PendingModel<S> {
        PendingModel {
            epoch: self.epoch,
            sequence: self.sequence,
            capacity: self.capacity,
            connections: self.connections@,
            finalizing: self.finalizing@,
        }
    }
}

impl<S> Pending<S> {
    /// An empty table with a fresh random epoch and the default capacity.
    pub fn new() -> (pending: Result<Self, PendingError>)
        ensures
            match pending {
                Ok(pending) => pending@.sequence == 1 && pending@.capacity == MAX_IN_FLIGHT_HANDOFFS
                    && pending@.connections.len() == 0 && pending@.finalizing.len() == 0,
                Err(error) => error == PendingError::RandomnessUnavailable,
            },
    {
        match random_u64() {
            Ok(epoch) => Ok(Pending {
                epoch,
                sequence: 1,
                capacity: MAX_IN_FLIGHT_HANDOFFS,
                connections: Vec::new(),
                finalizing: Vec::new(),
            }),
            Err(_) => Err(PendingError::RandomnessUnavailable),
        }
    }

    /// An empty table with a fresh random epoch holding at most `capacity` handoffs.
    pub fn with_capacity(capacity: usize) -> (pending: Result<Self, PendingError>)
        ensures
            match pending {
                Ok(pending) => pending@.sequence == 1 && pending@.capacity == capacity
                    && pending@.connections.len() == 0 && pending@.finalizing.len() == 0,
                Err(error) => error == PendingError::RandomnessUnavailable,
            },
    {
        let mut pending = Self::new()?;
        pending.capacity = capacity;
        Ok(pending)
    }

    pub fn epoch(&self) -> (epoch: u64)
        ensures
            epoch == self@.epoch,
    {
        self.epoch
    }

    pub fn is_empty(&self) -> (empty: bool)
        ensures
            empty == (self@.connections.len() == 0 && self@.finalizing.len() == 0),
    {
        self.connections.len() == 0 && self.finalizing.len() == 0
    }

    pub fn has_capacity(&self) -> (room: bool)
        ensures
            room == self@.has_capacity(),
    {
        self.connections.len() < self.capacity && self.finalizing.len() < self.capacity - self.connections.len()
    }

    fn index_of(&self, id: HandoffId) -> (index: Option<usize>)
        ensures
            match index {
                Some(i) => self@.index_of(id) == Some(i as int) && i < self@.connections.len(),
                None => self@.index_of(id) is None,
            },
    {
        let mut i: usize = 0;
        while i < self.connections.len()
            invariant
                i <= self@.connections.len(),
                forall|j: int| 0 <= j < i ==> !with_handoff::<S>(id)(#[trigger] self@.connections[j]),
            decreases self@.connections.len() - i,
        {
            if self.connections[i].0 == id {
                proof {
                    lemma_first_match_is(self@.connections, with_handoff::<S>(id), i as int);
                }
                return Some(i);
            }
            i = i + 1;
        }
        proof {
            lemma_first_match_none(self@.connections, with_handoff::<S>(id));
        }
        None
    }

    fn matching_index(&self, generation: GenerationId, id: HandoffId) -> (index: Option<usize>)
        ensures
            match index {
                Some(i) => self@.matching_index(generation, id) == Some(i as int) && i < self@.connections.len(),
                None => self@.matching_index(generation, id) is None,
            },
    {
        match self.index_of(id) {
            Some(i) => if self.connections[i].1.generation == generation {
                Some(i)
            } else {
                None
            },
            None => None,
        }
    }

    fn tombstone_index(&self, generation: GenerationId, id: HandoffId) -> (index: Option<usize>)
        ensures
            match index {
                Some(k) => self@.tombstone_index(generation, id) == Some(k as int) && k < self@.finalizing.len(),
                None => self@.tombstone_index(generation, id) is None,
            },
    {
        let key = (generation.get(), id.coordinator_epoch, id.sequence);
        let mut k: usize = 0;
        while k < self.finalizing.len()
            invariant
                key == finalization_key(generation, id),
                k <= self@.finalizing.len(),
                forall|j: int| 0 <= j < k ==> !with_finalization(key)(#[trigger] self@.finalizing[j]),
            decreases self@.finalizing.len() - k,
        {
            let found = self.finalizing[k].0;
            if found.0 == key.0 && found.1 == key.1 && found.2 == key.2 {
                proof {
                    lemma_first_match_is(self@.finalizing, with_finalization(key), k as int);
                }
                return Some(k);
            }
            k = k + 1;
        }
        proof {
            lemma_first_match_none(self@.finalizing, with_finalization(key));
        }
        None
    }

    /// Queues a client for `generation`, armed at `now`.
    pub fn insert(&mut self, generation: GenerationId, stream: S, now: u64) -> (id: Result<HandoffId, PendingError>)
        ensures
            !old(self)@.has_capacity() ==> id == Err::<HandoffId, PendingError>(PendingError::CapacityExhausted)
                && final(self)@ == old(self)@,
            old(self)@.has_capacity() && old(self)@.sequence == u64::MAX ==> id == Err::<HandoffId, PendingError>(
                PendingError::SequenceExhausted,
            ) && final(self)@ == old(self)@,
            old(self)@.has_capacity() && old(self)@.sequence < u64::MAX ==> {
                let new_id = HandoffId { coordinator_epoch: old(self)@.epoch, sequence: old(self)@.sequence };
                &&& id == Ok::<HandoffId, PendingError>(new_id)
                &&& final(self)@ == PendingModel {
                    sequence: (old(self)@.sequence + 1) as u64,
                    connections: old(self)@.connections.push(
                        (
                            new_id,
                            PendingConnection {
                                generation: generation,
                                stream: stream,
                                phase: DeliveryPhase::Queued,
                                armed: now,
                            },
                        ),
                    ),
                    ..old(self)@
                }
            },
            old(self)@.wf() ==> final(self)@.wf(),
    {
        if !self.has_capacity() {
            return Err(PendingError::CapacityExhausted);
        }
        if self.sequence == u64::MAX {
            return Err(PendingError::SequenceExhausted);
        }
        let id = HandoffId::new(self.epoch, self.sequence);
        self.sequence = self.sequence + 1;
        self.connections.push((id, PendingConnection { generation, stream, phase: DeliveryPhase::Queued, armed: now }));
        Ok(id)
    }

    /// The descriptor to offer for `id`, and whether the worker may already have
    /// seen it (so the offer is a duplicate), when `id` is pending for `generation`.
    pub fn delivery(&self, generation: GenerationId, id: HandoffId) -> (delivery: Option<(&S, bool)>)
        ensures
            match self@.matching_index(generation, id) {
                Some(i) => delivery matches Some((stream, duplicate)) && *stream == self@.connections[i].1.stream
                    && duplicate == (self@.connections[i].1.phase != DeliveryPhase::Queued),
                None => delivery is None,
            },
    {
        match self.matching_index(generation, id) {
            Some(i) => {
                let pending = &self.connections[i].1;
                Some((&pending.stream, pending.phase != DeliveryPhase::Queued))
            },
            None => None,
        }
    }

    fn transition(&mut self, generation: GenerationId, id: HandoffId, phase: DeliveryPhase) -> (moved: bool)
        ensures
            match old(self)@.matching_index(generation, id) {
                Some(i) => moved && final(self)@ == PendingModel {
                    connections: old(self)@.connections.update(
                        i,
                        (old(self)@.connections[i].0, PendingConnection { phase: phase, ..old(self)@.connections[i].1 }),
                    ),
                    ..old(self)@
                },
                None => !moved && final(self)@ == old(self)@,
            },
            old(self)@.wf() ==> final(self)@.wf(),
    {
        let ghost before = self@;
        match self.matching_index(generation, id) {
            Some(i) => {
                self.connections[i].1.phase = phase;
                proof {
                    assert(self@.connections =~= before.connections.update(
                        i as int,
                        (before.connections[i as int].0, PendingConnection { phase: phase, ..before.connections[i as int].1 }),
                    ));
                    assert(self@ =~= PendingModel { connections: self@.connections, ..before });
                }
                true
            },
            None => false,
        }
    }

    /// The worker was offered `id`.
    pub fn mark_preparing(&mut self, generation: GenerationId, id: HandoffId) -> (moved: bool)
        ensures
            match old(self)@.matching_index(generation, id) {
                Some(i) => moved && final(self)@ == PendingModel {
                    connections: old(self)@.connections.update(
                        i,
                        (
                            old(self)@.connections[i].0,
                            PendingConnection { phase: DeliveryPhase::Preparing, ..old(self)@.connections[i].1 },
                        ),
                    ),
                    ..old(self)@
                },
                None => !moved && final(self)@ == old(self)@,
            },
            old(self)@.wf() ==> final(self)@.wf(),
    {
        self.transition(generation, id, DeliveryPhase::Preparing)
    }

    /// The worker acknowledged `id`; the coordinator now tells it to commit.
    pub fn mark_committing(&mut self, generation: GenerationId, id: HandoffId) -> (moved: bool)
        ensures
            match old(self)@.matching_index(generation, id) {
                Some(i) => moved && final(self)@ == PendingModel {
                    connections: old(self)@.connections.update(
                        i,
                        (
                            old(self)@.connections[i].0,
                            PendingConnection { phase: DeliveryPhase::Committing, ..old(self)@.connections[i].1 },
                        ),
                    ),
                    ..old(self)@
                },
                None => !moved && final(self)@ == old(self)@,
            },
            old(self)@.wf() ==> final(self)@.wf(),
    {
        self.transition(generation, id, DeliveryPhase::Committing)
    }

    /// Drops the pending connection `id` of `generation`, closing its descriptor.
    pub fn remove(&mut self, generation: GenerationId, id: HandoffId) -> (removed: bool)
        ensures
            match old(self)@.matching_index(generation, id) {
                Some(i) => removed && final(self)@ == PendingModel {
                    connections: old(self)@.connections.remove(i),
                    ..old(self)@
                },
                None => !removed && final(self)@ == old(self)@,
            },
            old(self)@.wf() ==> final(self)@.wf(),
    {
        let ghost before = self@;
        match self.matching_index(generation, id) {
            Some(i) => {
                let _closed = self.connections.remove(i);
                proof {
                    assert(self@ =~= PendingModel { connections: before.connections.remove(i as int), ..before });
                    if before.wf() {
                        assert forall|a: int, b: int| 0 <= a < b < self@.connections.len() implies (#[trigger] self@.connections[a]).0.sequence
                            < (#[trigger] self@.connections[b]).0.sequence by {
                            let a0 = if a < i { a } else { a + 1 };
                            let b0 = if b < i { b } else { b + 1 };
                            assert(self@.connections[a] == before.connections[a0]);
                            assert(self@.connections[b] == before.connections[b0]);
                        }
                        assert forall|a: int| 0 <= a < self@.connections.len() implies (#[trigger] self@.connections[a]).0.coordinator_epoch
                            == self@.epoch && self@.connections[a].0.sequence < self@.sequence by {
                            let a0 = if a < i { a } else { a + 1 };
                            assert(self@.connections[a] == before.connections[a0]);
                        }
                    }
                }
                true
            },
            None => false,
        }
    }

    fn tombstone_position(&self, key: (u64, u64, u64)) -> (position: Option<usize>)
        ensures
            match position {
                Some(k) => first_match(self@.finalizing, finalization_rank_not_below(key)) == Some(k as int) && k
                    < self@.finalizing.len(),
                None => first_match(self@.finalizing, finalization_rank_not_below(key)) is None,
            },
    {
        let mut k: usize = 0;
        while k < self.finalizing.len()
            invariant
                k <= self@.finalizing.len(),
                forall|j: int| 0 <= j < k ==> !finalization_rank_not_below(key)(#[trigger] self@.finalizing[j]),
            decreases self@.finalizing.len() - k,
        {
            let found = self.finalizing[k].0;
            let at_least = found.0 > key.0 || (found.0 == key.0 && (found.1 > key.1 || (found.1 == key.1 && found.2
                >= key.2)));
            proof {
                assert(at_least == (finalization_rank(found) >= finalization_rank(key))) by (nonlinear_arith)
                    requires
                        at_least == (found.0 > key.0 || (found.0 == key.0 && (found.1 > key.1 || (found.1 == key.1
                            && found.2 >= key.2)))),
                        found.0 <= u64::MAX,
                        found.1 <= u64::MAX,
                        found.2 <= u64::MAX,
                        key.0 <= u64::MAX,
                        key.1 <= u64::MAX,
                        key.2 <= u64::MAX,
                ;
            }
            if at_least {
                proof {
                    lemma_first_match_is(self@.finalizing, finalization_rank_not_below(key), k as int);
                }
                return Some(k);
            }
            k = k + 1;
        }
        proof {
            lemma_first_match_none(self@.finalizing, finalization_rank_not_below(key));
        }
        None
    }

    /// Moves a committed handoff to the finalizing tombstones, armed at `now`.
    /// A tombstone that already exists makes this a successful no-op.
    pub fn begin_finalizing(&mut self, generation: GenerationId, id: HandoffId, now: u64) -> (finalizing: bool)
        ensures
            old(self)@.tombstone_index(generation, id) is Some ==> finalizing && final(self)@ == old(self)@,
            old(self)@.tombstone_index(generation, id) is None ==> match old(self)@.matching_index(generation, id) {
                Some(i) => finalizing && final(self)@ == PendingModel {
                    connections: old(self)@.connections.remove(i),
                    finalizing: insert_tombstone(old(self)@.finalizing, (finalization_key(generation, id), now)),
                    ..old(self)@
                },
                None => !finalizing && final(self)@ == old(self)@,
            },
            old(self)@.wf() ==> final(self)@.wf(),
    {
        if self.tombstone_index(generation, id).is_some() {
            return true;
        }
        if !self.remove(generation, id) {
            return false;
        }
        let ghost removed = self@;
        let key = (generation.get(), id.coordinator_epoch, id.sequence);
        match self.tombstone_position(key) {
            Some(k) => self.finalizing.insert(k, (key, now)),
            None => self.finalizing.push((key, now)),
        }
        proof {
            assert(self@ =~= PendingModel {
                finalizing: insert_tombstone(removed.finalizing, (key, now)),
                ..removed
            });
        }
        true
    }

    /// The worker confirmed it dropped its state for `id`; the tombstone goes.
    pub fn acknowledge_finalized(&mut self, generation: GenerationId, id: HandoffId) -> (acknowledged: bool)
        ensures
            match old(self)@.tombstone_index(generation, id) {
                Some(k) => acknowledged && final(self)@ == PendingModel {
                    finalizing: old(self)@.finalizing.remove(k),
                    ..old(self)@
                },
                None => !acknowledged && final(self)@ == old(self)@,
            },
            old(self)@.wf() ==> final(self)@.wf(),
    {
        let ghost before = self@;
        match self.tombstone_index(generation, id) {
            Some(k) => {
                self.finalizing.remove(k);
                proof {
                    assert(self@ =~= PendingModel { finalizing: before.finalizing.remove(k as int), ..before });
                }
                true
            },
            None => false,
        }
    }

    /// The pending handoffs of `generation`, in order.
    pub fn matching(&self, generation: GenerationId) -> (ids: Vec<HandoffId>)
        ensures
            ids@ == keep(self@.connections, for_generation::<S>(generation)).map_values(
                |c: (HandoffId, PendingConnection<S>)| c.0,
            ),
    {
        let ghost all = self@.connections;
        let mut ids: Vec<HandoffId> = Vec::new();
        let mut i: usize = 0;
        while i < self.connections.len()
            invariant
                all == self@.connections,
                i <= all.len(),
                ids@ == keep(all.take(i as int), for_generation::<S>(generation)).map_values(
                    |c: (HandoffId, PendingConnection<S>)| c.0,
                ),
            decreases all.len() - i,
        {
            proof {
                lemma_keep_step(all, for_generation::<S>(generation), i as int);
            }
            if self.connections[i].1.generation == generation {
                ids.push(self.connections[i].0);
                proof {
                    assert(ids@ =~= keep(all.take(i + 1), for_generation::<S>(generation)).map_values(
                        |c: (HandoffId, PendingConnection<S>)| c.0,
                    ));
                }
            }
            i = i + 1;
        }
        proof {
            lemma_keep_all(all, for_generation::<S>(generation));
        }
        ids
    }

    /// The handoffs of `generation` awaiting a finalization acknowledgement, in order.
    pub fn finalizing(&self, generation: GenerationId) -> (ids: Vec<HandoffId>)
        ensures
            ids@ == keep(self@.finalizing, finalizing_generation(generation)).map_values(
                |f: ((u64, u64, u64), u64)| HandoffId { coordinator_epoch: f.0.1, sequence: f.0.2 },
            ),
    {
        let ghost all = self@.finalizing;
        let mut ids: Vec<HandoffId> = Vec::new();
        let mut k: usize = 0;
        while k < self.finalizing.len()
            invariant
                all == self@.finalizing,
                k <= all.len(),
                ids@ == keep(all.take(k as int), finalizing_generation(generation)).map_values(
                    |f: ((u64, u64, u64), u64)| HandoffId { coordinator_epoch: f.0.1, sequence: f.0.2 },
                ),
            decreases all.len() - k,
        {
            proof {
                lemma_keep_step(all, finalizing_generation(generation), k as int);
            }
            let key = self.finalizing[k].0;
            if key.0 == generation.get() {
                ids.push(HandoffId::new(key.1, key.2));
                proof {
                    assert(ids@ =~= keep(all.take(k + 1), finalizing_generation(generation)).map_values(
                        |f: ((u64, u64, u64), u64)| HandoffId { coordinator_epoch: f.0.1, sequence: f.0.2 },
                    ));
                }
            }
            k = k + 1;
        }
        proof {
            lemma_keep_all(all, finalizing_generation(generation));
        }
        ids
    }

    /// Some handoff of `generation` is still pending or finalizing.
    pub fn has_generation(&self, generation: GenerationId) -> (found: bool)
        ensures
            found == ((exists|i: int|
                0 <= i < self@.connections.len() && (#[trigger] self@.connections[i]).1.generation == generation)
                || (exists|k: int| 0 <= k < self@.finalizing.len() && (#[trigger] self@.finalizing[k]).0.0 == generation.0)),
    {
        let mut i: usize = 0;
        while i < self.connections.len()
            invariant
                i <= self@.connections.len(),
                forall|j: int| 0 <= j < i ==> (#[trigger] self@.connections[j]).1.generation != generation,
            decreases self@.connections.len() - i,
        {
            if self.connections[i].1.generation == generation {
                return true;
            }
            i = i + 1;
        }
        let mut k: usize = 0;
        while k < self.finalizing.len()
            invariant
                k <= self@.finalizing.len(),
                forall|j: int| 0 <= j < i ==> (#[trigger] self@.connections[j]).1.generation != generation,
                i == self@.connections.len(),
                forall|j: int| 0 <= j < k ==> (#[trigger] self@.finalizing[j]).0.0 != generation.0,
            decreases self@.finalizing.len() - k,
        {
            if self.finalizing[k].0.0 == generation.get() {
                return true;
            }
            k = k + 1;
        }
        false
    }

    /// Drops handoffs that did not settle within `timeout` of being armed,
    /// closing their client descriptors, and reports them in order: pending
    /// connections first, then finalizing tombstones.
    pub fn reap_expired(&mut self, now: u64, timeout: u64) -> (abandoned: Vec<AbandonedHandoff>)
        ensures
            abandoned@ == old(self)@.abandoned_by(now, timeout),
            final(self)@ == old(self)@.reaped(now, timeout),
    {
        let ghost before = self@;
        let ghost conns = self@.connections;
        let mut remaining: Vec<(HandoffId, PendingConnection<S>)> = Vec::new();
        std::mem::swap(&mut remaining, &mut self.connections);
        let mut kept: Vec<(HandoffId, PendingConnection<S>)> = Vec::new();
        let mut abandoned: Vec<AbandonedHandoff> = Vec::new();
        let ghost mut i: int = 0;
        while remaining.len() > 0
            invariant
                0 <= i <= conns.len(),
                remaining@ == conns.subrange(i, conns.len() as int),
                kept@ == keep(conns.take(i), settled_in_time::<S>(now, timeout)),
                abandoned@ == keep(conns.take(i), overdue::<S>(now, timeout)).map_values(
                    |c: (HandoffId, PendingConnection<S>)| abandoned_connection(c),
                ),
            decreases remaining@.len(),
        {
            let connection = remaining.remove(0);
            proof {
                assert(connection == conns[i]);
                lemma_keep_step(conns, settled_in_time::<S>(now, timeout), i);
                lemma_keep_step(conns, overdue::<S>(now, timeout), i);
                assert(remaining@ =~= conns.subrange(i + 1, conns.len() as int));
            }
            let armed = connection.1.armed;
            if has_timed_out(now, armed, timeout) {
                let stage = match connection.1.phase {
                    DeliveryPhase::Queued => AbandonedStage::Queued,
                    DeliveryPhase::Preparing => AbandonedStage::Preparing,
                    DeliveryPhase::Committing => AbandonedStage::Committing,
                };
                abandoned.push(AbandonedHandoff { generation: connection.1.generation, id: connection.0, stage });
                proof {
                    assert(abandoned@ =~= keep(conns.take(i + 1), overdue::<S>(now, timeout)).map_values(
                        |c: (HandoffId, PendingConnection<S>)| abandoned_connection(c),
                    ));
                }
            } else {
                kept.push(connection);
            }
            proof {
                i = i + 1;
            }
        }
        proof {
            lemma_keep_all(conns, settled_in_time::<S>(now, timeout));
            lemma_keep_all(conns, overdue::<S>(now, timeout));
        }
        self.connections = kept;
        let ghost from_connections = abandoned@;
        let ghost tombstones = self@.finalizing;
        let mut kept_tombstones: Vec<((u64, u64, u64), u64)> = Vec::new();
        let mut k: usize = 0;
        while k < self.finalizing.len()
            invariant
                tombstones == self@.finalizing,
                k <= tombstones.len(),
                kept_tombstones@ == keep(tombstones.take(k as int), tombstone_in_time(now, timeout)),
                abandoned@ == from_connections + keep(tombstones.take(k as int), tombstone_overdue(now, timeout)).map_values(
                    |f: ((u64, u64, u64), u64)| abandoned_tombstone(f),
                ),
            decreases tombstones.len() - k,
        {
            let tombstone = self.finalizing[k];
            proof {
                lemma_keep_step(tombstones, tombstone_in_time(now, timeout), k as int);
                lemma_keep_step(tombstones, tombstone_overdue(now, timeout), k as int);
            }
            if has_timed_out(now, tombstone.1, timeout) {
                abandoned.push(AbandonedHandoff {
                    generation: GenerationId::from_raw(tombstone.0.0),
                    id: HandoffId::new(tombstone.0.1, tombstone.0.2),
                    stage: AbandonedStage::Finalizing,
                });
                proof {
                    assert(abandoned@ =~= from_connections + keep(tombstones.take(k + 1), tombstone_overdue(now, timeout)).map_values(
                        |f: ((u64, u64, u64), u64)| abandoned_tombstone(f),
                    ));
                }
            } else {
                kept_tombstones.push(tombstone);
            }
            k = k + 1;
        }
        proof {
            lemma_keep_all(tombstones, tombstone_in_time(now, timeout));
            lemma_keep_all(tombstones, tombstone_overdue(now, timeout));
        }
        self.finalizing = kept_tombstones;
        proof {
            assert(self@ =~= before.reaped(now, timeout));
        }
        abandoned
    }
}

/// Finalizing a handoff twice is harmless: once its tombstone exists, a
/// repeated commit acknowledgement finds it and changes nothing, whenever
/// it arrives.
pub proof fn law_finalization_is_idempotent<S>(
    m: PendingModel<S>,
    generation: GenerationId,
    id: HandoffId,
    now: u64,
    later: u64,
)
    requires
        m.finalization_begun(generation, id, now) is Some,
    ensures
        ({
            let once = m.finalization_begun(generation, id, now)->0;
            once.finalization_begun(generation, id, later) == Some(once)
        }),
{
    let once = m.finalization_begun(generation, id, now)->0;
    if m.tombstone_index(generation, id) is None {
        let key = finalization_key(generation, id);
        let tombstone = (key, now);
        lemma_first_match(m.finalizing, finalization_rank_not_below(key));
        let at = match first_match(m.finalizing, finalization_rank_not_below(key)) {
            Some(i) => i,
            None => m.finalizing.len() as int,
        };
        assert(once.finalizing[at] == tombstone);
        lemma_first_match(once.finalizing, with_finalization(key));
        if first_match(once.finalizing, with_finalization(key)) is None {
            assert(!with_finalization(key)(once.finalizing[at]));
        }
    }
}

/// The number of handoffs in flight never exceeds the capacity: admitting a
/// client requires room, and finalizing only moves a handoff to a tombstone.
pub proof fn law_pending_capacity<S>(
    m: PendingModel<S>,
    generation: GenerationId,
    id: HandoffId,
    stream: S,
    now: u64,
)
    requires
        m.in_flight() <= m.capacity,
    ensures
        m.has_capacity() && m.sequence < u64::MAX ==> (PendingModel {
            sequence: (m.sequence + 1) as u64,
            connections: m.connections.push(
                (
                    HandoffId { coordinator_epoch: m.epoch, sequence: m.sequence },
                    PendingConnection {
                        generation: generation,
                        stream: stream,
                        phase: DeliveryPhase::Queued,
                        armed: now,
                    },
                ),
            ),
            ..m
        }).in_flight() <= m.capacity,
        m.tombstone_index(generation, id) is None && m.matching_index(generation, id) is Some ==> (PendingModel {
            connections: m.connections.remove(m.matching_index(generation, id)->0),
            finalizing: insert_tombstone(m.finalizing, (finalization_key(generation, id), now)),
            ..m
        }).in_flight() == m.in_flight(),
{
    lemma_first_match(m.connections, with_handoff::<S>(id));
    lemma_first_match(m.finalizing, finalization_rank_not_below(finalization_key(generation, id)));
}

/// After reaping at `now`, no handoff older than the timeout remains, and
/// every handoff that remains was already in the table.
pub proof fn law_reap_leaves_nothing_overdue<S>(m: PendingModel<S>, now: u64, timeout: u64)
    ensures
        forall|i: int|
            0 <= i < m.reaped(now, timeout).connections.len() ==> !timed_out(
                now,
                (#[trigger] m.reaped(now, timeout).connections[i]).1.armed,
                timeout,
            ),
        forall|k: int|
            0 <= k < m.reaped(now, timeout).finalizing.len() ==> !timed_out(
                now,
                (#[trigger] m.reaped(now, timeout).finalizing[k]).1,
                timeout,
            ),
        forall|i: int|
            0 <= i < m.reaped(now, timeout).connections.len() ==> m.connections.contains(
                #[trigger] m.reaped(now, timeout).connections[i],
            ),
{
    lemma_keep_facts(m.connections, settled_in_time::<S>(now, timeout));
    lemma_keep_facts(m.finalizing, tombstone_in_time(now, timeout));
}

} // verus!
