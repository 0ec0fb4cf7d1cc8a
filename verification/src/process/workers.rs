//! The coordinator's registry of worker connections.
//!
//! Each generation has at most one registered worker; a reconnect replaces
//! the slot under a fresh registration number, so messages from the older
//! connection can be told apart. The registry also remembers which worker
//! units were stopped and which generations lost their worker.

use vstd::prelude::*;

use crate::assoc::{
    distinct, keys_distinct, lemma_distinct_push, lemma_distinct_remove, lemma_keys_distinct_push,
    lemma_map_of_absent, lemma_map_of_first, lemma_map_of_push, lemma_map_of_remove, lemma_map_of_update,
    map_of,
};
use crate::model::GenerationId;

verus! {

/// One registered worker connection.
pub struct WorkerSlot<C> {
    /// Distinguishes this connection from earlier ones of the same generation.
    pub registration: u64,
    /// The worker process instance that said hello.
    pub instance: u64,
    pub ready: bool,
    pub accepting: bool,
    pub draining: bool,
    /// Whether handoffs parked before the worker first accepted were retried.
    pub pending_reconciled: bool,
    pub channel: C,
}

pub struct WorkersModel<C> {
    pub slots: Map<GenerationId, WorkerSlot<C>>,
    pub stopped: Set<GenerationId>,
    pub disconnected: Set<GenerationId>,
    pub next_registration: u64,
}

impl<C> WorkersModel<C> {
    pub open spec fn has(self, generation: GenerationId) -> bool {
        self.slots.dom().contains(generation)
    }

    pub open spec fn is_ready(self, generation: GenerationId) -> bool {
        self.has(generation) && self.slots[generation].ready
    }

    pub open spec fn is_accepting(self, generation: GenerationId) -> bool {
        self.has(generation) && self.slots[generation].accepting
    }

    pub open spec fn is_draining(self, generation: GenerationId) -> bool {
        self.has(generation) && self.slots[generation].draining
    }

    /// The same registry with one slot changed by `f`, if it is registered.
    pub open spec fn with_slot(self, generation: GenerationId, slot: WorkerSlot<C>) -> Self {
        if self.has(generation) {
            WorkersModel { slots: self.slots.insert(generation, slot), ..self }
        } else {
            self
        }
    }
}

pub struct Workers<C> {
    slots: Vec<(GenerationId, WorkerSlot<C>)>,
    stopped: Vec<GenerationId>,
    disconnected: Vec<GenerationId>,
    next_registration: u64,
}

impl<C> View for Workers<C> {
    type V = WorkersModel<C>;

    closed spec fn view(&self) -> WorkersModel<C> {
        WorkersModel {
            slots: map_of(self.slots@),
            stopped: self.stopped@.to_set(),
            disconnected: self.disconnected@.to_set(),
            next_registration: self.next_registration,
        }
    }
}

/// Generation ids in strictly increasing order.
pub open spec fn increasing_ids(s: Seq<GenerationId>) -> bool {
    forall|i: int, j: int| 0 <= i < j < s.len() ==> (#[trigger] s[i]).0 < (#[trigger] s[j]).0
}

proof fn lemma_increasing_distinct(s: Seq<GenerationId>)
    requires
        increasing_ids(s),
    ensures
        distinct(s),
{
    assert forall|i: int, j: int| 0 <= i < j < s.len() implies s[i] != s[j] by {
        assert(s[i].0 < s[j].0);
    }
}

/// Inserts `generation` into increasing `ids` where it belongs.
fn insert_sorted(ids: &mut Vec<GenerationId>, generation: GenerationId)
    requires
        increasing_ids(old(ids)@),
        !old(ids)@.contains(generation),
    ensures
        increasing_ids(final(ids)@),
        forall|g: GenerationId| final(ids)@.contains(g) == (old(ids)@.contains(g) || g == generation),
{
    let ghost before = ids@;
    let mut i: usize = 0;
    while i < ids.len() && ids[i].0 < generation.0
        invariant
            ids@ == before,
            i <= before.len(),
            forall|j: int| 0 <= j < i ==> (#[trigger] before[j]).0 < generation.0,
        decreases before.len() - i,
    {
        i = i + 1;
    }
    proof {
        if i < before.len() {
            assert(before[i as int].0 != generation.0) by {
                if before[i as int].0 == generation.0 {
                    assert(before[i as int] == generation);
                }
            }
        }
    }
    ids.insert(i, generation);
    proof {
        let after = ids@;
        assert forall|a: int, b: int| 0 <= a < b < after.len() implies (#[trigger] after[a]).0 < (#[trigger] after[b]).0 by {
            if a < i && b < i {
                assert(after[a] == before[a] && after[b] == before[b]);
            } else if a < i && b == i {
                assert(after[a] == before[a]);
            } else if a < i {
                assert(after[a] == before[a] && after[b] == before[b - 1]);
            } else if a == i {
                assert(after[b] == before[b - 1]);
                assert(before[i as int].0 <= before[b - 1].0 || b - 1 == i);
            } else {
                assert(after[a] == before[a - 1] && after[b] == before[b - 1]);
            }
        }
        assert forall|g: GenerationId| after.contains(g) == (before.contains(g) || g == generation) by {
            if after.contains(g) {
                let k = choose|k: int| 0 <= k < after.len() && after[k] == g;
                if k < i {
                    assert(before[k] == g);
                } else if k > i {
                    assert(before[k - 1] == g);
                }
            }
            if before.contains(g) {
                let k = choose|k: int| 0 <= k < before.len() && before[k] == g;
                if k < i {
                    assert(after[k] == g);
                } else {
                    assert(after[k + 1] == g);
                }
            }
            if g == generation {
                assert(after[i as int] == g);
            }
        }
    }
}

/// The distinct ids of `ids`, in increasing order.
fn sort_ids(ids: &Vec<GenerationId>) -> (sorted: Vec<GenerationId>)
    requires
        distinct(ids@),
    ensures
        increasing_ids(sorted@),
        forall|g: GenerationId| sorted@.contains(g) == ids@.contains(g),
{
    let mut sorted: Vec<GenerationId> = Vec::new();
    let mut i: usize = 0;
    while i < ids.len()
        invariant
            i <= ids@.len(),
            distinct(ids@),
            increasing_ids(sorted@),
            forall|g: GenerationId| sorted@.contains(g) == ids@.take(i as int).contains(g),
        decreases ids@.len() - i,
    {
        proof {
            if ids@.take(i as int).contains(ids@[i as int]) {
                let k = choose|k: int| 0 <= k < i && ids@.take(i as int)[k] == ids@[i as int];
                assert(ids@[k] == ids@[i as int]);
            }
        }
        insert_sorted(&mut sorted, ids[i]);
        proof {
            let head = ids@.take(i as int);
            let next = ids@.take(i + 1);
            assert(next =~= head.push(ids@[i as int]));
            assert forall|g: GenerationId| sorted@.contains(g) == next.contains(g) by {
                if next.contains(g) {
                    let k = choose|k: int| 0 <= k < next.len() && next[k] == g;
                    if k < i {
                        assert(head[k] == g);
                    }
                }
                if head.contains(g) {
                    let k = choose|k: int| 0 <= k < head.len() && head[k] == g;
                    assert(next[k] == g);
                }
                if g == ids@[i as int] {
                    assert(next[i as int] == g);
                }
            }
        }
        i = i + 1;
    }
    proof {
        assert(ids@.take(i as int) =~= ids@);
    }
    sorted
}

impl<C> Workers<C> {
    /// Each generation has one slot, and each set lists a generation once.
    pub closed spec fn wf(&self) -> bool {
        &&& keys_distinct(self.slots@)
        &&& distinct(self.stopped@)
        &&& distinct(self.disconnected@)
        &&& forall|i: int|
            0 <= i < self.slots@.len() ==> (#[trigger] self.slots@[i]).1.registration < self.next_registration
                || self.next_registration == u64::MAX
    }

    /// A registry with no worker registered yet; `disconnected` names the
    /// generations whose worker the coordinator expects to reconnect.
    pub fn new(disconnected: Vec<GenerationId>) -> (workers: Self)
        ensures
            workers.wf(),
            workers@.slots == Map::<GenerationId, WorkerSlot<C>>::empty(),
            workers@.stopped == Set::<GenerationId>::empty(),
            workers@.disconnected == disconnected@.to_set(),
            workers@.next_registration == 1,
    {
        let mut workers = Workers {
            slots: Vec::new(),
            stopped: Vec::new(),
            disconnected: Vec::new(),
            next_registration: 1,
        };
        proof {
            assert(workers.stopped@.to_set() =~= Set::<GenerationId>::empty());
            assert(workers.disconnected@.to_set() =~= Set::<GenerationId>::empty());
        }
        for i in 0..disconnected.len()
            invariant
                workers.wf(),
                workers@.slots == Map::<GenerationId, WorkerSlot<C>>::empty(),
                workers@.stopped == Set::<GenerationId>::empty(),
                workers@.disconnected == disconnected@.take(i as int).to_set(),
                workers@.next_registration == 1,
        {
            proof {
                assert(disconnected@.take(i + 1) =~= disconnected@.take(i as int).push(disconnected@[i as int]));
                disconnected@.take(i as int).lemma_push_to_set_commute(disconnected@[i as int]);
            }
            workers.mark_disconnected(disconnected[i]);
        }
        proof {
            assert(disconnected@.take(disconnected@.len() as int) =~= disconnected@);
        }
        workers
    }

    fn slot_index(&self, generation: GenerationId) -> (index: Option<usize>)
        requires
            self.wf(),
        ensures
            match index {
                Some(i) => i < self.slots@.len() && self.slots@[i as int].0 == generation
                    && self@.has(generation) && self@.slots[generation] == self.slots@[i as int].1,
                None => !self@.has(generation),
            },
    {
        let mut i: usize = 0;
        while i < self.slots.len()
            invariant
                self.wf(),
                i <= self.slots@.len(),
                forall|j: int| 0 <= j < i ==> (#[trigger] self.slots@[j]).0 != generation,
            decreases self.slots@.len() - i,
        {
            if self.slots[i].0 == generation {
                proof {
                    lemma_map_of_first(self.slots@, i as int, generation);
                }
                return Some(i);
            }
            i = i + 1;
        }
        proof {
            lemma_map_of_absent(self.slots@, generation);
        }
        None
    }

    fn position(list: &Vec<GenerationId>, generation: GenerationId) -> (index: Option<usize>)
        ensures
            match index {
                Some(i) => i < list@.len() && list@[i as int] == generation,
                None => !list@.contains(generation),
            },
    {
        let mut i: usize = 0;
        while i < list.len()
            invariant
                i <= list@.len(),
                forall|j: int| 0 <= j < i ==> list@[j] != generation,
            decreases list@.len() - i,
        {
            if list[i] == generation {
                return Some(i);
            }
            i = i + 1;
        }
        None
    }

    /// Registers a worker that connected for `generation`, replacing an
    /// earlier connection of the same generation, and returns its
    /// registration number.
    pub fn register(&mut self, generation: GenerationId, instance: u64, channel: C) -> (registration: u64)
        requires
            old(self).wf(),
        ensures
            final(self).wf(),
            registration == old(self)@.next_registration,
            final(self)@.next_registration == (if old(self)@.next_registration == u64::MAX {
                u64::MAX
            } else {
                (old(self)@.next_registration + 1) as u64
            }),
            final(self)@.slots == old(self)@.slots.insert(
                generation,
                WorkerSlot {
                    registration,
                    instance,
                    ready: false,
                    accepting: false,
                    draining: false,
                    pending_reconciled: false,
                    channel,
                },
            ),
            final(self)@.disconnected == old(self)@.disconnected.remove(generation),
            final(self)@.stopped == old(self)@.stopped,
            old(self)@.next_registration < u64::MAX ==> forall|other: GenerationId|
                #[trigger] old(self)@.has(other) ==> old(self)@.slots[other].registration < registration,
    {
        proof {
            assert forall|other: GenerationId| #[trigger] old(self)@.has(other) && old(self)@.next_registration < u64::MAX
                implies old(self)@.slots[other].registration < old(self)@.next_registration by {
                crate::assoc::lemma_map_of_dom(self.slots@, other);
                let j = choose|j: int| 0 <= j < self.slots@.len() && (#[trigger] self.slots@[j]).0 == other;
                lemma_map_of_first(self.slots@, j, other);
            }
        }
        let registration = self.next_registration;
        self.next_registration = self.next_registration.saturating_add(1);
        self.unmark_disconnected(generation);
        let slot = WorkerSlot {
            registration,
            instance,
            ready: false,
            accepting: false,
            draining: false,
            pending_reconciled: false,
            channel,
        };
        match self.slot_index(generation) {
            Some(i) => {
                let ghost before = self.slots@;
                self.slots.set(i, (generation, slot));
                proof {
                    lemma_map_of_update(before, i as int, (generation, slot));
                }
            },
            None => {
                let ghost before = self.slots@;
                self.slots.push((generation, slot));
                proof {
                    lemma_keys_distinct_push(before, (generation, slot));
                    lemma_map_of_push(before, (generation, slot));
                }
            },
        }
        registration
    }

    pub fn contains(&self, generation: GenerationId) -> (found: bool)
        requires
            self.wf(),
        ensures
            found == self@.has(generation),
    {
        self.slot_index(generation).is_some()
    }

    /// Whether `registration` is the current connection of `generation`.
    pub fn is_current(&self, generation: GenerationId, registration: u64) -> (current: bool)
        requires
            self.wf(),
        ensures
            current == (self@.has(generation) && self@.slots[generation].registration == registration),
    {
        match self.slot_index(generation) {
            Some(i) => self.slots[i].1.registration == registration,
            None => false,
        }
    }

    /// The channel of the worker registered for `generation`.
    pub fn channel_for(&self, generation: GenerationId) -> (channel: Option<&C>)
        requires
            self.wf(),
        ensures
            match channel {
                Some(c) => self@.has(generation) && *c == self@.slots[generation].channel,
                None => !self@.has(generation),
            },
    {
        match self.slot_index(generation) {
            Some(i) => Some(&self.slots[i].1.channel),
            None => None,
        }
    }

    /// Every generation whose worker reported ready, each once, in
    /// increasing generation order.
    pub fn ready_generations(&self) -> (ready: Vec<GenerationId>)
        requires
            self.wf(),
        ensures
            distinct(ready@),
            increasing_ids(ready@),
            forall|generation: GenerationId| ready@.contains(generation) == self@.is_ready(generation),
    {
        let found = self.ready_in_slot_order();
        let sorted = sort_ids(&found);
        proof {
            lemma_increasing_distinct(sorted@);
        }
        sorted
    }

    fn ready_in_slot_order(&self) -> (ready: Vec<GenerationId>)
        requires
            self.wf(),
        ensures
            distinct(ready@),
            forall|generation: GenerationId| ready@.contains(generation) == self@.is_ready(generation),
    {
        let mut ready: Vec<GenerationId> = Vec::new();
        for i in 0..self.slots.len()
            invariant
                self.wf(),
                distinct(ready@),
                forall|generation: GenerationId| ready@.contains(generation) == (exists|j: int|
                    0 <= j < i && (#[trigger] self.slots@[j]).0 == generation && self.slots@[j].1.ready),
        {
            let ghost before = ready@;
            let (generation, ref slot) = self.slots[i];
            if slot.ready {
                proof {
                    if before.contains(generation) {
                        let j = choose|j: int|
                            0 <= j < i && (#[trigger] self.slots@[j]).0 == generation && self.slots@[j].1.ready;
                        assert(self.slots@[j].0 == self.slots@[i as int].0);
                    }
                    lemma_distinct_push(before, generation);
                }
                ready.push(generation);
            }
            proof {
                assert forall|g: GenerationId| ready@.contains(g) == (exists|j: int|
                    0 <= j < i + 1 && (#[trigger] self.slots@[j]).0 == g && self.slots@[j].1.ready) by {
                    if ready@.contains(g) && !before.contains(g) {
                        assert(ready@[before.len() as int] == generation);
                        if ready@.len() > before.len() {
                            let k = choose|k: int| 0 <= k < ready@.len() && ready@[k] == g;
                            if k < before.len() {
                                assert(before[k] == g);
                            }
                        }
                    }
                    if before.contains(g) {
                        let k = choose|k: int| 0 <= k < before.len() && before[k] == g;
                        assert(ready@[k] == g);
                    }
                    if exists|j: int| 0 <= j < i + 1 && (#[trigger] self.slots@[j]).0 == g && self.slots@[j].1.ready {
                        let j = choose|j: int| 0 <= j < i + 1 && (#[trigger] self.slots@[j]).0 == g && self.slots@[j].1.ready;
                        if j == i {
                            assert(ready@[ready@.len() - 1] == g);
                        }
                    }
                }
            }
        }
        proof {
            assert forall|generation: GenerationId| ready@.contains(generation) == self@.is_ready(generation) by {
                if ready@.contains(generation) {
                    let j = choose|j: int| 0 <= j < self.slots@.len() && (#[trigger] self.slots@[j]).0 == generation
                        && self.slots@[j].1.ready;
                    lemma_map_of_first(self.slots@, j, generation);
                }
                if self@.is_ready(generation) {
                    crate::assoc::lemma_map_of_dom(self.slots@, generation);
                    let j = choose|j: int| 0 <= j < self.slots@.len() && (#[trigger] self.slots@[j]).0 == generation;
                    lemma_map_of_first(self.slots@, j, generation);
                }
            }
        }
        ready
    }

    /// The instance of the worker registered for `generation`, once it is ready.
    pub fn ready_instance(&self, generation: GenerationId) -> (instance: Option<u64>)
        requires
            self.wf(),
        ensures
            instance == (if self@.is_ready(generation) {
                Some(self@.slots[generation].instance)
            } else {
                None::<u64>
            }),
    {
        match self.slot_index(generation) {
            Some(i) => if self.slots[i].1.ready {
                Some(self.slots[i].1.instance)
            } else {
                None
            },
            None => None,
        }
    }

    pub fn is_ready(&self, generation: GenerationId) -> (ready: bool)
        requires
            self.wf(),
        ensures
            ready == self@.is_ready(generation),
    {
        match self.slot_index(generation) {
            Some(i) => self.slots[i].1.ready,
            None => false,
        }
    }

    pub fn is_accepting(&self, generation: GenerationId) -> (accepting: bool)
        requires
            self.wf(),
        ensures
            accepting == self@.is_accepting(generation),
    {
        match self.slot_index(generation) {
            Some(i) => self.slots[i].1.accepting,
            None => false,
        }
    }

    pub fn is_draining(&self, generation: GenerationId) -> (draining: bool)
        requires
            self.wf(),
        ensures
            draining == self@.is_draining(generation),
    {
        match self.slot_index(generation) {
            Some(i) => self.slots[i].1.draining,
            None => false,
        }
    }

    /// Replaces the flags of the slot at `i`, keeping its identity and channel.
    fn set_flags(&mut self, i: usize, ready: bool, accepting: bool, draining: bool, pending_reconciled: bool)
        requires
            old(self).wf(),
            i < old(self).slots@.len(),
        ensures
            final(self).wf(),
            final(self)@ == old(self)@.with_slot(
                old(self).slots@[i as int].0,
                WorkerSlot { ready, accepting, draining, pending_reconciled, ..old(self).slots@[i as int].1 },
            ),
    {
        let ghost before = self.slots@;
        let ghost generation = before[i as int].0;
        proof {
            lemma_map_of_first(before, i as int, generation);
        }
        let (generation, slot) = self.slots.remove(i);
        let updated = WorkerSlot { ready, accepting, draining, pending_reconciled, ..slot };
        self.slots.insert(i, (generation, updated));
        proof {
            assert(self.slots@ =~= before.update(i as int, (generation, updated)));
            lemma_map_of_update(before, i as int, (generation, updated));
        }
    }

    pub fn mark_ready(&mut self, generation: GenerationId)
        requires
            old(self).wf(),
        ensures
            final(self).wf(),
            final(self)@ == old(self)@.with_slot(
                generation,
                WorkerSlot { ready: true, ..old(self)@.slots[generation] },
            ),
    {
        if let Some(i) = self.slot_index(generation) {
            let s = &self.slots[i].1;
            let (accepting, draining, pending) = (s.accepting, s.draining, s.pending_reconciled);
            self.set_flags(i, true, accepting, draining, pending);
        }
    }

    pub fn mark_not_accepting(&mut self, generation: GenerationId)
        requires
            old(self).wf(),
        ensures
            final(self).wf(),
            final(self)@ == old(self)@.with_slot(
                generation,
                WorkerSlot { accepting: false, ..old(self)@.slots[generation] },
            ),
    {
        if let Some(i) = self.slot_index(generation) {
            let s = &self.slots[i].1;
            let (ready, draining, pending) = (s.ready, s.draining, s.pending_reconciled);
            self.set_flags(i, ready, false, draining, pending);
        }
    }

    /// The worker paused admissions: it no longer accepts and is draining.
    pub fn mark_admissions_paused(&mut self, generation: GenerationId)
        requires
            old(self).wf(),
        ensures
            final(self).wf(),
            final(self)@ == old(self)@.with_slot(
                generation,
                WorkerSlot { accepting: false, draining: true, ..old(self)@.slots[generation] },
            ),
    {
        if let Some(i) = self.slot_index(generation) {
            let s = &self.slots[i].1;
            let (ready, pending) = (s.ready, s.pending_reconciled);
            self.set_flags(i, ready, false, true, pending);
        }
    }

    /// The worker accepts clients. Returns whether this is the first time
    /// since it registered, when the handoffs parked for it must be retried.
    pub fn mark_accepting(&mut self, generation: GenerationId) -> (reconcile_pending: bool)
        requires
            old(self).wf(),
        ensures
            final(self).wf(),
            final(self)@ == old(self)@.with_slot(
                generation,
                WorkerSlot {
                    accepting: true,
                    draining: false,
                    pending_reconciled: true,
                    ..old(self)@.slots[generation]
                },
            ),
            reconcile_pending == (old(self)@.has(generation) && !old(self)@.slots[generation].pending_reconciled),
    {
        match self.slot_index(generation) {
            Some(i) => {
                let s = &self.slots[i].1;
                let ready = s.ready;
                let reconcile_pending = !s.pending_reconciled;
                self.set_flags(i, ready, true, false, true);
                reconcile_pending
            },
            None => false,
        }
    }

    fn mark_disconnected(&mut self, generation: GenerationId)
        requires
            old(self).wf(),
        ensures
            final(self).wf(),
            final(self)@ == (WorkersModel { disconnected: old(self)@.disconnected.insert(generation), ..old(self)@ }),
    {
        if Self::position(&self.disconnected, generation).is_none() {
            let ghost before = self.disconnected@;
            self.disconnected.push(generation);
            proof {
                lemma_distinct_push(before, generation);
            }
        } else {
            proof {
                assert(self@.disconnected.contains(generation));
                assert(self@.disconnected.insert(generation) =~= self@.disconnected);
            }
        }
    }

    fn unmark_disconnected(&mut self, generation: GenerationId)
        requires
            old(self).wf(),
        ensures
            final(self).wf(),
            final(self)@ == (WorkersModel { disconnected: old(self)@.disconnected.remove(generation), ..old(self)@ }),
    {
        match Self::position(&self.disconnected, generation) {
            Some(k) => {
                let ghost before = self.disconnected@;
                self.disconnected.remove(k);
                proof {
                    lemma_distinct_remove(before, k as int);
                }
            },
            None => {
                proof {
                    assert(self@.disconnected.remove(generation) =~= self@.disconnected);
                }
            },
        }
    }

    /// The worker of `generation` went away: its slot goes, and the
    /// generation is remembered as disconnected.
    pub fn disconnect(&mut self, generation: GenerationId)
        requires
            old(self).wf(),
        ensures
            final(self).wf(),
            final(self)@ == (WorkersModel {
                slots: old(self)@.slots.remove(generation),
                disconnected: old(self)@.disconnected.insert(generation),
                ..old(self)@
            }),
    {
        match self.slot_index(generation) {
            Some(i) => {
                let ghost before = self.slots@;
                self.slots.remove(i);
                proof {
                    lemma_map_of_remove(before, i as int);
                }
            },
            None => {
                proof {
                    assert(self@.slots.remove(generation) =~= self@.slots);
                }
            },
        }
        self.mark_disconnected(generation);
    }

    pub fn is_disconnected(&self, generation: GenerationId) -> (disconnected: bool)
        ensures
            disconnected == self@.disconnected.contains(generation),
    {
        Self::position(&self.disconnected, generation).is_some()
    }

    /// Remembers that the worker unit of `generation` was stopped.
    pub fn mark_stopped(&mut self, generation: GenerationId)
        requires
            old(self).wf(),
        ensures
            final(self).wf(),
            final(self)@ == (WorkersModel { stopped: old(self)@.stopped.insert(generation), ..old(self)@ }),
    {
        if Self::position(&self.stopped, generation).is_none() {
            let ghost before = self.stopped@;
            self.stopped.push(generation);
            proof {
                lemma_distinct_push(before, generation);
            }
        } else {
            proof {
                assert(self@.stopped.contains(generation));
                assert(self@.stopped.insert(generation) =~= self@.stopped);
            }
        }
    }

    pub fn mark_stopped_generations(&mut self, generations: Vec<GenerationId>)
        requires
            old(self).wf(),
        ensures
            final(self).wf(),
            final(self)@ == (WorkersModel { stopped: old(self)@.stopped.union(generations@.to_set()), ..old(self)@ }),
    {
        let ghost start = self@;
        proof {
            assert(generations@.take(0).to_set() =~= Set::<GenerationId>::empty());
            assert(start.stopped.union(Set::<GenerationId>::empty()) =~= start.stopped);
        }
        for i in 0..generations.len()
            invariant
                self.wf(),
                self@ == (WorkersModel { stopped: start.stopped.union(generations@.take(i as int).to_set()), ..start }),
        {
            proof {
                assert(generations@.take(i + 1) =~= generations@.take(i as int).push(generations@[i as int]));
                generations@.take(i as int).lemma_push_to_set_commute(generations@[i as int]);
                assert(start.stopped.union(generations@.take(i as int).to_set()).insert(generations@[i as int])
                    =~= start.stopped.union(generations@.take(i + 1).to_set()));
            }
            self.mark_stopped(generations[i]);
        }
        proof {
            assert(generations@.take(generations@.len() as int) =~= generations@);
        }
    }

    pub fn is_stopped(&self, generation: GenerationId) -> (stopped: bool)
        ensures
            stopped == self@.stopped.contains(generation),
    {
        Self::position(&self.stopped, generation).is_some()
    }
}

} // verus!
