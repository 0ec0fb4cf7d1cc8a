//! A worker's side of the handoff protocol.
//!
//! A descriptor offered by the coordinator is parked until the coordinator
//! commits it; the worker then serves it and keeps an idempotency tombstone,
//! because a lost commit acknowledgement makes the coordinator replay the
//! commit. Finalization drops the tombstone, and a new coordinator epoch
//! drops every tombstone and hands back every parked descriptor.

use vstd::prelude::*;

use super::pending::HandoffId;
use crate::search::{first_match, lemma_first_match, lemma_first_match_is, lemma_first_match_none};

verus! {

/// The reply to an offered descriptor.
#[derive(Clone, Copy, Debug, PartialEq, Eq, Structural)]
pub enum Offered {
    /// The descriptor is parked (or was already parked) awaiting commit.
    ConnectionAck(HandoffId),
    /// The handoff was already committed; the offered duplicate is dropped.
    ConnectionCommitAck(HandoffId),
}

/// What a commit request found.
pub enum Commit<S> {
    /// The parked descriptor, now committed and to be served.
    New(S),
    /// A replayed commit of a handoff already served.
    AlreadyCommitted,
    /// Nothing is parked under that id.
    Unknown,
}

pub struct HandoffsModel<S> {
    pub pending: Seq<(HandoffId, S)>,
    pub committed: Seq<HandoffId>,
}

pub open spec fn parked<S>(id: HandoffId) -> spec_fn((HandoffId, S)) -> bool {
    |p: (HandoffId, S)| p.0 == id
}

/// Whether some descriptor is parked under `id`.
pub open spec fn parked_in<S>(pending: Seq<(HandoffId, S)>, id: HandoffId) -> bool {
    exists|i: int| 0 <= i < pending.len() && (#[trigger] pending[i]).0 == id
}

/// No two parked descriptors share an id.
pub open spec fn parked_ids_distinct<S>(pending: Seq<(HandoffId, S)>) -> bool {
    forall|i: int, j: int| 0 <= i < j < pending.len() ==> (#[trigger] pending[i]).0 != (#[trigger] pending[j]).0
}

/// No id occurs twice.
pub open spec fn ids_distinct(ids: Seq<HandoffId>) -> bool {
    forall|i: int, j: int| 0 <= i < j < ids.len() ==> ids[i] != ids[j]
}

impl<S> HandoffsModel<S> {
    pub open spec fn is_committed(self, id: HandoffId) -> bool {
        self.committed.contains(id)
    }

    pub open spec fn parked_index(self, id: HandoffId) -> Option<int> {
        first_match(self.pending, parked::<S>(id))
    }

    /// Whether committing `id` now serves a parked descriptor.
    pub open spec fn serves(self, id: HandoffId) -> bool {
        !self.is_committed(id) && self.parked_index(id) is Some
    }

    /// The table once `id` has been committed.
    pub open spec fn after_commit(self, id: HandoffId) -> HandoffsModel<S> {
        if self.serves(id) {
            HandoffsModel {
                pending: self.pending.remove(self.parked_index(id)->0),
                committed: self.committed.push(id),
            }
        } else {
            self
        }
    }

    pub open spec fn is_parked(self, id: HandoffId) -> bool {
        parked_in(self.pending, id)
    }

    /// Each handoff is parked at most once and committed at most once.
    pub open spec fn wf(self) -> bool {
        &&& parked_ids_distinct(self.pending)
        &&& ids_distinct(self.committed)
    }
}

pub struct Handoffs<S> {
    pending: Vec<(HandoffId, S)>,
    committed: Vec<HandoffId>,
}

impl<S> View for Handoffs<S> {
    type V = HandoffsModel<S>;

    closed spec fn view(&self) -> HandoffsModel<S> {
        HandoffsModel { pending: self.pending@, committed: self.committed@ }
    }
}

impl<S> Handoffs<S> {
    pub fn new() -> (handoffs: Self)
        ensures
            handoffs@.pending.len() == 0,
            handoffs@.committed.len() == 0,
    {
        Handoffs { pending: Vec::new(), committed: Vec::new() }
    }

    pub fn pending_is_empty(&self) -> (empty: bool)
        ensures
            empty == (self@.pending.len() == 0),
    {
        self.pending.len() == 0
    }

    /// Drops every parked descriptor: the worker is draining.
    pub fn clear_pending(&mut self)
        ensures
            final(self)@.pending.len() == 0,
            final(self)@.committed == old(self)@.committed,
    {
        self.pending = Vec::new();
    }

    fn parked_index(&self, id: HandoffId) -> (index: Option<usize>)
        ensures
            match index {
                Some(i) => self@.parked_index(id) == Some(i as int) && i < self@.pending.len(),
                None => self@.parked_index(id) is None,
            },
    {
        let mut i: usize = 0;
        while i < self.pending.len()
            invariant
                i <= self@.pending.len(),
                forall|j: int| 0 <= j < i ==> !parked::<S>(id)(#[trigger] self@.pending[j]),
            decreases self@.pending.len() - i,
        {
            if self.pending[i].0 == id {
                proof {
                    lemma_first_match_is(self@.pending, parked::<S>(id), i as int);
                }
                return Some(i);
            }
            i = i + 1;
        }
        proof {
            lemma_first_match_none(self@.pending, parked::<S>(id));
        }
        None
    }

    fn committed_index(&self, id: HandoffId) -> (index: Option<usize>)
        ensures
            match index {
                Some(k) => k < self@.committed.len() && self@.committed[k as int] == id,
                None => !self@.committed.contains(id),
            },
    {
        let mut k: usize = 0;
        while k < self.committed.len()
            invariant
                k <= self@.committed.len(),
                forall|j: int| 0 <= j < k ==> self@.committed[j] != id,
            decreases self@.committed.len() - k,
        {
            if self.committed[k] == id {
                return Some(k);
            }
            k = k + 1;
        }
        None
    }

    pub fn is_committed(&self, id: HandoffId) -> (committed: bool)
        ensures
            committed == self@.is_committed(id),
    {
        self.committed_index(id).is_some()
    }

    pub fn is_parked(&self, id: HandoffId) -> (found: bool)
        ensures
            found == self@.is_parked(id),
    {
        proof {
            lemma_first_match(self@.pending, parked::<S>(id));
        }
        match self.parked_index(id) {
            Some(i) => {
                assert(self@.pending[i as int].0 == id);
                true
            },
            None => false,
        }
    }

    /// A coordinator with a new epoch took over: every tombstone of the old
    /// epoch goes, and every parked descriptor is handed back to be served.
    /// The first epoch seen, or the same epoch again, changes nothing.
    pub fn reconcile_epoch(&mut self, previous_epoch: Option<u64>, epoch: u64) -> (orphans: Vec<S>)
        ensures
            previous_epoch is None || previous_epoch == Some(epoch) ==> orphans@.len() == 0 && final(self)@
                == old(self)@,
            previous_epoch is Some && previous_epoch != Some(epoch) ==> {
                &&& orphans@ == old(self)@.pending.map_values(|p: (HandoffId, S)| p.1)
                &&& final(self)@.pending.len() == 0
                &&& final(self)@.committed.len() == 0
            },
    {
        let same = match previous_epoch {
            None => true,
            Some(previous) => previous == epoch,
        };
        if same {
            return Vec::new();
        }
        self.committed = Vec::new();
        let mut parked: Vec<(HandoffId, S)> = Vec::new();
        std::mem::swap(&mut parked, &mut self.pending);
        let ghost all = parked@;
        let mut orphans: Vec<S> = Vec::new();
        let ghost mut i: int = 0;
        while parked.len() > 0
            invariant
                0 <= i <= all.len(),
                parked@ == all.subrange(i, all.len() as int),
                orphans@ == all.take(i).map_values(|p: (HandoffId, S)| p.1),
            decreases parked@.len(),
        {
            let (_, stream) = parked.remove(0);
            orphans.push(stream);
            proof {
                assert(all.take(i + 1) =~= all.take(i).push(all[i]));
                assert(orphans@ =~= all.take(i + 1).map_values(|p: (HandoffId, S)| p.1));
                assert(parked@ =~= all.subrange(i + 1, all.len() as int));
                i = i + 1;
            }
        }
        proof {
            assert(all.take(i) =~= all);
        }
        orphans
    }

    /// The coordinator finalized `id`: its tombstone goes, and a descriptor
    /// still parked for it (a handoff the coordinator abandoned) is dropped.
    pub fn finalize(&mut self, id: HandoffId)
        ensures
            !final(self)@.is_committed(id),
            !final(self)@.is_parked(id) || !old(self)@.wf(),
            forall|other: HandoffId| other != id ==> (final(self)@.is_committed(other) == old(self)@.is_committed(other)),
            forall|other: HandoffId| other != id ==> (final(self)@.is_parked(other) == old(self)@.is_parked(other)),
            old(self)@.wf() ==> final(self)@.wf(),
    {
        self.forget_commit(id);
        proof {
            lemma_first_match(self@.pending, parked::<S>(id));
        }
        if let Some(i) = self.parked_index(id) {
            let ghost before = self@;
            let _dropped = self.pending.remove(i);
            proof {
                lemma_remove_parked(before.pending, i as int, id);
            }
        }
    }

    /// Drops the tombstone of `id`, every copy of it.
    fn forget_commit(&mut self, id: HandoffId)
        ensures
            !final(self)@.is_committed(id),
            final(self)@.pending == old(self)@.pending,
            forall|other: HandoffId| other != id ==> (final(self)@.is_committed(other) == old(self)@.is_committed(other)),
            old(self)@.wf() ==> final(self)@.wf(),
    {
        let ghost start = self@;
        loop
            invariant
                self@.pending == start.pending,
                forall|other: HandoffId| other != id ==> (self@.is_committed(other) == start.is_committed(other)),
                start.wf() ==> self@.wf(),
            ensures
                !self@.is_committed(id),
                self@.pending == start.pending,
                forall|other: HandoffId| other != id ==> (self@.is_committed(other) == start.is_committed(other)),
                start.wf() ==> self@.wf(),
            decreases self@.committed.len(),
        {
            match self.committed_index(id) {
                Some(k) => {
                    let ghost before = self@;
                    self.committed.remove(k);
                    proof {
                        lemma_remove_committed(before.committed, k as int, id);
                    }
                },
                None => {
                    break;
                },
            }
        }
    }

    /// Parks an offered descriptor. A handoff already committed is answered
    /// with a commit acknowledgement and the duplicate is dropped; a handoff
    /// already parked keeps its first descriptor.
    pub fn register(&mut self, id: HandoffId, stream: S) -> (reply: Offered)
        ensures
            old(self)@.is_committed(id) ==> reply == Offered::ConnectionCommitAck(id) && final(self)@ == old(self)@,
            !old(self)@.is_committed(id) && old(self)@.is_parked(id) ==> reply == Offered::ConnectionAck(id)
                && final(self)@ == old(self)@,
            !old(self)@.is_committed(id) && !old(self)@.is_parked(id) ==> reply == Offered::ConnectionAck(id)
                && final(self)@.pending == old(self)@.pending.push((id, stream)) && final(self)@.committed == old(
                self,
            )@.committed,
            old(self)@.wf() ==> final(self)@.wf(),
    {
        if self.is_committed(id) {
            return Offered::ConnectionCommitAck(id);
        }
        if !self.is_parked(id) {
            let ghost before = self@;
            self.pending.push((id, stream));
            proof {
                if before.wf() {
                    assert forall|a: int, b: int| 0 <= a < b < self@.pending.len() implies (#[trigger] self@.pending[a]).0
                        != (#[trigger] self@.pending[b]).0 by {
                        if b == before.pending.len() {
                            assert(self@.pending[a] == before.pending[a]);
                        }
                    }
                }
            }
        }
        Offered::ConnectionAck(id)
    }

    /// Commits a parked handoff exactly once. A replayed commit of a served
    /// handoff is recognized by its tombstone and serves nothing again.
    pub fn commit(&mut self, id: HandoffId) -> (outcome: Commit<S>)
        ensures
            old(self)@.is_committed(id) ==> outcome is AlreadyCommitted && final(self)@ == old(self)@,
            !old(self)@.is_committed(id) && old(self)@.parked_index(id) is None ==> outcome is Unknown
                && final(self)@ == old(self)@,
            !old(self)@.is_committed(id) && old(self)@.parked_index(id) is Some ==> {
                let i = old(self)@.parked_index(id)->0;
                &&& outcome matches Commit::New(stream) && stream == old(self)@.pending[i].1
                &&& final(self)@.pending == old(self)@.pending.remove(i)
                &&& final(self)@.committed == old(self)@.committed.push(id)
            },
            final(self)@.is_committed(id) || outcome is Unknown,
            old(self)@.wf() ==> final(self)@.wf(),
            final(self)@ == old(self)@.after_commit(id),
            (outcome is New) == old(self)@.serves(id),
    {
        if self.is_committed(id) {
            return Commit::AlreadyCommitted;
        }
        match self.parked_index(id) {
            Some(i) => {
                let ghost before = self@;
                let (_, stream) = self.pending.remove(i);
                self.committed.push(id);
                proof {
                    lemma_first_match(before.pending, parked::<S>(id));
                    lemma_remove_parked(before.pending, i as int, id);
                    assert(self@.committed[self@.committed.len() - 1] == id);
                    if before.wf() {
                        assert forall|a: int, b: int| 0 <= a < b < self@.committed.len() implies self@.committed[a]
                            != self@.committed[b] by {
                            if b == before.committed.len() {
                                assert(!before.committed.contains(id));
                                assert(self@.committed[a] == before.committed[a]);
                            }
                        }
                    }
                }
                Commit::New(stream)
            },
            None => Commit::Unknown,
        }
    }
}

impl<S> Default for Handoffs<S> {
    fn default() -> (handoffs: Self)
        ensures
            handoffs@.pending.len() == 0,
            handoffs@.committed.len() == 0,
    {
        Handoffs::new()
    }
}

/// A handoff is served at most once: after its commit, a replayed commit of
/// the same id serves nothing and changes nothing.
pub proof fn law_commit_serves_once<S>(m: HandoffsModel<S>, id: HandoffId)
    ensures
        !m.after_commit(id).serves(id),
        m.after_commit(id).after_commit(id) == m.after_commit(id),
{
    if m.serves(id) {
        assert(m.after_commit(id).committed.last() == id);
        assert(m.after_commit(id).is_committed(id));
    }
}

proof fn lemma_remove_parked<S>(s: Seq<(HandoffId, S)>, i: int, id: HandoffId)
    requires
        0 <= i < s.len(),
        s[i].0 == id,
    ensures
        forall|other: HandoffId| other != id ==> (parked_in(s.remove(i), other) == parked_in(s, other)),
        parked_ids_distinct(s) ==> parked_ids_distinct(s.remove(i)) && !parked_in(s.remove(i), id),
{
    let after = s.remove(i);
    assert forall|other: HandoffId| other != id implies (parked_in(after, other) == parked_in(s, other)) by {
        if parked_in(s, other) {
            let j = choose|j: int| 0 <= j < s.len() && (#[trigger] s[j]).0 == other;
            let j2 = if j < i { j } else { j - 1 };
            assert(after[j2] == s[j]);
        }
        if parked_in(after, other) {
            let j = choose|j: int| 0 <= j < after.len() && (#[trigger] after[j]).0 == other;
            let j2 = if j < i { j } else { j + 1 };
            assert(after[j] == s[j2]);
        }
    }
    if parked_ids_distinct(s) {
        assert forall|a: int, b: int| 0 <= a < b < after.len() implies (#[trigger] after[a]).0
            != (#[trigger] after[b]).0 by {
            let a2 = if a < i { a } else { a + 1 };
            let b2 = if b < i { b } else { b + 1 };
            assert(after[a] == s[a2]);
            assert(after[b] == s[b2]);
        }
        if parked_in(after, id) {
            let j = choose|j: int| 0 <= j < after.len() && (#[trigger] after[j]).0 == id;
            let j2 = if j < i { j } else { j + 1 };
            assert(after[j] == s[j2]);
            assert(s[i].0 == id);
        }
    }
}

proof fn lemma_remove_committed(s: Seq<HandoffId>, k: int, id: HandoffId)
    requires
        0 <= k < s.len(),
        s[k] == id,
    ensures
        forall|other: HandoffId| other != id ==> (s.remove(k).contains(other) == s.contains(other)),
        ids_distinct(s) ==> ids_distinct(s.remove(k)) && !s.remove(k).contains(id),
{
    let after = s.remove(k);
    assert forall|other: HandoffId| other != id implies (after.contains(other) == s.contains(other)) by {
        if s.contains(other) {
            let j = choose|j: int| 0 <= j < s.len() && s[j] == other;
            let j2 = if j < k { j } else { j - 1 };
            assert(after[j2] == s[j]);
        }
        if after.contains(other) {
            let j = choose|j: int| 0 <= j < after.len() && after[j] == other;
            let j2 = if j < k { j } else { j + 1 };
            assert(after[j] == s[j2]);
        }
    }
    if ids_distinct(s) {
        assert forall|a: int, b: int| 0 <= a < b < after.len() implies after[a] != after[b] by {
            let a2 = if a < k { a } else { a + 1 };
            let b2 = if b < k { b } else { b + 1 };
            assert(after[a] == s[a2]);
            assert(after[b] == s[b2]);
        }
        if after.contains(id) {
            let j = choose|j: int| 0 <= j < after.len() && after[j] == id;
            let j2 = if j < k { j } else { j + 1 };
            assert(after[j] == s[j2]);
        }
    }
}

} // verus!
