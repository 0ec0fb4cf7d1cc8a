//! Bounded waits for worker acknowledgements during an activation.

use vstd::prelude::*;

use crate::model::GenerationId;
use crate::search::{
    first_match, keep, lemma_first_match, lemma_first_match_is, lemma_first_match_none, lemma_keep_all,
    lemma_keep_facts, lemma_keep_step,
};

verus! {

/// How long a worker has to acknowledge an activation step, in milliseconds.
pub const ACTIVATION_TIMEOUT_MS: u64 = 8000;

/// The acknowledgement a deployment step is waiting for.
#[derive(Clone, Copy, Debug, PartialEq, Eq, PartialOrd, Ord, Structural)]
pub enum WaitKey {
    WorkerReady(GenerationId),
    AdmissionsPaused(GenerationId),
    TargetAccepting(GenerationId),
    AdmissionsResumed(GenerationId),
}

pub open spec fn wait_generation(key: WaitKey) -> GenerationId {
    match key {
        WaitKey::WorkerReady(g) => g,
        WaitKey::AdmissionsPaused(g) => g,
        WaitKey::TargetAccepting(g) => g,
        WaitKey::AdmissionsResumed(g) => g,
    }
}

/// The position of a key in the order the waits are kept: by kind, then by generation.
pub open spec fn wait_rank(key: WaitKey) -> int {
    let kind = match key {
        WaitKey::WorkerReady(_) => 0int,
        WaitKey::AdmissionsPaused(_) => 1int,
        WaitKey::TargetAccepting(_) => 2int,
        WaitKey::AdmissionsResumed(_) => 3int,
    };
    kind * 0x1_0000_0000_0000_0000 + wait_generation(key).0 as int
}

fn kind_of(key: WaitKey) -> (kind: u8)
    ensures
        wait_rank(key) == kind as int * 0x1_0000_0000_0000_0000 + wait_generation(key).0 as int,
        kind < 4,
{
    match key {
        WaitKey::WorkerReady(_) => 0,
        WaitKey::AdmissionsPaused(_) => 1,
        WaitKey::TargetAccepting(_) => 2,
        WaitKey::AdmissionsResumed(_) => 3,
    }
}

fn generation_of(key: WaitKey) -> (generation: GenerationId)
    ensures
        generation == wait_generation(key),
{
    match key {
        WaitKey::WorkerReady(g) => g,
        WaitKey::AdmissionsPaused(g) => g,
        WaitKey::TargetAccepting(g) => g,
        WaitKey::AdmissionsResumed(g) => g,
    }
}

fn rank_at_least(key: WaitKey, bound: WaitKey) -> (at_least: bool)
    ensures
        at_least == (wait_rank(key) >= wait_rank(bound)),
{
    let (a, b) = (kind_of(key), kind_of(bound));
    a > b || (a == b && generation_of(key).get() >= generation_of(bound).get())
}

pub open spec fn with_key(key: WaitKey) -> spec_fn((WaitKey, u64)) -> bool {
    |w: (WaitKey, u64)| w.0 == key
}

pub open spec fn rank_not_below(key: WaitKey) -> spec_fn((WaitKey, u64)) -> bool {
    |w: (WaitKey, u64)| wait_rank(w.0) >= wait_rank(key)
}

/// A wait armed at `armed` has run out at `now`; a clock reading before
/// `armed` counts as no time elapsed.
pub open spec fn expired_at(armed: u64, now: u64) -> bool {
    now >= armed && now - armed >= ACTIVATION_TIMEOUT_MS
}

pub open spec fn expired(now: u64) -> spec_fn((WaitKey, u64)) -> bool {
    |w: (WaitKey, u64)| expired_at(w.1, now)
}

pub open spec fn pending_at(now: u64) -> spec_fn((WaitKey, u64)) -> bool {
    |w: (WaitKey, u64)| !expired_at(w.1, now)
}

pub open spec fn not_key(key: WaitKey) -> spec_fn((WaitKey, u64)) -> bool {
    |w: (WaitKey, u64)| w.0 != key
}

pub open spec fn not_generation(generation: GenerationId) -> spec_fn((WaitKey, u64)) -> bool {
    |w: (WaitKey, u64)| wait_generation(w.0) != generation
}

/// Inserts a wait keeping the order by key.
pub open spec fn insert_wait(waits: Seq<(WaitKey, u64)>, wait: (WaitKey, u64)) -> Seq<(WaitKey, u64)> {
    match first_match(waits, rank_not_below(wait.0)) {
        Some(i) => waits.insert(i, wait),
        None => waits.push(wait),
    }
}

/// Some wait for `key` is armed in `waits`.
pub open spec fn armed_in(waits: Seq<(WaitKey, u64)>, key: WaitKey) -> bool {
    exists|i: int| 0 <= i < waits.len() && (#[trigger] waits[i]).0 == key
}

/// The waits once `key` is armed at `now`; an armed wait keeps its time.
pub open spec fn arm_at(waits: Seq<(WaitKey, u64)>, key: WaitKey, now: u64) -> Seq<(WaitKey, u64)> {
    if armed_in(waits, key) {
        waits
    } else {
        insert_wait(waits, (key, now))
    }
}

/// The waits once a ready wait is armed at `now` for each of `generations`, in order.
pub open spec fn ready_waits_armed(waits: Seq<(WaitKey, u64)>, generations: Seq<GenerationId>, now: u64) -> Seq<
    (WaitKey, u64),
>
    decreases generations.len(),
{
    if generations.len() == 0 {
        waits
    } else {
        arm_at(ready_waits_armed(waits, generations.drop_last(), now), WaitKey::WorkerReady(generations.last()), now)
    }
}

/// The acknowledgement waits that are armed, each with the time it was armed.
pub struct DeploymentWait {
    waits: Vec<(WaitKey, u64)>,
}

impl View for DeploymentWait {
    type V = Seq<(WaitKey, u64)>;

    closed spec fn view(&self) -> Seq<(WaitKey, u64)> {
        self.waits@
    }
}

impl DeploymentWait {
    pub open spec fn armed(self, key: WaitKey) -> bool {
        exists|i: int| 0 <= i < self@.len() && (#[trigger] self@[i]).0 == key
    }

    pub fn new() -> (wait: Self)
        ensures
            wait@ == Seq::<(WaitKey, u64)>::empty(),
    {
        DeploymentWait { waits: Vec::new() }
    }

    fn position(&self, key: WaitKey) -> (position: Option<usize>)
        ensures
            match position {
                Some(i) => first_match(self@, with_key(key)) == Some(i as int) && i < self@.len(),
                None => first_match(self@, with_key(key)) is None,
            },
    {
        let mut i: usize = 0;
        while i < self.waits.len()
            invariant
                i <= self@.len(),
                forall|j: int| 0 <= j < i ==> !with_key(key)(#[trigger] self@[j]),
            decreases self@.len() - i,
        {
            if self.waits[i].0 == key {
                proof {
                    lemma_first_match_is(self@, with_key(key), i as int);
                }
                return Some(i);
            }
            i = i + 1;
        }
        proof {
            lemma_first_match_none(self@, with_key(key));
        }
        None
    }

    /// Starts the wait for `key` at `now` unless it is already armed; an armed
    /// wait keeps the time it was first armed.
    pub fn arm(&mut self, key: WaitKey, now: u64)
        ensures
            old(self).armed(key) ==> final(self)@ == old(self)@,
            !old(self).armed(key) ==> final(self)@ == insert_wait(old(self)@, (key, now)),
    {
        proof {
            lemma_first_match(self@, with_key(key));
        }
        if self.position(key).is_some() {
            return;
        }
        match self.insert_position(key) {
            Some(i) => self.waits.insert(i, (key, now)),
            None => self.waits.push((key, now)),
        }
    }

    fn insert_position(&self, key: WaitKey) -> (position: Option<usize>)
        ensures
            match position {
                Some(i) => first_match(self@, rank_not_below(key)) == Some(i as int) && i < self@.len(),
                None => first_match(self@, rank_not_below(key)) is None,
            },
    {
        let mut i: usize = 0;
        while i < self.waits.len()
            invariant
                i <= self@.len(),
                forall|j: int| 0 <= j < i ==> !rank_not_below(key)(#[trigger] self@[j]),
            decreases self@.len() - i,
        {
            if rank_at_least(self.waits[i].0, key) {
                proof {
                    lemma_first_match_is(self@, rank_not_below(key), i as int);
                }
                return Some(i);
            }
            i = i + 1;
        }
        proof {
            lemma_first_match_none(self@, rank_not_below(key));
        }
        None
    }

    pub fn is_armed(&self, key: WaitKey) -> (armed: bool)
        ensures
            armed == self.armed(key),
    {
        proof {
            lemma_first_match(self@, with_key(key));
        }
        let found = self.position(key);
        proof {
            if let Some(i) = found {
                assert(self@[i as int].0 == key);
            }
        }
        found.is_some()
    }

    /// Drops every wait matching `p`, keeping the others in order.
    fn retain_where(&mut self, Ghost(p): Ghost<spec_fn((WaitKey, u64)) -> bool>, drop_key: Option<WaitKey>, drop_generation: Option<GenerationId>)
        requires
            forall|w: (WaitKey, u64)| #[trigger] p(w) == ((drop_key is None || w.0 != drop_key->0) && (
                drop_generation is None || wait_generation(w.0) != drop_generation->0)),
        ensures
            final(self)@ == keep(old(self)@, p),
    {
        let ghost before = self@;
        let mut kept: Vec<(WaitKey, u64)> = Vec::new();
        let mut i: usize = 0;
        while i < self.waits.len()
            invariant
                self@ == before,
                i <= before.len(),
                kept@ == keep(before.take(i as int), p),
                forall|w: (WaitKey, u64)| #[trigger] p(w) == ((drop_key is None || w.0 != drop_key->0) && (
                    drop_generation is None || wait_generation(w.0) != drop_generation->0)),
            decreases before.len() - i,
        {
            let wait = self.waits[i];
            let dropped = match drop_key {
                Some(key) => wait.0 == key,
                None => false,
            } || match drop_generation {
                Some(generation) => generation_of(wait.0) == generation,
                None => false,
            };
            proof {
                lemma_keep_step(before, p, i as int);
            }
            if !dropped {
                kept.push(wait);
            }
            i = i + 1;
        }
        proof {
            lemma_keep_all(before, p);
        }
        self.waits = kept;
    }

    /// The acknowledgement arrived; its wait is dropped.
    pub fn acknowledge(&mut self, key: WaitKey)
        ensures
            final(self)@ == keep(old(self)@, not_key(key)),
    {
        self.retain_where(Ghost(not_key(key)), Some(key), None);
    }

    /// A generation's worker went away; every wait about it is dropped.
    pub fn clear_generation(&mut self, generation: GenerationId)
        ensures
            final(self)@ == keep(old(self)@, not_generation(generation)),
    {
        self.retain_where(Ghost(not_generation(generation)), None, Some(generation));
    }

    /// Removes and returns, in key order, every wait that ran out by `now`.
    pub fn take_expired(&mut self, now: u64) -> (expired_keys: Vec<WaitKey>)
        ensures
            expired_keys@ == keep(old(self)@, expired(now)).map_values(|w: (WaitKey, u64)| w.0),
            final(self)@ == keep(old(self)@, pending_at(now)),
    {
        let ghost before = self@;
        let mut kept: Vec<(WaitKey, u64)> = Vec::new();
        let mut taken: Vec<WaitKey> = Vec::new();
        let mut i: usize = 0;
        while i < self.waits.len()
            invariant
                self@ == before,
                i <= before.len(),
                kept@ == keep(before.take(i as int), pending_at(now)),
                taken@ == keep(before.take(i as int), expired(now)).map_values(|w: (WaitKey, u64)| w.0),
            decreases before.len() - i,
        {
            let wait = self.waits[i];
            proof {
                lemma_keep_step(before, pending_at(now), i as int);
                lemma_keep_step(before, expired(now), i as int);
            }
            if now >= wait.1 && now - wait.1 >= ACTIVATION_TIMEOUT_MS {
                taken.push(wait.0);
                proof {
                    assert(taken@ =~= keep(before.take(i + 1), expired(now)).map_values(
                        |w: (WaitKey, u64)| w.0,
                    ));
                }
            } else {
                kept.push(wait);
            }
            i = i + 1;
        }
        proof {
            lemma_keep_all(before, pending_at(now));
            lemma_keep_all(before, expired(now));
        }
        self.waits = kept;
        taken
    }
}

impl Default for DeploymentWait {
    fn default() -> (wait: Self)
        ensures
            wait@ == Seq::<(WaitKey, u64)>::empty(),
    {
        DeploymentWait::new()
    }
}

/// Arming a key leaves it armed and keeps every key that was armed.
pub proof fn lemma_arm_keeps(before: DeploymentWait, after: DeploymentWait, key: WaitKey, now: u64)
    requires
        before.armed(key) ==> after@ == before@,
        !before.armed(key) ==> after@ == insert_wait(before@, (key, now)),
    ensures
        after.armed(key),
        forall|other: WaitKey| #[trigger] before.armed(other) ==> after.armed(other),
{
    if !before.armed(key) {
        let w = before@;
        lemma_first_match(w, rank_not_below(key));
        match first_match(w, rank_not_below(key)) {
            Some(i) => {
                assert(after@[i] == (key, now));
                assert forall|other: WaitKey| #[trigger] before.armed(other) implies after.armed(other) by {
                    let j = choose|j: int| 0 <= j < w.len() && (#[trigger] w[j]).0 == other;
                    if j < i {
                        assert(after@[j] == w[j]);
                    } else {
                        assert(after@[j + 1] == w[j]);
                    }
                }
            },
            None => {
                assert(after@[w.len() as int] == (key, now));
                assert forall|other: WaitKey| #[trigger] before.armed(other) implies after.armed(other) by {
                    let j = choose|j: int| 0 <= j < w.len() && (#[trigger] w[j]).0 == other;
                    assert(after@[j] == w[j]);
                }
            },
        }
    }
}

/// Every acknowledgement wait is bounded: a wait armed at `armed_at` is
/// reported expired at `now` exactly when the activation timeout has passed.
pub proof fn law_wait_is_bounded(waits: Seq<(WaitKey, u64)>, key: WaitKey, armed_at: u64, now: u64)
    requires
        forall|i: int| 0 <= i < waits.len() ==> (#[trigger] waits[i]).0 != key,
    ensures
        keep(insert_wait(waits, (key, armed_at)), expired(now)).map_values(|w: (WaitKey, u64)| w.0).contains(key)
            <==> expired_at(armed_at, now),
{
    let inserted = insert_wait(waits, (key, armed_at));
    lemma_first_match(waits, rank_not_below(key));
    let at: int = match first_match(waits, rank_not_below(key)) {
        Some(i) => i,
        None => waits.len() as int,
    };
    assert(inserted[at] == (key, armed_at));
    assert forall|j: int| 0 <= j < inserted.len() && j != at implies (#[trigger] inserted[j]).0 != key by {
        if j < at {
            assert(inserted[j] == waits[j]);
        } else {
            assert(inserted[j] == waits[j - 1]);
        }
    }
    let kept = keep(inserted, expired(now));
    lemma_keep_facts(inserted, expired(now));
    let keys = kept.map_values(|w: (WaitKey, u64)| w.0);
    if expired_at(armed_at, now) {
        assert(kept.contains(inserted[at]));
        let k = choose|k: int| 0 <= k < kept.len() && kept[k] == inserted[at];
        assert(keys[k] == key);
    }
    if keys.contains(key) {
        let k = choose|k: int| 0 <= k < keys.len() && keys[k] == key;
        assert(kept.contains(kept[k]));
        assert(inserted.contains(kept[k]));
        let j = choose|j: int| 0 <= j < inserted.len() && inserted[j] == kept[k];
        assert(j == at);
        assert(expired(now)(kept[k]));
    }
}

} // verus!
