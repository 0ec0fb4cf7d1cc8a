//! The plain form in which a deployment state is written to and read from disk.

use vstd::prelude::*;

use super::spec::{opt_index, with_nonce, Entry};
use super::{Activation, DeploymentModel, DeploymentState, Generation, RetryReceipt};
use crate::identifiers::RetryId;
use crate::model::GenerationId;
use crate::search::{
    first_match, lemma_first_match, lemma_first_match_is, lemma_first_match_none,
};

verus! {

/// The persisted fields of a deployment state: generations keyed by id and
/// retry receipts keyed by nonce, each as a list of pairs.
pub struct PersistedState {
    pub version: u8,
    pub next_generation: u64,
    pub generations: Vec<(GenerationId, Generation)>,
    pub activation: Option<Activation>,
    pub last_rollback: Option<GenerationId>,
    pub retry_receipts: Vec<(RetryId, RetryReceipt)>,
}

pub open spec fn key_not_below(id: GenerationId) -> spec_fn(Entry) -> bool {
    |e: Entry| e.0.0 >= id.0
}

/// Inserts into generations ordered by id; an entry with the same id is replaced.
pub open spec fn insert_by_id(generations: Seq<Entry>, entry: Entry) -> Seq<Entry> {
    match first_match(generations, key_not_below(entry.0)) {
        Some(i) => if generations[i].0 == entry.0 {
            generations.update(i, entry)
        } else {
            generations.insert(i, entry)
        },
        None => generations.push(entry),
    }
}

/// The map that inserting `entries` in order builds: ordered by id, later entries winning.
pub open spec fn entries_by_id(entries: Seq<Entry>) -> Seq<Entry>
    decreases entries.len(),
{
    if entries.len() == 0 {
        Seq::empty()
    } else {
        insert_by_id(entries_by_id(entries.drop_last()), entries.last())
    }
}

pub open spec fn insert_by_nonce(
    receipts: Seq<(RetryId, RetryReceipt)>,
    receipt: (RetryId, RetryReceipt),
) -> Seq<(RetryId, RetryReceipt)> {
    match first_match(receipts, with_nonce(receipt.0@)) {
        Some(k) => receipts.update(k, receipt),
        None => receipts.push(receipt),
    }
}

/// Receipts keyed by nonce text, later entries winning.
pub open spec fn receipts_by_nonce(receipts: Seq<(RetryId, RetryReceipt)>) -> Seq<(RetryId, RetryReceipt)>
    decreases receipts.len(),
{
    if receipts.len() == 0 {
        Seq::empty()
    } else {
        insert_by_nonce(receipts_by_nonce(receipts.drop_last()), receipts.last())
    }
}

pub open spec fn ids_increasing(generations: Seq<Entry>) -> bool {
    forall|i: int, j: int|
        0 <= i < j < generations.len() ==> (#[trigger] generations[i]).0.0 < (#[trigger] generations[j]).0.0
}

pub open spec fn nonces_distinct(receipts: Seq<(RetryId, RetryReceipt)>) -> bool {
    forall|i: int, j: int|
        0 <= i < j < receipts.len() ==> (#[trigger] receipts[i]).0@ != (#[trigger] receipts[j]).0@
}

pub proof fn lemma_insert_by_id_increasing(generations: Seq<Entry>, entry: Entry)
    requires
        ids_increasing(generations),
    ensures
        ids_increasing(insert_by_id(generations, entry)),
{
    lemma_first_match(generations, key_not_below(entry.0));
    let result = insert_by_id(generations, entry);
    match first_match(generations, key_not_below(entry.0)) {
        Some(i) => {
            if generations[i].0 != entry.0 {
                assert forall|a: int, b: int| 0 <= a < b < result.len() implies (#[trigger] result[a]).0.0
                    < (#[trigger] result[b]).0.0 by {
                    if a < i && b == i {
                        assert(!key_not_below(entry.0)(generations[a]));
                    } else if a == i {
                        assert(generations[b - 1].0.0 >= generations[i].0.0);
                    }
                }
            } else {
                assert forall|a: int, b: int| 0 <= a < b < result.len() implies (#[trigger] result[a]).0.0
                    < (#[trigger] result[b]).0.0 by {
                    if b == i {
                        assert(generations[a].0.0 < generations[i].0.0);
                    } else if a == i {
                        assert(generations[i].0.0 < generations[b].0.0);
                    }
                }
            }
        },
        None => {
            assert forall|a: int, b: int| 0 <= a < b < result.len() implies (#[trigger] result[a]).0.0
                < (#[trigger] result[b]).0.0 by {
                if b == generations.len() {
                    assert(!key_not_below(entry.0)(generations[a]));
                }
            }
        },
    }
}

pub proof fn lemma_entries_by_id_increasing(entries: Seq<Entry>)
    ensures
        ids_increasing(entries_by_id(entries)),
    decreases entries.len(),
{
    if entries.len() > 0 {
        lemma_entries_by_id_increasing(entries.drop_last());
        lemma_insert_by_id_increasing(entries_by_id(entries.drop_last()), entries.last());
    }
}

/// Generations already ordered by id come back unchanged.
pub proof fn lemma_entries_by_id_identity(generations: Seq<Entry>)
    requires
        ids_increasing(generations),
    ensures
        entries_by_id(generations) == generations,
    decreases generations.len(),
{
    if generations.len() > 0 {
        let init = generations.drop_last();
        assert(ids_increasing(init));
        lemma_entries_by_id_identity(init);
        let last = generations.last();
        assert forall|j: int| 0 <= j < init.len() implies !key_not_below(last.0)(#[trigger] init[j]) by {
            assert(generations[j].0.0 < generations[generations.len() - 1].0.0);
        }
        lemma_first_match_none(init, key_not_below(last.0));
        assert(init.push(last) =~= generations);
    }
}

pub proof fn lemma_insert_by_nonce_distinct(receipts: Seq<(RetryId, RetryReceipt)>, receipt: (RetryId, RetryReceipt))
    requires
        nonces_distinct(receipts),
    ensures
        nonces_distinct(insert_by_nonce(receipts, receipt)),
{
    lemma_first_match(receipts, with_nonce(receipt.0@));
    let result = insert_by_nonce(receipts, receipt);
    assert forall|a: int, b: int| 0 <= a < b < result.len() implies (#[trigger] result[a]).0@
        != (#[trigger] result[b]).0@ by {
        match first_match(receipts, with_nonce(receipt.0@)) {
            Some(k) => {
                if a == k {
                    assert(receipts[k].0@ != receipts[b].0@);
                } else if b == k {
                    assert(receipts[a].0@ != receipts[k].0@);
                }
            },
            None => {
                if b == receipts.len() {
                    assert(!with_nonce(receipt.0@)(receipts[a]));
                }
            },
        }
    }
}

pub proof fn lemma_receipts_by_nonce_distinct(receipts: Seq<(RetryId, RetryReceipt)>)
    ensures
        nonces_distinct(receipts_by_nonce(receipts)),
    decreases receipts.len(),
{
    if receipts.len() > 0 {
        lemma_receipts_by_nonce_distinct(receipts.drop_last());
        lemma_insert_by_nonce_distinct(receipts_by_nonce(receipts.drop_last()), receipts.last());
    }
}

/// Receipts with distinct nonces come back unchanged.
pub proof fn lemma_receipts_by_nonce_identity(receipts: Seq<(RetryId, RetryReceipt)>)
    requires
        nonces_distinct(receipts),
    ensures
        receipts_by_nonce(receipts) == receipts,
    decreases receipts.len(),
{
    if receipts.len() > 0 {
        let init = receipts.drop_last();
        lemma_receipts_by_nonce_identity(init);
        let last = receipts.last();
        assert forall|j: int| 0 <= j < init.len() implies !with_nonce(last.0@)(#[trigger] init[j]) by {
            assert(receipts[j].0@ != receipts[receipts.len() - 1].0@);
        }
        lemma_first_match_none(init, with_nonce(last.0@));
        assert(init.push(last) =~= receipts);
    }
}

fn position_for(generations: &Vec<(GenerationId, Generation)>, id: GenerationId) -> (position: Option<usize>)
    ensures
        opt_index(position) == first_match(generations@, key_not_below(id)),
        position matches Some(i) ==> i < generations@.len(),
{
    let mut i: usize = 0;
    while i < generations.len()
        invariant
            i <= generations@.len(),
            forall|j: int| 0 <= j < i ==> !key_not_below(id)(#[trigger] generations@[j]),
        decreases generations@.len() - i,
    {
        if generations[i].0.get() >= id.get() {
            proof {
                lemma_first_match_is(generations@, key_not_below(id), i as int);
            }
            return Some(i);
        }
        i = i + 1;
    }
    proof {
        lemma_first_match_none(generations@, key_not_below(id));
    }
    None
}

fn insert_generation(generations: &mut Vec<(GenerationId, Generation)>, entry: (GenerationId, Generation))
    ensures
        final(generations)@ == insert_by_id(old(generations)@, entry),
{
    match position_for(generations, entry.0) {
        Some(i) => if generations[i].0 == entry.0 {
            generations.set(i, entry);
        } else {
            generations.insert(i, entry);
        },
        None => generations.push(entry),
    }
}

fn nonce_position(receipts: &Vec<(RetryId, RetryReceipt)>, id: &RetryId) -> (position: Option<usize>)
    ensures
        opt_index(position) == first_match(receipts@, with_nonce(id@)),
        position matches Some(k) ==> k < receipts@.len(),
{
    let mut k: usize = 0;
    while k < receipts.len()
        invariant
            k <= receipts@.len(),
            forall|j: int| 0 <= j < k ==> !with_nonce(id@)(#[trigger] receipts@[j]),
        decreases receipts@.len() - k,
    {
        if receipts[k].0.same_as(id) {
            proof {
                lemma_first_match_is(receipts@, with_nonce(id@), k as int);
            }
            return Some(k);
        }
        k = k + 1;
    }
    proof {
        lemma_first_match_none(receipts@, with_nonce(id@));
    }
    None
}

fn insert_receipt(receipts: &mut Vec<(RetryId, RetryReceipt)>, receipt: (RetryId, RetryReceipt))
    ensures
        final(receipts)@ == insert_by_nonce(old(receipts)@, receipt),
{
    match nonce_position(receipts, &receipt.0) {
        Some(k) => receipts.set(k, receipt),
        None => receipts.push(receipt),
    }
}

impl DeploymentState {
    /// Rebuilds a state from its persisted fields, ordering generations by id
    /// and receipts by nonce as the persisted maps do. It is not validated:
    /// every planner operation validates first.
    pub fn from_persisted(persisted: PersistedState) -> (state: Self)
        ensures
            state@ == (DeploymentModel {
                version: persisted.version,
                next_generation: persisted.next_generation,
                generations: entries_by_id(persisted.generations@),
                activation: persisted.activation,
                last_rollback: persisted.last_rollback,
                retry_receipts: receipts_by_nonce(persisted.retry_receipts@),
            }),
            state@.wf(),
    {
        let mut generations: Vec<(GenerationId, Generation)> = Vec::new();
        let mut i: usize = 0;
        while i < persisted.generations.len()
            invariant
                i <= persisted.generations@.len(),
                generations@ == entries_by_id(persisted.generations@.take(i as int)),
            decreases persisted.generations@.len() - i,
        {
            let (id, generation) = &persisted.generations[i];
            proof {
                assert(persisted.generations@.take(i + 1).drop_last() =~= persisted.generations@.take(i as int));
            }
            insert_generation(&mut generations, (*id, generation.clone()));
            i = i + 1;
        }
        let mut retry_receipts: Vec<(RetryId, RetryReceipt)> = Vec::new();
        let mut k: usize = 0;
        while k < persisted.retry_receipts.len()
            invariant
                k <= persisted.retry_receipts@.len(),
                retry_receipts@ == receipts_by_nonce(persisted.retry_receipts@.take(k as int)),
            decreases persisted.retry_receipts@.len() - k,
        {
            let (id, receipt) = &persisted.retry_receipts[k];
            proof {
                assert(persisted.retry_receipts@.take(k + 1).drop_last() =~= persisted.retry_receipts@.take(
                    k as int,
                ));
            }
            insert_receipt(&mut retry_receipts, (id.clone(), receipt.clone()));
            k = k + 1;
        }
        proof {
            assert(persisted.generations@.take(i as int) =~= persisted.generations@);
            assert(persisted.retry_receipts@.take(k as int) =~= persisted.retry_receipts@);
            lemma_entries_by_id_increasing(persisted.generations@);
            lemma_receipts_by_nonce_distinct(persisted.retry_receipts@);
        }
        let state = DeploymentState {
            version: persisted.version,
            next_generation: persisted.next_generation,
            generations,
            activation: persisted.activation,
            last_rollback: persisted.last_rollback,
            retry_receipts,
        };
        state
    }

    /// The persisted fields of this state.
    pub fn to_persisted(&self) -> (persisted: PersistedState)
        ensures
            persisted.version == self@.version,
            persisted.next_generation == self@.next_generation,
            persisted.generations@ == self@.generations,
            persisted.activation == self@.activation,
            persisted.last_rollback == self@.last_rollback,
            persisted.retry_receipts@ == self@.retry_receipts,
    {
        let copy = self.duplicate();
        PersistedState {
            version: copy.version,
            next_generation: copy.next_generation,
            generations: copy.generations,
            activation: copy.activation,
            last_rollback: copy.last_rollback,
            retry_receipts: copy.retry_receipts,
        }
    }
}

} // verus!
