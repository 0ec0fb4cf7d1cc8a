//! Searches over the ordered generations.

use vstd::prelude::*;

use super::spec::{active_with_build, drained, opt_index, with_build, with_id, with_status};
use super::{Activation, DeploymentState, Generation};
use crate::identifiers::BuildId;
use crate::model::{GenerationId, GenerationStatus};
use crate::search::{
    first_match, last_match, lemma_first_match, lemma_first_match_is, lemma_first_match_none,
    lemma_last_match_is, lemma_last_match_none,
};

verus! {

impl DeploymentState {
    pub(crate) fn index_of(&self, id: GenerationId) -> (index: Option<usize>)
        ensures
            opt_index(index) == self@.index_of(id),
            index matches Some(i) ==> i < self@.generations.len(),
    {
        let ghost s = self@.generations;
        let mut i: usize = 0;
        while i < self.generations.len()
            invariant
                s == self@.generations,
                i <= s.len(),
                forall|j: int| 0 <= j < i ==> !with_id(id)(#[trigger] s[j]),
            decreases s.len() - i,
        {
            if self.generations[i].0 == id {
                proof {
                    lemma_first_match_is(s, with_id(id), i as int);
                }
                return Some(i);
            }
            i = i + 1;
        }
        proof {
            lemma_first_match_none(s, with_id(id));
        }
        None
    }

    pub(crate) fn generation(&self, id: GenerationId) -> (found: Option<&Generation>)
        ensures
            match found {
                Some(generation) => self@.lookup(id) == Some(*generation),
                None => self@.lookup(id) is None,
            },
    {
        match self.index_of(id) {
            Some(i) => Some(&self.generations[i].1),
            None => None,
        }
    }

    pub(crate) fn status_of(&self, id: GenerationId) -> (status: Option<GenerationStatus>)
        ensures
            status == self@.status_of(id),
    {
        match self.generation(id) {
            Some(generation) => Some(generation.status),
            None => None,
        }
    }

    pub(crate) fn first_with_status(&self, status: GenerationStatus) -> (index: Option<usize>)
        ensures
            opt_index(index) == first_match(self@.generations, with_status(status)),
            index matches Some(i) ==> i < self@.generations.len(),
    {
        let ghost s = self@.generations;
        let mut i: usize = 0;
        while i < self.generations.len()
            invariant
                s == self@.generations,
                i <= s.len(),
                forall|j: int| 0 <= j < i ==> !with_status(status)(#[trigger] s[j]),
            decreases s.len() - i,
        {
            if self.generations[i].1.status == status {
                proof {
                    lemma_first_match_is(s, with_status(status), i as int);
                }
                return Some(i);
            }
            i = i + 1;
        }
        proof {
            lemma_first_match_none(s, with_status(status));
        }
        None
    }

    pub(crate) fn first_drained(&self) -> (index: Option<usize>)
        ensures
            opt_index(index) == first_match(self@.generations, drained()),
            index matches Some(i) ==> i < self@.generations.len(),
    {
        let ghost s = self@.generations;
        let mut i: usize = 0;
        while i < self.generations.len()
            invariant
                s == self@.generations,
                i <= s.len(),
                forall|j: int| 0 <= j < i ==> !drained()(#[trigger] s[j]),
            decreases s.len() - i,
        {
            let generation = &self.generations[i].1;
            if generation.status == GenerationStatus::Draining && generation.active_connections == Some(0u64) {
                proof {
                    lemma_first_match_is(s, drained(), i as int);
                }
                return Some(i);
            }
            i = i + 1;
        }
        proof {
            lemma_first_match_none(s, drained());
        }
        None
    }

    pub(crate) fn first_active_with_build(&self, build: &BuildId) -> (index: Option<usize>)
        ensures
            opt_index(index) == first_match(self@.generations, active_with_build(build@)),
            index matches Some(i) ==> i < self@.generations.len(),
    {
        let ghost s = self@.generations;
        let mut i: usize = 0;
        while i < self.generations.len()
            invariant
                s == self@.generations,
                i <= s.len(),
                forall|j: int| 0 <= j < i ==> !active_with_build(build@)(#[trigger] s[j]),
            decreases s.len() - i,
        {
            let generation = &self.generations[i].1;
            if generation.build.same_as(build) && generation.status == GenerationStatus::Active {
                proof {
                    lemma_first_match_is(s, active_with_build(build@), i as int);
                }
                return Some(i);
            }
            i = i + 1;
        }
        proof {
            lemma_first_match_none(s, active_with_build(build@));
        }
        None
    }

    pub(crate) fn last_with_build(&self, build: &BuildId) -> (index: Option<usize>)
        ensures
            opt_index(index) == last_match(self@.generations, with_build(build@)),
            index matches Some(i) ==> i < self@.generations.len(),
    {
        let ghost s = self@.generations;
        let mut found: Option<usize> = None;
        let mut i: usize = 0;
        while i < self.generations.len()
            invariant
                s == self@.generations,
                i <= s.len(),
                match found {
                    Some(k) => k < i && with_build(build@)(s[k as int]) && forall|j: int|
                        k < j < i ==> !with_build(build@)(#[trigger] s[j]),
                    None => forall|j: int| 0 <= j < i ==> !with_build(build@)(#[trigger] s[j]),
                },
            decreases s.len() - i,
        {
            if self.generations[i].1.build.same_as(build) {
                found = Some(i);
            }
            i = i + 1;
        }
        proof {
            match found {
                Some(k) => lemma_last_match_is(s, with_build(build@), k as int),
                None => lemma_last_match_none(s, with_build(build@)),
            }
        }
        found
    }

    pub(crate) fn last_with_status(&self, status: GenerationStatus) -> (index: Option<usize>)
        ensures
            opt_index(index) == last_match(self@.generations, with_status(status)),
            index matches Some(i) ==> i < self@.generations.len(),
    {
        let ghost s = self@.generations;
        let mut found: Option<usize> = None;
        let mut i: usize = 0;
        while i < self.generations.len()
            invariant
                s == self@.generations,
                i <= s.len(),
                match found {
                    Some(k) => k < i && with_status(status)(s[k as int]) && forall|j: int|
                        k < j < i ==> !with_status(status)(#[trigger] s[j]),
                    None => forall|j: int| 0 <= j < i ==> !with_status(status)(#[trigger] s[j]),
                },
            decreases s.len() - i,
        {
            if self.generations[i].1.status == status {
                found = Some(i);
            }
            i = i + 1;
        }
        proof {
            match found {
                Some(k) => lemma_last_match_is(s, with_status(status), k as int),
                None => lemma_last_match_none(s, with_status(status)),
            }
        }
        found
    }

    pub(crate) fn previous_draining(&self, activation: &Activation) -> (draining: bool)
        ensures
            draining == self@.previous_draining(*activation),
    {
        match activation.previous {
            Some(previous) => self.status_of(previous) == Some(GenerationStatus::Draining),
            None => false,
        }
    }

    pub(crate) fn active_generation(&self) -> (active: Option<GenerationId>)
        ensures
            active == self@.active_generation(),
    {
        match self.first_with_status(GenerationStatus::Active) {
            Some(i) => Some(self.generations[i].0),
            None => None,
        }
    }

    pub(crate) fn has_status(&self, status: GenerationStatus) -> (found: bool)
        ensures
            found == self@.has_status(status),
    {
        proof {
            lemma_first_match(self@.generations, with_status(status));
        }
        let found = self.first_with_status(status).is_some();
        proof {
            if found {
                let i = first_match(self@.generations, with_status(status))->0;
                assert(self@.generations[i].1.status == status);
            }
        }
        found
    }
}

} // verus!
