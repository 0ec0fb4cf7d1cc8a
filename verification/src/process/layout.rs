//! How generation directories are named on disk.

use vstd::prelude::*;

use crate::text::{chars_of, parse_decimal, parse_u64};

verus! {

/// The highest generation among directory names that are decimal numbers,
/// or 0 when none is.
pub open spec fn highest_generation_of(names: Seq<Seq<char>>) -> u64
    decreases names.len(),
{
    if names.len() == 0 {
        0
    } else {
        let rest = highest_generation_of(names.drop_last());
        match parse_u64(names.last()) {
            Some(value) => if value > rest {
                value
            } else {
                rest
            },
            None => rest,
        }
    }
}

/// The highest generation is the largest number among the names that are
/// decimal numbers: no such name exceeds it, and unless none is a number,
/// one of them equals it; with no number among them it is 0.
pub proof fn law_highest_generation_is_maximum(names: Seq<Seq<char>>)
    ensures
        forall|k: int|
            0 <= k < names.len() && #[trigger] parse_u64(names[k]) is Some ==> parse_u64(names[k])->0
                <= highest_generation_of(names),
        (exists|k: int| 0 <= k < names.len() && #[trigger] parse_u64(names[k]) == Some(highest_generation_of(names)))
            || (highest_generation_of(names) == 0 && forall|k: int|
            0 <= k < names.len() ==> #[trigger] parse_u64(names[k]) is None),
    decreases names.len(),
{
    if names.len() > 0 {
        let init = names.drop_last();
        law_highest_generation_is_maximum(init);
        assert forall|k: int| 0 <= k < init.len() implies init[k] == names[k] by {}
        let last = names.len() - 1;
        assert(names[last] == names.last());
        if exists|k: int| 0 <= k < init.len() && #[trigger] parse_u64(init[k]) == Some(highest_generation_of(init)) {
            let k = choose|k: int| 0 <= k < init.len() && #[trigger] parse_u64(init[k]) == Some(highest_generation_of(init));
            assert(names[k] == init[k]);
        }
    }
}

pub open spec fn texts(names: Seq<String>) -> Seq<Seq<char>> {
    names.map_values(|name: String| name@)
}

/// The highest generation named among the entries of the generations
/// directory; new generation ids are reserved past it.
pub fn highest_generation(names: &[String]) -> (highest: u64)
    ensures
        highest == highest_generation_of(texts(names@)),
{
    let mut highest: u64 = 0;
    for i in 0..names.len()
        invariant
            highest == highest_generation_of(texts(names@.take(i as int))),
    {
        proof {
            assert(texts(names@.take(i + 1)).drop_last() =~= texts(names@.take(i as int)));
            assert(texts(names@.take(i + 1)).last() == names@[i as int]@);
        }
        let chars = chars_of(names[i].as_str());
        match parse_decimal(chars.as_slice()) {
            Some(value) => if value > highest {
                highest = value;
            },
            None => {},
        }
    }
    proof {
        assert(names@.take(names@.len() as int) =~= names@);
    }
    highest
}

} // verus!
