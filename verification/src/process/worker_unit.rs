//! The worker units' liveness, as the service manager lists them.
//!
//! Each worker generation runs as an instance of a templated user unit. The
//! listing has one row per unit: its name, load state and active state,
//! separated by whitespace, then more columns this reader ignores.

use vstd::prelude::*;

use crate::assoc::{keys_distinct, lemma_map_of_dom, lemma_map_of_insert, lemma_map_of_update, map_of};
use crate::identifiers::blank;
use crate::model::GenerationId;
use crate::text::{
    chars_of, decimal_text, is_blank_chars, is_digit, lemma_decimal_text, lines_of, occurs_at, parse_decimal,
    parse_u64, push_decimal, spells, split_lines, unsigned_body, words, words_of,
};

verus! {

/// What the service manager says of a worker unit.
#[derive(Clone, Copy, Debug, PartialEq, Eq, Structural)]
pub enum Liveness {
    Running,
    Stopped,
    Unknown,
}

/// A listing row that could not be read.
#[derive(Clone, Copy, Debug, PartialEq, Eq, Structural)]
pub enum InventoryError {
    MissingName,
    MissingLoadState,
    MissingActiveState,
    InvalidGenerationUnit,
}

impl InventoryError {
    pub fn message(self) -> (text: &'static str)
        ensures
            self == InventoryError::MissingName ==> text@ == "worker unit row has no name"@,
            self == InventoryError::MissingLoadState ==> text@ == "worker unit row has no load state"@,
            self == InventoryError::MissingActiveState ==> text@ == "worker unit row has no active state"@,
            self == InventoryError::InvalidGenerationUnit ==> text@ == "invalid worker generation unit"@,
    {
        match self {
            InventoryError::MissingName => "worker unit row has no name",
            InventoryError::MissingLoadState => "worker unit row has no load state",
            InventoryError::MissingActiveState => "worker unit row has no active state",
            InventoryError::InvalidGenerationUnit => "invalid worker generation unit",
        }
    }
}

/// The unit name of a worker generation is this prefix, the generation, and the suffix.
pub const UNIT_PREFIX: &'static str = "toks-router-worker@";

pub const UNIT_SUFFIX: &'static str = ".service";

/// The unit name of a worker generation.
pub open spec fn unit_name_text(generation: GenerationId) -> Seq<char> {
    UNIT_PREFIX@ + decimal_text(generation.0 as nat) + UNIT_SUFFIX@
}

/// A worker unit's name reads back as the generation it was made for.
pub proof fn law_unit_name_round_trip(generation: GenerationId)
    requires
        generation.0 != 0,
    ensures
        unit_generation(unit_name_text(generation)) == Some(generation.0),
{
    let prefix = UNIT_PREFIX@;
    let suffix = UNIT_SUFFIX@;
    let digits = decimal_text(generation.0 as nat);
    let name = unit_name_text(generation);
    lemma_decimal_text(generation.0 as nat);
    assert(name.subrange(0, prefix.len() as int) =~= prefix);
    assert(name.subrange(name.len() - suffix.len(), name.len() as int) =~= suffix);
    assert(name.subrange(prefix.len() as int, name.len() - suffix.len()) =~= digits);
    assert(is_digit(digits[0]));
    assert(unsigned_body(digits) == digits);
}

/// The service manager's active states read as follows: `active`,
/// `activating`, `reloading`, `deactivating` and `maintenance` mean the
/// unit's process may still be running; `inactive` and `failed` mean it is
/// stopped; any other state is unknown.
pub proof fn law_liveness_of_active_states(state: Seq<char>)
    ensures
        (liveness_of(state) == Liveness::Running) <==> (state == "active"@ || state == "activating"@ || state
            == "reloading"@ || state == "deactivating"@ || state == "maintenance"@),
        (liveness_of(state) == Liveness::Stopped) <==> (state == "inactive"@ || state == "failed"@),
        liveness_of("deactivating"@) == Liveness::Running,
        liveness_of("active"@) == Liveness::Running,
        liveness_of("inactive"@) == Liveness::Stopped,
        liveness_of("failed"@) == Liveness::Stopped,
{
    reveal_strlit("active");
    reveal_strlit("activating");
    reveal_strlit("reloading");
    reveal_strlit("deactivating");
    reveal_strlit("maintenance");
    reveal_strlit("inactive");
    reveal_strlit("failed");
    assert("active"@.len() == 6 && "failed"@.len() == 6 && "inactive"@.len() == 8);
    assert("activating"@.len() == 10 && "reloading"@.len() == 9 && "deactivating"@.len() == 12);
    assert("maintenance"@.len() == 11);
    assert("active"@[0] == 'a' && "failed"@[0] == 'f');
    assert("active"@ != "failed"@);
    assert("reloading"@ != "inactive"@);
}

/// The name of the worker unit that runs `generation`.
pub fn unit_name(generation: GenerationId) -> (name: String)
    ensures
        name@ == unit_name_text(generation),
{
    let mut name = String::from_str(UNIT_PREFIX);
    push_decimal(&mut name, generation.get());
    name.append(UNIT_SUFFIX);
    proof {
        assert(name@ =~= unit_name_text(generation));
    }
    name
}

/// The generation a unit name stands for: a nonzero decimal between the
/// prefix and the suffix.
pub open spec fn unit_generation(name: Seq<char>) -> Option<u64> {
    let prefix = UNIT_PREFIX@;
    let suffix = UNIT_SUFFIX@;
    if name.len() >= prefix.len() + suffix.len() && name.subrange(0, prefix.len() as int) == prefix
        && name.subrange(name.len() - suffix.len(), name.len() as int) == suffix {
        match parse_u64(name.subrange(prefix.len() as int, name.len() - suffix.len())) {
            Some(value) => if value != 0 {
                Some(value)
            } else {
                None
            },
            None => None,
        }
    } else {
        None
    }
}

/// How an active state reads: stopped for `inactive` and `failed`, running
/// for states in which the unit's process may still hold the listener.
pub open spec fn liveness_of(state: Seq<char>) -> Liveness {
    if state == "inactive"@ || state == "failed"@ {
        Liveness::Stopped
    } else if state == "active"@ || state == "activating"@ || state == "reloading"@ || state == "deactivating"@
        || state == "maintenance"@ {
        Liveness::Running
    } else {
        Liveness::Unknown
    }
}

/// One listing row: the name, the load state and the active state must be
/// there, and the name must be a worker unit.
pub open spec fn parse_row(line: Seq<char>) -> Result<(GenerationId, Liveness), InventoryError> {
    let fields = words(line);
    if fields.len() == 0 {
        Err(InventoryError::MissingName)
    } else if fields.len() == 1 {
        Err(InventoryError::MissingLoadState)
    } else if fields.len() == 2 {
        Err(InventoryError::MissingActiveState)
    } else {
        match unit_generation(fields[0]) {
            Some(generation) => Ok((GenerationId(generation), liveness_of(fields[2]))),
            None => Err(InventoryError::InvalidGenerationUnit),
        }
    }
}

/// The rows of the non-blank lines, in order, or the first row's error.
pub open spec fn parse_rows(lines: Seq<Seq<char>>) -> Result<Seq<(GenerationId, Liveness)>, InventoryError>
    decreases lines.len(),
{
    if lines.len() == 0 {
        Ok(Seq::empty())
    } else {
        match parse_rows(lines.drop_last()) {
            Err(error) => Err(error),
            Ok(rows) => if blank(lines.last()) {
                Ok(rows)
            } else {
                match parse_row(lines.last()) {
                    Err(error) => Err(error),
                    Ok(row) => Ok(rows.push(row)),
                }
            },
        }
    }
}

/// The rows of a whole listing.
pub open spec fn inventory_rows(output: Seq<char>) -> Result<Seq<(GenerationId, Liveness)>, InventoryError> {
    parse_rows(split_lines(output))
}

/// The listed worker units by generation, in generation order.
pub struct Inventory {
    units: Vec<(GenerationId, Liveness)>,
}

impl View for Inventory {
    type V = Map<GenerationId, Liveness>;

    closed spec fn view(&self) -> Map<GenerationId, Liveness> {
        map_of(self.units@)
    }
}

impl Inventory {
    /// Units are kept in strictly increasing generation order.
    pub closed spec fn wf(&self) -> bool {
        forall|i: int, j: int| 0 <= i < j < self.units@.len() ==> (#[trigger] self.units@[i]).0.0 < (#[trigger] self.units@[j]).0.0
    }

    pub fn new() -> (inventory: Self)
        ensures
            inventory.wf(),
            inventory@ == Map::<GenerationId, Liveness>::empty(),
    {
        let inventory = Inventory { units: Vec::new() };
        proof {
            assert(inventory@ =~= Map::<GenerationId, Liveness>::empty());
        }
        inventory
    }

    /// Records a unit; a later row for the same generation wins.
    pub fn record(&mut self, generation: GenerationId, liveness: Liveness)
        requires
            old(self).wf(),
        ensures
            final(self).wf(),
            final(self)@ == old(self)@.insert(generation, liveness),
    {
        let ghost before = self.units@;
        proof {
            assert(keys_distinct(before)) by {
                assert forall|a: int, b: int| 0 <= a < b < before.len() implies (#[trigger] before[a]).0
                    != (#[trigger] before[b]).0 by {
                    assert(before[a].0.0 < before[b].0.0);
                }
            }
        }
        let mut i: usize = 0;
        while i < self.units.len() && self.units[i].0.get() < generation.get()
            invariant
                self.units@ == before,
                i <= before.len(),
                forall|j: int| 0 <= j < i ==> (#[trigger] before[j]).0.0 < generation.0,
            decreases before.len() - i,
        {
            i = i + 1;
        }
        if i < self.units.len() && self.units[i].0 == generation {
            self.units.set(i, (generation, liveness));
            proof {
                lemma_map_of_update(before, i as int, (generation, liveness));
                assert forall|a: int, b: int| 0 <= a < b < self.units@.len() implies (#[trigger] self.units@[a]).0.0
                    < (#[trigger] self.units@[b]).0.0 by {
                    assert(self.units@[a].0 == before[a].0 && self.units@[b].0 == before[b].0);
                }
            }
        } else {
            proof {
                lemma_map_of_dom(before, generation);
                if map_of(before).dom().contains(generation) {
                    let j = choose|j: int| 0 <= j < before.len() && (#[trigger] before[j]).0 == generation;
                    if j >= i {
                        assert(before[i as int].0.0 > generation.0);
                        if j > i {
                            assert(before[i as int].0.0 < before[j].0.0);
                        }
                    }
                }
                lemma_map_of_insert(before, i as int, (generation, liveness));
            }
            self.units.insert(i, (generation, liveness));
            proof {
                let after = self.units@;
                assert forall|a: int, b: int| 0 <= a < b < after.len() implies (#[trigger] after[a]).0.0
                    < (#[trigger] after[b]).0.0 by {
                    if a == i {
                        assert(after[b] == before[b - 1]);
                        if b - 1 > i {
                            assert(before[i as int].0.0 < before[b - 1].0.0);
                        }
                    } else if b == i {
                        assert(after[a] == before[a]);
                    } else {
                        let a2 = if a < i { a } else { a - 1 };
                        let b2 = if b < i { b } else { b - 1 };
                        assert(after[a] == before[a2] && after[b] == before[b2]);
                    }
                }
            }
        }
    }

    /// What the listing says of `generation`'s unit, if it lists one.
    pub fn get(&self, generation: GenerationId) -> (liveness: Option<Liveness>)
        requires
            self.wf(),
        ensures
            liveness == (if self@.dom().contains(generation) {
                Some(self@[generation])
            } else {
                None::<Liveness>
            }),
    {
        proof {
            assert(keys_distinct(self.units@)) by {
                assert forall|a: int, b: int| 0 <= a < b < self.units@.len() implies (#[trigger] self.units@[a]).0
                    != (#[trigger] self.units@[b]).0 by {
                    assert(self.units@[a].0.0 < self.units@[b].0.0);
                }
            }
        }
        for i in 0..self.units.len()
            invariant
                keys_distinct(self.units@),
                forall|j: int| 0 <= j < i ==> (#[trigger] self.units@[j]).0 != generation,
        {
            if self.units[i].0 == generation {
                proof {
                    crate::assoc::lemma_map_of_index(self.units@, i as int);
                }
                return Some(self.units[i].1);
            }
        }
        proof {
            lemma_map_of_dom(self.units@, generation);
        }
        None
    }

    /// The listed units in generation order.
    pub fn entries(&self) -> (entries: &Vec<(GenerationId, Liveness)>)
        requires
            self.wf(),
        ensures
            map_of(entries@) == self@,
            keys_distinct(entries@),
    {
        proof {
            assert forall|a: int, b: int| 0 <= a < b < self.units@.len() implies (#[trigger] self.units@[a]).0
                != (#[trigger] self.units@[b]).0 by {
                assert(self.units@[a].0.0 < self.units@[b].0.0);
            }
        }
        &self.units
    }
}

/// The generation a worker unit name stands for.
pub fn unit_name_generation(name: &[char]) -> (generation: Option<u64>)
    ensures
        generation == unit_generation(name@),
{
    let prefix_len = chars_of(UNIT_PREFIX).len();
    let suffix_len = chars_of(UNIT_SUFFIX).len();
    let n = name.len();
    if n < prefix_len || n - prefix_len < suffix_len {
        return None;
    }
    if !occurs_at(name, 0, UNIT_PREFIX) || !occurs_at(name, n - suffix_len, UNIT_SUFFIX) {
        return None;
    }
    let middle = vstd::slice::slice_subrange(name, prefix_len, n - suffix_len);
    match parse_decimal(middle) {
        Some(value) => if value != 0 {
            Some(value)
        } else {
            None
        },
        None => None,
    }
}

/// How the active state `state` reads.
pub fn classify(state: &[char]) -> (liveness: Liveness)
    ensures
        liveness == liveness_of(state@),
{
    if spells(state, "inactive") || spells(state, "failed") {
        Liveness::Stopped
    } else if spells(state, "active") || spells(state, "activating") || spells(state, "reloading") || spells(
        state,
        "deactivating",
    ) || spells(state, "maintenance") {
        Liveness::Running
    } else {
        Liveness::Unknown
    }
}

/// Reads one listing row.
pub fn parse_inventory_line(line: &[char]) -> (row: Result<(GenerationId, Liveness), InventoryError>)
    ensures
        row == parse_row(line@),
{
    let fields = words_of(line);
    proof {
        assert(fields@.len() == words(line@).len());
    }
    if fields.len() == 0 {
        return Err(InventoryError::MissingName);
    }
    if fields.len() == 1 {
        return Err(InventoryError::MissingLoadState);
    }
    if fields.len() == 2 {
        return Err(InventoryError::MissingActiveState);
    }
    proof {
        assert(fields@[0]@ == words(line@)[0]);
        assert(fields@[2]@ == words(line@)[2]);
    }
    let generation = match unit_name_generation(fields[0].as_slice()) {
        Some(generation) => generation,
        None => return Err(InventoryError::InvalidGenerationUnit),
    };
    Ok((GenerationId::from_raw(generation), classify(fields[2].as_slice())))
}

proof fn lemma_parse_rows_prefix_error(lines: Seq<Seq<char>>, k: int)
    requires
        0 <= k <= lines.len(),
        parse_rows(lines.take(k)) is Err,
    ensures
        parse_rows(lines) == parse_rows(lines.take(k)),
    decreases lines.len(),
{
    if k == lines.len() {
        assert(lines.take(k) =~= lines);
    } else {
        assert(lines.drop_last().take(k) =~= lines.take(k));
        lemma_parse_rows_prefix_error(lines.drop_last(), k);
    }
}

/// Reads a whole listing: blank lines are skipped, the first row that
/// cannot be read fails the listing, and a later row for the same
/// generation wins.
pub fn parse_inventory(output: &str) -> (inventory: Result<Inventory, InventoryError>)
    ensures
        match inventory_rows(output@) {
            Ok(rows) => inventory matches Ok(found) && found.wf() && found@ == map_of(rows),
            Err(error) => inventory == Err::<Inventory, InventoryError>(error),
        },
{
    let text = chars_of(output);
    let lines = lines_of(text.as_slice());
    let ghost all = split_lines(output@);
    let mut inventory = Inventory::new();
    let ghost mut rows: Seq<(GenerationId, Liveness)> = Seq::empty();
    proof {
        assert(all.take(0) =~= Seq::<Seq<char>>::empty());
    }
    for k in 0..lines.len()
        invariant
            all == split_lines(output@),
            lines@.map_values(|l: Vec<char>| l@) == all,
            inventory.wf(),
            parse_rows(all.take(k as int)) == Ok::<Seq<(GenerationId, Liveness)>, InventoryError>(rows),
            inventory@ == map_of(rows),
    {
        proof {
            assert(all.take(k + 1).drop_last() =~= all.take(k as int));
            assert(all.take(k + 1).last() == lines@[k as int]@);
        }
        let line = lines[k].as_slice();
        if !is_blank_chars(line) {
            match parse_inventory_line(line) {
                Ok((generation, liveness)) => {
                    proof {
                        crate::assoc::lemma_map_of_push(rows, (generation, liveness));
                        rows = rows.push((generation, liveness));
                    }
                    inventory.record(generation, liveness);
                },
                Err(error) => {
                    proof {
                        lemma_parse_rows_prefix_error(all, k + 1);
                    }
                    return Err(error);
                },
            }
        }
    }
    proof {
        assert(all.take(all.len() as int) =~= all);
    }
    Ok(inventory)
}

} // verus!
