//! Telling a genuine worker or coordinator process from an impostor, from
//! what `/proc` records of it: its command line, its environment and its
//! control group.

use vstd::prelude::*;

use crate::assoc::map_of;
use vstd::utf8::valid_utf8;
use crate::model::GenerationId;
use crate::search::{first_match, keep, lemma_keep_all, lemma_keep_step};
use crate::text::{chars_of, split_bytes, split_on};

verus! {

broadcast use vstd::string::group_string_axioms;

pub open spec fn nonempty<A>() -> spec_fn(Seq<A>) -> bool {
    |entry: Seq<A>| entry.len() > 0
}

/// The non-empty NUL-separated entries of a process record such as
/// `cmdline` or `environ`.
pub open spec fn nul_entries(bytes: Seq<u8>) -> Seq<Seq<u8>> {
    keep(split_on(bytes, 0u8), nonempty::<u8>())
}

/// The entries of a NUL-separated process record.
pub fn entries_of(bytes: &[u8]) -> (entries: Vec<Vec<u8>>)
    ensures
        entries@.map_values(|e: Vec<u8>| e@) == nul_entries(bytes@),
{
    let pieces = split_bytes(bytes, 0);
    let ghost all = pieces@.map_values(|e: Vec<u8>| e@);
    let mut entries: Vec<Vec<u8>> = Vec::new();
    let mut i: usize = 0;
    while i < pieces.len()
        invariant
            all == pieces@.map_values(|e: Vec<u8>| e@),
            all == split_on(bytes@, 0u8),
            i <= pieces@.len(),
            entries@.map_values(|e: Vec<u8>| e@) == keep(all.take(i as int), nonempty::<u8>()),
        decreases pieces@.len() - i,
    {
        proof {
            lemma_keep_step(all, nonempty::<u8>(), i as int);
        }
        if pieces[i].len() > 0 {
            let ghost before = entries@.map_values(|e: Vec<u8>| e@);
            entries.push(clone_bytes(&pieces[i]));
            proof {
                assert(entries@.map_values(|e: Vec<u8>| e@) =~= before.push(all[i as int]));
            }
        }
        i = i + 1;
    }
    proof {
        lemma_keep_all(all, nonempty::<u8>());
    }
    entries
}

fn clone_bytes(bytes: &Vec<u8>) -> (copy: Vec<u8>)
    ensures
        copy@ == bytes@,
{
    let mut copy: Vec<u8> = Vec::new();
    for i in 0..bytes.len()
        invariant
            copy@ == bytes@.take(i as int),
    {
        copy.push(bytes[i]);
        proof {
            assert(copy@ =~= bytes@.take(i + 1));
        }
    }
    proof {
        assert(bytes@.take(bytes@.len() as int) =~= bytes@);
    }
    copy
}

/// Whether two byte strings are equal.
pub fn same_bytes(a: &[u8], b: &[u8]) -> (same: bool)
    ensures
        same == (a@ == b@),
{
    if a.len() != b.len() {
        return false;
    }
    let mut i: usize = 0;
    while i < a.len()
        invariant
            a@.len() == b@.len(),
            i <= a@.len(),
            forall|j: int| 0 <= j < i ==> a@[j] == b@[j],
        decreases a@.len() - i,
    {
        if a[i] != b[i] {
            return false;
        }
        i = i + 1;
    }
    proof {
        assert(a@ =~= b@);
    }
    true
}

/// The decimal digits of `value`, as `to_string` writes it, in ASCII.
pub open spec fn decimal(value: nat) -> Seq<u8>
    decreases value,
{
    if value < 10 {
        seq![(48 + value) as u8]
    } else {
        decimal(value / 10).push((48 + value % 10) as u8)
    }
}

pub fn decimal_bytes(value: u64) -> (digits: Vec<u8>)
    ensures
        digits@ == decimal(value as nat),
    decreases value,
{
    if value < 10 {
        let mut digits: Vec<u8> = Vec::new();
        digits.push((48 + value) as u8);
        proof {
            assert(digits@ =~= seq![(48 + value) as u8]);
        }
        digits
    } else {
        let mut digits = decimal_bytes(value / 10);
        digits.push((48 + value % 10) as u8);
        digits
    }
}

/// The ASCII bytes of an ASCII text.
pub open spec fn ascii(text: Seq<char>) -> Seq<u8> {
    text.map_values(|c: char| c as u8)
}

/// The bytes of the ASCII text `text`.
pub fn ascii_bytes(text: &str) -> (bytes: Vec<u8>)
    ensures
        bytes@ == ascii(text@),
{
    let chars = chars_of(text);
    let mut bytes: Vec<u8> = Vec::new();
    for i in 0..chars.len()
        invariant
            chars@ == text@,
            bytes@ == ascii(text@.take(i as int)),
    {
        let c = chars[i];
        bytes.push(c as u8);
        proof {
            assert(bytes@ =~= ascii(text@.take(i + 1)));
        }
    }
    proof {
        assert(text@.take(text@.len() as int) =~= text@);
    }
    bytes
}

/// A worker's command line: its executable, `worker`, and its generation.
pub open spec fn worker_arguments(cmdline: Seq<u8>, generation: GenerationId) -> bool {
    let arguments = nul_entries(cmdline);
    arguments.len() == 3 && arguments[1] == ascii("worker"@) && arguments[2] == decimal(generation.0 as nat)
}

/// The coordinator's command line: its executable and `host`.
pub open spec fn coordinator_arguments(cmdline: Seq<u8>) -> bool {
    let arguments = nul_entries(cmdline);
    arguments.len() == 2 && arguments[1] == ascii("host"@)
}

pub fn worker_arguments_match(cmdline: &[u8], generation: GenerationId) -> (matched: bool)
    ensures
        matched == worker_arguments(cmdline@, generation),
{
    let arguments = entries_of(cmdline);
    proof {
        assert(arguments@.len() == nul_entries(cmdline@).len());
    }
    if arguments.len() != 3 {
        return false;
    }
    proof {
        assert(arguments@[1]@ == nul_entries(cmdline@)[1]);
        assert(arguments@[2]@ == nul_entries(cmdline@)[2]);
    }
    let worker = ascii_bytes("worker");
    let digits = decimal_bytes(generation.get());
    same_bytes(arguments[1].as_slice(), worker.as_slice()) && same_bytes(arguments[2].as_slice(), digits.as_slice())
}

pub fn coordinator_arguments_match(cmdline: &[u8]) -> (matched: bool)
    ensures
        matched == coordinator_arguments(cmdline@),
{
    let arguments = entries_of(cmdline);
    proof {
        assert(arguments@.len() == nul_entries(cmdline@).len());
    }
    if arguments.len() != 2 {
        return false;
    }
    proof {
        assert(arguments@[1]@ == nul_entries(cmdline@)[1]);
    }
    let host = ascii_bytes("host");
    same_bytes(arguments[1].as_slice(), host.as_slice())
}

/// A line as `str::lines` yields it: a piece that a newline ends loses one
/// trailing carriage return.
pub open spec fn line_at(pieces: Seq<Seq<char>>, i: int) -> Seq<char> {
    let piece = pieces[i];
    if i < pieces.len() - 1 && piece.len() > 0 && piece.last() == '\r' {
        piece.drop_last()
    } else {
        piece
    }
}

pub open spec fn is_colon() -> spec_fn(char) -> bool {
    |c: char| c == ':'
}

/// What follows the second `:` of a line, as `splitn(3, ':').nth(2)` gives it.
pub open spec fn after_second_colon(line: Seq<char>) -> Option<Seq<char>> {
    match first_match(line, is_colon()) {
        None => None,
        Some(first) => match first_match(line.skip(first + 1), is_colon()) {
            None => None,
            Some(second) => Some(line.skip(first + 1).skip(second + 1)),
        },
    }
}

/// Whether a line of `/proc/<pid>/cgroup` puts the process under `unit`:
/// some `/`-separated component of its path is `unit`.
pub open spec fn names_unit(line: Seq<char>, unit: Seq<char>) -> bool {
    match after_second_colon(line) {
        Some(path) => split_on(path, '/').contains(unit),
        None => false,
    }
}

/// Whether some line of `cgroups` puts the process under `unit`.
pub open spec fn in_cgroup(cgroups: Seq<char>, unit: Seq<char>) -> bool {
    let pieces = split_on(cgroups, '\n');
    exists|i: int| 0 <= i < pieces.len() && #[trigger] names_unit(line_at(pieces, i), unit)
}

fn first_colon(s: &[char]) -> (index: Option<usize>)
    ensures
        match index {
            Some(i) => first_match(s@, is_colon()) == Some(i as int) && i < s@.len(),
            None => first_match(s@, is_colon()) is None,
        },
{
    let mut i: usize = 0;
    while i < s.len()
        invariant
            i <= s@.len(),
            forall|j: int| 0 <= j < i ==> !is_colon()(#[trigger] s@[j]),
        decreases s@.len() - i,
    {
        if s[i] == ':' {
            proof {
                crate::search::lemma_first_match_is(s@, is_colon(), i as int);
            }
            return Some(i);
        }
        i = i + 1;
    }
    proof {
        crate::search::lemma_first_match_none(s@, is_colon());
    }
    None
}

fn line_names_unit(line: &[char], unit: &str) -> (named: bool)
    ensures
        named == names_unit(line@, unit@),
{
    let first = match first_colon(line) {
        Some(first) => first,
        None => return false,
    };
    let n = line.len();
    let rest = vstd::slice::slice_subrange(line, first + 1, n);
    proof {
        assert(rest@ =~= line@.skip(first + 1));
    }
    let second = match first_colon(rest) {
        Some(second) => second,
        None => return false,
    };
    let m = rest.len();
    let path = vstd::slice::slice_subrange(rest, second + 1, m);
    proof {
        assert(path@ =~= rest@.skip(second + 1));
        assert(after_second_colon(line@) == Some(path@));
    }
    let parts = crate::text::split_chars(path, '/');
    let ghost all = parts@.map_values(|p: Vec<char>| p@);
    for k in 0..parts.len()
        invariant
            all == parts@.map_values(|p: Vec<char>| p@),
            all == split_on(path@, '/'),
            after_second_colon(line@) == Some(path@),
            forall|j: int| 0 <= j < k ==> all[j] != unit@,
    {
        if crate::text::spells(parts[k].as_slice(), unit) {
            proof {
                assert(all[k as int] == unit@);
                assert(all.contains(unit@));
            }
            return true;
        }
    }
    false
}

/// Whether the control groups `cgroups` of a process put it under `unit`.
pub fn cgroup_matches(cgroups: &str, unit: &str) -> (matched: bool)
    ensures
        matched == in_cgroup(cgroups@, unit@),
{
    let chars = chars_of(cgroups);
    let pieces = crate::text::split_chars(chars.as_slice(), '\n');
    let ghost all = pieces@.map_values(|p: Vec<char>| p@);
    proof {
        assert(all == split_on(cgroups@, '\n'));
    }
    for i in 0..pieces.len()
        invariant
            all == pieces@.map_values(|p: Vec<char>| p@),
            all == split_on(cgroups@, '\n'),
            forall|j: int| 0 <= j < i ==> !#[trigger] names_unit(line_at(all, j), unit@),
    {
        let piece = pieces[i].as_slice();
        let n = piece.len();
        let line = if i + 1 < pieces.len() && n > 0 && piece[n - 1] == '\r' {
            vstd::slice::slice_subrange(piece, 0, n - 1)
        } else {
            piece
        };
        proof {
            assert(line@ =~= line_at(all, i as int));
        }
        if line_names_unit(line, unit) {
            return true;
        }
    }
    false
}

pub open spec fn is_equals() -> spec_fn(u8) -> bool {
    |b: u8| b == 61u8
}

/// A `NAME=VALUE` entry split at its first `=`, when both sides are UTF-8.
pub open spec fn env_pair(entry: Seq<u8>) -> Option<(Seq<u8>, Seq<u8>)> {
    match first_match(entry, is_equals()) {
        None => None,
        Some(k) => if valid_utf8(entry.take(k)) && valid_utf8(entry.skip(k + 1)) {
            Some((entry.take(k), entry.skip(k + 1)))
        } else {
            None
        },
    }
}

/// The variables of an environment record's entries, in order; `None` when
/// an entry is malformed or a name repeats.
pub open spec fn environment(entries: Seq<Seq<u8>>) -> Option<Seq<(Seq<u8>, Seq<u8>)>>
    decreases entries.len(),
{
    if entries.len() == 0 {
        Some(Seq::empty())
    } else {
        match environment(entries.drop_last()) {
            None => None,
            Some(vars) => match env_pair(entries.last()) {
                None => None,
                Some(pair) => if map_of(vars).dom().contains(pair.0) {
                    None
                } else {
                    Some(vars.push(pair))
                },
            },
        }
    }
}

/// Whether an `environ` record holds exactly the variables `expected`
/// (later pairs of `expected` win).
pub open spec fn environment_is(environ: Seq<u8>, expected: Seq<(Seq<u8>, Seq<u8>)>) -> bool {
    match environment(nul_entries(environ)) {
        None => false,
        Some(vars) => map_of(vars) == map_of(expected),
    }
}

pub open spec fn byte_pairs(pairs: Seq<(Vec<u8>, Vec<u8>)>) -> Seq<(Seq<u8>, Seq<u8>)> {
    pairs.map_values(|p: (Vec<u8>, Vec<u8>)| (p.0@, p.1@))
}

/// Calls `std::str::from_utf8`, which accepts exactly the well-formed UTF-8
/// byte strings; the contract names them with vstd's `valid_utf8`.
#[verifier::external_body]
fn is_utf8(bytes: &[u8]) -> (valid: bool)
    ensures
        valid == valid_utf8(bytes@),
{
    std::str::from_utf8(bytes).is_ok()
}

fn first_equals(s: &[u8]) -> (index: Option<usize>)
    ensures
        match index {
            Some(i) => first_match(s@, is_equals()) == Some(i as int) && i < s@.len(),
            None => first_match(s@, is_equals()) is None,
        },
{
    let mut i: usize = 0;
    while i < s.len()
        invariant
            i <= s@.len(),
            forall|j: int| 0 <= j < i ==> !is_equals()(#[trigger] s@[j]),
        decreases s@.len() - i,
    {
        if s[i] == 61u8 {
            proof {
                crate::search::lemma_first_match_is(s@, is_equals(), i as int);
            }
            return Some(i);
        }
        i = i + 1;
    }
    proof {
        crate::search::lemma_first_match_none(s@, is_equals());
    }
    None
}

fn split_entry(entry: &[u8]) -> (pair: Option<(Vec<u8>, Vec<u8>)>)
    ensures
        match env_pair(entry@) {
            Some(p) => pair matches Some(found) && found.0@ == p.0 && found.1@ == p.1,
            None => pair is None,
        },
{
    let k = match first_equals(entry) {
        Some(k) => k,
        None => return None,
    };
    let n = entry.len();
    let name = vstd::slice::slice_subrange(entry, 0, k);
    let value = vstd::slice::slice_subrange(entry, k + 1, n);
    proof {
        assert(name@ =~= entry@.take(k as int));
        assert(value@ =~= entry@.skip(k + 1));
    }
    if !is_utf8(name) || !is_utf8(value) {
        return None;
    }
    Some((vstd::slice::slice_to_vec(name), vstd::slice::slice_to_vec(value)))
}

/// The index of the last pair of `pairs` named `name`.
fn last_named(pairs: &[(Vec<u8>, Vec<u8>)], name: &[u8]) -> (index: Option<usize>)
    ensures
        match index {
            Some(i) => crate::search::last_match(byte_pairs(pairs@), crate::assoc::with_key::<Seq<u8>, Seq<u8>>(name@))
                == Some(i as int) && i < pairs@.len(),
            None => crate::search::last_match(byte_pairs(pairs@), crate::assoc::with_key::<Seq<u8>, Seq<u8>>(name@)) is None,
        },
{
    let ghost all = byte_pairs(pairs@);
    let mut i = pairs.len();
    while i > 0
        invariant
            i <= pairs@.len(),
            all == byte_pairs(pairs@),
            forall|j: int| i <= j < all.len() ==> !crate::assoc::with_key::<Seq<u8>, Seq<u8>>(name@)(#[trigger] all[j]),
        decreases i,
    {
        i = i - 1;
        if same_bytes(pairs[i].0.as_slice(), name) {
            proof {
                crate::search::lemma_last_match_is(all, crate::assoc::with_key::<Seq<u8>, Seq<u8>>(name@), i as int);
            }
            return Some(i);
        }
    }
    proof {
        crate::search::lemma_last_match_none(all, crate::assoc::with_key::<Seq<u8>, Seq<u8>>(name@));
    }
    None
}

proof fn lemma_environment_distinct(entries: Seq<Seq<u8>>)
    ensures
        environment(entries) matches Some(vars) ==> crate::assoc::keys_distinct(vars),
    decreases entries.len(),
{
    if entries.len() > 0 {
        lemma_environment_distinct(entries.drop_last());
        if let Some(vars) = environment(entries.drop_last()) {
            if let Some(pair) = env_pair(entries.last()) {
                if !map_of(vars).dom().contains(pair.0) {
                    crate::assoc::lemma_keys_distinct_push(vars, pair);
                }
            }
        }
    }
}

/// The variables of an `environ` record, in order; `None` when an entry
/// is not `NAME=VALUE` in UTF-8 or a name repeats.
pub fn parse_environment(environ: &[u8]) -> (vars: Option<Vec<(Vec<u8>, Vec<u8>)>>)
    ensures
        match environment(nul_entries(environ@)) {
            Some(expected) => vars matches Some(found) && byte_pairs(found@) == expected,
            None => vars is None,
        },
{
    let entries = entries_of(environ);
    let ghost all = entries@.map_values(|e: Vec<u8>| e@);
    let mut vars: Vec<(Vec<u8>, Vec<u8>)> = Vec::new();
    proof {
        assert(all.take(0) =~= Seq::<Seq<u8>>::empty());
        assert(byte_pairs(vars@) =~= Seq::<(Seq<u8>, Seq<u8>)>::empty());
    }
    for i in 0..entries.len()
        invariant
            all == entries@.map_values(|e: Vec<u8>| e@),
            all == nul_entries(environ@),
            environment(all.take(i as int)) == Some(byte_pairs(vars@)),
    {
        proof {
            assert(all.take(i + 1).drop_last() =~= all.take(i as int));
            assert(all.take(i + 1).last() == entries@[i as int]@);
        }
        let (name, value) = match split_entry(entries[i].as_slice()) {
            Some(pair) => pair,
            None => {
                proof {
                    lemma_environment_stays_none(all, i + 1);
                }
                return None;
            },
        };
        if last_named(vars.as_slice(), name.as_slice()).is_some() {
            proof {
                crate::assoc::lemma_map_of_last(byte_pairs(vars@), name@);
                lemma_environment_stays_none(all, i + 1);
            }
            return None;
        }
        proof {
            crate::assoc::lemma_map_of_last(byte_pairs(vars@), name@);
        }
        let ghost before = byte_pairs(vars@);
        vars.push((name, value));
        proof {
            assert(byte_pairs(vars@) =~= before.push((vars@[vars@.len() - 1].0@, vars@[vars@.len() - 1].1@)));
        }
    }
    proof {
        assert(all.take(all.len() as int) =~= all);
    }
    Some(vars)
}

proof fn lemma_environment_stays_none(entries: Seq<Seq<u8>>, k: int)
    requires
        0 <= k <= entries.len(),
        environment(entries.take(k)) is None,
    ensures
        environment(entries) is None,
    decreases entries.len(),
{
    if k == entries.len() {
        assert(entries.take(k) =~= entries);
    } else {
        assert(entries.drop_last().take(k) =~= entries.take(k));
        lemma_environment_stays_none(entries.drop_last(), k);
    }
}

/// Whether an `environ` record holds exactly the variables `expected`.
pub fn environment_matches(environ: &[u8], expected: &[(Vec<u8>, Vec<u8>)]) -> (matched: bool)
    ensures
        matched == environment_is(environ@, byte_pairs(expected@)),
{
    let vars = match parse_environment(environ) {
        Some(vars) => vars,
        None => return false,
    };
    let ghost actual = byte_pairs(vars@);
    let ghost wanted = byte_pairs(expected@);
    proof {
        lemma_environment_distinct(nul_entries(environ@));
    }
    for i in 0..vars.len()
        invariant
            actual == byte_pairs(vars@),
            wanted == byte_pairs(expected@),
            environment(nul_entries(environ@)) == Some(actual),
            crate::assoc::keys_distinct(actual),
            forall|j: int|
                0 <= j < i ==> map_of(wanted).dom().contains(#[trigger] actual[j].0) && map_of(wanted)[actual[j].0]
                    == actual[j].1,
    {
        let found = last_named(expected, vars[i].0.as_slice());
        proof {
            crate::assoc::lemma_map_of_last(wanted, actual[i as int].0);
        }
        match found {
            None => {
                proof {
                    crate::assoc::lemma_map_of_index(actual, i as int);
                    assert(map_of(actual).dom().contains(actual[i as int].0));
                    assert(map_of(actual) != map_of(wanted));
                }
                return false;
            },
            Some(k) => {
                if !same_bytes(expected[k].1.as_slice(), vars[i].1.as_slice()) {
                    proof {
                        crate::assoc::lemma_map_of_index(actual, i as int);
                        assert(map_of(actual)[actual[i as int].0] != map_of(wanted)[actual[i as int].0]);
                    }
                    return false;
                }
            },
        }
    }
    for k in 0..expected.len()
        invariant
            actual == byte_pairs(vars@),
            wanted == byte_pairs(expected@),
            environment(nul_entries(environ@)) == Some(actual),
            crate::assoc::keys_distinct(actual),
            forall|j: int|
                0 <= j < actual.len() ==> map_of(wanted).dom().contains(#[trigger] actual[j].0) && map_of(wanted)[actual[j].0]
                    == actual[j].1,
            forall|j: int| 0 <= j < k ==> map_of(actual).dom().contains(#[trigger] wanted[j].0),
    {
        let found = last_named(vars.as_slice(), expected[k].0.as_slice());
        proof {
            crate::assoc::lemma_map_of_last(actual, wanted[k as int].0);
        }
        if found.is_none() {
            proof {
                crate::assoc::lemma_map_of_dom(wanted, wanted[k as int].0);
                assert(map_of(wanted).dom().contains(wanted[k as int].0));
                assert(map_of(actual) != map_of(wanted));
            }
            return false;
        }
    }
    proof {
        assert forall|key: Seq<u8>| #[trigger] map_of(actual).dom().contains(key) implies map_of(wanted).dom().contains(key)
            && map_of(wanted)[key] == map_of(actual)[key] by {
            crate::assoc::lemma_map_of_dom(actual, key);
            let j = choose|j: int| 0 <= j < actual.len() && (#[trigger] actual[j]).0 == key;
            crate::assoc::lemma_map_of_index(actual, j);
        }
        assert forall|key: Seq<u8>| #[trigger] map_of(wanted).dom().contains(key) implies map_of(actual).dom().contains(key) by {
            crate::assoc::lemma_map_of_dom(wanted, key);
        }
        assert(map_of(actual) =~= map_of(wanted));
    }
    true
}

/// The variable naming the build a coordinator was installed from.
pub const BUILD_ENVIRONMENT: &'static str = "TOKS_ROUTER_BUILD_ID";

/// The unit a coordinator runs as.
pub const COORDINATOR_UNIT: &'static str = "toks-router.service";

/// A build identity names one plain path component, as `Path::components`
/// reads it: the first `/`-separated piece is neither empty, `.` nor `..`,
/// and every later piece is empty or `.`.
pub open spec fn single_component(value: Seq<char>) -> bool {
    let pieces = split_on(value, '/');
    &&& pieces[0].len() > 0
    &&& pieces[0] != "."@
    &&& pieces[0] != ".."@
    &&& forall|i: int| 1 <= i < pieces.len() ==> (#[trigger] pieces[i]).len() == 0 || pieces[i] == "."@
}

pub fn is_single_component(value: &str) -> (single: bool)
    ensures
        single == single_component(value@),
{
    let chars = chars_of(value);
    let pieces = crate::text::split_chars(chars.as_slice(), '/');
    let ghost all = pieces@.map_values(|p: Vec<char>| p@);
    proof {
        crate::text::lemma_split_on_len(value@, '/');
        assert(all == split_on(value@, '/'));
    }
    let first = pieces[0].as_slice();
    if first.len() == 0 || crate::text::spells(first, ".") || crate::text::spells(first, "..") {
        return false;
    }
    for i in 1..pieces.len()
        invariant
            all == pieces@.map_values(|p: Vec<char>| p@),
            all == split_on(value@, '/'),
            forall|j: int| 1 <= j < i ==> (#[trigger] all[j]).len() == 0 || all[j] == "."@,
    {
        let piece = pieces[i].as_slice();
        if piece.len() != 0 && !crate::text::spells(piece, ".") {
            proof {
                assert(all[i as int] == piece@);
            }
            return false;
        }
    }
    true
}

/// Calls `String::from_utf8_lossy`, which on well-formed UTF-8 decodes it
/// exactly; the contract names the decoding with vstd's `decode_utf8`.
#[verifier::external_body]
fn utf8_text(bytes: &[u8]) -> (text: String)
    requires
        valid_utf8(bytes@),
    ensures
        text@ == vstd::utf8::decode_utf8(bytes@),
{
    String::from_utf8_lossy(bytes).into_owned()
}

/// The build a process's environment names, when it is one plain path
/// component and not blank.
pub open spec fn named_build(vars: Seq<(Seq<u8>, Seq<u8>)>) -> Option<Seq<char>> {
    let name = ascii(BUILD_ENVIRONMENT@);
    if map_of(vars).dom().contains(name) {
        let text = vstd::utf8::decode_utf8(map_of(vars)[name]);
        if single_component(text) && !crate::identifiers::blank(text) {
            Some(text)
        } else {
            None
        }
    } else {
        None
    }
}

/// The build a coordinator process was installed from, read from its
/// `environ` record; `None` when the record is malformed or names no
/// acceptable build.
pub fn coordinator_build(environ: &[u8]) -> (build: Option<crate::identifiers::BuildId>)
    ensures
        match environment(nul_entries(environ@)) {
            None => build is None,
            Some(vars) => match named_build(vars) {
                Some(text) => build matches Some(id) && id@ == text,
                None => build is None,
            },
        },
{
    let vars = match parse_environment(environ) {
        Some(vars) => vars,
        None => return None,
    };
    let name = ascii_bytes(BUILD_ENVIRONMENT);
    let ghost actual = byte_pairs(vars@);
    proof {
        lemma_environment_distinct(nul_entries(environ@));
        crate::assoc::lemma_map_of_last(actual, name@);
    }
    let k = match last_named(vars.as_slice(), name.as_slice()) {
        Some(k) => k,
        None => return None,
    };
    proof {
        lemma_pairs_utf8(nul_entries(environ@), k as int);
    }
    let text = utf8_text(vars[k].1.as_slice());
    if !is_single_component(text.as_str()) {
        return None;
    }
    match crate::identifiers::BuildId::new(text) {
        Ok(build) => Some(build),
        Err(_) => None,
    }
}

proof fn lemma_pairs_utf8(entries: Seq<Seq<u8>>, k: int)
    requires
        environment(entries) matches Some(vars) && 0 <= k < vars.len(),
    ensures
        environment(entries) matches Some(vars) && valid_utf8(vars[k].0) && valid_utf8(vars[k].1),
    decreases entries.len(),
{
    let vars = environment(entries)->0;
    let init = environment(entries.drop_last())->0;
    if k < init.len() {
        lemma_pairs_utf8(entries.drop_last(), k);
        assert(vars[k] == init[k]);
    } else {
        let entry = entries.last();
        let i = first_match(entry, is_equals())->0;
        assert(vars[k] == (entry.take(i), entry.skip(i + 1)));
    }
}

/// The environment a coordinator unit runs with: the contract's set
/// variables, then the activation variables for `pid` and one `router` socket.
pub fn coordinator_environment(contract: &[(String, Option<String>)], pid: u32) -> (expected: Vec<(Vec<u8>, Vec<u8>)>)
    ensures
        byte_pairs(expected@) == set_variables(contract@) + seq![
            (ascii("LISTEN_PID"@), decimal(pid as nat)),
            (ascii("LISTEN_FDS"@), ascii("1"@)),
            (ascii("LISTEN_FDNAMES"@), ascii("router"@)),
        ],
{
    let mut expected = set_pairs(contract);
    let ghost set = byte_pairs(expected@);
    expected.push((ascii_bytes("LISTEN_PID"), decimal_bytes(pid as u64)));
    expected.push((ascii_bytes("LISTEN_FDS"), ascii_bytes("1")));
    expected.push((ascii_bytes("LISTEN_FDNAMES"), ascii_bytes("router")));
    proof {
        assert(byte_pairs(expected@) =~= set + seq![
            (ascii("LISTEN_PID"@), decimal(pid as nat)),
            (ascii("LISTEN_FDS"@), ascii("1"@)),
            (ascii("LISTEN_FDNAMES"@), ascii("router"@)),
        ]);
    }
    expected
}

pub open spec fn is_set() -> spec_fn((String, Option<String>)) -> bool {
    |v: (String, Option<String>)| v.1 is Some
}

/// The variables a launch contract sets, as UTF-8 bytes.
pub open spec fn set_variables(contract: Seq<(String, Option<String>)>) -> Seq<(Seq<u8>, Seq<u8>)> {
    keep(contract, is_set()).map_values(
        |v: (String, Option<String>)| (vstd::utf8::encode_utf8(v.0@), vstd::utf8::encode_utf8(v.1->0@)),
    )
}

fn set_pairs(contract: &[(String, Option<String>)]) -> (pairs: Vec<(Vec<u8>, Vec<u8>)>)
    ensures
        byte_pairs(pairs@) == set_variables(contract@),
{
    let mut pairs: Vec<(Vec<u8>, Vec<u8>)> = Vec::new();
    for i in 0..contract.len()
        invariant
            byte_pairs(pairs@) == keep(contract@.take(i as int), is_set()).map_values(
                |v: (String, Option<String>)| (vstd::utf8::encode_utf8(v.0@), vstd::utf8::encode_utf8(v.1->0@)),
            ),
    {
        proof {
            lemma_keep_step(contract@, is_set(), i as int);
        }
        let (name, value) = &contract[i];
        if let Some(value) = value {
            let ghost before = byte_pairs(pairs@);
            let name_bytes = vstd::slice::slice_to_vec(name.as_str().as_bytes());
            let value_bytes = vstd::slice::slice_to_vec(value.as_str().as_bytes());
            pairs.push((name_bytes, value_bytes));
            proof {
                assert(byte_pairs(pairs@) =~= before.push(
                    (vstd::utf8::encode_utf8(name@), vstd::utf8::encode_utf8(value@)),
                ));
            }
        }
    }
    proof {
        lemma_keep_all(contract@, is_set());
    }
    pairs
}

/// Whether process `pid` is the coordinator: it runs `host` from the
/// expected executable (`executable_matches`), with exactly the expected
/// environment, under the coordinator unit.
pub open spec fn coordinator_process(
    pid: i32,
    executable_matches: bool,
    cmdline: Seq<u8>,
    environ: Seq<u8>,
    expected: Seq<(Seq<u8>, Seq<u8>)>,
    cgroups: Option<Seq<char>>,
) -> bool {
    &&& pid > 0
    &&& executable_matches
    &&& coordinator_arguments(cmdline)
    &&& environment_is(environ, expected)
    &&& cgroups matches Some(text) && in_cgroup(text, COORDINATOR_UNIT@)
}

pub fn coordinator_process_matches(
    pid: i32,
    executable_matches: bool,
    cmdline: &[u8],
    environ: &[u8],
    expected: &[(Vec<u8>, Vec<u8>)],
    cgroups: Option<&str>,
) -> (matched: bool)
    ensures
        matched == coordinator_process(
            pid,
            executable_matches,
            cmdline@,
            environ@,
            byte_pairs(expected@),
            match cgroups {
                Some(text) => Some(text@),
                None => None,
            },
        ),
{
    pid > 0 && executable_matches && coordinator_arguments_match(cmdline) && environment_matches(environ, expected)
        && match cgroups {
        Some(text) => cgroup_matches(text, COORDINATOR_UNIT),
        None => false,
    }
}

/// Whether process `pid` is the worker of `generation`: it runs `worker`
/// with that generation from the expected executable, with exactly the
/// variables its launch contract sets, under the generation's unit.
pub open spec fn worker_process(
    generation: GenerationId,
    pid: i32,
    executable_matches: bool,
    cmdline: Seq<u8>,
    environ: Seq<u8>,
    contract: Seq<(String, Option<String>)>,
    cgroups: Option<Seq<char>>,
    unit: Seq<char>,
) -> bool {
    &&& pid > 0
    &&& executable_matches
    &&& worker_arguments(cmdline, generation)
    &&& environment_is(environ, set_variables(contract))
    &&& cgroups matches Some(text) && in_cgroup(text, unit)
}

pub fn worker_process_matches(
    generation: GenerationId,
    pid: i32,
    executable_matches: bool,
    cmdline: &[u8],
    environ: &[u8],
    contract: &[(String, Option<String>)],
    cgroups: Option<&str>,
    unit: &str,
) -> (matched: bool)
    ensures
        matched == worker_process(
            generation,
            pid,
            executable_matches,
            cmdline@,
            environ@,
            contract@,
            match cgroups {
                Some(text) => Some(text@),
                None => None,
            },
            unit@,
        ),
{
    if !(pid > 0 && executable_matches && worker_arguments_match(cmdline, generation)) {
        return false;
    }
    let expected = set_pairs(contract);
    environment_matches(environ, expected.as_slice()) && match cgroups {
        Some(text) => cgroup_matches(text, unit),
        None => false,
    }
}

/// Whether a peer may command workers as the coordinator: it runs as the
/// coordinator's user, it was the coordinator unit's main process both
/// before and after its process was inspected, and that process matched.
pub fn authorized(
    peer_uid: u32,
    peer_pid: i32,
    expected_uid: u32,
    first_main_pid: Option<i32>,
    second_main_pid: Option<i32>,
    process_matches: bool,
) -> (authorized: bool)
    ensures
        authorized == (peer_uid == expected_uid && first_main_pid == Some(peer_pid) && second_main_pid
            == first_main_pid && process_matches),
{
    peer_uid == expected_uid && first_main_pid == Some(peer_pid) && second_main_pid == first_main_pid
        && process_matches
}

/// Why a coordinator cannot tell which build it was installed from.
#[derive(Clone, Copy, Debug, PartialEq, Eq, Structural)]
pub enum InstalledBuildError {
    /// The installer baked no build identity into the unit.
    Missing,
    /// The baked identity is blank.
    Invalid,
}

impl InstalledBuildError {
    pub fn message(self) -> (text: &'static str)
        ensures
            self == InstalledBuildError::Missing ==> text@
                == "coordinator is missing its installed deployment build identity"@,
            self == InstalledBuildError::Invalid ==> text@
                == "coordinator has an invalid installed deployment build identity"@,
    {
        match self {
            InstalledBuildError::Missing => "coordinator is missing its installed deployment build identity",
            InstalledBuildError::Invalid => "coordinator has an invalid installed deployment build identity",
        }
    }
}

/// The build identity the installer baked into the coordinator's unit
/// (`None` when the variable is unset or not text).
pub fn installed_build_id(value: Option<String>) -> (build: Result<crate::identifiers::BuildId, InstalledBuildError>)
    ensures
        match value {
            None => build == Err::<crate::identifiers::BuildId, InstalledBuildError>(InstalledBuildError::Missing),
            Some(text) => if crate::identifiers::blank(text@) {
                build == Err::<crate::identifiers::BuildId, InstalledBuildError>(InstalledBuildError::Invalid)
            } else {
                build matches Ok(id) && id@ == text@
            },
        },
{
    match value {
        None => Err(InstalledBuildError::Missing),
        Some(text) => match crate::identifiers::BuildId::new(text) {
            Ok(build) => Ok(build),
            Err(_) => Err(InstalledBuildError::Invalid),
        },
    }
}

} // verus!
