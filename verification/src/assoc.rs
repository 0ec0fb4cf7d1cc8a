//! Association lists: a sequence of key/value pairs read as a finite map,
//! and a sequence of distinct elements read as a finite set.

use vstd::prelude::*;

verus! {

/// No key occurs twice.
pub open spec fn keys_distinct<K, V>(s: Seq<(K, V)>) -> bool {
    forall|i: int, j: int| 0 <= i < j < s.len() ==> (#[trigger] s[i]).0 != (#[trigger] s[j]).0
}

/// No element occurs twice.
pub open spec fn distinct<A>(s: Seq<A>) -> bool {
    forall|i: int, j: int| 0 <= i < j < s.len() ==> s[i] != s[j]
}

/// The map that the pairs spell out, a later pair shadowing an earlier one.
pub open spec fn map_of<K, V>(s: Seq<(K, V)>) -> Map<K, V>
    decreases s.len(),
{
    if s.len() == 0 {
        Map::empty()
    } else {
        map_of(s.drop_last()).insert(s.last().0, s.last().1)
    }
}

pub proof fn lemma_map_of_dom<K, V>(s: Seq<(K, V)>, k: K)
    ensures
        map_of(s).dom().contains(k) <==> exists|i: int| 0 <= i < s.len() && (#[trigger] s[i]).0 == k,
    decreases s.len(),
{
    if s.len() > 0 {
        let init = s.drop_last();
        lemma_map_of_dom(init, k);
        if map_of(s).dom().contains(k) && k != s.last().0 {
            let i = choose|i: int| 0 <= i < init.len() && (#[trigger] init[i]).0 == k;
            assert(s[i] == init[i]);
        }
        if exists|i: int| 0 <= i < s.len() && (#[trigger] s[i]).0 == k {
            let i = choose|i: int| 0 <= i < s.len() && (#[trigger] s[i]).0 == k;
            if i < s.len() - 1 {
                assert(init[i] == s[i]);
            }
        }
    }
}

pub proof fn lemma_map_of_finite<K, V>(s: Seq<(K, V)>)
    ensures
        map_of(s).dom().finite(),
    decreases s.len(),
{
    if s.len() > 0 {
        lemma_map_of_finite(s.drop_last());
    }
}

pub proof fn lemma_map_of_index<K, V>(s: Seq<(K, V)>, i: int)
    requires
        keys_distinct(s),
        0 <= i < s.len(),
    ensures
        map_of(s).dom().contains(s[i].0),
        map_of(s)[s[i].0] == s[i].1,
    decreases s.len(),
{
    let init = s.drop_last();
    if i < s.len() - 1 {
        assert(init[i] == s[i]);
        assert(keys_distinct(init)) by {
            assert forall|a: int, b: int| 0 <= a < b < init.len() implies (#[trigger] init[a]).0
                != (#[trigger] init[b]).0 by {
                assert(init[a] == s[a] && init[b] == s[b]);
            }
        }
        lemma_map_of_index(init, i);
        assert(s[i].0 != s.last().0);
    }
}

pub proof fn lemma_map_of_push<K, V>(s: Seq<(K, V)>, kv: (K, V))
    ensures
        map_of(s.push(kv)) == map_of(s).insert(kv.0, kv.1),
{
    assert(s.push(kv).drop_last() =~= s);
}

pub proof fn lemma_keys_distinct_push<K, V>(s: Seq<(K, V)>, kv: (K, V))
    requires
        keys_distinct(s),
        !map_of(s).dom().contains(kv.0),
    ensures
        keys_distinct(s.push(kv)),
{
    let t = s.push(kv);
    assert forall|a: int, b: int| 0 <= a < b < t.len() implies (#[trigger] t[a]).0 != (#[trigger] t[b]).0 by {
        if b == s.len() {
            lemma_map_of_dom(s, kv.0);
            assert(t[a] == s[a]);
        } else {
            assert(t[a] == s[a] && t[b] == s[b]);
        }
    }
}

pub proof fn lemma_map_of_update<K, V>(s: Seq<(K, V)>, i: int, kv: (K, V))
    requires
        keys_distinct(s),
        0 <= i < s.len(),
        s[i].0 == kv.0,
    ensures
        map_of(s.update(i, kv)) == map_of(s).insert(kv.0, kv.1),
        keys_distinct(s.update(i, kv)),
    decreases s.len(),
{
    let t = s.update(i, kv);
    let init = s.drop_last();
    assert(keys_distinct(t)) by {
        assert forall|a: int, b: int| 0 <= a < b < t.len() implies (#[trigger] t[a]).0 != (#[trigger] t[b]).0 by {
            assert(t[a].0 == s[a].0 && t[b].0 == s[b].0);
        }
    }
    if i == s.len() - 1 {
        assert(t.drop_last() =~= init);
        assert(map_of(t) =~= map_of(s).insert(kv.0, kv.1));
    } else {
        assert(keys_distinct(init)) by {
            assert forall|a: int, b: int| 0 <= a < b < init.len() implies (#[trigger] init[a]).0
                != (#[trigger] init[b]).0 by {
                assert(init[a] == s[a] && init[b] == s[b]);
            }
        }
        assert(t.drop_last() =~= init.update(i, kv));
        lemma_map_of_update(init, i, kv);
        assert(kv.0 != s.last().0);
        assert(map_of(t) =~= map_of(s).insert(kv.0, kv.1));
    }
}

pub proof fn lemma_map_of_remove<K, V>(s: Seq<(K, V)>, i: int)
    requires
        keys_distinct(s),
        0 <= i < s.len(),
    ensures
        map_of(s.remove(i)) == map_of(s).remove(s[i].0),
        keys_distinct(s.remove(i)),
    decreases s.len(),
{
    let t = s.remove(i);
    let init = s.drop_last();
    assert(keys_distinct(t)) by {
        assert forall|a: int, b: int| 0 <= a < b < t.len() implies (#[trigger] t[a]).0 != (#[trigger] t[b]).0 by {
            let a2 = if a < i { a } else { a + 1 };
            let b2 = if b < i { b } else { b + 1 };
            assert(t[a] == s[a2] && t[b] == s[b2]);
        }
    }
    assert(keys_distinct(init)) by {
        assert forall|a: int, b: int| 0 <= a < b < init.len() implies (#[trigger] init[a]).0
            != (#[trigger] init[b]).0 by {
            assert(init[a] == s[a] && init[b] == s[b]);
        }
    }
    if i == s.len() - 1 {
        assert(t =~= init);
        lemma_map_of_dom(init, s.last().0);
        if map_of(init).dom().contains(s.last().0) {
            let j = choose|j: int| 0 <= j < init.len() && (#[trigger] init[j]).0 == s.last().0;
            assert(init[j] == s[j]);
        }
        assert(map_of(t) =~= map_of(s).remove(s[i].0));
    } else {
        assert(t.drop_last() =~= init.remove(i));
        assert(t.last() == s.last());
        lemma_map_of_remove(init, i);
        assert(init[i] == s[i]);
        assert(s[i].0 != s.last().0);
        assert(map_of(t) =~= map_of(s).remove(s[i].0));
    }
}

pub proof fn lemma_map_of_insert<K, V>(s: Seq<(K, V)>, i: int, kv: (K, V))
    requires
        keys_distinct(s),
        0 <= i <= s.len(),
        !map_of(s).dom().contains(kv.0),
    ensures
        map_of(s.insert(i, kv)) == map_of(s).insert(kv.0, kv.1),
        keys_distinct(s.insert(i, kv)),
    decreases s.len(),
{
    let t = s.insert(i, kv);
    lemma_map_of_dom(s, kv.0);
    assert(keys_distinct(t)) by {
        assert forall|a: int, b: int| 0 <= a < b < t.len() implies (#[trigger] t[a]).0 != (#[trigger] t[b]).0 by {
            if a == i {
                assert(t[b] == s[b - 1]);
            } else if b == i {
                assert(t[a] == s[a]);
            } else {
                let a2 = if a < i { a } else { a - 1 };
                let b2 = if b < i { b } else { b - 1 };
                assert(t[a] == s[a2] && t[b] == s[b2]);
            }
        }
    }
    if i == s.len() {
        assert(t =~= s.push(kv));
        lemma_map_of_push(s, kv);
    } else {
        let init = s.drop_last();
        assert(keys_distinct(init)) by {
            assert forall|a: int, b: int| 0 <= a < b < init.len() implies (#[trigger] init[a]).0
                != (#[trigger] init[b]).0 by {
                assert(init[a] == s[a] && init[b] == s[b]);
            }
        }
        lemma_map_of_dom(init, kv.0);
        if map_of(init).dom().contains(kv.0) {
            let j = choose|j: int| 0 <= j < init.len() && (#[trigger] init[j]).0 == kv.0;
            assert(s[j] == init[j]);
        }
        assert(t.drop_last() =~= init.insert(i, kv));
        assert(t.last() == s.last());
        lemma_map_of_insert(init, i, kv);
        assert(s[s.len() - 1] == s.last());
        assert(kv.0 != s.last().0);
        assert(map_of(t) =~= map_of(s).insert(kv.0, kv.1));
    }
}

pub open spec fn with_key<K, V>(k: K) -> spec_fn((K, V)) -> bool {
    |e: (K, V)| e.0 == k
}

/// The map's value for `k` comes from the last pair with key `k`.
pub proof fn lemma_map_of_last<K, V>(s: Seq<(K, V)>, k: K)
    ensures
        match crate::search::last_match(s, with_key::<K, V>(k)) {
            Some(i) => map_of(s).dom().contains(k) && map_of(s)[k] == s[i].1,
            None => !map_of(s).dom().contains(k),
        },
    decreases s.len(),
{
    if s.len() > 0 {
        lemma_map_of_last(s.drop_last(), k);
        crate::search::lemma_last_match(s.drop_last(), with_key::<K, V>(k));
        if s.last().0 != k {
            match crate::search::last_match(s.drop_last(), with_key::<K, V>(k)) {
                Some(i) => {
                    assert(s.drop_last()[i] == s[i]);
                },
                None => {},
            }
        }
    }
}

/// The first element of `s` with key `k` carries the map's value for `k`.
pub proof fn lemma_map_of_first<K, V>(s: Seq<(K, V)>, i: int, k: K)
    requires
        keys_distinct(s),
        0 <= i < s.len(),
        s[i].0 == k,
    ensures
        map_of(s).dom().contains(k),
        map_of(s)[k] == s[i].1,
{
    lemma_map_of_index(s, i);
}

pub proof fn lemma_map_of_absent<K, V>(s: Seq<(K, V)>, k: K)
    requires
        forall|j: int| 0 <= j < s.len() ==> (#[trigger] s[j]).0 != k,
    ensures
        !map_of(s).dom().contains(k),
{
    lemma_map_of_dom(s, k);
}

pub proof fn lemma_distinct_push<A>(s: Seq<A>, x: A)
    requires
        distinct(s),
        !s.contains(x),
    ensures
        distinct(s.push(x)),
        s.push(x).to_set() == s.to_set().insert(x),
{
    let t = s.push(x);
    assert forall|a: int, b: int| 0 <= a < b < t.len() implies t[a] != t[b] by {
        assert(t[a] == s[a]);
        if b < s.len() {
            assert(t[b] == s[b]);
        }
    }
    assert forall|y: A| t.contains(y) == s.to_set().insert(x).contains(y) by {
        if t.contains(y) && y != x {
            let j = choose|j: int| 0 <= j < t.len() && t[j] == y;
            assert(s[j] == y);
        }
        if s.contains(y) {
            let j = choose|j: int| 0 <= j < s.len() && s[j] == y;
            assert(t[j] == y);
        }
        if y == x {
            assert(t[s.len() as int] == x);
        }
    }
    assert(t.to_set() =~= s.to_set().insert(x));
}

pub proof fn lemma_distinct_remove<A>(s: Seq<A>, k: int)
    requires
        distinct(s),
        0 <= k < s.len(),
    ensures
        distinct(s.remove(k)),
        s.remove(k).to_set() == s.to_set().remove(s[k]),
{
    let t = s.remove(k);
    assert forall|a: int, b: int| 0 <= a < b < t.len() implies t[a] != t[b] by {
        let a2 = if a < k { a } else { a + 1 };
        let b2 = if b < k { b } else { b + 1 };
        assert(t[a] == s[a2] && t[b] == s[b2]);
    }
    assert forall|y: A| t.contains(y) == s.to_set().remove(s[k]).contains(y) by {
        if t.contains(y) {
            let j = choose|j: int| 0 <= j < t.len() && t[j] == y;
            let j2 = if j < k { j } else { j + 1 };
            assert(t[j] == s[j2]);
        }
        if s.contains(y) && y != s[k] {
            let j = choose|j: int| 0 <= j < s.len() && s[j] == y;
            let j2 = if j < k { j } else { j - 1 };
            assert(t[j2] == s[j]);
        }
    }
    assert(t.to_set() =~= s.to_set().remove(s[k]));
}

} // verus!
