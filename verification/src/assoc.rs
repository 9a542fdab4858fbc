//! Key-value lists: sequences of pairs looked up by the first entry with a
//! key, and set by replacing that entry in place or appending one.

use vstd::prelude::*;

verus! {

/// The position of the first entry with this key.
pub open spec fn position_of<K, V>(s: Seq<(K, V)>, k: K) -> Option<int>
    decreases s.len(),
{
    if s.len() == 0 {
        None
    } else {
        match position_of(s.drop_last(), k) {
            Some(i) => Some(i),
            None => if s.last().0 == k {
                Some(s.len() - 1)
            } else {
                None
            },
        }
    }
}

/// A key-value list after setting `k` to `v`: the entry for `k` is replaced
/// in place, or appended when there is none.
pub open spec fn set_entry<K, V>(s: Seq<(K, V)>, k: K, v: V) -> Seq<(K, V)> {
    match position_of(s, k) {
        Some(i) => s.update(i, (k, v)),
        None => s.push((k, v)),
    }
}

/// The value of the first entry with this key.
pub open spec fn lookup<K, V>(s: Seq<(K, V)>, k: K) -> Option<V> {
    match position_of(s, k) {
        Some(i) => Some(s[i].1),
        None => None,
    }
}

/// A first match within a prefix is the first match of the whole list.
pub proof fn lemma_position_of_extend<K, V>(s: Seq<(K, V)>, k: K, i: int)
    requires
        0 <= i < s.len(),
        position_of(s.subrange(0, i + 1), k) == Some(i),
    ensures
        position_of(s, k) == Some(i),
    decreases s.len(),
{
    if s.len() > i + 1 {
        assert(s.drop_last().subrange(0, i + 1) =~= s.subrange(0, i + 1));
        lemma_position_of_extend(s.drop_last(), k, i);
    } else {
        assert(s.subrange(0, i + 1) =~= s);
    }
}

/// A found position is in range and holds the key.
pub proof fn lemma_position_of_bounds<K, V>(s: Seq<(K, V)>, k: K)
    ensures
        position_of(s, k) matches Some(i) ==> 0 <= i < s.len() && s[i].0 == k,
    decreases s.len(),
{
    if s.len() > 0 {
        lemma_position_of_bounds(s.drop_last(), k);
    }
}

/// Appending an entry finds what was found before, or the new entry.
pub proof fn lemma_position_of_push<K, V>(s: Seq<(K, V)>, e: (K, V), k: K)
    ensures
        position_of(s.push(e), k) == match position_of(s, k) {
            Some(i) => Some(i),
            None => if e.0 == k {
                Some(s.len() as int)
            } else {
                None
            },
        },
{
    assert(s.push(e).drop_last() =~= s);
}

/// Replacing the first entry of a key in place moves no key's first entry.
pub proof fn lemma_position_of_update<K, V>(s: Seq<(K, V)>, k: K, v: V, i: int, k2: K)
    requires
        position_of(s, k) == Some(i),
    ensures
        position_of(s.update(i, (k, v)), k2) == position_of(s, k2),
    decreases s.len(),
{
    lemma_position_of_bounds(s, k);
    lemma_position_of_bounds(s.drop_last(), k);
    let u = s.update(i, (k, v));
    if i < s.len() - 1 {
        assert(position_of(s.drop_last(), k) == Some(i));
        assert(u.drop_last() =~= s.drop_last().update(i, (k, v)));
        lemma_position_of_update(s.drop_last(), k, v, i, k2);
        assert(u.last() == s.last());
    } else {
        assert(u.drop_last() =~= s.drop_last());
        assert(position_of(s.drop_last(), k) is None);
        assert(u.last().0 == s.last().0);
    }
}

/// Setting a key reads back its new value and leaves other keys as they were.
pub proof fn lemma_lookup_set_entry<K, V>(s: Seq<(K, V)>, k: K, v: V, k2: K)
    ensures
        lookup(set_entry(s, k, v), k) == Some(v),
        k2 != k ==> lookup(set_entry(s, k, v), k2) == lookup(s, k2),
{
    lemma_position_of_bounds(s, k);
    lemma_position_of_bounds(s, k2);
    match position_of(s, k) {
        Some(i) => {
            lemma_position_of_update(s, k, v, i, k);
            lemma_position_of_update(s, k, v, i, k2);
        },
        None => {
            lemma_position_of_push(s, (k, v), k);
            lemma_position_of_push(s, (k, v), k2);
        },
    }
}

/// A key that is not found is held by no entry.
pub proof fn lemma_position_of_none<K, V>(s: Seq<(K, V)>, k: K)
    ensures
        position_of(s, k) is None ==> forall|j: int| 0 <= j < s.len() ==> s[j].0 != k,
    decreases s.len(),
{
    if s.len() > 0 {
        lemma_position_of_none(s.drop_last(), k);
        if position_of(s, k) is None {
            assert forall|j: int| 0 <= j < s.len() implies s[j].0 != k by {
                if j < s.len() - 1 {
                    assert(s[j] == s.drop_last()[j]);
                }
            }
        }
    }
}

/// No two entries share a key.
pub open spec fn keys_distinct<K, V>(s: Seq<(K, V)>) -> bool {
    forall|i: int, j: int| 0 <= i < j < s.len() ==> s[i].0 != s[j].0
}

/// Setting a key keeps the keys of a list distinct.
pub proof fn lemma_set_entry_keeps_distinct<K, V>(s: Seq<(K, V)>, k: K, v: V)
    requires
        keys_distinct(s),
    ensures
        keys_distinct(set_entry(s, k, v)),
{
    lemma_position_of_bounds(s, k);
    lemma_position_of_none(s, k);
    let r = set_entry(s, k, v);
    assert forall|i: int, j: int| 0 <= i < j < r.len() implies r[i].0 != r[j].0 by {
        match position_of(s, k) {
            Some(p) => {
                if i != p && j != p {
                    assert(r[i] == s[i] && r[j] == s[j]);
                } else if i == p {
                    assert(r[j] == s[j]);
                } else {
                    assert(r[i] == s[i]);
                }
            },
            None => {
                assert(r[i] == s[i]);
                if j < s.len() {
                    assert(r[j] == s[j]);
                }
            },
        }
    }
}

} // verus!
