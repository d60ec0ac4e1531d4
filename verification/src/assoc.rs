//! Association sequences: the mapping that a sequence of key/value pairs
//! denotes (later pairs win), and how updates to the sequence act on that
//! mapping when keys are unique.

use vstd::prelude::*;

verus! {

/// The mapping a sequence of pairs denotes; a key's value is the one in
/// the last pair that holds it.
pub open spec fn assoc_map<K, V>(s: Seq<(K, V)>) -> Map<K, V>
    decreases s.len(),
{
    if s.len() == 0 {
        Map::empty()
    } else {
        assoc_map(s.drop_last()).insert(s.last().0, s.last().1)
    }
}

/// No key occurs in two pairs.
pub open spec fn distinct_keys<K, V>(s: Seq<(K, V)>) -> bool {
    forall|i: int, j: int| 0 <= i < j < s.len() ==> s[i].0 != s[j].0
}

/// Updating the pair at `j` with a new value, when keys are unique, is
/// insertion into the denoted mapping.
pub proof fn lemma_assoc_map_update<K, V>(s: Seq<(K, V)>, j: int, value: V)
    requires
        0 <= j < s.len(),
        distinct_keys(s),
    ensures
        assoc_map(s.update(j, (s[j].0, value))) == assoc_map(s).insert(s[j].0, value),
    decreases s.len(),
{
    let t = s.update(j, (s[j].0, value));
    if j == s.len() - 1 {
        assert(t.drop_last() =~= s.drop_last());
        assert(assoc_map(t) =~= assoc_map(s).insert(s[j].0, value));
    } else {
        assert(t.drop_last() =~= s.drop_last().update(j, (s[j].0, value)));
        assert(distinct_keys(s.drop_last()));
        lemma_assoc_map_update(s.drop_last(), j, value);
        assert(t.last() == s.last());
        assert(s[j].0 != s.last().0);
        assert(assoc_map(t) =~= assoc_map(s).insert(s[j].0, value));
    }
}

/// The key of any pair is in the denoted mapping.
pub proof fn lemma_assoc_map_present<K, V>(s: Seq<(K, V)>, j: int)
    requires
        0 <= j < s.len(),
    ensures
        assoc_map(s).dom().contains(s[j].0),
    decreases s.len(),
{
    if j < s.len() - 1 {
        lemma_assoc_map_present(s.drop_last(), j);
    }
}

/// When keys are unique, each pair's key maps to that pair's value.
pub proof fn lemma_assoc_map_index<K, V>(s: Seq<(K, V)>, j: int)
    requires
        0 <= j < s.len(),
        distinct_keys(s),
    ensures
        assoc_map(s).dom().contains(s[j].0),
        assoc_map(s)[s[j].0] == s[j].1,
    decreases s.len(),
{
    if j < s.len() - 1 {
        assert(distinct_keys(s.drop_last()));
        lemma_assoc_map_index(s.drop_last(), j);
        assert(s[j].0 != s.last().0);
    }
}

/// A key held by no pair is not in the denoted mapping.
pub proof fn lemma_assoc_map_absent<K, V>(s: Seq<(K, V)>, key: K)
    requires
        forall|a: int| 0 <= a < s.len() ==> s[a].0 != key,
    ensures
        !assoc_map(s).dom().contains(key),
    decreases s.len(),
{
    if s.len() > 0 {
        lemma_assoc_map_absent(s.drop_last(), key);
    }
}

/// A key absent from the denoted mapping is held by no pair.
pub proof fn lemma_assoc_map_absent_keys<K, V>(s: Seq<(K, V)>, key: K)
    requires
        !assoc_map(s).dom().contains(key),
    ensures
        forall|a: int| 0 <= a < s.len() ==> s[a].0 != key,
{
    assert forall|a: int| 0 <= a < s.len() implies s[a].0 != key by {
        if s[a].0 == key {
            lemma_assoc_map_present(s, a);
        }
    }
}

/// How a write of `value` under `key` acts on a pair sequence: the pair
/// holding the key is updated in place, or a new pair is appended.
pub open spec fn updated_entries<K, V>(
    s_old: Seq<(K, V)>,
    s_new: Seq<(K, V)>,
    key: K,
    value: V,
) -> bool {
    if assoc_map(s_old).dom().contains(key) {
        exists|j: int|
            0 <= j < s_old.len() && s_old[j].0 == key && s_new == s_old.update(j, (key, value))
    } else {
        s_new == s_old.push((key, value))
    }
}

/// A write under `key`, when keys are unique, is insertion into the
/// denoted mapping, keeps keys unique, and leaves every other pair alone.
pub proof fn lemma_updated_entries<K, V>(s_old: Seq<(K, V)>, s_new: Seq<(K, V)>, key: K, value: V)
    requires
        distinct_keys(s_old),
        updated_entries(s_old, s_new, key, value),
    ensures
        assoc_map(s_new) == assoc_map(s_old).insert(key, value),
        distinct_keys(s_new),
        forall|i: int|
            0 <= i < s_new.len() ==> if (#[trigger] s_new[i]).0 == key {
                s_new[i].1 == value
            } else {
                exists|j: int| 0 <= j < s_old.len() && s_new[i] == s_old[j]
            },
{
    if assoc_map(s_old).dom().contains(key) {
        let j = choose|j: int|
            0 <= j < s_old.len() && s_old[j].0 == key && s_new == s_old.update(j, (key, value));
        assert(s_old.update(j, (key, value)) == s_old.update(j, (s_old[j].0, value)));
        lemma_assoc_map_update(s_old, j, value);
        assert forall|a: int, b: int|
            0 <= a < b < s_new.len() implies s_new[a].0 != s_new[b].0 by {
            assert(s_new[a].0 == s_old[a].0);
            assert(s_new[b].0 == s_old[b].0);
        }
        assert forall|i: int|
            0 <= i < s_new.len() && (#[trigger] s_new[i]).0 != key implies exists|k: int|
            0 <= k < s_old.len() && s_new[i] == s_old[k] by {
            assert(s_new[i] == s_old[i]);
        }
        assert forall|i: int|
            0 <= i < s_new.len() && (#[trigger] s_new[i]).0 == key implies s_new[i].1 == value by {
            if i != j {
                assert(s_new[i] == s_old[i]);
                assert(s_old[i].0 != s_old[j].0);
            }
        }
    } else {
        lemma_assoc_map_absent_keys(s_old, key);
        assert(s_new.drop_last() =~= s_old);
        assert forall|a: int, b: int|
            0 <= a < b < s_new.len() implies s_new[a].0 != s_new[b].0 by {
            assert(s_new[a] == s_old[a]);
            if b < s_old.len() {
                assert(s_new[b] == s_old[b]);
            } else {
                assert(s_new[b] == (key, value));
            }
        }
        assert forall|i: int|
            0 <= i < s_new.len() && (#[trigger] s_new[i]).0 != key implies exists|k: int|
            0 <= k < s_old.len() && s_new[i] == s_old[k] by {
            assert(s_new[i] == s_old[i]);
        }
    }
}

/// Removing the pair at `j`, when keys are unique, removes its key from
/// the denoted mapping.
pub proof fn lemma_assoc_map_remove<K, V>(s: Seq<(K, V)>, j: int)
    requires
        0 <= j < s.len(),
        distinct_keys(s),
    ensures
        assoc_map(s.remove(j)) == assoc_map(s).remove(s[j].0),
    decreases s.len(),
{
    if j == s.len() - 1 {
        assert(s.remove(j) =~= s.drop_last());
        assert(forall|a: int| 0 <= a < s.drop_last().len() ==> s.drop_last()[a].0 != s[j].0);
        lemma_assoc_map_absent(s.drop_last(), s[j].0);
        assert(assoc_map(s.remove(j)) =~= assoc_map(s).remove(s[j].0));
    } else {
        assert(s.remove(j).drop_last() =~= s.drop_last().remove(j));
        assert(distinct_keys(s.drop_last()));
        lemma_assoc_map_remove(s.drop_last(), j);
        assert(s.remove(j).last() == s.last());
        assert(s[j].0 != s.last().0);
        assert(assoc_map(s.remove(j)) =~= assoc_map(s).remove(s[j].0));
    }
}

} // verus!
