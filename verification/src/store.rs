//! Key-value stores kept as vectors of entries with distinct string keys,
//! modelled as maps from character sequences to values.

use vstd::prelude::*;

verus! {

/// The map a sequence of key-value entries stands for; a later entry for
/// a key overrides an earlier one.
pub open spec fn map_of_entries<V>(entries: Seq<(Seq<char>, V)>) -> Map<Seq<char>, V>
    decreases entries.len(),
{
    if entries.len() == 0 {
        Map::empty()
    } else {
        map_of_entries(entries.drop_last()).insert(entries.last().0, entries.last().1)
    }
}

/// No two entries share a key.
pub open spec fn keys_distinct<V>(entries: Seq<(Seq<char>, V)>) -> bool {
    forall|i: int, j: int|
        0 <= i < j < entries.len() ==> (#[trigger] entries[i]).0 != (#[trigger] entries[j]).0
}

/// A key is in the map exactly when some entry holds it.
pub proof fn lemma_map_of_entries_contains<V>(entries: Seq<(Seq<char>, V)>, k: Seq<char>)
    ensures
        map_of_entries(entries).contains_key(k) <==> (exists|i: int|
            0 <= i < entries.len() && (#[trigger] entries[i]).0 == k),
    decreases entries.len(),
{
    if entries.len() > 0 {
        lemma_map_of_entries_contains(entries.drop_last(), k);
        if entries.last().0 == k {
            assert(entries[entries.len() - 1].0 == k);
        } else {
            if map_of_entries(entries).contains_key(k) {
                let i = choose|i: int|
                    0 <= i < entries.drop_last().len() && (#[trigger] entries.drop_last()[i]).0
                        == k;
                assert(entries[i].0 == k);
            }
            if exists|i: int| 0 <= i < entries.len() && (#[trigger] entries[i]).0 == k {
                let i = choose|i: int| 0 <= i < entries.len() && (#[trigger] entries[i]).0 == k;
                assert(entries.drop_last()[i].0 == k);
            }
        }
    }
}

/// With distinct keys, the map takes each entry's key to that entry's value.
pub proof fn lemma_map_of_entries_index<V>(entries: Seq<(Seq<char>, V)>, i: int)
    requires
        keys_distinct(entries),
        0 <= i < entries.len(),
    ensures
        map_of_entries(entries).contains_key(entries[i].0),
        map_of_entries(entries)[entries[i].0] == entries[i].1,
    decreases entries.len(),
{
    if i < entries.len() - 1 {
        assert(keys_distinct(entries.drop_last())) by {
            assert forall|p: int, q: int|
                0 <= p < q < entries.drop_last().len() implies (#[trigger] entries.drop_last()[p]).0
                != (#[trigger] entries.drop_last()[q]).0 by {
                assert(entries.drop_last()[p] == entries[p]);
                assert(entries.drop_last()[q] == entries[q]);
            }
        }
        lemma_map_of_entries_index(entries.drop_last(), i);
        assert(entries.drop_last()[i] == entries[i]);
        assert(entries.last().0 != entries[i].0);
    }
}

/// Appending an entry inserts its key into the map; if the key is fresh,
/// the keys stay distinct.
pub proof fn lemma_map_of_entries_push<V>(entries: Seq<(Seq<char>, V)>, k: Seq<char>, v: V)
    ensures
        map_of_entries(entries.push((k, v))) == map_of_entries(entries).insert(k, v),
        (keys_distinct(entries) && (forall|i: int|
            0 <= i < entries.len() ==> (#[trigger] entries[i]).0 != k)) ==> keys_distinct(
            entries.push((k, v)),
        ),
{
    assert(entries.push((k, v)).drop_last() =~= entries);
    if keys_distinct(entries) && (forall|i: int|
        0 <= i < entries.len() ==> (#[trigger] entries[i]).0 != k) {
        assert forall|p: int, q: int|
            0 <= p < q < entries.push((k, v)).len() implies (#[trigger] entries.push((k, v))[p]).0
            != (#[trigger] entries.push((k, v))[q]).0 by {
            assert(entries.push((k, v))[p] == entries[p]);
            if q < entries.len() {
                assert(entries.push((k, v))[q] == entries[q]);
            }
        }
    }
}

/// Replacing the value at an entry inserts under that entry's key, and
/// keeps the keys distinct.
pub proof fn lemma_map_of_entries_update<V>(entries: Seq<(Seq<char>, V)>, i: int, v: V)
    requires
        keys_distinct(entries),
        0 <= i < entries.len(),
    ensures
        map_of_entries(entries.update(i, (entries[i].0, v))) == map_of_entries(entries).insert(
            entries[i].0,
            v,
        ),
        keys_distinct(entries.update(i, (entries[i].0, v))),
    decreases entries.len(),
{
    let updated = entries.update(i, (entries[i].0, v));
    assert forall|p: int, q: int|
        0 <= p < q < updated.len() implies (#[trigger] updated[p]).0 != (#[trigger] updated[q]).0
        by {
        assert(entries[p].0 != entries[q].0);
    }
    if i == entries.len() - 1 {
        assert(updated.drop_last() =~= entries.drop_last());
        assert(map_of_entries(updated) == map_of_entries(entries.drop_last()).insert(
            entries[i].0,
            v,
        ));
        assert(map_of_entries(entries.drop_last()).insert(entries[i].0, v)
            =~= map_of_entries(entries).insert(entries[i].0, v));
    } else {
        assert(keys_distinct(entries.drop_last())) by {
            assert forall|p: int, q: int|
                0 <= p < q < entries.drop_last().len() implies (#[trigger] entries.drop_last()[p]).0
                != (#[trigger] entries.drop_last()[q]).0 by {
                assert(entries.drop_last()[p] == entries[p]);
                assert(entries.drop_last()[q] == entries[q]);
            }
        }
        lemma_map_of_entries_update(entries.drop_last(), i, v);
        assert(updated.drop_last() =~= entries.drop_last().update(i, (entries[i].0, v)));
        assert(updated.last() == entries.last());
        assert(map_of_entries(updated) == map_of_entries(entries.drop_last()).insert(
            entries[i].0,
            v,
        ).insert(entries.last().0, entries.last().1));
        assert(map_of_entries(entries.drop_last()).insert(entries[i].0, v).insert(
            entries.last().0,
            entries.last().1,
        ) =~= map_of_entries(entries).insert(entries[i].0, v));
    }
}

/// The entry holding a given key, if any: its index when present, and
/// the assurance that no entry holds the key when absent.
pub(crate) fn find_key<V>(entries: &Vec<(String, V)>, key: &String) -> (r: Option<usize>)
    ensures
        match r {
            Some(i) => i < entries@.len() && entries@[i as int].0@ == key@,
            None => forall|i: int| 0 <= i < entries@.len() ==> (#[trigger] entries@[i]).0@ != key@,
        },
{
    let n = entries.len();
    let mut i: usize = 0;
    while i < n
        invariant
            i <= n,
            n == entries@.len(),
            forall|j: int| 0 <= j < i ==> (#[trigger] entries@[j]).0@ != key@,
        decreases n - i,
    {
        if entries[i].0 == *key {
            return Some(i);
        }
        i = i + 1;
    }
    None
}

} // verus!
