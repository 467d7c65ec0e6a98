//! Bounded associative tables, stored as vectors of key/value pairs with
//! pairwise-distinct keys and read in specifications as a `Map`.
//!
//! Every per-buyer table of a sale (allocations, purchases, vestings,
//! claims) is such a vector; `table_map` is its mathematical reading and
//! `keys_distinct` the uniqueness invariant that makes the reading faithful.

use vstd::prelude::*;

verus! {

/// No key occurs twice.
pub open spec fn keys_distinct<V>(t: Seq<(u64, V)>) -> bool {
    forall|i: int, j: int| 0 <= i < j < t.len() ==> t[i].0 != t[j].0
}

/// The mapping a key/value sequence denotes: later entries win, which is
/// irrelevant once `keys_distinct` holds.
pub open spec fn table_map<V>(t: Seq<(u64, V)>) -> Map<u64, V>
    decreases t.len(),
{
    if t.len() == 0 {
        Map::empty()
    } else {
        table_map(t.drop_last()).insert(t.last().0, t.last().1)
    }
}

/// The sum of the values of a sequence of key/amount pairs.
pub open spec fn sum_amounts(t: Seq<(u64, u64)>) -> int
    decreases t.len(),
{
    if t.len() == 0 {
        0
    } else {
        sum_amounts(t.drop_last()) + t.last().1
    }
}

/// A key is in the table's map exactly when some entry carries it.
pub proof fn lemma_table_map_contains<V>(t: Seq<(u64, V)>, k: u64)
    ensures
        table_map(t).contains_key(k) <==> (exists|i: int| 0 <= i < t.len() && t[i].0 == k),
    decreases t.len(),
{
    if t.len() == 0 {
    } else {
        lemma_table_map_contains(t.drop_last(), k);
        if t.last().0 == k {
            assert(t[t.len() - 1].0 == k);
        } else {
            if exists|i: int| 0 <= i < t.len() && t[i].0 == k {
                let i = choose|i: int| 0 <= i < t.len() && t[i].0 == k;
                assert(t.drop_last()[i] == t[i]);
            }
        }
    }
}

/// With distinct keys, the map reads each entry back exactly.
pub proof fn lemma_table_map_at<V>(t: Seq<(u64, V)>, i: int)
    requires
        keys_distinct(t),
        0 <= i < t.len(),
    ensures
        table_map(t).contains_key(t[i].0),
        table_map(t)[t[i].0] == t[i].1,
    decreases t.len(),
{
    if i == t.len() - 1 {
    } else {
        assert(t.drop_last()[i] == t[i]);
        lemma_table_map_at(t.drop_last(), i);
        assert(t[i].0 != t.last().0);
    }
}

/// Overwriting the value at position `i` updates the map at that key.
pub proof fn lemma_table_map_update<V>(t: Seq<(u64, V)>, i: int, v: V)
    requires
        keys_distinct(t),
        0 <= i < t.len(),
    ensures
        keys_distinct(t.update(i, (t[i].0, v))),
        table_map(t.update(i, (t[i].0, v))) == table_map(t).insert(t[i].0, v),
    decreases t.len(),
{
    let u = t.update(i, (t[i].0, v));
    assert(forall|m: int, n: int| 0 <= m < n < u.len() ==> u[m].0 != u[n].0) by {
        assert(forall|m: int| 0 <= m < t.len() ==> u[m].0 == t[m].0);
    }
    if i == t.len() - 1 {
        assert(u.drop_last() =~= t.drop_last());
        assert(table_map(u) =~= table_map(t).insert(t[i].0, v));
    } else {
        assert(u.drop_last() =~= t.drop_last().update(i, (t[i].0, v)));
        assert(t.drop_last()[i] == t[i]);
        lemma_table_map_update(t.drop_last(), i, v);
        // the last entry's key differs from t[i].0, so the two inserts commute
        assert(t.last().0 != t[i].0);
        assert(table_map(u) =~= table_map(t).insert(t[i].0, v));
    }
}

/// Appending a fresh key inserts it into the map.
pub proof fn lemma_table_map_push<V>(t: Seq<(u64, V)>, k: u64, v: V)
    requires
        keys_distinct(t),
        forall|i: int| 0 <= i < t.len() ==> t[i].0 != k,
    ensures
        keys_distinct(t.push((k, v))),
        table_map(t.push((k, v))) == table_map(t).insert(k, v),
{
    let p = t.push((k, v));
    assert(forall|m: int| 0 <= m < t.len() ==> p[m] == t[m]);
    assert(p.drop_last() =~= t);
}

/// Overwriting the value at position `i` shifts the sum by the difference.
pub proof fn lemma_sum_amounts_update(t: Seq<(u64, u64)>, i: int, v: u64)
    requires
        0 <= i < t.len(),
    ensures
        sum_amounts(t.update(i, (t[i].0, v))) == sum_amounts(t) - t[i].1 + v,
    decreases t.len(),
{
    let u = t.update(i, (t[i].0, v));
    if i == t.len() - 1 {
        assert(u.drop_last() =~= t.drop_last());
    } else {
        assert(u.drop_last() =~= t.drop_last().update(i, (t[i].0, v)));
        assert(t.drop_last()[i] == t[i]);
        lemma_sum_amounts_update(t.drop_last(), i, v);
        assert(u.last() == t.last());
    }
}

/// Appending an entry adds its amount to the sum.
pub proof fn lemma_sum_amounts_push(t: Seq<(u64, u64)>, k: u64, v: u64)
    ensures
        sum_amounts(t.push((k, v))) == sum_amounts(t) + v,
{
    assert(t.push((k, v)).drop_last() =~= t);
}

/// The position of `key` in the table, if any.
pub fn table_index_of<V>(t: &Vec<(u64, V)>, key: u64) -> (r: Option<usize>)
    ensures
        match r {
            Some(i) => i < t@.len() && t@[i as int].0 == key,
            None => forall|j: int| 0 <= j < t@.len() ==> t@[j].0 != key,
        },
{
    let mut i: usize = 0;
    while i < t.len()
        invariant
            i <= t@.len(),
            forall|j: int| 0 <= j < i ==> t@[j].0 != key,
        decreases t@.len() - i,
    {
        if t[i].0 == key {
            return Some(i);
        }
        i = i + 1;
    }
    None
}

/// Look a key up.
pub fn table_get<V: Copy>(t: &Vec<(u64, V)>, key: u64) -> (r: Option<V>)
    requires
        keys_distinct(t@),
    ensures
        r is Some <==> table_map(t@).contains_key(key),
        r is Some ==> r->Some_0 == table_map(t@)[key],
{
    proof {
        lemma_table_map_contains(t@, key);
    }
    match table_index_of(t, key) {
        Some(i) => {
            proof {
                lemma_table_map_at(t@, i as int);
            }
            Some(t[i].1)
        },
        None => None,
    }
}

/// Insert a key or overwrite its value; reports whether the key was new.
pub fn table_upsert<V: Copy>(t: &mut Vec<(u64, V)>, key: u64, value: V) -> (was_new: bool)
    requires
        keys_distinct(old(t)@),
    ensures
        keys_distinct(final(t)@),
        table_map(final(t)@) == table_map(old(t)@).insert(key, value),
        was_new == !table_map(old(t)@).contains_key(key),
        final(t)@.len() == old(t)@.len() + (if was_new { 1int } else { 0int }),
{
    proof {
        lemma_table_map_contains(t@, key);
    }
    match table_index_of(t, key) {
        Some(i) => {
            let ghost t0 = t@;
            let mut pair = t.remove(i);
            pair.1 = value;
            t.insert(i, pair);
            proof {
                assert(t@ =~= t0.update(i as int, (key, value)));
                lemma_table_map_update(t0, i as int, value);
            }
            false
        },
        None => {
            let ghost t0 = t@;
            t.push((key, value));
            proof {
                lemma_table_map_push(t0, key, value);
            }
            true
        },
    }
}

/// Add `amount` to a key's value, inserting the key if it is absent.
pub fn table_accumulate(t: &mut Vec<(u64, u64)>, key: u64, amount: u64) -> (was_new: bool)
    requires
        keys_distinct(old(t)@),
        table_map(old(t)@).contains_key(key) ==> table_map(old(t)@)[key] + amount <= u64::MAX,
    ensures
        keys_distinct(final(t)@),
        was_new == !table_map(old(t)@).contains_key(key),
        table_map(final(t)@) == table_map(old(t)@).insert(
            key,
            (if was_new { amount } else { (table_map(old(t)@)[key] + amount) as u64 }),
        ),
        final(t)@.len() == old(t)@.len() + (if was_new { 1int } else { 0int }),
        sum_amounts(final(t)@) == sum_amounts(old(t)@) + amount,
{
    proof {
        lemma_table_map_contains(t@, key);
    }
    match table_index_of(t, key) {
        Some(i) => {
            let ghost t0 = t@;
            proof {
                lemma_table_map_at(t0, i as int);
            }
            let mut pair = t.remove(i);
            pair.1 = pair.1 + amount;
            t.insert(i, pair);
            proof {
                assert(t@ =~= t0.update(i as int, (key, (t0[i as int].1 + amount) as u64)));
                lemma_table_map_update(t0, i as int, (t0[i as int].1 + amount) as u64);
                lemma_sum_amounts_update(t0, i as int, (t0[i as int].1 + amount) as u64);
            }
            false
        },
        None => {
            let ghost t0 = t@;
            t.push((key, amount));
            proof {
                lemma_table_map_push(t0, key, amount);
                lemma_sum_amounts_push(t0, key, amount);
            }
            true
        },
    }
}

/// Whether a plain vector contains a value.
pub fn vec_contains(v: &Vec<u64>, x: u64) -> (r: bool)
    ensures
        r == v@.contains(x),
{
    let mut i: usize = 0;
    while i < v.len()
        invariant
            i <= v@.len(),
            forall|j: int| 0 <= j < i ==> v@[j] != x,
        decreases v@.len() - i,
    {
        if v[i] == x {
            return true;
        }
        i = i + 1;
    }
    false
}

} // verus!
