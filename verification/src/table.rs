//! Tables keyed by text: a `Vec` of `(String, V)` pairs whose keys are
//! distinct, read as a map from each key to its value. Inserting a key
//! that is already present replaces its value in place; a new key goes
//! to the end, so the table also keeps the order of first insertion.

use vstd::prelude::*;

use crate::text::str_eq;

verus! {

/// No key occurs twice.
pub open spec fn keys_distinct<V>(s: Seq<(String, V)>) -> bool {
    forall|i: int, j: int|
        #![trigger s[i], s[j]]
        0 <= i < s.len() && 0 <= j < s.len() && i != j ==> s[i].0@ != s[j].0@
}

/// The map that the entries describe; of two entries with one key, the
/// later one counts.
pub open spec fn table_map<V>(s: Seq<(String, V)>) -> Map<Seq<char>, V>
    decreases s.len(),
{
    if s.len() == 0 {
        Map::empty()
    } else {
        table_map(s.drop_last()).insert(s.last().0@, s.last().1)
    }
}

proof fn lemma_distinct_drop_last<V>(s: Seq<(String, V)>)
    requires
        keys_distinct(s),
        s.len() > 0,
    ensures
        keys_distinct(s.drop_last()),
        forall|i: int| 0 <= i < s.len() - 1 ==> (#[trigger] s[i]).0@ != s.last().0@,
{
    let d = s.drop_last();
    assert forall|i: int, j: int|
        0 <= i < d.len() && 0 <= j < d.len() && i != j implies d[i].0@ != d[j].0@ by {
        assert(d[i] == s[i] && d[j] == s[j]);
    }
    assert forall|i: int| 0 <= i < s.len() - 1 implies (#[trigger] s[i]).0@ != s.last().0@ by {
        assert(s[s.len() - 1] == s.last());
    }
}

/// Every entry of a table with distinct keys is in its map.
pub proof fn lemma_table_map_entry<V>(s: Seq<(String, V)>, i: int)
    requires
        keys_distinct(s),
        0 <= i < s.len(),
    ensures
        table_map(s).contains_key(s[i].0@),
        table_map(s)[s[i].0@] == s[i].1,
    decreases s.len(),
{
    if i < s.len() - 1 {
        lemma_distinct_drop_last(s);
        lemma_table_map_entry(s.drop_last(), i);
        assert(s.drop_last()[i] == s[i]);
    }
}

/// Every key of the map is the key of some entry.
pub proof fn lemma_table_map_key<V>(s: Seq<(String, V)>, k: Seq<char>) -> (i: int)
    requires
        table_map(s).contains_key(k),
    ensures
        0 <= i < s.len(),
        s[i].0@ == k,
    decreases s.len(),
{
    if s.len() == 0 {
        assert(false);
        0
    } else if s.last().0@ == k {
        s.len() - 1
    } else {
        let j = lemma_table_map_key(s.drop_last(), k);
        assert(s.drop_last()[j] == s[j]);
        j
    }
}

/// A table with distinct keys has as many keys as entries.
pub proof fn lemma_table_map_len<V>(s: Seq<(String, V)>)
    requires
        keys_distinct(s),
    ensures
        table_map(s).dom().finite(),
        table_map(s).dom().len() == s.len(),
    decreases s.len(),
{
    if s.len() > 0 {
        lemma_distinct_drop_last(s);
        lemma_table_map_len(s.drop_last());
        if table_map(s.drop_last()).contains_key(s.last().0@) {
            let j = lemma_table_map_key(s.drop_last(), s.last().0@);
            assert(s.drop_last()[j] == s[j]);
        }
    }
}

/// Replacing the value of an entry replaces it in the map.
proof fn lemma_table_map_update<V>(s: Seq<(String, V)>, p: int, e: (String, V))
    requires
        keys_distinct(s),
        0 <= p < s.len(),
        e.0@ == s[p].0@,
    ensures
        table_map(s.update(p, e)) == table_map(s).insert(e.0@, e.1),
    decreases s.len(),
{
    let u = s.update(p, e);
    if p == s.len() - 1 {
        assert(u.drop_last() =~= s.drop_last());
        assert(table_map(s.drop_last()).insert(e.0@, s.last().1).insert(e.0@, e.1) =~= table_map(
            s.drop_last(),
        ).insert(e.0@, e.1));
    } else {
        lemma_distinct_drop_last(s);
        assert(u.drop_last() =~= s.drop_last().update(p, e));
        lemma_table_map_update(s.drop_last(), p, e);
        assert(s.last().0@ != e.0@) by {
            assert(s[p].0@ != s.last().0@);
        }
        assert(u.last() == s.last());
        assert(table_map(s.drop_last()).insert(e.0@, e.1).insert(s.last().0@, s.last().1)
            =~= table_map(s.drop_last()).insert(s.last().0@, s.last().1).insert(e.0@, e.1));
    }
}

/// The position of the entry with this key, if there is one.
pub fn table_position<V>(t: &Vec<(String, V)>, key: &str) -> (r: Option<usize>)
    ensures
        match r {
            Some(i) => i < t@.len() && t@[i as int].0@ == key@,
            None => forall|i: int| 0 <= i < t@.len() ==> (#[trigger] t@[i]).0@ != key@,
        },
{
    let mut i: usize = 0;
    while i < t.len()
        invariant
            i <= t@.len(),
            forall|j: int| 0 <= j < i ==> (#[trigger] t@[j]).0@ != key@,
        decreases t@.len() - i,
    {
        if str_eq(t[i].0.as_str(), key) {
            return Some(i);
        }
        i = i + 1;
    }
    None
}

/// The value stored under a key.
pub fn table_get<'a, V>(t: &'a Vec<(String, V)>, key: &str) -> (r: Option<&'a V>)
    requires
        keys_distinct(t@),
    ensures
        match r {
            Some(v) => table_map(t@).contains_key(key@) && table_map(t@)[key@] == *v,
            None => !table_map(t@).contains_key(key@),
        },
{
    match table_position(t, key) {
        Some(i) => {
            proof {
                lemma_table_map_entry(t@, i as int);
            }
            Some(&t[i].1)
        },
        None => {
            proof {
                if table_map(t@).contains_key(key@) {
                    let j = lemma_table_map_key(t@, key@);
                    assert(t@[j].0@ != key@);
                }
            }
            None
        },
    }
}

/// Stores `value` under `key`, replacing the value of an entry with the
/// same key in place or adding an entry at the end.
pub fn table_insert<V>(t: &mut Vec<(String, V)>, key: String, value: V)
    requires
        keys_distinct(old(t)@),
    ensures
        keys_distinct(final(t)@),
        table_map(final(t)@) == table_map(old(t)@).insert(key@, value),
        match table_position_spec(old(t)@, key@) {
            Some(p) => final(t)@ == old(t)@.update(p, (key, value)),
            None => final(t)@ == old(t)@.push((key, value)),
        },
{
    let ghost k = key@;
    match table_position(t, key.as_str()) {
        Some(i) => {
            proof {
                lemma_table_map_update(t@, i as int, (key, value));
                lemma_position_spec_found(t@, i as int);
            }
            t.set(i, (key, value));
        },
        None => {
            proof {
                lemma_position_spec_missing(t@, k);
            }
            t.push((key, value));
            assert(t@.drop_last() =~= old(t)@);
        },
    }
}

/// The position of the entry with key `k` in a table with distinct keys.
pub open spec fn table_position_spec<V>(s: Seq<(String, V)>, k: Seq<char>) -> Option<int> {
    if exists|i: int| 0 <= i < s.len() && (#[trigger] s[i]).0@ == k {
        Some(choose|i: int| 0 <= i < s.len() && (#[trigger] s[i]).0@ == k)
    } else {
        None
    }
}

proof fn lemma_position_spec_found<V>(s: Seq<(String, V)>, i: int)
    requires
        keys_distinct(s),
        0 <= i < s.len(),
    ensures
        table_position_spec(s, s[i].0@) == Some(i),
{
    let k = s[i].0@;
    assert(exists|j: int| 0 <= j < s.len() && (#[trigger] s[j]).0@ == k);
    let c = choose|j: int| 0 <= j < s.len() && (#[trigger] s[j]).0@ == k;
    assert(s[c].0@ == k);
    if c != i {
        assert(s[c].0@ != s[i].0@);
    }
}

proof fn lemma_position_spec_missing<V>(s: Seq<(String, V)>, k: Seq<char>)
    requires
        forall|i: int| 0 <= i < s.len() ==> (#[trigger] s[i]).0@ != k,
    ensures
        table_position_spec(s, k) is None,
{
}

} // verus!
