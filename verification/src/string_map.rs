//! String maps held as (key, value) entries with distinct keys, in the
//! order their keys were first inserted.

use vstd::prelude::*;
use crate::attr_wrapper::{pairs_view, distinct_pair_keys};

verus! {

/// The map has an entry for `k`.
pub open spec fn has_key(m: Seq<(Seq<char>, Seq<char>)>, k: Seq<char>) -> bool {
    exists|i: int| 0 <= i < m.len() && m[i].0 == k
}

/// The position of the entry for `k` (meaningful where there is one).
pub open spec fn key_position(m: Seq<(Seq<char>, Seq<char>)>, k: Seq<char>) -> int {
    choose|i: int| 0 <= i < m.len() && m[i].0 == k
}

/// The map after `insert(k, v)`: an existing entry for `k` takes the new
/// value in its place, a new key is appended.
pub open spec fn map_insert_spec(m: Seq<(Seq<char>, Seq<char>)>, k: Seq<char>, v: Seq<char>) -> Seq<(Seq<char>, Seq<char>)> {
    if has_key(m, k) {
        m.update(key_position(m, k), (k, v))
    } else {
        m.push((k, v))
    }
}

/// The map built by inserting the pairs in turn: a later pair with the same
/// key replaces the value of an earlier one.
pub open spec fn map_of_pairs(ps: Seq<(Seq<char>, Seq<char>)>) -> Seq<(Seq<char>, Seq<char>)>
    decreases ps.len(),
{
    if ps.len() == 0 {
        Seq::empty()
    } else {
        map_insert_spec(map_of_pairs(ps.drop_last()), ps.last().0, ps.last().1)
    }
}

/// Inserting keeps the keys distinct.
pub proof fn lemma_map_insert_distinct(m: Seq<(Seq<char>, Seq<char>)>, k: Seq<char>, v: Seq<char>)
    requires
        distinct_pair_keys(m),
    ensures
        distinct_pair_keys(map_insert_spec(m, k, v)),
{
}

/// A map built from pairs has distinct keys.
pub proof fn lemma_map_of_pairs_distinct(ps: Seq<(Seq<char>, Seq<char>)>)
    ensures
        distinct_pair_keys(map_of_pairs(ps)),
    decreases ps.len(),
{
    if ps.len() > 0 {
        lemma_map_of_pairs_distinct(ps.drop_last());
        lemma_map_insert_distinct(map_of_pairs(ps.drop_last()), ps.last().0, ps.last().1);
    }
}

/// Inserts `value` under `key` into a map with distinct keys.
pub fn map_insert(map: &mut Vec<(String, String)>, key: String, value: String)
    requires
        distinct_pair_keys(pairs_view(old(map)@)),
    ensures
        pairs_view(final(map)@) == map_insert_spec(pairs_view(old(map)@), key@, value@),
        distinct_pair_keys(pairs_view(final(map)@)),
{
    let ghost m = pairs_view(map@);
    let ghost kv = key@;
    let ghost vv = value@;
    proof {
        lemma_map_insert_distinct(m, kv, vv);
    }
    let mut i: usize = 0;
    while i < map.len()
        invariant
            i <= map.len(),
            m == pairs_view(map@),
            kv == key@,
            vv == value@,
            map@ == old(map)@,
            distinct_pair_keys(m),
            forall|j: int| 0 <= j < i ==> m[j].0 != kv,
        decreases map.len() - i,
    {
        proof {
            assert(m[i as int] == (map@[i as int].0@, map@[i as int].1@));
        }
        let same: bool = map[i].0 == key;
        if same {
            proof {
                assert(map@[i as int].0@ == key@);
                assert(m[i as int].0 == kv);
                assert(has_key(m, kv));
                let p = key_position(m, kv);
                assert(p == i);
            }
            map.set(i, (key, value));
            proof {
                assert(pairs_view(map@) =~= map_insert_spec(m, kv, vv));
            }
            return;
        }
        i = i + 1;
    }
    map.push((key, value));
    proof {
        assert(pairs_view(map@) =~= map_insert_spec(m, kv, vv));
    }
}

/// The map of a sequence of (key, value) pairs, a later pair with the same
/// key replacing the value of an earlier one.
pub fn string_map_from_pairs(pairs: &Vec<(String, String)>) -> (m: Vec<(String, String)>)
    ensures
        pairs_view(m@) == map_of_pairs(pairs_view(pairs@)),
        distinct_pair_keys(pairs_view(m@)),
{
    let ghost ps = pairs_view(pairs@);
    let mut m: Vec<(String, String)> = Vec::new();
    let mut i: usize = 0;
    proof {
        assert(ps.take(0) =~= Seq::<(Seq<char>, Seq<char>)>::empty());
        assert(pairs_view(m@) =~= Seq::<(Seq<char>, Seq<char>)>::empty());
    }
    while i < pairs.len()
        invariant
            i <= pairs.len(),
            ps == pairs_view(pairs@),
            pairs_view(m@) == map_of_pairs(ps.take(i as int)),
            distinct_pair_keys(pairs_view(m@)),
        decreases pairs.len() - i,
    {
        proof {
            assert(ps.take(i + 1).drop_last() =~= ps.take(i as int));
            assert(ps.take(i + 1).last() == ps[i as int]);
        }
        map_insert(&mut m, pairs[i].0.clone(), pairs[i].1.clone());
        i = i + 1;
    }
    proof {
        assert(ps.take(pairs.len() as int) =~= ps);
    }
    m
}

} // verus!
