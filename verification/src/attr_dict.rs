//! The attribute set of the first mixer protocol: attribute names are
//! interned in a dictionary carried in the message itself, numbered from 1.

use vstd::prelude::*;
use crate::time::Timestamp;

verus! {

/// The map has an entry for `k`.
pub open spec fn int_map_has<V>(m: Seq<(i32, V)>, k: i32) -> bool {
    exists|i: int| 0 <= i < m.len() && m[i].0 == k
}

/// The map after `insert(k, v)`: an existing entry for `k` takes the new
/// value in its place, a new key is appended.
pub open spec fn int_map_insert_spec<V>(m: Seq<(i32, V)>, k: i32, v: V) -> Seq<(i32, V)> {
    if int_map_has(m, k) {
        m.update(choose|i: int| 0 <= i < m.len() && m[i].0 == k, (k, v))
    } else {
        m.push((k, v))
    }
}

/// No key occurs twice.
pub open spec fn int_keys_distinct<V>(m: Seq<(i32, V)>) -> bool {
    forall|i: int, j: int| 0 <= i < m.len() && 0 <= j < m.len() && i != j ==> m[i].0 != m[j].0
}

/// Inserts `v` under `k` into a map with distinct keys.
pub fn int_map_insert<V>(m: &mut Vec<(i32, V)>, k: i32, v: V)
    requires
        int_keys_distinct(old(m)@),
    ensures
        final(m)@ == int_map_insert_spec(old(m)@, k, v),
        int_keys_distinct(final(m)@),
{
    let ghost m0 = m@;
    let mut i: usize = 0;
    while i < m.len()
        invariant
            i <= m.len(),
            m@ == m0,
            m0 == old(m)@,
            int_keys_distinct(m0),
            forall|j: int| 0 <= j < i ==> m0[j].0 != k,
        decreases m.len() - i,
    {
        if m[i].0 == k {
            proof {
                assert(int_map_has(m0, k));
                let p = choose|p: int| 0 <= p < m0.len() && m0[p].0 == k;
                assert(p == i);
            }
            m.set(i, (k, v));
            assert(m@ =~= int_map_insert_spec(m0, k, v));
            return;
        }
        i = i + 1;
    }
    m.push((k, v));
}

/// The attributes of a message: its dictionary and the values by kind,
/// each keyed by the dictionary index of the attribute name.
pub struct Attributes {
    pub dictionary: Vec<(i32, String)>,
    pub string_attributes: Vec<(i32, String)>,
    pub int64_attributes: Vec<(i32, i64)>,
    pub timestamp_attributes: Vec<(i32, Timestamp)>,
    pub string_map_attributes: Vec<(i32, Vec<(i32, String)>)>,
}

/// The views of an index-to-string map.
pub open spec fn strs_view(m: Seq<(i32, String)>) -> Seq<(i32, Seq<char>)> {
    m.map_values(|e: (i32, String)| (e.0, e.1@))
}

/// The views of an index-to-string-map map.
pub open spec fn maps_view(m: Seq<(i32, Vec<(i32, String)>)>) -> Seq<(i32, Seq<(i32, Seq<char>)>)> {
    m.map_values(|e: (i32, Vec<(i32, String)>)| (e.0, strs_view(e.1@)))
}

/// Viewing the values commutes with inserting into a map with distinct keys.
pub proof fn lemma_insert_strs_view(m: Seq<(i32, String)>, k: i32, v: String)
    requires
        int_keys_distinct(m),
    ensures
        strs_view(int_map_insert_spec(m, k, v)) == int_map_insert_spec(strs_view(m), k, v@),
        int_keys_distinct(strs_view(m)),
{
    let mv = strs_view(m);
    assert(int_keys_distinct(mv)) by {
        assert forall|i: int, j: int| 0 <= i < mv.len() && 0 <= j < mv.len() && i != j implies mv[i].0 != mv[j].0 by {
            assert(mv[i].0 == m[i].0);
            assert(mv[j].0 == m[j].0);
        }
    }
    if int_map_has(m, k) {
        let p = choose|i: int| 0 <= i < m.len() && m[i].0 == k;
        assert(mv[p].0 == k);
        assert(int_map_has(mv, k));
        let q = choose|i: int| 0 <= i < mv.len() && mv[i].0 == k;
        assert(m[q].0 == k);
        assert(p == q);
        assert(strs_view(int_map_insert_spec(m, k, v)) =~= int_map_insert_spec(mv, k, v@));
    } else {
        assert(!int_map_has(mv, k)) by {
            if int_map_has(mv, k) {
                let q = choose|i: int| 0 <= i < mv.len() && mv[i].0 == k;
                assert(m[q].0 == k);
            }
        }
        assert(strs_view(int_map_insert_spec(m, k, v)) =~= int_map_insert_spec(mv, k, v@));
    }
}

/// Viewing the values commutes with inserting into a map with distinct keys.
pub proof fn lemma_insert_maps_view(m: Seq<(i32, Vec<(i32, String)>)>, k: i32, v: Vec<(i32, String)>)
    requires
        int_keys_distinct(m),
    ensures
        maps_view(int_map_insert_spec(m, k, v)) == int_map_insert_spec(maps_view(m), k, strs_view(v@)),
{
    let mv = maps_view(m);
    if int_map_has(m, k) {
        let p = choose|i: int| 0 <= i < m.len() && m[i].0 == k;
        assert(mv[p].0 == k);
        assert(int_map_has(mv, k));
        let q = choose|i: int| 0 <= i < mv.len() && mv[i].0 == k;
        assert(m[q].0 == k);
        assert(p == q);
        assert(maps_view(int_map_insert_spec(m, k, v)) =~= int_map_insert_spec(mv, k, strs_view(v@)));
    } else {
        assert(!int_map_has(mv, k)) by {
            if int_map_has(mv, k) {
                let q = choose|i: int| 0 <= i < mv.len() && mv[i].0 == k;
                assert(m[q].0 == k);
            }
        }
        assert(maps_view(int_map_insert_spec(m, k, v)) =~= int_map_insert_spec(mv, k, strs_view(v@)));
    }
}

/// `i` is the first position in `names` of an entry for `key`.
pub open spec fn is_first_name(names: Seq<(Seq<char>, i32)>, key: Seq<char>, i: int) -> bool {
    &&& 0 <= i < names.len()
    &&& names[i].0 == key
    &&& forall|j: int| 0 <= j < i ==> names[j].0 != key
}

/// `names` has an entry for `key`.
pub open spec fn has_name(names: Seq<(Seq<char>, i32)>, key: Seq<char>) -> bool {
    exists|i: int| 0 <= i < names.len() && names[i].0 == key
}

/// The index `key` is interned under: that of its first entry, else the
/// number of dictionary entries plus one.
pub open spec fn index_spec(names: Seq<(Seq<char>, i32)>, dict_len: nat, key: Seq<char>) -> i32 {
    if has_name(names, key) {
        names[choose|i: int| is_first_name(names, key, i)].1
    } else {
        (dict_len + 1) as i32
    }
}

/// The interned names after interning `key`.
pub open spec fn names_after(names: Seq<(Seq<char>, i32)>, dict_len: nat, key: Seq<char>) -> Seq<(Seq<char>, i32)> {
    if has_name(names, key) {
        names
    } else {
        names.push((key, (dict_len + 1) as i32))
    }
}

/// The dictionary after interning `key`.
pub open spec fn dict_after(names: Seq<(Seq<char>, i32)>, dict: Seq<(i32, Seq<char>)>, key: Seq<char>) -> Seq<(i32, Seq<char>)> {
    if has_name(names, key) {
        dict
    } else {
        int_map_insert_spec(dict, (dict.len() + 1) as i32, key)
    }
}

/// An attribute set whose names are interned in its dictionary.
pub struct AttributeWrapper {
    pub attributes: Attributes,
    /// The interned names with their indices, in interning order.
    pub string_map: Vec<(String, i32)>,
}

/// An attribute set of the dictionary protocol, abstractly: the interned
/// names, the dictionary, and the values by kind under name indices.
#[verifier::ext_equal]
pub struct DictAttrsView {
    pub names: Seq<(Seq<char>, i32)>,
    pub dict: Seq<(i32, Seq<char>)>,
    pub strings: Seq<(i32, Seq<char>)>,
    pub int64s: Seq<(i32, i64)>,
    pub timestamps: Seq<(i32, Timestamp)>,
    pub string_maps: Seq<(i32, Seq<(i32, Seq<char>)>)>,
}

impl View for AttributeWrapper {
    type V = DictAttrsView;

    open spec fn view(&self) -> DictAttrsView {
        DictAttrsView {
            names: self.string_map@.map_values(|e: (String, i32)| (e.0@, e.1)),
            dict: strs_view(self.attributes.dictionary@),
            strings: strs_view(self.attributes.string_attributes@),
            int64s: self.attributes.int64_attributes@,
            timestamps: self.attributes.timestamp_attributes@,
            string_maps: maps_view(self.attributes.string_map_attributes@),
        }
    }
}

/// The index `key` is interned under in `v`.
pub open spec fn key_index(v: DictAttrsView, key: Seq<char>) -> i32 {
    index_spec(v.names, v.dict.len(), key)
}

/// The set after interning `key`: names and dictionary as `names_after`
/// and `dict_after` say, values unchanged.
pub open spec fn intern(v: DictAttrsView, key: Seq<char>) -> DictAttrsView {
    DictAttrsView {
        names: names_after(v.names, v.dict.len(), key),
        dict: dict_after(v.names, v.dict, key),
        strings: v.strings,
        int64s: v.int64s,
        timestamps: v.timestamps,
        string_maps: v.string_maps,
    }
}

/// The set after storing a string value under `key`.
pub open spec fn with_string(v: DictAttrsView, key: Seq<char>, value: Seq<char>) -> DictAttrsView {
    let w = intern(v, key);
    DictAttrsView { strings: int_map_insert_spec(v.strings, key_index(v, key), value), ..w }
}

/// The set after storing an integer value under `key`.
pub open spec fn with_int64(v: DictAttrsView, key: Seq<char>, value: i64) -> DictAttrsView {
    let w = intern(v, key);
    DictAttrsView { int64s: int_map_insert_spec(v.int64s, key_index(v, key), value), ..w }
}

/// The set after storing a timestamp value under `key`.
pub open spec fn with_timestamp(v: DictAttrsView, key: Seq<char>, value: Timestamp) -> DictAttrsView {
    let w = intern(v, key);
    DictAttrsView { timestamps: int_map_insert_spec(v.timestamps, key_index(v, key), value), ..w }
}

/// The set after storing a string map value under `key`.
pub open spec fn with_string_map(
    v: DictAttrsView,
    key: Seq<char>,
    value: Seq<(i32, Seq<char>)>,
) -> DictAttrsView {
    let w = intern(v, key);
    DictAttrsView { string_maps: int_map_insert_spec(v.string_maps, key_index(v, key), value), ..w }
}

/// Inserting into a map adds at most one entry.
pub proof fn lemma_int_map_insert_len<V>(m: Seq<(i32, V)>, k: i32, v: V)
    ensures
        int_map_insert_spec(m, k, v).len() <= m.len() + 1,
{
}

/// Interning adds at most one dictionary entry.
pub proof fn lemma_intern_len(v: DictAttrsView, key: Seq<char>)
    ensures
        intern(v, key).dict.len() <= v.dict.len() + 1,
{
    lemma_int_map_insert_len(v.dict, (v.dict.len() + 1) as i32, key);
}

/// The dictionary numbers the interned names 1, 2, ..., n in interning
/// order, and the interned names are its inverse: the `i`-th entry of each
/// pairs index `i + 1` with the `i`-th name, and no name is interned twice.
pub open spec fn dict_inv(v: DictAttrsView) -> bool {
    &&& v.dict.len() <= i32::MAX
    &&& v.names.len() == v.dict.len()
    &&& forall|i: int|
        0 <= i < v.dict.len() ==> #[trigger] v.dict[i] == ((i + 1) as i32, v.names[i].0) && v.names[i].1
            == (i + 1) as i32
    &&& forall|i: int, j: int|
        0 <= i < v.names.len() && 0 <= j < v.names.len() && i != j ==> v.names[i].0 != v.names[j].0
}

/// Interning keeps the invariant. A name already interned keeps its index
/// and changes nothing; a new name gets the index `n + 1` and is added to
/// the dictionary under it. Either way the dictionary maps the index to the
/// name.
pub proof fn lemma_intern_inv(v: DictAttrsView, key: Seq<char>)
    requires
        dict_inv(v),
        v.dict.len() < i32::MAX,
    ensures
        dict_inv(intern(v, key)),
        1 <= key_index(v, key) <= intern(v, key).dict.len(),
        intern(v, key).dict[key_index(v, key) - 1] == (key_index(v, key), key),
        has_name(v.names, key) ==> intern(v, key) == v,
        !has_name(v.names, key) ==> key_index(v, key) == v.dict.len() + 1 && intern(v, key).dict
            == v.dict.push(((v.dict.len() + 1) as i32, key)),
{
    let w = intern(v, key);
    let n = v.dict.len();
    if has_name(v.names, key) {
        let c = choose|i: int| is_first_name(v.names, key, i);
        let p = choose|i: int| 0 <= i < v.names.len() && v.names[i].0 == key;
        assert(is_first_name(v.names, key, p)) by {
            assert forall|j: int| 0 <= j < p implies v.names[j].0 != key by {}
        }
        assert(is_first_name(v.names, key, c));
        assert(v.dict[c] == ((c + 1) as i32, v.names[c].0));
        assert(w =~= v);
    } else {
        let k = (n + 1) as i32;
        assert(!int_map_has(v.dict, k)) by {
            if int_map_has(v.dict, k) {
                let q = choose|i: int| 0 <= i < v.dict.len() && v.dict[i].0 == k;
                assert(v.dict[q] == ((q + 1) as i32, v.names[q].0));
            }
        }
        assert(w.dict =~= v.dict.push((k, key)));
        assert(w.names =~= v.names.push((key, k)));
        assert forall|i: int| 0 <= i < w.dict.len() implies #[trigger] w.dict[i] == ((i + 1) as i32, w.names[i].0)
            && w.names[i].1 == (i + 1) as i32 by {
            if i < n {
                assert(v.dict[i] == ((i + 1) as i32, v.names[i].0));
            }
        }
        assert forall|i: int, j: int|
            0 <= i < w.names.len() && 0 <= j < w.names.len() && i != j implies w.names[i].0
            != w.names[j].0 by {
            if i == n {
                assert(v.names[j].0 != key);
            } else if j == n {
                assert(v.names[i].0 != key);
            }
        }
    }
}

/// The value a map holds under key `k`, if any.
pub open spec fn int_map_get<V>(m: Seq<(i32, V)>, k: i32) -> Option<V> {
    if int_map_has(m, k) {
        Some(m[choose|i: int| 0 <= i < m.len() && m[i].0 == k].1)
    } else {
        None
    }
}

/// Inserting into a map with distinct keys keeps them distinct, gives the
/// value back under its key, and leaves every other key's value as it was.
pub proof fn lemma_int_map_insert_get<V>(m: Seq<(i32, V)>, k: i32, v: V, other: i32)
    requires
        int_keys_distinct(m),
    ensures
        int_keys_distinct(int_map_insert_spec(m, k, v)),
        int_map_get(int_map_insert_spec(m, k, v), k) == Some(v),
        other != k ==> int_map_get(int_map_insert_spec(m, k, v), other) == int_map_get(m, other),
{
    let m2 = int_map_insert_spec(m, k, v);
    if int_map_has(m, k) {
        let p = choose|i: int| 0 <= i < m.len() && m[i].0 == k;
        assert(m2[p].0 == k);
        assert(int_map_has(m2, k));
        let q = choose|i: int| 0 <= i < m2.len() && m2[i].0 == k;
        assert(q == p);
        if other != k && int_map_has(m, other) {
            let a = choose|i: int| 0 <= i < m.len() && m[i].0 == other;
            assert(m2[a].0 == other);
            assert(int_map_has(m2, other));
            let b = choose|i: int| 0 <= i < m2.len() && m2[i].0 == other;
            assert(a == b);
        } else if other != k {
            assert(!int_map_has(m2, other)) by {
                if int_map_has(m2, other) {
                    let b = choose|i: int| 0 <= i < m2.len() && m2[i].0 == other;
                    assert(m[b].0 == other);
                }
            }
        }
    } else {
        assert(m2[m.len() as int].0 == k);
        assert(int_map_has(m2, k));
        let q = choose|i: int| 0 <= i < m2.len() && m2[i].0 == k;
        assert(q == m.len());
        if other != k && int_map_has(m, other) {
            let a = choose|i: int| 0 <= i < m.len() && m[i].0 == other;
            assert(m2[a].0 == other);
            assert(int_map_has(m2, other));
            let b = choose|i: int| 0 <= i < m2.len() && m2[i].0 == other;
            assert(a == b);
        } else if other != k {
            assert(!int_map_has(m2, other)) by {
                if int_map_has(m2, other) {
                    let b = choose|i: int| 0 <= i < m2.len() && m2[i].0 == other;
                    assert(m[b].0 == other);
                }
            }
        }
    }
}

/// Under the invariant, interning one name keeps the index of every name
/// already interned, and distinct interned names have distinct indices.
pub proof fn lemma_intern_keeps_index(v: DictAttrsView, key: Seq<char>, other: Seq<char>)
    requires
        dict_inv(v),
        v.dict.len() < i32::MAX,
        has_name(v.names, other),
    ensures
        has_name(intern(v, key).names, other),
        key_index(intern(v, key), other) == key_index(v, other),
        other != key ==> key_index(v, key) != key_index(v, other),
{
    lemma_intern_inv(v, key);
    let p = choose|i: int| 0 <= i < v.names.len() && v.names[i].0 == other;
    assert(is_first_name(v.names, other, p));
    let c = choose|i: int| is_first_name(v.names, other, i);
    assert(is_first_name(v.names, other, c));
    assert(c == p);
    assert(key_index(v, other) == v.names[p].1);
    assert(v.names[p].1 == (p + 1) as i32) by {
        assert(v.dict[p] == ((p + 1) as i32, v.names[p].0));
    }
    let w = intern(v, key);
    assert(w.names[p] == v.names[p]);
    assert(is_first_name(w.names, other, p)) by {
        assert forall|j: int| 0 <= j < p implies w.names[j].0 != other by {
            assert(w.names[j] == v.names[j]);
        }
    }
    let c2 = choose|i: int| is_first_name(w.names, other, i);
    assert(is_first_name(w.names, other, c2));
    assert(c2 == p);
    if other != key {
        if has_name(v.names, key) {
            let q = choose|i: int| is_first_name(v.names, key, i);
            assert(is_first_name(v.names, key, choose|i: int| is_first_name(v.names, key, i))) by {
                let r = choose|i: int| 0 <= i < v.names.len() && v.names[i].0 == key;
                assert(is_first_name(v.names, key, r)) by {
                    assert forall|j: int| 0 <= j < r implies v.names[j].0 != key by {}
                }
            }
            assert(v.dict[q] == ((q + 1) as i32, v.names[q].0));
            assert(q != p);
        }
    }
}

/// Storing a string under `key` keeps the invariant, interns `key`, gives
/// the string back under its index, and leaves the index and string of
/// every other interned name as they were.
pub proof fn lemma_with_string_stored(v: DictAttrsView, key: Seq<char>, value: Seq<char>, other: Seq<char>)
    requires
        dict_inv(v),
        v.dict.len() < i32::MAX,
        int_keys_distinct(v.strings),
    ensures
        dict_inv(with_string(v, key, value)),
        int_keys_distinct(with_string(v, key, value).strings),
        has_name(with_string(v, key, value).names, key),
        key_index(with_string(v, key, value), key) == key_index(v, key),
        int_map_get(with_string(v, key, value).strings, key_index(v, key)) == Some(value),
        has_name(v.names, other) && other != key ==> {
            &&& has_name(with_string(v, key, value).names, other)
            &&& key_index(with_string(v, key, value), other) == key_index(v, other)
            &&& int_map_get(with_string(v, key, value).strings, key_index(v, other)) == int_map_get(
                v.strings,
                key_index(v, other),
            )
        },
{
    lemma_intern_inv(v, key);
    let w = intern(v, key);
    let ki = key_index(v, key);
    let n = v.dict.len();
    // the name is interned under its index
    if !has_name(v.names, key) {
        assert(w.names[n as int] == (key, ki));
        assert(has_name(w.names, key));
        assert(is_first_name(w.names, key, n as int)) by {
            assert forall|j: int| 0 <= j < n implies w.names[j].0 != key by {
                assert(w.names[j] == v.names[j]);
            }
        }
        let c = choose|i: int| is_first_name(w.names, key, i);
        assert(is_first_name(w.names, key, c));
        assert(c == n);
    }
    if has_name(v.names, other) && other != key {
        lemma_intern_keeps_index(v, key, other);
        lemma_int_map_insert_get(v.strings, ki, value, key_index(v, other));
    } else {
        lemma_int_map_insert_get(v.strings, ki, value, ki);
    }
}

/// The string stored under the interned name `k`, if any.
pub open spec fn string_of(v: DictAttrsView, k: Seq<char>) -> Option<Seq<char>> {
    if has_name(v.names, k) {
        int_map_get(v.strings, key_index(v, k))
    } else {
        None
    }
}

/// The integer stored under the interned name `k`, if any.
pub open spec fn int64_of(v: DictAttrsView, k: Seq<char>) -> Option<i64> {
    if has_name(v.names, k) {
        int_map_get(v.int64s, key_index(v, k))
    } else {
        None
    }
}

/// The timestamp stored under the interned name `k`, if any.
pub open spec fn timestamp_of(v: DictAttrsView, k: Seq<char>) -> Option<Timestamp> {
    if has_name(v.names, k) {
        int_map_get(v.timestamps, key_index(v, k))
    } else {
        None
    }
}

/// The string map stored under the interned name `k`, if any.
pub open spec fn map_of(v: DictAttrsView, k: Seq<char>) -> Option<Seq<(i32, Seq<char>)>> {
    if has_name(v.names, k) {
        int_map_get(v.string_maps, key_index(v, k))
    } else {
        None
    }
}

/// Every map of values has distinct keys.
pub open spec fn maps_distinct(v: DictAttrsView) -> bool {
    &&& int_keys_distinct(v.strings)
    &&& int_keys_distinct(v.int64s)
    &&& int_keys_distinct(v.timestamps)
    &&& int_keys_distinct(v.string_maps)
}

/// Interning a name keeps the invariant, interns the name, adds at most one
/// dictionary entry, and keeps every interned name and every value stored
/// under one.
pub proof fn lemma_intern_keeps(v: DictAttrsView, key: Seq<char>)
    requires
        dict_inv(v),
        v.dict.len() < i32::MAX,
        maps_distinct(v),
    ensures
        dict_inv(intern(v, key)),
        maps_distinct(intern(v, key)),
        has_name(intern(v, key).names, key),
        intern(v, key).dict.len() <= v.dict.len() + 1,
        forall|o: Seq<char>| has_name(v.names, o) ==> #[trigger] has_name(intern(v, key).names, o),
        forall|o: Seq<char>| has_name(v.names, o) ==> #[trigger] string_of(intern(v, key), o) == string_of(v, o),
        forall|o: Seq<char>| has_name(v.names, o) ==> #[trigger] int64_of(intern(v, key), o) == int64_of(v, o),
        forall|o: Seq<char>| has_name(v.names, o) ==> #[trigger] timestamp_of(intern(v, key), o) == timestamp_of(v, o),
        forall|o: Seq<char>| has_name(v.names, o) ==> #[trigger] map_of(intern(v, key), o) == map_of(v, o),
{
    lemma_with_string_stored(v, key, Seq::empty(), key);
    lemma_intern_len(v, key);
    assert forall|o: Seq<char>| has_name(v.names, o) implies #[trigger] has_name(intern(v, key).names, o) by {
        lemma_intern_keeps_index(v, key, o);
    }
    assert forall|o: Seq<char>| has_name(v.names, o) implies #[trigger] string_of(intern(v, key), o) == string_of(v, o) by {
        lemma_intern_keeps_index(v, key, o);
    }
    assert forall|o: Seq<char>| has_name(v.names, o) implies #[trigger] int64_of(intern(v, key), o) == int64_of(v, o) by {
        lemma_intern_keeps_index(v, key, o);
    }
    assert forall|o: Seq<char>| has_name(v.names, o) implies #[trigger] timestamp_of(intern(v, key), o) == timestamp_of(v, o) by {
        lemma_intern_keeps_index(v, key, o);
    }
    assert forall|o: Seq<char>| has_name(v.names, o) implies #[trigger] map_of(intern(v, key), o) == map_of(v, o) by {
        lemma_intern_keeps_index(v, key, o);
    }
}

/// Storing a value with `with_string` keeps the invariant, interns the name and
/// gives the value back under it, adds at most one dictionary entry, and
/// keeps every interned name and every other value stored under one.
pub proof fn lemma_with_string_keeps(v: DictAttrsView, key: Seq<char>, value: Seq<char>)
    requires
        dict_inv(v),
        v.dict.len() < i32::MAX,
        maps_distinct(v),
    ensures
        dict_inv(with_string(v, key, value)),
        maps_distinct(with_string(v, key, value)),
        string_of(with_string(v, key, value), key) == Some(value),
        with_string(v, key, value).dict.len() <= v.dict.len() + 1,
        forall|o: Seq<char>| has_name(v.names, o) ==> #[trigger] has_name(with_string(v, key, value).names, o),
        forall|o: Seq<char>| has_name(v.names, o) && o != key ==> #[trigger] string_of(with_string(v, key, value), o) == string_of(v, o),
        forall|o: Seq<char>| has_name(v.names, o) ==> #[trigger] int64_of(with_string(v, key, value), o) == int64_of(v, o),
        forall|o: Seq<char>| has_name(v.names, o) ==> #[trigger] timestamp_of(with_string(v, key, value), o) == timestamp_of(v, o),
        forall|o: Seq<char>| has_name(v.names, o) ==> #[trigger] map_of(with_string(v, key, value), o) == map_of(v, o),
{
    lemma_intern_keeps(v, key);
    lemma_intern_inv(v, key);
    let w = intern(v, key);
    let ki = key_index(v, key);
    lemma_with_string_stored(v, key, Seq::empty(), key);
    lemma_int_map_insert_get(v.strings, ki, value, ki);
    assert forall|o: Seq<char>| has_name(v.names, o) implies #[trigger] has_name(with_string(v, key, value).names, o) by {
        lemma_intern_keeps_index(v, key, o);
    }
    assert forall|o: Seq<char>| has_name(v.names, o) && o != key implies #[trigger] string_of(with_string(v, key, value), o) == string_of(v, o) by {
        lemma_intern_keeps_index(v, key, o);
        lemma_int_map_insert_get(v.strings, ki, value, key_index(v, o));
    }
    assert forall|o: Seq<char>| has_name(v.names, o) implies #[trigger] int64_of(with_string(v, key, value), o) == int64_of(v, o) by {
        lemma_intern_keeps_index(v, key, o);
    }
    assert forall|o: Seq<char>| has_name(v.names, o) implies #[trigger] timestamp_of(with_string(v, key, value), o) == timestamp_of(v, o) by {
        lemma_intern_keeps_index(v, key, o);
    }
    assert forall|o: Seq<char>| has_name(v.names, o) implies #[trigger] map_of(with_string(v, key, value), o) == map_of(v, o) by {
        lemma_intern_keeps_index(v, key, o);
    }
}

/// Storing a value with `with_int64` keeps the invariant, interns the name and
/// gives the value back under it, adds at most one dictionary entry, and
/// keeps every interned name and every other value stored under one.
pub proof fn lemma_with_int64_keeps(v: DictAttrsView, key: Seq<char>, value: i64)
    requires
        dict_inv(v),
        v.dict.len() < i32::MAX,
        maps_distinct(v),
    ensures
        dict_inv(with_int64(v, key, value)),
        maps_distinct(with_int64(v, key, value)),
        int64_of(with_int64(v, key, value), key) == Some(value),
        with_int64(v, key, value).dict.len() <= v.dict.len() + 1,
        forall|o: Seq<char>| has_name(v.names, o) ==> #[trigger] has_name(with_int64(v, key, value).names, o),
        forall|o: Seq<char>| has_name(v.names, o) ==> #[trigger] string_of(with_int64(v, key, value), o) == string_of(v, o),
        forall|o: Seq<char>| has_name(v.names, o) && o != key ==> #[trigger] int64_of(with_int64(v, key, value), o) == int64_of(v, o),
        forall|o: Seq<char>| has_name(v.names, o) ==> #[trigger] timestamp_of(with_int64(v, key, value), o) == timestamp_of(v, o),
        forall|o: Seq<char>| has_name(v.names, o) ==> #[trigger] map_of(with_int64(v, key, value), o) == map_of(v, o),
{
    lemma_intern_keeps(v, key);
    lemma_intern_inv(v, key);
    let w = intern(v, key);
    let ki = key_index(v, key);
    lemma_with_string_stored(v, key, Seq::empty(), key);
    lemma_int_map_insert_get(v.int64s, ki, value, ki);
    assert forall|o: Seq<char>| has_name(v.names, o) implies #[trigger] has_name(with_int64(v, key, value).names, o) by {
        lemma_intern_keeps_index(v, key, o);
    }
    assert forall|o: Seq<char>| has_name(v.names, o) implies #[trigger] string_of(with_int64(v, key, value), o) == string_of(v, o) by {
        lemma_intern_keeps_index(v, key, o);
    }
    assert forall|o: Seq<char>| has_name(v.names, o) && o != key implies #[trigger] int64_of(with_int64(v, key, value), o) == int64_of(v, o) by {
        lemma_intern_keeps_index(v, key, o);
        lemma_int_map_insert_get(v.int64s, ki, value, key_index(v, o));
    }
    assert forall|o: Seq<char>| has_name(v.names, o) implies #[trigger] timestamp_of(with_int64(v, key, value), o) == timestamp_of(v, o) by {
        lemma_intern_keeps_index(v, key, o);
    }
    assert forall|o: Seq<char>| has_name(v.names, o) implies #[trigger] map_of(with_int64(v, key, value), o) == map_of(v, o) by {
        lemma_intern_keeps_index(v, key, o);
    }
}

/// Storing a value with `with_timestamp` keeps the invariant, interns the name and
/// gives the value back under it, adds at most one dictionary entry, and
/// keeps every interned name and every other value stored under one.
pub proof fn lemma_with_timestamp_keeps(v: DictAttrsView, key: Seq<char>, value: Timestamp)
    requires
        dict_inv(v),
        v.dict.len() < i32::MAX,
        maps_distinct(v),
    ensures
        dict_inv(with_timestamp(v, key, value)),
        maps_distinct(with_timestamp(v, key, value)),
        timestamp_of(with_timestamp(v, key, value), key) == Some(value),
        with_timestamp(v, key, value).dict.len() <= v.dict.len() + 1,
        forall|o: Seq<char>| has_name(v.names, o) ==> #[trigger] has_name(with_timestamp(v, key, value).names, o),
        forall|o: Seq<char>| has_name(v.names, o) ==> #[trigger] string_of(with_timestamp(v, key, value), o) == string_of(v, o),
        forall|o: Seq<char>| has_name(v.names, o) ==> #[trigger] int64_of(with_timestamp(v, key, value), o) == int64_of(v, o),
        forall|o: Seq<char>| has_name(v.names, o) && o != key ==> #[trigger] timestamp_of(with_timestamp(v, key, value), o) == timestamp_of(v, o),
        forall|o: Seq<char>| has_name(v.names, o) ==> #[trigger] map_of(with_timestamp(v, key, value), o) == map_of(v, o),
{
    lemma_intern_keeps(v, key);
    lemma_intern_inv(v, key);
    let w = intern(v, key);
    let ki = key_index(v, key);
    lemma_with_string_stored(v, key, Seq::empty(), key);
    lemma_int_map_insert_get(v.timestamps, ki, value, ki);
    assert forall|o: Seq<char>| has_name(v.names, o) implies #[trigger] has_name(with_timestamp(v, key, value).names, o) by {
        lemma_intern_keeps_index(v, key, o);
    }
    assert forall|o: Seq<char>| has_name(v.names, o) implies #[trigger] string_of(with_timestamp(v, key, value), o) == string_of(v, o) by {
        lemma_intern_keeps_index(v, key, o);
    }
    assert forall|o: Seq<char>| has_name(v.names, o) implies #[trigger] int64_of(with_timestamp(v, key, value), o) == int64_of(v, o) by {
        lemma_intern_keeps_index(v, key, o);
    }
    assert forall|o: Seq<char>| has_name(v.names, o) && o != key implies #[trigger] timestamp_of(with_timestamp(v, key, value), o) == timestamp_of(v, o) by {
        lemma_intern_keeps_index(v, key, o);
        lemma_int_map_insert_get(v.timestamps, ki, value, key_index(v, o));
    }
    assert forall|o: Seq<char>| has_name(v.names, o) implies #[trigger] map_of(with_timestamp(v, key, value), o) == map_of(v, o) by {
        lemma_intern_keeps_index(v, key, o);
    }
}

/// Storing a value with `with_string_map` keeps the invariant, interns the name and
/// gives the value back under it, adds at most one dictionary entry, and
/// keeps every interned name and every other value stored under one.
pub proof fn lemma_with_string_map_keeps(v: DictAttrsView, key: Seq<char>, value: Seq<(i32, Seq<char>)>)
    requires
        dict_inv(v),
        v.dict.len() < i32::MAX,
        maps_distinct(v),
    ensures
        dict_inv(with_string_map(v, key, value)),
        maps_distinct(with_string_map(v, key, value)),
        map_of(with_string_map(v, key, value), key) == Some(value),
        with_string_map(v, key, value).dict.len() <= v.dict.len() + 1,
        forall|o: Seq<char>| has_name(v.names, o) ==> #[trigger] has_name(with_string_map(v, key, value).names, o),
        forall|o: Seq<char>| has_name(v.names, o) ==> #[trigger] string_of(with_string_map(v, key, value), o) == string_of(v, o),
        forall|o: Seq<char>| has_name(v.names, o) ==> #[trigger] int64_of(with_string_map(v, key, value), o) == int64_of(v, o),
        forall|o: Seq<char>| has_name(v.names, o) ==> #[trigger] timestamp_of(with_string_map(v, key, value), o) == timestamp_of(v, o),
        forall|o: Seq<char>| has_name(v.names, o) && o != key ==> #[trigger] map_of(with_string_map(v, key, value), o) == map_of(v, o),
{
    lemma_intern_keeps(v, key);
    lemma_intern_inv(v, key);
    let w = intern(v, key);
    let ki = key_index(v, key);
    lemma_with_string_stored(v, key, Seq::empty(), key);
    lemma_int_map_insert_get(v.string_maps, ki, value, ki);
    assert forall|o: Seq<char>| has_name(v.names, o) implies #[trigger] has_name(with_string_map(v, key, value).names, o) by {
        lemma_intern_keeps_index(v, key, o);
    }
    assert forall|o: Seq<char>| has_name(v.names, o) implies #[trigger] string_of(with_string_map(v, key, value), o) == string_of(v, o) by {
        lemma_intern_keeps_index(v, key, o);
    }
    assert forall|o: Seq<char>| has_name(v.names, o) implies #[trigger] int64_of(with_string_map(v, key, value), o) == int64_of(v, o) by {
        lemma_intern_keeps_index(v, key, o);
    }
    assert forall|o: Seq<char>| has_name(v.names, o) implies #[trigger] timestamp_of(with_string_map(v, key, value), o) == timestamp_of(v, o) by {
        lemma_intern_keeps_index(v, key, o);
    }
    assert forall|o: Seq<char>| has_name(v.names, o) && o != key implies #[trigger] map_of(with_string_map(v, key, value), o) == map_of(v, o) by {
        lemma_intern_keeps_index(v, key, o);
        lemma_int_map_insert_get(v.string_maps, ki, value, key_index(v, o));
    }
}

impl AttributeWrapper {
    /// The maps of the message have distinct keys, and the dictionary and
    /// the interned names are as `dict_inv` says.
    pub open spec fn wf(&self) -> bool {
        &&& dict_inv(self@)
        &&& int_keys_distinct(self.attributes.dictionary@)
        &&& int_keys_distinct(self.attributes.string_attributes@)
        &&& int_keys_distinct(self.attributes.int64_attributes@)
        &&& int_keys_distinct(self.attributes.timestamp_attributes@)
        &&& int_keys_distinct(self.attributes.string_map_attributes@)
    }

    /// An empty attribute set with an empty dictionary.
    pub fn new() -> (a: AttributeWrapper)
        ensures
            a.wf(),
            a@ == (DictAttrsView {
                names: Seq::empty(),
                dict: Seq::empty(),
                strings: Seq::empty(),
                int64s: Seq::empty(),
                timestamps: Seq::empty(),
                string_maps: Seq::empty(),
            }),
    {
        let a = AttributeWrapper {
            attributes: Attributes {
                dictionary: Vec::new(),
                string_attributes: Vec::new(),
                int64_attributes: Vec::new(),
                timestamp_attributes: Vec::new(),
                string_map_attributes: Vec::new(),
            },
            string_map: Vec::new(),
        };
        assert(a@ =~= DictAttrsView {
            names: Seq::empty(),
            dict: Seq::empty(),
            strings: Seq::empty(),
            int64s: Seq::empty(),
            timestamps: Seq::empty(),
            string_maps: Seq::empty(),
        });
        a
    }

    /// The dictionary index of `key`: the index it was interned under, else
    /// the number of dictionary entries plus one, under which it is added to
    /// the dictionary and interned. Either way the dictionary then maps the
    /// index to `key`.
    pub fn string_index(&mut self, key: &str) -> (r: i32)
        requires
            old(self).wf(),
            old(self)@.dict.len() < i32::MAX,
        ensures
            final(self).wf(),
            r == key_index(old(self)@, key@),
            final(self)@ == intern(old(self)@, key@),
            1 <= r <= final(self)@.dict.len(),
            final(self)@.dict[r - 1] == (r, key@),
    {
        proof {
            lemma_intern_inv(self@, key@);
        }
        let k: String = key.to_owned();
        let ghost names = self@.names;
        let mut i: usize = 0;
        while i < self.string_map.len()
            invariant
                i <= self.string_map.len(),
                names == self@.names,
                *self == *old(self),
                self.wf(),
                k@ == key@,
                self@.dict.len() < i32::MAX,
                forall|j: int| 0 <= j < i ==> names[j].0 != key@,
            decreases self.string_map.len() - i,
        {
            proof {
                assert(names[i as int] == (self.string_map@[i as int].0@, self.string_map@[i as int].1));
            }
            if self.string_map[i].0 == k {
                proof {
                    assert(is_first_name(names, key@, i as int));
                    let c = choose|c: int| is_first_name(names, key@, c);
                    assert(is_first_name(names, key@, c));
                    if c < i {
                        assert(names[c].0 != key@);
                    } else if c > i {
                        assert(names[i as int].0 != key@);
                    }
                    assert(self@ =~= intern(old(self)@, key@));
                    lemma_intern_inv(old(self)@, key@);
                }
                return self.string_map[i].1;
            }
            i = i + 1;
        }
        proof {
            assert(!has_name(names, key@));
            lemma_insert_strs_view(self.attributes.dictionary@, (self@.dict.len() + 1) as i32, k);
        }
        let index: i32 = self.attributes.dictionary.len() as i32 + 1;
        int_map_insert(&mut self.attributes.dictionary, index, k.clone());
        self.string_map.push((k, index));
        proof {
            assert(self@.names =~= names.push((key@, index)));
            assert(self@ =~= intern(old(self)@, key@));
        }
        index
    }

    /// Stores a string attribute under the dictionary index of `key`.
    pub fn insert_string_attribute(&mut self, key: &str, value: &str)
        requires
            old(self).wf(),
            old(self)@.dict.len() < i32::MAX,
        ensures
            final(self).wf(),
            final(self)@ == with_string(old(self)@, key@, value@),
    {
        let index = self.string_index(key);
        let v: String = value.to_owned();
        proof {
            lemma_insert_strs_view(self.attributes.string_attributes@, index, v);
        }
        int_map_insert(&mut self.attributes.string_attributes, index, v);
        assert(self@ =~= with_string(old(self)@, key@, value@));
    }

    /// Stores a 64-bit integer attribute under the dictionary index of `key`.
    pub fn insert_int64_attribute(&mut self, key: &str, value: i64)
        requires
            old(self).wf(),
            old(self)@.dict.len() < i32::MAX,
        ensures
            final(self).wf(),
            final(self)@ == with_int64(old(self)@, key@, value),
    {
        let index = self.string_index(key);
        int_map_insert(&mut self.attributes.int64_attributes, index, value);
        assert(self@ =~= with_int64(old(self)@, key@, value));
    }

    /// Stores a timestamp attribute under the dictionary index of `key`.
    pub fn insert_time_stamp_attribute(&mut self, key: &str, value: Timestamp)
        requires
            old(self).wf(),
            old(self)@.dict.len() < i32::MAX,
        ensures
            final(self).wf(),
            final(self)@ == with_timestamp(old(self)@, key@, value),
    {
        let index = self.string_index(key);
        int_map_insert(&mut self.attributes.timestamp_attributes, index, value);
        assert(self@ =~= with_timestamp(old(self)@, key@, value));
    }

    /// Stores a string-map attribute (dictionary index to string) under the
    /// dictionary index of `key`.
    pub fn insert_string_map(&mut self, key: &str, value: Vec<(i32, String)>)
        requires
            old(self).wf(),
            old(self)@.dict.len() < i32::MAX,
        ensures
            final(self).wf(),
            final(self)@ == with_string_map(old(self)@, key@, strs_view(value@)),
    {
        let index = self.string_index(key);
        let ghost vv = strs_view(value@);
        proof {
            lemma_insert_maps_view(self.attributes.string_map_attributes@, index, value);
        }
        int_map_insert(&mut self.attributes.string_map_attributes, index, value);
        assert(self@ =~= with_string_map(old(self)@, key@, vv));
    }
}

/// Interning is stable: once a name is interned, interning it again gives
/// the same index and leaves the interned names as they are.
pub proof fn lemma_string_index_stable(names: Seq<(Seq<char>, i32)>, dict: Seq<(i32, Seq<char>)>, key: Seq<char>)
    requires
        dict.len() < i32::MAX,
    ensures
        has_name(names_after(names, dict.len(), key), key),
        index_spec(names_after(names, dict.len(), key), dict_after(names, dict, key).len(), key)
            == index_spec(names, dict.len(), key),
        names_after(names_after(names, dict.len(), key), dict_after(names, dict, key).len(), key)
            == names_after(names, dict.len(), key),
{
    if !has_name(names, key) {
        let n2 = names.push((key, (dict.len() + 1) as i32));
        assert(n2[names.len() as int].0 == key);
        assert(is_first_name(n2, key, names.len() as int));
        let c = choose|c: int| is_first_name(n2, key, c);
        assert(is_first_name(n2, key, c));
        if c < names.len() {
            assert(n2[c] == names[c]);
            assert(has_name(names, key));
        }
    }
}

} // verus!
