//! A set of named attribute values, as the nginx module collects them for
//! one request, with their hashing for cache signatures and their
//! compression into the mixer wire model.

use vstd::prelude::*;
use std::collections::hash_map::DefaultHasher;
use std::hash::Hasher;
use vstd::std_specs::hash::DefaultHasherAdditionalSpecFns;
use crate::time::Timestamp;
use crate::message_dict::{
    MessageDictionary, dict_lookup, dict_learn, dict_learn_all, dict_knows, lemma_lookup_roundtrip,
    lemma_lookup_stable, lemma_learn_keeps_known, lemma_learn_all_append,
};
use crate::compressed::{
    StringMap, CompressedAttributes, pair_words, encode_pairs, lookup_words, entry_words, compress,
    compress_entry, lemma_encode_pairs_congruent, lemma_compress_congruent, lemma_learned_then_more,
    lemma_learn_all_len, lemma_learn_all_one, lemma_learn_all_two, lemma_lookup_words_take,
    lemma_pair_words_take, lemma_pair_words_len,
};
use vstd::utf8::encode_utf8;

verus! {

/// The value of one attribute. A floating-point value is held as its IEEE
/// bit pattern together with its decimal text; an IP address as its four
/// octets.
pub enum AttrValue {
    StrValue(String),
    I64(i64),
    Double(u64, String),
    Bool(bool),
    Timestamp(Timestamp),
    StringMap(Vec<(String, String)>),
    Ip([u8; 4]),
}

/// The abstract value of an attribute: strings by their characters.
pub enum AttrView {
    Str(Seq<char>),
    I64(i64),
    Double(u64, Seq<char>),
    Bool(bool),
    Timestamp(Timestamp),
    StringMap(Seq<(Seq<char>, Seq<char>)>),
    Ip(Seq<u8>),
}

/// The views of a sequence of string pairs.
pub open spec fn pairs_view(m: Seq<(String, String)>) -> Seq<(Seq<char>, Seq<char>)> {
    m.map_values(|p: (String, String)| (p.0@, p.1@))
}

/// No key occurs twice among the pairs.
pub open spec fn distinct_pair_keys(m: Seq<(Seq<char>, Seq<char>)>) -> bool {
    forall|i: int, j: int| 0 <= i < m.len() && 0 <= j < m.len() && i != j ==> m[i].0 != m[j].0
}

impl View for AttrValue {
    type V = AttrView;

    open spec fn view(&self) -> AttrView {
        match self {
            AttrValue::StrValue(s) => AttrView::Str(s@),
            AttrValue::I64(n) => AttrView::I64(*n),
            AttrValue::Double(bits, text) => AttrView::Double(*bits, text@),
            AttrValue::Bool(b) => AttrView::Bool(*b),
            AttrValue::Timestamp(t) => AttrView::Timestamp(*t),
            AttrValue::StringMap(m) => AttrView::StringMap(pairs_view(m@)),
            AttrValue::Ip(octets) => AttrView::Ip(octets@),
        }
    }
}

/// The abstract attribute set: (name, value) entries in insertion order.
pub type AttrsView = Seq<(Seq<char>, AttrView)>;

/// No name occurs twice.
pub open spec fn distinct_names(es: AttrsView) -> bool {
    forall|i: int, j: int| 0 <= i < es.len() && 0 <= j < es.len() && i != j ==> es[i].0 != es[j].0
}

/// The set has an entry named `k`.
pub open spec fn has_name(es: AttrsView, k: Seq<char>) -> bool {
    exists|i: int| 0 <= i < es.len() && es[i].0 == k
}

/// The position of the entry named `k` (meaningful where there is one).
pub open spec fn name_position(es: AttrsView, k: Seq<char>) -> int {
    choose|i: int| 0 <= i < es.len() && es[i].0 == k
}

/// The value named `k`, if any.
pub open spec fn attr_lookup(es: AttrsView, k: Seq<char>) -> Option<AttrView> {
    if has_name(es, k) {
        Some(es[name_position(es, k)].1)
    } else {
        None
    }
}

/// The set after storing `v` under `k`: an existing entry keeps its place
/// and takes the new value; a new name is appended.
pub open spec fn attr_insert(es: AttrsView, k: Seq<char>, v: AttrView) -> AttrsView {
    if has_name(es, k) {
        es.update(name_position(es, k), (k, v))
    } else {
        es.push((k, v))
    }
}

/// Under distinct names, the position of a name is the one entry with it.
pub proof fn lemma_name_position(es: AttrsView, k: Seq<char>, i: int)
    requires
        distinct_names(es),
        0 <= i < es.len(),
        es[i].0 == k,
    ensures
        has_name(es, k),
        name_position(es, k) == i,
        attr_lookup(es, k) == Some(es[i].1),
{
}

/// Inserting keeps the names distinct, and a later lookup of the name gives
/// the inserted value while other names keep theirs.
pub proof fn lemma_insert_then_lookup(es: AttrsView, k: Seq<char>, v: AttrView, other: Seq<char>)
    requires
        distinct_names(es),
    ensures
        distinct_names(attr_insert(es, k, v)),
        attr_lookup(attr_insert(es, k, v), k) == Some(v),
        other != k ==> attr_lookup(attr_insert(es, k, v), other) == attr_lookup(es, other),
{
    let es2 = attr_insert(es, k, v);
    if has_name(es, k) {
        let p = name_position(es, k);
        assert(distinct_names(es2));
        lemma_name_position(es2, k, p);
        if other != k && has_name(es, other) {
            let q = name_position(es, other);
            lemma_name_position(es2, other, q);
        } else if other != k {
            assert(!has_name(es2, other)) by {
                if has_name(es2, other) {
                    let q = name_position(es2, other);
                    assert(es[q].0 == other);
                }
            }
        }
    } else {
        assert(distinct_names(es2));
        lemma_name_position(es2, k, es.len() as int);
        if other != k && has_name(es, other) {
            let q = name_position(es, other);
            lemma_name_position(es2, other, q);
        } else if other != k {
            assert(!has_name(es2, other)) by {
                if has_name(es2, other) {
                    let q = name_position(es2, other);
                    assert(es[q].0 == other);
                }
            }
        }
    }
}

/// The hasher writes for a string: its UTF-8 bytes, then the byte 0xff.
pub open spec fn str_writes(s: Seq<char>) -> Seq<Seq<u8>> {
    seq![encode_utf8(s), seq![0xffu8]]
}

/// The eight bytes of an integer, least significant first.
pub open spec fn i64_bytes(n: i64) -> Seq<u8> {
    let u = n as u64;
    seq![
        u as u8,
        (u >> 8u64) as u8,
        (u >> 16u64) as u8,
        (u >> 24u64) as u8,
        (u >> 32u64) as u8,
        (u >> 40u64) as u8,
        (u >> 48u64) as u8,
        (u >> 56u64) as u8,
    ]
}

/// The hasher writes for the values of a string map, in entry order.
pub open spec fn map_value_writes(m: Seq<(Seq<char>, Seq<char>)>) -> Seq<Seq<u8>>
    decreases m.len(),
{
    if m.len() == 0 {
        Seq::empty()
    } else {
        map_value_writes(m.drop_last()) + str_writes(m.last().1)
    }
}

/// The hasher writes for one attribute value: strings (and the text of a
/// floating-point value) as `str_writes`, integers and timestamp seconds as
/// their eight bytes, a boolean as one byte 0 or 1, a string map as the
/// writes of its values, an IP address as its length prefix (the eight
/// bytes of the number 4) and then its four octets.
pub open spec fn value_writes(v: AttrView) -> Seq<Seq<u8>> {
    match v {
        AttrView::Str(s) => str_writes(s),
        AttrView::I64(n) => seq![i64_bytes(n)],
        AttrView::Double(_bits, text) => str_writes(text),
        AttrView::Bool(b) => seq![seq![if b { 1u8 } else { 0u8 }]],
        AttrView::Timestamp(t) => seq![i64_bytes(t.seconds)],
        AttrView::StringMap(m) => map_value_writes(m),
        AttrView::Ip(octets) => seq![i64_bytes(4), octets],
    }
}

/// The hasher writes for the attribute named `k`: nothing if it is absent.
pub open spec fn attr_hash_writes(es: AttrsView, k: Seq<char>) -> Seq<Seq<u8>> {
    match attr_lookup(es, k) {
        Some(v) => value_writes(v),
        None => Seq::empty(),
    }
}

/// Feeds a string into the hasher as `str_writes`.
pub fn hash_str(s: &str, hashing: &mut DefaultHasher)
    ensures
        final(hashing)@ == old(hashing)@ + str_writes(s@),
{
    hashing.write(s.as_bytes());
    let end: [u8; 1] = [0xffu8];
    hashing.write(&end);
    assert(end@ =~= seq![0xffu8]);
    assert(final(hashing)@ =~= old(hashing)@ + str_writes(s@));
}

/// Feeds an integer into the hasher as its eight bytes.
pub fn hash_i64(n: i64, hashing: &mut DefaultHasher)
    ensures
        final(hashing)@ == old(hashing)@.push(i64_bytes(n)),
{
    let u: u64 = n as u64;
    let bytes: [u8; 8] = [
        u as u8,
        (u >> 8u64) as u8,
        (u >> 16u64) as u8,
        (u >> 24u64) as u8,
        (u >> 32u64) as u8,
        (u >> 40u64) as u8,
        (u >> 48u64) as u8,
        (u >> 56u64) as u8,
    ];
    hashing.write(&bytes);
    assert(bytes@ =~= i64_bytes(n));
}

/// Looks the key and then the value of each entry of a string map up in the
/// dictionary, in entry order, and gives the map of their indices.
pub fn map_string_map(string_map: &Vec<(String, String)>, dict: &mut MessageDictionary) -> (r: StringMap)
    requires
        old(dict).wf(),
        old(dict)@.1.len() + pair_words(pairs_view(string_map@)).len() + 1 < i32::MAX,
    ensures
        final(dict)@ == dict_learn_all(old(dict)@, pair_words(pairs_view(string_map@))),
        r.entries@ == encode_pairs(pairs_view(string_map@), final(dict)@),
        final(dict).wf(),
{
    let ghost mv = pairs_view(string_map@);
    let ghost d0 = dict@;
    let mut entries: Vec<(i32, i32)> = Vec::new();
    let mut i: usize = 0;
    proof {
        assert(mv.take(0) =~= Seq::<(Seq<char>, Seq<char>)>::empty());
    }
    while i < string_map.len()
        invariant
            i <= string_map.len(),
            mv == pairs_view(string_map@),
            dict.wf(),
            dict@ == dict_learn_all(d0, pair_words(mv.take(i as int))),
            entries@ == encode_pairs(mv.take(i as int), dict@),
            d0.1.len() + pair_words(mv).len() + 1 < i32::MAX,
        decreases string_map.len() - i,
    {
        let ghost di = dict@;
        let ghost pw = pair_words(mv.take(i as int));
        let ghost k = mv[i as int].0;
        let ghost v = mv[i as int].1;
        proof {
            assert(mv.take(i + 1).drop_last() =~= mv.take(i as int));
            assert(mv.take(i + 1).last() == (k, v));
            assert(pair_words(mv.take(i + 1)) == pw + seq![k, v]);
            lemma_pair_words_take(mv, i + 1);
            lemma_learn_all_len(d0, pw);
        }
        let ki = dict.index_of(string_map[i].0.as_str());
        let vi = dict.index_of(string_map[i].1.as_str());
        proof {
            let d1 = dict_learn(di, k);
            let d2 = dict@;
            lemma_lookup_roundtrip(di, k);
            lemma_learn_keeps_known(d1, v, k);
            lemma_lookup_stable(d1, v);
            lemma_learn_all_two(di, k, v);
            lemma_learn_all_append(d0, pw, seq![k, v]);
            lemma_learned_then_more(d0, pw, seq![k, v]);
            lemma_lookup_stable(di, k);
            lemma_encode_pairs_congruent(mv.take(i as int), di, d2);
            assert(dict_lookup(d2, k) == ki as int);
            assert(dict_lookup(d2, v) == vi as int);
            assert(mv.take(i + 1).last() == (k, v));
        }
        entries.push((ki, vi));
        proof {
            assert(entries@ =~= encode_pairs(mv.take(i + 1), dict@));
        }
        i = i + 1;
    }
    proof {
        assert(mv.take(string_map.len() as int) =~= mv);
    }
    StringMap { entries }
}

/// A set of named attribute values.
pub struct AttributeWrapper {
    values: Vec<(String, AttrValue)>,
}

impl View for AttributeWrapper {
    type V = AttrsView;

    closed spec fn view(&self) -> AttrsView {
        self.values@.map_values(|e: (String, AttrValue)| (e.0@, e.1@))
    }
}

impl AttributeWrapper {
    /// No attribute name occurs twice.
    pub open spec fn wf(&self) -> bool {
        distinct_names(self@)
    }

    /// An empty attribute set.
    pub fn new() -> (a: AttributeWrapper)
        ensures
            a@ == Seq::<(Seq<char>, AttrView)>::empty(),
            a.wf(),
    {
        let a = AttributeWrapper { values: Vec::new() };
        assert(a@ =~= Seq::<(Seq<char>, AttrView)>::empty());
        a
    }

    /// Finds the position of the entry named `key`.
    fn position_of(&self, key: &String) -> (r: Option<usize>)
        requires
            self.wf(),
        ensures
            match r {
                Some(i) => i < self@.len() && self@[i as int].0 == key@,
                None => !has_name(self@, key@),
            },
    {
        let mut i: usize = 0;
        while i < self.values.len()
            invariant
                i <= self.values.len(),
                forall|j: int| 0 <= j < i ==> self@[j].0 != key@,
            decreases self.values.len() - i,
        {
            if self.values[i].0 == *key {
                return Some(i);
            }
            i = i + 1;
        }
        None
    }

    /// Whether an attribute named `key` is present.
    pub fn key_exists(&self, key: &str) -> (r: bool)
        requires
            self.wf(),
        ensures
            r == has_name(self@, key@),
    {
        let k: String = key.to_owned();
        self.position_of(&k).is_some()
    }

    /// The value named `key`, if any.
    pub fn get(&self, key: &str) -> (r: Option<&AttrValue>)
        requires
            self.wf(),
        ensures
            match r {
                Some(v) => attr_lookup(self@, key@) == Some(v@),
                None => attr_lookup(self@, key@).is_none(),
            },
    {
        let k: String = key.to_owned();
        match self.position_of(&k) {
            Some(i) => {
                proof {
                    lemma_name_position(self@, key@, i as int);
                }
                Some(&self.values[i].1)
            },
            None => None,
        }
    }

    /// Feeds the value named `key` into the hasher (nothing if absent).
    pub fn hash(&self, key: &str, hashing: &mut DefaultHasher)
        requires
            self.wf(),
        ensures
            final(hashing)@ == old(hashing)@ + attr_hash_writes(self@, key@),
    {
        match self.get(key) {
            None => {
                assert(old(hashing)@ + attr_hash_writes(self@, key@) =~= old(hashing)@);
            },
            Some(value) => {
                match value {
                    AttrValue::StrValue(s) => hash_str(s.as_str(), hashing),
                    AttrValue::I64(n) => {
                        hash_i64(*n, hashing);
                        assert(final(hashing)@ =~= old(hashing)@ + attr_hash_writes(self@, key@));
                    },
                    AttrValue::Double(_bits, text) => hash_str(text.as_str(), hashing),
                    AttrValue::Bool(b) => {
                        let byte: [u8; 1] = [if *b { 1u8 } else { 0u8 }];
                        hashing.write(&byte);
                        assert(byte@ =~= seq![if *b { 1u8 } else { 0u8 }]);
                        assert(final(hashing)@ =~= old(hashing)@ + attr_hash_writes(self@, key@));
                    },
                    AttrValue::Timestamp(t) => {
                        hash_i64(t.seconds, hashing);
                        assert(final(hashing)@ =~= old(hashing)@ + attr_hash_writes(self@, key@));
                    },
                    AttrValue::StringMap(m) => {
                        let ghost mv = pairs_view(m@);
                        let mut i: usize = 0;
                        while i < m.len()
                            invariant
                                i <= m.len(),
                                mv == pairs_view(m@),
                                hashing@ == old(hashing)@ + map_value_writes(mv.take(i as int)),
                            decreases m.len() - i,
                        {
                            assert(mv.take(i + 1).drop_last() =~= mv.take(i as int));
                            hash_str(m[i].1.as_str(), hashing);
                            assert(hashing@ =~= old(hashing)@ + map_value_writes(mv.take(i + 1)));
                            i = i + 1;
                        }
                        assert(mv.take(m.len() as int) =~= mv);
                    },
                    AttrValue::Ip(octets) => {
                        hash_i64(4, hashing);
                        hashing.write(octets);
                        assert(final(hashing)@ =~= old(hashing)@ + attr_hash_writes(self@, key@));
                    },
                }
            },
        }
    }

    /// The wire form of the attribute set: each attribute's name is looked up
    /// in `dict`, then its string value or the words of its string map, in
    /// attribute order; the result holds the entries under the indices of
    /// the dictionary after all lookups, and all its per-message words.
    pub fn as_attributes(&self, dict: &mut MessageDictionary) -> (r: CompressedAttributes)
        requires
            old(dict).wf(),
            old(dict)@.1.len() + lookup_words(self@).len() + 1 < i32::MAX,
        ensures
            final(dict)@ == dict_learn_all(old(dict)@, lookup_words(self@)),
            r.body() == compress(self@, final(dict)@),
            r.words_spec() == final(dict)@.1,
            final(dict).wf(),
    {
        let ghost es = self@;
        let ghost d0 = dict@;
        let mut attrs = CompressedAttributes::new();
        let mut i: usize = 0;
        proof {
            assert(es.take(0) =~= Seq::<(Seq<char>, AttrView)>::empty());
        }
        while i < self.values.len()
            invariant
                i <= self.values.len(),
                es == self@,
                dict.wf(),
                dict@ == dict_learn_all(d0, lookup_words(es.take(i as int))),
                attrs.body() == compress(es.take(i as int), dict@),
                attrs.words@.len() == 0,
                d0.1.len() + lookup_words(es).len() + 1 < i32::MAX,
            decreases self.values.len() - i,
        {
            let ghost di = dict@;
            let ghost lwi = lookup_words(es.take(i as int));
            let ghost k = es[i as int].0;
            let ghost v = es[i as int].1;
            let ghost ew = entry_words(k, v);
            proof {
                assert(es.take(i + 1).drop_last() =~= es.take(i as int));
                assert(es.take(i + 1).last() == (k, v));
                assert(lookup_words(es.take(i + 1)) == lwi + ew);
                lemma_lookup_words_take(es, i + 1);
                lemma_learn_all_len(d0, lwi);
            }
            let ki = dict.index_of(self.values[i].0.as_str());
            let ghost d1 = dict@;
            let ghost mut tail: Seq<Seq<char>> = Seq::empty();
            proof {
                lemma_lookup_roundtrip(di, k);
                lemma_lookup_stable(di, k);
            }
            match &self.values[i].1 {
                AttrValue::StrValue(sv) => {
                    proof {
                        tail = seq![sv@];
                    }
                    let si = dict.index_of(sv.as_str());
                    proof {
                        lemma_lookup_stable(d1, sv@);
                        lemma_learn_all_one(d1, sv@);
                        assert(dict_lookup(dict@, sv@) == si as int);
                    }
                    attrs.strings.push((ki, si));
                },
                AttrValue::I64(n) => {
                    attrs.int64s.push((ki, *n));
                },
                AttrValue::Double(bits, _text) => {
                    attrs.doubles.push((ki, *bits));
                },
                AttrValue::Bool(b) => {
                    attrs.bools.push((ki, *b));
                },
                AttrValue::Timestamp(t) => {
                    attrs.timestamps.push((ki, *t));
                },
                AttrValue::StringMap(m) => {
                    proof {
                        tail = pair_words(pairs_view(m@));
                    }
                    let sm = map_string_map(m, dict);
                    attrs.string_maps.push((ki, sm));
                },
                AttrValue::Ip(octets) => {
                    let bytes: Vec<u8> = vec![octets[0], octets[1], octets[2], octets[3]];
                    proof {
                        assert(bytes@ =~= octets@);
                    }
                    attrs.bytes.push((ki, bytes));
                },
            }
            proof {
                let d2 = dict@;
                assert(ew == seq![k] + tail);
                assert(d2 == dict_learn_all(d1, tail));
                lemma_learn_all_one(di, k);
                lemma_learn_all_append(di, seq![k], tail);
                lemma_learn_all_append(d0, lwi, ew);
                lemma_learned_then_more(d0, lwi, ew);
                lemma_compress_congruent(es.take(i as int), di, d2);
                crate::message_dict::lemma_learn_all_keeps_known(d1, tail, k);
                assert(dict_lookup(d2, k) == ki as int);
                assert(attrs.body() =~= compress(es.take(i + 1), d2));
            }
            i = i + 1;
        }
        proof {
            assert(es.take(self.values.len() as int) =~= es);
        }
        let words = dict.get_words();
        let mut j: usize = 0;
        while j < words.len()
            invariant
                j <= words.len(),
                attrs.words@.len() == j,
                forall|m: int| 0 <= m < j ==> attrs.words@[m]@ == words@[m]@,
                attrs.body() == compress(es, dict@),
            decreases words.len() - j,
        {
            attrs.words.push(words[j].clone());
            j = j + 1;
        }
        proof {
            assert(attrs.words_spec() =~= dict@.1);
        }
        attrs
    }

    /// Whether the words compressing the set looks up are few enough for
    /// every per-message index to fit in an `i32`: fewer than `i32::MAX - 1`.
    pub fn fits_dictionary(&self) -> (r: bool)
        ensures
            r == (lookup_words(self@).len() + 1 < i32::MAX),
    {
        let ghost es = self@;
        let limit: u64 = 2147483646;
        let mut count: u64 = 0;
        let mut i: usize = 0;
        proof {
            assert(es.take(0) =~= Seq::<(Seq<char>, AttrView)>::empty());
        }
        while i < self.values.len()
            invariant
                i <= self.values.len(),
                es == self@,
                count == lookup_words(es.take(i as int)).len(),
                count < limit,
                limit == i32::MAX - 1,
            decreases self.values.len() - i,
        {
            proof {
                assert(es.take(i + 1).drop_last() =~= es.take(i as int));
                assert(es.take(i + 1).last() == es[i as int]);
                assert(es[i as int] == (self.values@[i as int].0@, self.values@[i as int].1@));
                lemma_lookup_words_take(es, i + 1);
            }
            let n: u64 = match &self.values[i].1 {
                AttrValue::StrValue(_) => 2,
                AttrValue::StringMap(m) => {
                    proof {
                        lemma_pair_words_len(pairs_view(m@));
                    }
                    if m.len() as u64 >= limit {
                        return false;
                    }
                    1 + 2 * (m.len() as u64)
                },
                _ => 1,
            };
            if count + n >= limit {
                return false;
            }
            count = count + n;
            i = i + 1;
        }
        proof {
            assert(es.take(self.values.len() as int) =~= es);
        }
        true
    }

    /// Stores `value` under `key`, replacing an earlier value of that name.
    fn insert_value(&mut self, key: &str, value: AttrValue)
        requires
            old(self).wf(),
        ensures
            final(self)@ == attr_insert(old(self)@, key@, value@),
            final(self).wf(),
    {
        let k: String = key.to_owned();
        let ghost v = value@;
        proof {
            lemma_insert_then_lookup(self@, key@, v, key@);
        }
        match self.position_of(&k) {
            Some(i) => {
                proof {
                    lemma_name_position(self@, key@, i as int);
                }
                self.values.set(i, (k, value));
                assert(self@ =~= attr_insert(old(self)@, key@, v));
            },
            None => {
                self.values.push((k, value));
                assert(self@ =~= attr_insert(old(self)@, key@, v));
            },
        }
    }

    /// Stores a string attribute; an empty string is not stored.
    pub fn insert_string_attribute(&mut self, key: &str, value: &str)
        requires
            old(self).wf(),
        ensures
            final(self)@ == if value@.len() > 0 {
                attr_insert(old(self)@, key@, AttrView::Str(value@))
            } else {
                old(self)@
            },
            final(self).wf(),
    {
        if !value.is_empty() {
            let v: String = value.to_owned();
            self.insert_value(key, AttrValue::StrValue(v));
        }
    }
    /// Stores a 64-bit integer attribute.
    pub fn insert_int64_attribute(&mut self, key: &str, value: i64)
        requires
            old(self).wf(),
        ensures
            final(self)@ == attr_insert(old(self)@, key@, AttrView::I64(value)),
            final(self).wf(),
    {
        self.insert_value(key, AttrValue::I64(value));
    }

    /// Stores a floating-point attribute, given by its IEEE bit pattern and
    /// its decimal text.
    pub fn insert_double_attribute(&mut self, key: &str, bits: u64, text: String)
        requires
            old(self).wf(),
        ensures
            final(self)@ == attr_insert(old(self)@, key@, AttrView::Double(bits, text@)),
            final(self).wf(),
    {
        self.insert_value(key, AttrValue::Double(bits, text));
    }

    /// Stores a boolean attribute.
    pub fn insert_bool_attribute(&mut self, key: &str, value: bool)
        requires
            old(self).wf(),
        ensures
            final(self)@ == attr_insert(old(self)@, key@, AttrView::Bool(value)),
            final(self).wf(),
    {
        self.insert_value(key, AttrValue::Bool(value));
    }

    /// Stores a timestamp attribute.
    pub fn insert_time_stamp_attribute(&mut self, key: &str, value: Timestamp)
        requires
            old(self).wf(),
        ensures
            final(self)@ == attr_insert(old(self)@, key@, AttrView::Timestamp(value)),
            final(self).wf(),
    {
        self.insert_value(key, AttrValue::Timestamp(value));
    }

    /// Stores a string-map attribute, given as its (key, value) entries.
    pub fn insert_string_map(&mut self, key: &str, value: Vec<(String, String)>)
        requires
            old(self).wf(),
            distinct_pair_keys(pairs_view(value@)),
        ensures
            final(self)@ == attr_insert(old(self)@, key@, AttrView::StringMap(pairs_view(value@))),
            final(self).wf(),
    {
        self.insert_value(key, AttrValue::StringMap(value));
    }

    /// Stores an IPv4 address attribute, given by its four octets.
    pub fn insert_ip_attribute(&mut self, key: &str, value: [u8; 4])
        requires
            old(self).wf(),
        ensures
            final(self)@ == attr_insert(old(self)@, key@, AttrView::Ip(value@)),
            final(self).wf(),
    {
        self.insert_value(key, AttrValue::Ip(value));
    }
}

} // verus!
