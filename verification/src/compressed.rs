//! The mixer wire model of an attribute set: every name and string is
//! replaced by its dictionary index, and values are grouped by kind.

use vstd::prelude::*;
use crate::time::Timestamp;
use crate::global_dict::words_view;
use crate::attr_wrapper::{AttrView, AttrsView};
use crate::message_dict::{
    DictView, dict_knows, dict_lookup, dict_learn, dict_learn_all, dict_word_at,
    lemma_learn_all_keeps_known, lemma_learn_all_append, lemma_lookup_roundtrip,
};

verus! {

/// The words a string map is looked up by: each key, then its value.
pub open spec fn pair_words(m: Seq<(Seq<char>, Seq<char>)>) -> Seq<Seq<char>>
    decreases m.len(),
{
    if m.len() == 0 {
        Seq::empty()
    } else {
        pair_words(m.drop_last()) + seq![m.last().0, m.last().1]
    }
}

/// The words one attribute is looked up by: its name, then a string value
/// or the words of a string map.
pub open spec fn entry_words(k: Seq<char>, v: AttrView) -> Seq<Seq<char>> {
    seq![k] + match v {
        AttrView::Str(s) => seq![s],
        AttrView::StringMap(m) => pair_words(m),
        _ => Seq::empty(),
    }
}

/// The words an attribute set is looked up by, in order.
pub open spec fn lookup_words(es: AttrsView) -> Seq<Seq<char>>
    decreases es.len(),
{
    if es.len() == 0 {
        Seq::empty()
    } else {
        lookup_words(es.drop_last()) + entry_words(es.last().0, es.last().1)
    }
}

/// A string map is looked up by two words per entry.
pub proof fn lemma_pair_words_len(m: Seq<(Seq<char>, Seq<char>)>)
    ensures
        pair_words(m).len() == 2 * m.len(),
    decreases m.len(),
{
    if m.len() > 0 {
        lemma_pair_words_len(m.drop_last());
    }
}

/// The index pairs of a string map under dictionary `d`.
pub open spec fn encode_pairs(m: Seq<(Seq<char>, Seq<char>)>, d: DictView) -> Seq<(i32, i32)>
    decreases m.len(),
{
    if m.len() == 0 {
        Seq::empty()
    } else {
        encode_pairs(m.drop_last(), d).push(
            (dict_lookup(d, m.last().0) as i32, dict_lookup(d, m.last().1) as i32),
        )
    }
}

/// The abstract compressed attributes, one sequence of (name index, value)
/// entries per kind of value.
#[verifier::ext_equal]
pub struct CompressedView {
    pub strings: Seq<(i32, i32)>,
    pub int64s: Seq<(i32, i64)>,
    pub doubles: Seq<(i32, u64)>,
    pub bools: Seq<(i32, bool)>,
    pub timestamps: Seq<(i32, Timestamp)>,
    pub bytes: Seq<(i32, Seq<u8>)>,
    pub string_maps: Seq<(i32, Seq<(i32, i32)>)>,
}

/// No entries at all.
pub open spec fn compressed_empty() -> CompressedView {
    CompressedView {
        strings: Seq::empty(),
        int64s: Seq::empty(),
        doubles: Seq::empty(),
        bools: Seq::empty(),
        timestamps: Seq::empty(),
        bytes: Seq::empty(),
        string_maps: Seq::empty(),
    }
}

/// `c` with the entry of attribute (`k`, `v`) added under dictionary `d`:
/// the name becomes its index; a string value becomes its index; a string
/// map its index pairs; a floating-point value its bit pattern; an IP
/// address its octets; other values stay as they are.
pub open spec fn compress_entry(c: CompressedView, k: Seq<char>, v: AttrView, d: DictView) -> CompressedView {
    let ki = dict_lookup(d, k) as i32;
    match v {
        AttrView::Str(s) => CompressedView { strings: c.strings.push((ki, dict_lookup(d, s) as i32)), ..c },
        AttrView::I64(n) => CompressedView { int64s: c.int64s.push((ki, n)), ..c },
        AttrView::Double(bits, _text) => CompressedView { doubles: c.doubles.push((ki, bits)), ..c },
        AttrView::Bool(b) => CompressedView { bools: c.bools.push((ki, b)), ..c },
        AttrView::Timestamp(t) => CompressedView { timestamps: c.timestamps.push((ki, t)), ..c },
        AttrView::StringMap(m) => CompressedView {
            string_maps: c.string_maps.push((ki, encode_pairs(m, d))),
            ..c
        },
        AttrView::Ip(octets) => CompressedView { bytes: c.bytes.push((ki, octets)), ..c },
    }
}

/// The compressed form of an attribute set under dictionary `d`, entries in
/// attribute order.
pub open spec fn compress(es: AttrsView, d: DictView) -> CompressedView
    decreases es.len(),
{
    if es.len() == 0 {
        compressed_empty()
    } else {
        compress_entry(compress(es.drop_last(), d), es.last().0, es.last().1, d)
    }
}

/// The entry an attribute (`k`, `v`) gives under dictionary `d` stands at
/// position `j` of the list of its kind in `c`: the name's index with the
/// string's index, the integer, the floating-point bit pattern, the
/// boolean, the timestamp, the map's index pairs, or the address's octets.
pub open spec fn holds_entry(c: CompressedView, k: Seq<char>, v: AttrView, d: DictView, j: int) -> bool {
    let ki = dict_lookup(d, k) as i32;
    match v {
        AttrView::Str(s) => 0 <= j < c.strings.len() && c.strings[j] == (ki, dict_lookup(d, s) as i32),
        AttrView::I64(n) => 0 <= j < c.int64s.len() && c.int64s[j] == (ki, n),
        AttrView::Double(bits, _text) => 0 <= j < c.doubles.len() && c.doubles[j] == (ki, bits),
        AttrView::Bool(b) => 0 <= j < c.bools.len() && c.bools[j] == (ki, b),
        AttrView::Timestamp(t) => 0 <= j < c.timestamps.len() && c.timestamps[j] == (ki, t),
        AttrView::StringMap(m) => 0 <= j < c.string_maps.len() && c.string_maps[j] == (ki, encode_pairs(m, d)),
        AttrView::Ip(octets) => 0 <= j < c.bytes.len() && c.bytes[j] == (ki, octets),
    }
}

/// Compression keeps every attribute: each attribute of the set has an
/// entry of the kind of its value in the compressed form, under its name's
/// index and carrying its value (an address as its octets, a string as its
/// word's index).
pub proof fn lemma_compress_complete(es: AttrsView, d: DictView, i: int) -> (j: int)
    requires
        0 <= i < es.len(),
    ensures
        holds_entry(compress(es, d), es[i].0, es[i].1, d, j),
    decreases es.len(),
{
    let p = es.drop_last();
    let c = compress(p, d);
    if i < es.len() - 1 {
        let j = lemma_compress_complete(p, d, i);
        assert(p[i] == es[i]);
        j
    } else {
        match es[i].1 {
            AttrView::Str(_) => c.strings.len() as int,
            AttrView::I64(_) => c.int64s.len() as int,
            AttrView::Double(_, _) => c.doubles.len() as int,
            AttrView::Bool(_) => c.bools.len() as int,
            AttrView::Timestamp(_) => c.timestamps.len() as int,
            AttrView::StringMap(_) => c.string_maps.len() as int,
            AttrView::Ip(_) => c.bytes.len() as int,
        }
    }
}

/// The number of attributes whose value satisfies `f`.
pub open spec fn count_where(es: AttrsView, f: spec_fn(AttrView) -> bool) -> nat
    decreases es.len(),
{
    if es.len() == 0 {
        0
    } else {
        count_where(es.drop_last(), f) + if f(es.last().1) { 1nat } else { 0nat }
    }
}

/// The compressed form has exactly one entry per attribute: each list holds
/// as many entries as the set has attributes of that kind.
pub proof fn lemma_compress_counts(es: AttrsView, d: DictView)
    ensures
        compress(es, d).strings.len() == count_where(es, |v: AttrView| v is Str),
        compress(es, d).int64s.len() == count_where(es, |v: AttrView| v is I64),
        compress(es, d).doubles.len() == count_where(es, |v: AttrView| v is Double),
        compress(es, d).bools.len() == count_where(es, |v: AttrView| v is Bool),
        compress(es, d).timestamps.len() == count_where(es, |v: AttrView| v is Timestamp),
        compress(es, d).string_maps.len() == count_where(es, |v: AttrView| v is StringMap),
        compress(es, d).bytes.len() == count_where(es, |v: AttrView| v is Ip),
    decreases es.len(),
{
    if es.len() > 0 {
        lemma_compress_counts(es.drop_last(), d);
    }
}

/// Two dictionaries give the same index to every word of `ws`.
pub open spec fn same_lookups(d1: DictView, d2: DictView, ws: Seq<Seq<char>>) -> bool {
    forall|w: Seq<char>| ws.contains(w) ==> dict_lookup(d1, w) == dict_lookup(d2, w)
}

/// The index pairs of a map depend only on the indices of its words.
pub proof fn lemma_encode_pairs_congruent(m: Seq<(Seq<char>, Seq<char>)>, d1: DictView, d2: DictView)
    requires
        same_lookups(d1, d2, pair_words(m)),
    ensures
        encode_pairs(m, d1) == encode_pairs(m, d2),
    decreases m.len(),
{
    if m.len() > 0 {
        let pw = pair_words(m);
        let prev = pair_words(m.drop_last());
        assert forall|w: Seq<char>| prev.contains(w) implies dict_lookup(d1, w) == dict_lookup(d2, w) by {
            let k = choose|k: int| 0 <= k < prev.len() && prev[k] == w;
            assert(pw[k] == w);
        }
        lemma_encode_pairs_congruent(m.drop_last(), d1, d2);
        assert(pw[pw.len() - 2] == m.last().0);
        assert(pw[pw.len() - 1] == m.last().1);
    }
}

/// The compressed form depends only on the indices of the looked-up words.
pub proof fn lemma_compress_congruent(es: AttrsView, d1: DictView, d2: DictView)
    requires
        same_lookups(d1, d2, lookup_words(es)),
    ensures
        compress(es, d1) == compress(es, d2),
    decreases es.len(),
{
    if es.len() > 0 {
        let lw = lookup_words(es);
        let prev = lookup_words(es.drop_last());
        let ew = entry_words(es.last().0, es.last().1);
        assert(lw == prev + ew);
        assert forall|w: Seq<char>| prev.contains(w) implies dict_lookup(d1, w) == dict_lookup(d2, w) by {
            let k = choose|k: int| 0 <= k < prev.len() && prev[k] == w;
            assert(lw[k] == w);
        }
        lemma_compress_congruent(es.drop_last(), d1, d2);
        assert(lw[prev.len() as int] == es.last().0);
        match es.last().1 {
            AttrView::Str(s) => {
                assert(lw[prev.len() + 1int] == s);
            },
            AttrView::StringMap(m) => {
                let pw = pair_words(m);
                assert(ew == seq![es.last().0] + pw);
                assert forall|w: Seq<char>| pw.contains(w) implies dict_lookup(d1, w) == dict_lookup(d2, w) by {
                    let k = choose|k: int| 0 <= k < pw.len() && pw[k] == w;
                    assert(lw[prev.len() + 1int + k] == w);
                }
                lemma_encode_pairs_congruent(m, d1, d2);
            },
            _ => {},
        }
    }
}

/// Every word of `ws` is known after learning `ws`, and learning more words
/// keeps the indices of the words learned before.
pub proof fn lemma_learned_then_more(d: DictView, ws: Seq<Seq<char>>, more: Seq<Seq<char>>)
    ensures
        same_lookups(dict_learn_all(d, ws), dict_learn_all(dict_learn_all(d, ws), more), ws),
{
    assert forall|w: Seq<char>| ws.contains(w) implies dict_lookup(dict_learn_all(d, ws), w)
        == dict_lookup(dict_learn_all(dict_learn_all(d, ws), more), w) by {
        lemma_learn_all_keeps_known(d, ws, w);
        lemma_learn_all_keeps_known(dict_learn_all(d, ws), more, w);
    }
}

/// Learning words adds at most one per-message word per word learned.
pub proof fn lemma_learn_all_len(d: DictView, ws: Seq<Seq<char>>)
    ensures
        dict_learn_all(d, ws).1.len() <= d.1.len() + ws.len(),
    decreases ws.len(),
{
    if ws.len() > 0 {
        lemma_learn_all_len(d, ws.drop_last());
    }
}

/// Learning a one-word sequence is learning the word.
pub proof fn lemma_learn_all_one(d: DictView, w: Seq<char>)
    ensures
        dict_learn_all(d, seq![w]) == dict_learn(d, w),
{
    let ws = seq![w];
    assert(ws.drop_last() =~= Seq::<Seq<char>>::empty());
    assert(dict_learn_all(d, ws.drop_last()) == d);
    assert(ws.last() == w);
}

/// Learning a two-word sequence is learning the words in turn.
pub proof fn lemma_learn_all_two(d: DictView, a: Seq<char>, b: Seq<char>)
    ensures
        dict_learn_all(d, seq![a, b]) == dict_learn(dict_learn(d, a), b),
{
    let ws = seq![a, b];
    assert(ws.drop_last() =~= seq![a]);
    lemma_learn_all_one(d, a);
    assert(ws.last() == b);
}

/// A prefix of the attributes is looked up by no more words than all of them.
pub proof fn lemma_lookup_words_take(es: AttrsView, i: int)
    requires
        0 <= i <= es.len(),
    ensures
        lookup_words(es.take(i)).len() <= lookup_words(es).len(),
    decreases es.len() - i,
{
    if i < es.len() {
        lemma_lookup_words_take(es, i + 1);
        assert(es.take(i + 1).drop_last() =~= es.take(i));
    } else {
        assert(es.take(i) =~= es);
    }
}

/// A prefix of a map's entries is looked up by no more words than all of them.
pub proof fn lemma_pair_words_take(m: Seq<(Seq<char>, Seq<char>)>, i: int)
    requires
        0 <= i <= m.len(),
    ensures
        pair_words(m.take(i)).len() <= pair_words(m).len(),
    decreases m.len() - i,
{
    if i < m.len() {
        lemma_pair_words_take(m, i + 1);
        assert(m.take(i + 1).drop_last() =~= m.take(i));
    } else {
        assert(m.take(i) =~= m);
    }
}

/// Every word an attribute is looked up by is among the words of the set.
pub proof fn lemma_entry_words_included(es: AttrsView, i: int, w: Seq<char>)
    requires
        0 <= i < es.len(),
        entry_words(es[i].0, es[i].1).contains(w),
    ensures
        lookup_words(es).contains(w),
    decreases es.len(),
{
    let lw = lookup_words(es);
    let prev = lookup_words(es.drop_last());
    let ew = entry_words(es.last().0, es.last().1);
    assert(lw == prev + ew);
    if i == es.len() - 1 {
        let k = choose|k: int| 0 <= k < ew.len() && ew[k] == w;
        assert(lw[prev.len() + k] == w);
    } else {
        assert(es.drop_last()[i] == es[i]);
        lemma_entry_words_included(es.drop_last(), i, w);
        let k = choose|k: int| 0 <= k < prev.len() && prev[k] == w;
        assert(lw[k] == w);
    }
}

/// Decoding gives back what was compressed: after the lookups of an
/// attribute set, each of its words (names, string values, map keys and map
/// values) is known, and the index it is looked up by stands for that word.
pub proof fn lemma_compressed_words_decode(d0: DictView, es: AttrsView, w: Seq<char>)
    requires
        lookup_words(es).contains(w),
    ensures
        dict_knows(dict_learn_all(d0, lookup_words(es)), w),
        dict_word_at(
            dict_learn_all(d0, lookup_words(es)),
            dict_lookup(dict_learn_all(d0, lookup_words(es)), w),
        ) == w,
{
    let d = dict_learn_all(d0, lookup_words(es));
    lemma_learn_all_keeps_known(d0, lookup_words(es), w);
    lemma_lookup_roundtrip(d, w);
    assert(dict_learn(d, w) == d);
}

/// In the compressed form, the name index of each attribute stands for its
/// name, and distinct names get distinct indices.
pub proof fn lemma_compressed_names_decode(d0: DictView, es: AttrsView, i: int, j: int)
    requires
        0 <= i < es.len(),
        0 <= j < es.len(),
    ensures
        ({
            let d = dict_learn_all(d0, lookup_words(es));
            &&& dict_word_at(d, dict_lookup(d, es[i].0)) == es[i].0
            &&& (es[i].0 != es[j].0 ==> dict_lookup(d, es[i].0) != dict_lookup(d, es[j].0))
        }),
{
    assert(entry_words(es[i].0, es[i].1)[0] == es[i].0);
    assert(entry_words(es[j].0, es[j].1)[0] == es[j].0);
    lemma_entry_words_included(es, i, es[i].0);
    lemma_entry_words_included(es, j, es[j].0);
    lemma_compressed_words_decode(d0, es, es[i].0);
    lemma_compressed_words_decode(d0, es, es[j].0);
}

/// A string map in the wire model: (key index, value index) pairs.
pub struct StringMap {
    pub entries: Vec<(i32, i32)>,
}

/// An attribute set in the wire model: the per-message words, then one list
/// of (name index, value) entries per kind of value.
pub struct CompressedAttributes {
    pub words: Vec<String>,
    pub strings: Vec<(i32, i32)>,
    pub int64s: Vec<(i32, i64)>,
    pub doubles: Vec<(i32, u64)>,
    pub bools: Vec<(i32, bool)>,
    pub timestamps: Vec<(i32, Timestamp)>,
    pub bytes: Vec<(i32, Vec<u8>)>,
    pub string_maps: Vec<(i32, StringMap)>,
}

impl CompressedAttributes {
    /// The entries, abstractly.
    pub open spec fn body(&self) -> CompressedView {
        CompressedView {
            strings: self.strings@,
            int64s: self.int64s@,
            doubles: self.doubles@,
            bools: self.bools@,
            timestamps: self.timestamps@,
            bytes: self.bytes@.map_values(|e: (i32, Vec<u8>)| (e.0, e.1@)),
            string_maps: self.string_maps@.map_values(|e: (i32, StringMap)| (e.0, e.1.entries@)),
        }
    }

    /// The per-message words, abstractly.
    pub open spec fn words_spec(&self) -> Seq<Seq<char>> {
        words_view(self.words@)
    }

    /// No words and no entries.
    pub fn new() -> (c: CompressedAttributes)
        ensures
            c.body() == compressed_empty(),
            c.words@.len() == 0,
    {
        let c = CompressedAttributes {
            words: Vec::new(),
            strings: Vec::new(),
            int64s: Vec::new(),
            doubles: Vec::new(),
            bools: Vec::new(),
            timestamps: Vec::new(),
            bytes: Vec::new(),
            string_maps: Vec::new(),
        };
        assert(c.body() =~= compressed_empty());
        c
    }
}

} // verus!
