//! Reading the compressed form back: every entry of the compressed form
//! comes from one attribute of the set, and its indices stand for that
//! attribute's name and words in the dictionary after the lookups.

use vstd::prelude::*;
use crate::global_dict::lemma_first_index_exists;
use crate::attr_wrapper::AttrsView;
use crate::message_dict::{
    DictView, dict_lookup, dict_learn_all, dict_word_at, lemma_learn_all_extends,
    lemma_learn_all_keeps_known,
};
use crate::compressed::{
    pair_words, entry_words, lookup_words, encode_pairs, compress, lemma_learn_all_len,
    holds_entry, lemma_compress_complete,
    lemma_entry_words_included, lemma_compressed_words_decode,
};

verus! {

/// The dictionary after the lookups of an attribute set.
pub open spec fn learned(d0: DictView, es: AttrsView) -> DictView {
    dict_learn_all(d0, lookup_words(es))
}

/// Every index fits in an `i32`: the global words and the per-message words
/// after the lookups number fewer than `i32::MAX`.
pub open spec fn indices_fit(d0: DictView, es: AttrsView) -> bool {
    &&& d0.0.len() <= i32::MAX
    &&& d0.1.len() + lookup_words(es).len() + 1 < i32::MAX
}

/// A word the set is looked up by gets an index that fits in an `i32`, and
/// that index stands for the word.
pub proof fn lemma_lookup_fits(d0: DictView, es: AttrsView, w: Seq<char>)
    requires
        indices_fit(d0, es),
        lookup_words(es).contains(w),
    ensures
        (dict_lookup(learned(d0, es), w) as i32) as int == dict_lookup(learned(d0, es), w),
        dict_word_at(learned(d0, es), (dict_lookup(learned(d0, es), w) as i32) as int) == w,
{
    let d = learned(d0, es);
    lemma_learn_all_keeps_known(d0, lookup_words(es), w);
    lemma_learn_all_extends(d0, lookup_words(es));
    lemma_learn_all_len(d0, lookup_words(es));
    if d.0.contains(w) {
        lemma_first_index_exists(d.0, w);
    } else {
        lemma_first_index_exists(d.1, w);
    }
    lemma_compressed_words_decode(d0, es, w);
}

/// The `2p`-th and `2p + 1`-th words of a map are the key and value of its
/// `p`-th entry.
pub proof fn lemma_pair_words_index(m: Seq<(Seq<char>, Seq<char>)>, p: int)
    requires
        0 <= p < m.len(),
    ensures
        pair_words(m).len() == 2 * m.len(),
        pair_words(m)[2 * p] == m[p].0,
        pair_words(m)[2 * p + 1] == m[p].1,
    decreases m.len(),
{
    crate::compressed::lemma_pair_words_len(m);
    if p < m.len() - 1 {
        lemma_pair_words_index(m.drop_last(), p);
        crate::compressed::lemma_pair_words_len(m.drop_last());
        assert(pair_words(m) == pair_words(m.drop_last()) + seq![m.last().0, m.last().1]);
        assert(m.drop_last()[p] == m[p]);
    }
}

/// A map has one index pair per entry.
pub proof fn lemma_encode_pairs_len(m: Seq<(Seq<char>, Seq<char>)>, d: DictView)
    ensures
        encode_pairs(m, d).len() == m.len(),
    decreases m.len(),
{
    if m.len() > 0 {
        lemma_encode_pairs_len(m.drop_last(), d);
    }
}

/// The `p`-th index pair of a map is the indices of its `p`-th key and value.
pub proof fn lemma_encode_pairs_index(m: Seq<(Seq<char>, Seq<char>)>, d: DictView, p: int)
    requires
        0 <= p < m.len(),
    ensures
        encode_pairs(m, d).len() == m.len(),
        encode_pairs(m, d)[p] == (dict_lookup(d, m[p].0) as i32, dict_lookup(d, m[p].1) as i32),
    decreases m.len(),
{
    lemma_encode_pairs_len(m, d);
    lemma_encode_pairs_len(m.drop_last(), d);
    if p < m.len() - 1 {
        lemma_encode_pairs_index(m.drop_last(), d, p);
        assert(m.drop_last()[p] == m[p]);
    }
}

/// The `j`-th entry of `int64s` comes from attribute `i`, a `I64` value,
/// under the index of its name.
pub proof fn lemma_int64s_source(es: AttrsView, d: DictView, j: int) -> (i: int)
    requires
        0 <= j < compress(es, d).int64s.len(),
    ensures
        0 <= i < es.len(),
        es[i].1 is I64,
        compress(es, d).int64s[j] == (dict_lookup(d, es[i].0) as i32, es[i].1->I64_0),
    decreases es.len(),
{
    let p = es.drop_last();
    let c = compress(p, d);
    if j < c.int64s.len() {
        let i = lemma_int64s_source(p, d, j);
        assert(es[i] == p[i]);
        i
    } else {
        (es.len() - 1) as int
    }
}

/// The `j`-th entry of `doubles` comes from attribute `i`, a `Double` value,
/// under the index of its name.
pub proof fn lemma_doubles_source(es: AttrsView, d: DictView, j: int) -> (i: int)
    requires
        0 <= j < compress(es, d).doubles.len(),
    ensures
        0 <= i < es.len(),
        es[i].1 is Double,
        compress(es, d).doubles[j] == (dict_lookup(d, es[i].0) as i32, es[i].1->Double_0),
    decreases es.len(),
{
    let p = es.drop_last();
    let c = compress(p, d);
    if j < c.doubles.len() {
        let i = lemma_doubles_source(p, d, j);
        assert(es[i] == p[i]);
        i
    } else {
        (es.len() - 1) as int
    }
}

/// The `j`-th entry of `bools` comes from attribute `i`, a `Bool` value,
/// under the index of its name.
pub proof fn lemma_bools_source(es: AttrsView, d: DictView, j: int) -> (i: int)
    requires
        0 <= j < compress(es, d).bools.len(),
    ensures
        0 <= i < es.len(),
        es[i].1 is Bool,
        compress(es, d).bools[j] == (dict_lookup(d, es[i].0) as i32, es[i].1->Bool_0),
    decreases es.len(),
{
    let p = es.drop_last();
    let c = compress(p, d);
    if j < c.bools.len() {
        let i = lemma_bools_source(p, d, j);
        assert(es[i] == p[i]);
        i
    } else {
        (es.len() - 1) as int
    }
}

/// The `j`-th entry of `timestamps` comes from attribute `i`, a `Timestamp` value,
/// under the index of its name.
pub proof fn lemma_timestamps_source(es: AttrsView, d: DictView, j: int) -> (i: int)
    requires
        0 <= j < compress(es, d).timestamps.len(),
    ensures
        0 <= i < es.len(),
        es[i].1 is Timestamp,
        compress(es, d).timestamps[j] == (dict_lookup(d, es[i].0) as i32, es[i].1->Timestamp_0),
    decreases es.len(),
{
    let p = es.drop_last();
    let c = compress(p, d);
    if j < c.timestamps.len() {
        let i = lemma_timestamps_source(p, d, j);
        assert(es[i] == p[i]);
        i
    } else {
        (es.len() - 1) as int
    }
}

/// The `j`-th entry of `bytes` comes from attribute `i`, a `Ip` value,
/// under the index of its name.
pub proof fn lemma_bytes_source(es: AttrsView, d: DictView, j: int) -> (i: int)
    requires
        0 <= j < compress(es, d).bytes.len(),
    ensures
        0 <= i < es.len(),
        es[i].1 is Ip,
        compress(es, d).bytes[j] == (dict_lookup(d, es[i].0) as i32, es[i].1->Ip_0),
    decreases es.len(),
{
    let p = es.drop_last();
    let c = compress(p, d);
    if j < c.bytes.len() {
        let i = lemma_bytes_source(p, d, j);
        assert(es[i] == p[i]);
        i
    } else {
        (es.len() - 1) as int
    }
}

/// The `j`-th entry of `strings` comes from attribute `i`, a `Str` value,
/// under the index of its name.
pub proof fn lemma_strings_source(es: AttrsView, d: DictView, j: int) -> (i: int)
    requires
        0 <= j < compress(es, d).strings.len(),
    ensures
        0 <= i < es.len(),
        es[i].1 is Str,
        compress(es, d).strings[j] == (dict_lookup(d, es[i].0) as i32, dict_lookup(d, es[i].1->Str_0) as i32),
    decreases es.len(),
{
    let p = es.drop_last();
    let c = compress(p, d);
    if j < c.strings.len() {
        let i = lemma_strings_source(p, d, j);
        assert(es[i] == p[i]);
        i
    } else {
        (es.len() - 1) as int
    }
}

/// The `j`-th entry of `string_maps` comes from attribute `i`, a `StringMap` value,
/// under the index of its name.
pub proof fn lemma_string_maps_source(es: AttrsView, d: DictView, j: int) -> (i: int)
    requires
        0 <= j < compress(es, d).string_maps.len(),
    ensures
        0 <= i < es.len(),
        es[i].1 is StringMap,
        compress(es, d).string_maps[j] == (dict_lookup(d, es[i].0) as i32, encode_pairs(es[i].1->StringMap_0, d)),
    decreases es.len(),
{
    let p = es.drop_last();
    let c = compress(p, d);
    if j < c.string_maps.len() {
        let i = lemma_string_maps_source(p, d, j);
        assert(es[i] == p[i]);
        i
    } else {
        (es.len() - 1) as int
    }
}

/// The index stands for the name of attribute `i`.
pub open spec fn name_decodes(d: DictView, es: AttrsView, i: int, index: i32) -> bool {
    dict_word_at(d, index as int) == es[i].0
}

proof fn lemma_name_decodes(d0: DictView, es: AttrsView, i: int)
    requires
        indices_fit(d0, es),
        0 <= i < es.len(),
    ensures
        name_decodes(learned(d0, es), es, i, dict_lookup(learned(d0, es), es[i].0) as i32),
{
    assert(entry_words(es[i].0, es[i].1)[0] == es[i].0);
    lemma_entry_words_included(es, i, es[i].0);
    lemma_lookup_fits(d0, es, es[i].0);
}

/// Decoding the compressed `int64s`: the `j`-th entry comes from attribute
/// `i`, a `I64` value; its name index stands for the attribute's name and it
/// carries the attribute's value.
pub proof fn lemma_compressed_int64s_decode(d0: DictView, es: AttrsView, j: int) -> (i: int)
    requires
        indices_fit(d0, es),
        0 <= j < compress(es, learned(d0, es)).int64s.len(),
    ensures
        0 <= i < es.len(),
        es[i].1 is I64,
        dict_word_at(learned(d0, es), compress(es, learned(d0, es)).int64s[j].0 as int) == es[i].0,
        compress(es, learned(d0, es)).int64s[j].1 == es[i].1->I64_0,
{
    let i = lemma_int64s_source(es, learned(d0, es), j);
    lemma_name_decodes(d0, es, i);
    i
}

/// Decoding the compressed `doubles`: the `j`-th entry comes from attribute
/// `i`, a `Double` value; its name index stands for the attribute's name and it
/// carries the attribute's value.
pub proof fn lemma_compressed_doubles_decode(d0: DictView, es: AttrsView, j: int) -> (i: int)
    requires
        indices_fit(d0, es),
        0 <= j < compress(es, learned(d0, es)).doubles.len(),
    ensures
        0 <= i < es.len(),
        es[i].1 is Double,
        dict_word_at(learned(d0, es), compress(es, learned(d0, es)).doubles[j].0 as int) == es[i].0,
        compress(es, learned(d0, es)).doubles[j].1 == es[i].1->Double_0,
{
    let i = lemma_doubles_source(es, learned(d0, es), j);
    lemma_name_decodes(d0, es, i);
    i
}

/// Decoding the compressed `bools`: the `j`-th entry comes from attribute
/// `i`, a `Bool` value; its name index stands for the attribute's name and it
/// carries the attribute's value.
pub proof fn lemma_compressed_bools_decode(d0: DictView, es: AttrsView, j: int) -> (i: int)
    requires
        indices_fit(d0, es),
        0 <= j < compress(es, learned(d0, es)).bools.len(),
    ensures
        0 <= i < es.len(),
        es[i].1 is Bool,
        dict_word_at(learned(d0, es), compress(es, learned(d0, es)).bools[j].0 as int) == es[i].0,
        compress(es, learned(d0, es)).bools[j].1 == es[i].1->Bool_0,
{
    let i = lemma_bools_source(es, learned(d0, es), j);
    lemma_name_decodes(d0, es, i);
    i
}

/// Decoding the compressed `timestamps`: the `j`-th entry comes from attribute
/// `i`, a `Timestamp` value; its name index stands for the attribute's name and it
/// carries the attribute's value.
pub proof fn lemma_compressed_timestamps_decode(d0: DictView, es: AttrsView, j: int) -> (i: int)
    requires
        indices_fit(d0, es),
        0 <= j < compress(es, learned(d0, es)).timestamps.len(),
    ensures
        0 <= i < es.len(),
        es[i].1 is Timestamp,
        dict_word_at(learned(d0, es), compress(es, learned(d0, es)).timestamps[j].0 as int) == es[i].0,
        compress(es, learned(d0, es)).timestamps[j].1 == es[i].1->Timestamp_0,
{
    let i = lemma_timestamps_source(es, learned(d0, es), j);
    lemma_name_decodes(d0, es, i);
    i
}

/// Decoding the compressed `bytes`: the `j`-th entry comes from attribute
/// `i`, a `Ip` value; its name index stands for the attribute's name and it
/// carries the attribute's value.
pub proof fn lemma_compressed_bytes_decode(d0: DictView, es: AttrsView, j: int) -> (i: int)
    requires
        indices_fit(d0, es),
        0 <= j < compress(es, learned(d0, es)).bytes.len(),
    ensures
        0 <= i < es.len(),
        es[i].1 is Ip,
        dict_word_at(learned(d0, es), compress(es, learned(d0, es)).bytes[j].0 as int) == es[i].0,
        compress(es, learned(d0, es)).bytes[j].1 == es[i].1->Ip_0,
{
    let i = lemma_bytes_source(es, learned(d0, es), j);
    lemma_name_decodes(d0, es, i);
    i
}

/// Decoding the compressed strings: the `j`-th entry comes from attribute
/// `i`, a string value; its name index stands for the attribute's name and
/// its value index for the attribute's string.
pub proof fn lemma_compressed_strings_decode(d0: DictView, es: AttrsView, j: int) -> (i: int)
    requires
        indices_fit(d0, es),
        0 <= j < compress(es, learned(d0, es)).strings.len(),
    ensures
        0 <= i < es.len(),
        es[i].1 is Str,
        dict_word_at(learned(d0, es), compress(es, learned(d0, es)).strings[j].0 as int) == es[i].0,
        dict_word_at(learned(d0, es), compress(es, learned(d0, es)).strings[j].1 as int)
            == es[i].1->Str_0,
{
    let d = learned(d0, es);
    let i = lemma_strings_source(es, d, j);
    lemma_name_decodes(d0, es, i);
    let s = es[i].1->Str_0;
    assert(entry_words(es[i].0, es[i].1)[1] == s);
    lemma_entry_words_included(es, i, s);
    lemma_lookup_fits(d0, es, s);
    i
}

/// Decoding the compressed string maps: the `j`-th entry comes from
/// attribute `i`, a string map with the same number of entries; its name
/// index stands for the attribute's name, and the `p`-th index pair stands
/// for the key and value of the map's `p`-th entry.
pub proof fn lemma_compressed_string_maps_decode(d0: DictView, es: AttrsView, j: int, p: int) -> (i: int)
    requires
        indices_fit(d0, es),
        0 <= j < compress(es, learned(d0, es)).string_maps.len(),
        0 <= p < compress(es, learned(d0, es)).string_maps[j].1.len(),
    ensures
        0 <= i < es.len(),
        es[i].1 is StringMap,
        dict_word_at(learned(d0, es), compress(es, learned(d0, es)).string_maps[j].0 as int) == es[i].0,
        compress(es, learned(d0, es)).string_maps[j].1.len() == (es[i].1->StringMap_0).len(),
        dict_word_at(learned(d0, es), compress(es, learned(d0, es)).string_maps[j].1[p].0 as int)
            == (es[i].1->StringMap_0)[p].0,
        dict_word_at(learned(d0, es), compress(es, learned(d0, es)).string_maps[j].1[p].1 as int)
            == (es[i].1->StringMap_0)[p].1,
{
    let d = learned(d0, es);
    let i = lemma_string_maps_source(es, d, j);
    lemma_name_decodes(d0, es, i);
    let m = es[i].1->StringMap_0;
    lemma_encode_pairs_len(m, d);
    lemma_encode_pairs_index(m, d, p);
    lemma_pair_words_index(m, p);
    let ew = entry_words(es[i].0, es[i].1);
    assert(ew == seq![es[i].0] + pair_words(m));
    assert(ew[1 + 2 * p] == m[p].0);
    assert(ew[2 + 2 * p] == m[p].1);
    lemma_entry_words_included(es, i, m[p].0);
    lemma_entry_words_included(es, i, m[p].1);
    lemma_lookup_fits(d0, es, m[p].0);
    lemma_lookup_fits(d0, es, m[p].1);
    i
}

/// No attribute is lost: every attribute of the set has an entry of the
/// kind of its value in the compressed form, carrying its value, whose name
/// index stands for the attribute's name in the dictionary after the
/// lookups.
pub proof fn lemma_compressed_keeps_attribute(d0: DictView, es: AttrsView, i: int) -> (j: int)
    requires
        indices_fit(d0, es),
        0 <= i < es.len(),
    ensures
        holds_entry(compress(es, learned(d0, es)), es[i].0, es[i].1, learned(d0, es), j),
        dict_word_at(learned(d0, es), (dict_lookup(learned(d0, es), es[i].0) as i32) as int) == es[i].0,
{
    let j = lemma_compress_complete(es, learned(d0, es), i);
    lemma_name_decodes(d0, es, i);
    j
}

} // verus!
