//! The per-message dictionary: words of one message that the global
//! dictionary lacks, addressed by negative indices `-(position + 1)`.

use vstd::prelude::*;
use crate::global_dict::{words_view, is_first_index, first_index, lemma_first_index, lemma_first_index_exists, find_word, GlobalDictionary};

verus! {

/// The abstract dictionary: the global words and the per-message words.
pub type DictView = (Seq<Seq<char>>, Seq<Seq<char>>);

/// The dictionary can address `w`.
pub open spec fn dict_knows(d: DictView, w: Seq<char>) -> bool {
    d.0.contains(w) || d.1.contains(w)
}

/// The index under which `w` is looked up: its first global position if it
/// is a global word, else `-(p + 1)` for its position `p` among the
/// per-message words, where a word not yet there takes the next position.
pub open spec fn dict_lookup(d: DictView, w: Seq<char>) -> int {
    if d.0.contains(w) {
        first_index(d.0, w)
    } else if d.1.contains(w) {
        -(first_index(d.1, w) + 1)
    } else {
        -(d.1.len() + 1)
    }
}

/// The dictionary after looking `w` up: an unknown word is appended to the
/// per-message words.
pub open spec fn dict_learn(d: DictView, w: Seq<char>) -> DictView {
    if dict_knows(d, w) {
        d
    } else {
        (d.0, d.1.push(w))
    }
}

/// The word an index stands for.
pub open spec fn dict_word_at(d: DictView, i: int) -> Seq<char> {
    if i >= 0 {
        d.0[i]
    } else {
        d.1[-i - 1]
    }
}

/// The dictionary after looking up each word of `ws` in turn.
pub open spec fn dict_learn_all(d: DictView, ws: Seq<Seq<char>>) -> DictView
    decreases ws.len(),
{
    if ws.len() == 0 {
        d
    } else {
        dict_learn(dict_learn_all(d, ws.drop_last()), ws.last())
    }
}

/// Looking up a word gives an index that stands for that word.
pub proof fn lemma_lookup_roundtrip(d: DictView, w: Seq<char>)
    ensures
        dict_knows(dict_learn(d, w), w),
        dict_word_at(dict_learn(d, w), dict_lookup(d, w)) == w,
{
    if d.0.contains(w) {
        lemma_first_index_exists(d.0, w);
    } else if d.1.contains(w) {
        lemma_first_index_exists(d.1, w);
    } else {
        assert(d.1.push(w)[d.1.len() as int] == w);
        assert(d.1.push(w).contains(w));
    }
}

/// Looking a word up again changes nothing and gives the same index.
pub proof fn lemma_lookup_stable(d: DictView, w: Seq<char>)
    ensures
        dict_learn(dict_learn(d, w), w) == dict_learn(d, w),
        dict_lookup(dict_learn(d, w), w) == dict_lookup(d, w),
{
    lemma_lookup_roundtrip(d, w);
    if !dict_knows(d, w) {
        let d1 = dict_learn(d, w);
        assert(!d1.0.contains(w));
        assert forall|j: int| 0 <= j < d.1.len() implies d1.1[j] != w by {
            assert(d1.1[j] == d.1[j]);
            assert(d.1.contains(d.1[j]));
        }
        assert(is_first_index(d1.1, w, d.1.len() as int));
        lemma_first_index(d1.1, w, d.1.len() as int);
    }
}

/// Distinct known words have distinct indices.
pub proof fn lemma_lookup_distinct(d: DictView, a: Seq<char>, b: Seq<char>)
    requires
        dict_knows(d, a),
        dict_knows(d, b),
        a != b,
    ensures
        dict_lookup(d, a) != dict_lookup(d, b),
{
    lemma_lookup_roundtrip(d, a);
    lemma_lookup_roundtrip(d, b);
    assert(dict_learn(d, a) == d);
    assert(dict_learn(d, b) == d);
}

/// Looking up two distinct names one after the other gives distinct
/// indices: the index of `a`, and then that of `b` in the dictionary that
/// looking up `a` leaves.
pub proof fn lemma_successive_lookups_distinct(d: DictView, a: Seq<char>, b: Seq<char>)
    requires
        a != b,
    ensures
        dict_lookup(d, a) != dict_lookup(dict_learn(d, a), b),
{
    let d1 = dict_learn(d, a);
    lemma_lookup_roundtrip(d, a);
    lemma_lookup_stable(d, a);
    lemma_lookup_roundtrip(d1, b);
    lemma_lookup_stable(d1, b);
    lemma_learn_keeps_known(d1, b, a);
    lemma_lookup_distinct(dict_learn(d1, b), a, b);
}

/// Learning a word keeps the index of every word already known.
pub proof fn lemma_learn_keeps_known(d: DictView, w: Seq<char>, v: Seq<char>)
    requires
        dict_knows(d, v),
    ensures
        dict_knows(dict_learn(d, w), v),
        dict_lookup(dict_learn(d, w), v) == dict_lookup(d, v),
{
    if !dict_knows(d, w) {
        let d1 = dict_learn(d, w);
        if !d.0.contains(v) {
            lemma_first_index_exists(d.1, v);
            let i = first_index(d.1, v);
            assert(d1.1[i] == v);
            assert(d1.1.contains(v));
            assert forall|j: int| 0 <= j < i implies d1.1[j] != v by {
                assert(d1.1[j] == d.1[j]);
            }
            lemma_first_index(d1.1, v, i);
        }
    }
}

/// Learning words keeps the global words and extends the per-message words.
pub proof fn lemma_learn_all_extends(d: DictView, ws: Seq<Seq<char>>)
    ensures
        dict_learn_all(d, ws).0 == d.0,
        d.1.is_prefix_of(dict_learn_all(d, ws).1),
    decreases ws.len(),
{
    if ws.len() > 0 {
        lemma_learn_all_extends(d, ws.drop_last());
    }
}

/// Learning words keeps the index of every word already known, and every
/// learned word is known afterwards.
pub proof fn lemma_learn_all_keeps_known(d: DictView, ws: Seq<Seq<char>>, v: Seq<char>)
    requires
        dict_knows(d, v) || ws.contains(v),
    ensures
        dict_knows(dict_learn_all(d, ws), v),
        dict_knows(d, v) ==> dict_lookup(dict_learn_all(d, ws), v) == dict_lookup(d, v),
    decreases ws.len(),
{
    if ws.len() > 0 {
        let prev = ws.drop_last();
        if dict_knows(d, v) || prev.contains(v) {
            lemma_learn_all_keeps_known(d, prev, v);
            lemma_learn_keeps_known(dict_learn_all(d, prev), ws.last(), v);
        } else {
            assert(ws.last() == v) by {
                let k = choose|k: int| 0 <= k < ws.len() && ws[k] == v;
                if k < ws.len() - 1 {
                    assert(prev[k] == v);
                }
            }
            lemma_lookup_roundtrip(dict_learn_all(d, prev), v);
        }
    }
}

/// Learning the words of `a` and then of `b` is learning the words of `a + b`.
pub proof fn lemma_learn_all_append(d: DictView, a: Seq<Seq<char>>, b: Seq<Seq<char>>)
    ensures
        dict_learn_all(dict_learn_all(d, a), b) == dict_learn_all(d, a + b),
    decreases b.len(),
{
    if b.len() == 0 {
        assert(a + b =~= a);
    } else {
        lemma_learn_all_append(d, a, b.drop_last());
        assert((a + b).drop_last() =~= a + b.drop_last());
        assert((a + b).last() == b.last());
    }
}

/// A word dictionary for one message, on top of the global dictionary.
pub struct MessageDictionary {
    global_dict: GlobalDictionary,
    message_words: Vec<String>,
}

impl View for MessageDictionary {
    type V = DictView;

    closed spec fn view(&self) -> DictView {
        (self.global_dict@, words_view(self.message_words@))
    }
}

impl MessageDictionary {
    /// Every index fits in an `i32`.
    pub open spec fn wf(&self) -> bool {
        &&& self@.0.len() <= i32::MAX
        &&& self@.1.len() < i32::MAX
    }

    /// An empty per-message dictionary over `global_dict`.
    pub fn new(global_dict: GlobalDictionary) -> (d: MessageDictionary)
        requires
            global_dict.wf(),
        ensures
            d@ == (global_dict@, Seq::<Seq<char>>::empty()),
            d.wf(),
    {
        let d = MessageDictionary { global_dict, message_words: Vec::new() };
        assert(d@.1 =~= Seq::<Seq<char>>::empty());
        d
    }

    /// The index of `name`: its global index if it is a global word, else
    /// its per-message index, adding it to the per-message words if new.
    pub fn index_of(&mut self, name: &str) -> (r: i32)
        requires
            old(self).wf(),
            !dict_knows(old(self)@, name@) ==> old(self)@.1.len() + 1 < i32::MAX,
        ensures
            r == dict_lookup(old(self)@, name@),
            final(self)@ == dict_learn(old(self)@, name@),
            final(self).wf(),
    {
        let word: String = name.to_owned();
        if let Some(index) = self.global_dict.index_of(&word) {
            proof {
                lemma_first_index(self@.0, name@, index as int);
            }
            return index;
        }
        if let Some(pos) = find_word(&self.message_words, &word) {
            proof {
                lemma_first_index(self@.1, name@, pos as int);
            }
            return -(pos as i32) - 1;
        }
        let index: usize = self.message_words.len();
        let ghost old_words = self.message_words@;
        self.message_words.push(word);
        proof {
            assert(words_view(self.message_words@) =~= words_view(old_words).push(name@));
        }
        -(index as i32) - 1
    }

    /// The per-message words, in index order.
    pub fn get_words(&self) -> (ws: &Vec<String>)
        ensures
            words_view(ws@) == self@.1,
    {
        &self.message_words
    }

    /// The number of global words.
    pub fn global_dict_size(&self) -> (n: usize)
        ensures
            n == self@.0.len(),
    {
        self.global_dict.size()
    }
}

} // verus!
