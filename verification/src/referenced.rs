//! The attributes a cached check result depends on, and the cache signature
//! of an attribute set under them.

use vstd::prelude::*;
use std::collections::hash_map::DefaultHasher;
use std::hash::Hasher;
use vstd::std_specs::hash::DefaultHasherAdditionalSpecFns;
use crate::global_dict::{GlobalDictionary, global_words, words_view};
use crate::attr_wrapper::{
    AttributeWrapper, AttrsView, has_name, attr_lookup, attr_hash_writes, str_writes, hash_str,
};
use crate::key_order::{sort_keys, sorted_keys, strings_view, lemma_sorted_keys_order_independent};

verus! {

/// How a check result depends on an attribute.
#[allow(non_camel_case_types)]
#[derive(Debug, PartialEq, Eq, Structural, Copy, Clone)]
pub enum Condition {
    CONDITION_UNSPECIFIED,
    /// The result holds while the attribute is absent.
    ABSENCE,
    /// The result holds for the attribute's exact value.
    EXACT,
    /// The result holds for values matching a pattern.
    REGEX,
}

/// One referenced attribute: its name as a dictionary index, and the
/// condition.
#[derive(Debug, PartialEq, Eq, Structural, Copy, Clone)]
pub struct AttributeMatch {
    pub name: i32,
    pub condition: Condition,
}

/// The attributes a check response was computed from: per-message words
/// and the referenced attributes.
pub struct ReferencedAttributes {
    pub words: Vec<String>,
    pub attribute_matches: Vec<AttributeMatch>,
}

/// A name index stands for a word: a non-negative index `i` for the `i`-th
/// global word, a negative index `-(j + 1)` for the `j`-th per-message word
/// `words[j]`.
pub open spec fn name_known(name: i32, words: Seq<Seq<char>>) -> bool {
    if name >= 0 {
        name < global_words().len()
    } else {
        -(name + 1) < words.len()
    }
}

/// The word a known name index stands for.
pub open spec fn name_word(name: i32, words: Seq<Seq<char>>) -> Seq<char> {
    if name >= 0 {
        global_words()[name as int]
    } else {
        words[-(name + 1)]
    }
}

/// A referenced attribute can be recorded: its name stands for a global or
/// per-message word, and its condition is not a pattern.
pub open spec fn match_ok(m: AttributeMatch, words: Seq<Seq<char>>) -> bool {
    &&& name_known(m.name, words)
    &&& m.condition != Condition::REGEX
}

/// Every referenced attribute can be recorded.
pub open spec fn all_ok(ms: Seq<AttributeMatch>, words: Seq<Seq<char>>) -> bool {
    forall|i: int| 0 <= i < ms.len() ==> match_ok(ms[i], words)
}

/// `k` is the first referenced attribute that cannot be recorded.
pub open spec fn is_first_bad(ms: Seq<AttributeMatch>, words: Seq<Seq<char>>, k: int) -> bool {
    &&& 0 <= k < ms.len()
    &&& !match_ok(ms[k], words)
    &&& forall|j: int| 0 <= j < k ==> match_ok(ms[j], words)
}

/// How many referenced attributes are recorded: all of them, or those
/// before the first that cannot be.
pub open spec fn fill_stop(ms: Seq<AttributeMatch>, words: Seq<Seq<char>>) -> int {
    if all_ok(ms, words) {
        ms.len() as int
    } else {
        choose|k: int| is_first_bad(ms, words, k)
    }
}

/// The words named by the attributes with condition `c`, in order.
pub open spec fn names_with(ms: Seq<AttributeMatch>, words: Seq<Seq<char>>, c: Condition) -> Seq<Seq<char>>
    decreases ms.len(),
{
    if ms.len() == 0 {
        Seq::empty()
    } else if ms.last().condition == c {
        names_with(ms.drop_last(), words, c).push(name_word(ms.last().name, words))
    } else {
        names_with(ms.drop_last(), words, c)
    }
}

/// The number of referenced attributes with condition `c`.
pub open spec fn count_condition(ms: Seq<AttributeMatch>, c: Condition) -> nat
    decreases ms.len(),
{
    if ms.len() == 0 {
        0
    } else {
        count_condition(ms.drop_last(), c) + if ms.last().condition == c { 1nat } else { 0nat }
    }
}

/// Every referenced attribute with condition `c` contributes the word it
/// names, in order: the words recorded under `c` are as many as those
/// attributes, and the word of each stands among them.
pub proof fn lemma_names_with_complete(ms: Seq<AttributeMatch>, words: Seq<Seq<char>>, c: Condition, k: int) -> (p: int)
    requires
        0 <= k < ms.len(),
        ms[k].condition == c,
    ensures
        names_with(ms, words, c).len() == count_condition(ms, c),
        0 <= p < names_with(ms, words, c).len(),
        names_with(ms, words, c)[p] == name_word(ms[k].name, words),
    decreases ms.len(),
{
    lemma_names_with_len(ms, words, c);
    let prev = ms.drop_last();
    if k < ms.len() - 1 {
        let p = lemma_names_with_complete(prev, words, c, k);
        assert(prev[k] == ms[k]);
        p
    } else {
        lemma_names_with_len(prev, words, c);
        names_with(prev, words, c).len() as int
    }
}

/// The words recorded under `c` are as many as the attributes with that
/// condition.
pub proof fn lemma_names_with_len(ms: Seq<AttributeMatch>, words: Seq<Seq<char>>, c: Condition)
    ensures
        names_with(ms, words, c).len() == count_condition(ms, c),
    decreases ms.len(),
{
    if ms.len() > 0 {
        lemma_names_with_len(ms.drop_last(), words, c);
    }
}

/// The first bad position is unique.
pub proof fn lemma_fill_stop_bad(ms: Seq<AttributeMatch>, words: Seq<Seq<char>>, k: int)
    requires
        is_first_bad(ms, words, k),
    ensures
        fill_stop(ms, words) == k,
        !all_ok(ms, words),
{
    assert(!all_ok(ms, words));
    let c = choose|k: int| is_first_bad(ms, words, k);
    assert(is_first_bad(ms, words, c));
    if c < k {
        assert(match_ok(ms[c], words));
    } else if c > k {
        assert(match_ok(ms[k], words));
    }
}

/// The hasher writes for the exact keys: the values of those attributes,
/// key by key.
pub open spec fn exact_writes(keys: Seq<Seq<char>>, es: AttrsView) -> Seq<Seq<u8>>
    decreases keys.len(),
{
    if keys.len() == 0 {
        Seq::empty()
    } else {
        exact_writes(keys.drop_last(), es) + attr_hash_writes(es, keys.last())
    }
}

/// Some absence key is present among the attributes.
pub open spec fn some_absent_key_present(absence: Seq<Seq<char>>, es: AttrsView) -> bool {
    exists|i: int| 0 <= i < absence.len() && has_name(es, absence[i])
}

/// The signature of attribute set `es` under the absence keys and exact keys:
/// none where an absence key is present, else the digest of the values of
/// the exact keys followed by the extra key.
pub open spec fn signature_spec(
    absence: Seq<Seq<char>>,
    exact: Seq<Seq<char>>,
    es: AttrsView,
    extra: Seq<char>,
) -> Option<u64> {
    if some_absent_key_present(absence, es) {
        None
    } else {
        Some(DefaultHasher::spec_finish(exact_writes(exact, es) + str_writes(extra)))
    }
}

/// The hasher writes for a sequence of keys: each key as a string, in
/// order.
pub open spec fn keys_writes(keys: Seq<Seq<char>>) -> Seq<Seq<u8>>
    decreases keys.len(),
{
    if keys.len() == 0 {
        Seq::empty()
    } else {
        keys_writes(keys.drop_last()) + str_writes(keys.last())
    }
}

/// The hasher writes for referenced keys: the absence keys and then the
/// exact keys, each sorted in the order of strings.
pub open spec fn referenced_writes(r: (Seq<Seq<char>>, Seq<Seq<char>>)) -> Seq<Seq<u8>> {
    keys_writes(sorted_keys(r.0)) + keys_writes(sorted_keys(r.1))
}

/// Hashing referenced keys does not depend on the order in which they were
/// recorded: the same absence keys and the same exact keys, each with the
/// same multiplicities, give the same writes.
pub proof fn lemma_referenced_writes_order_independent(
    r1: (Seq<Seq<char>>, Seq<Seq<char>>),
    r2: (Seq<Seq<char>>, Seq<Seq<char>>),
)
    requires
        r1.0.to_multiset() == r2.0.to_multiset(),
        r1.1.to_multiset() == r2.1.to_multiset(),
    ensures
        referenced_writes(r1) == referenced_writes(r2),
{
    lemma_sorted_keys_order_independent(r1.0, r2.0);
    lemma_sorted_keys_order_independent(r1.1, r2.1);
}

/// A signature exists exactly when no absence key, at any position, names
/// an attribute of the set: a present absence key means the cached result
/// does not apply.
pub proof fn lemma_signature_absence(
    absence: Seq<Seq<char>>,
    exact: Seq<Seq<char>>,
    es: AttrsView,
    extra: Seq<char>,
)
    ensures
        signature_spec(absence, exact, es, extra).is_none() <==> exists|i: int|
            0 <= i < absence.len() && #[trigger] has_name(es, absence[i]),
        signature_spec(absence, exact, es, extra).is_some() ==> forall|i: int|
            0 <= i < absence.len() ==> !#[trigger] has_name(es, absence[i]),
{
}

/// The signature depends only on which absence keys are present and on the
/// values of the exact keys: two attribute sets that agree on these have the
/// same signature.
pub proof fn lemma_signature_determined(
    absence: Seq<Seq<char>>,
    exact: Seq<Seq<char>>,
    es1: AttrsView,
    es2: AttrsView,
    extra: Seq<char>,
)
    requires
        forall|i: int| 0 <= i < absence.len() ==> has_name(es1, absence[i]) == has_name(es2, absence[i]),
        forall|i: int| 0 <= i < exact.len() ==> attr_lookup(es1, exact[i]) == attr_lookup(es2, exact[i]),
    ensures
        signature_spec(absence, exact, es1, extra) == signature_spec(absence, exact, es2, extra),
{
    lemma_exact_writes_determined(exact, es1, es2);
    if some_absent_key_present(absence, es1) {
        let i = choose|i: int| 0 <= i < absence.len() && has_name(es1, absence[i]);
        assert(has_name(es2, absence[i]));
    }
    if some_absent_key_present(absence, es2) {
        let i = choose|i: int| 0 <= i < absence.len() && has_name(es2, absence[i]);
        assert(has_name(es1, absence[i]));
    }
}

/// The exact writes depend only on the values of the exact keys.
pub proof fn lemma_exact_writes_determined(exact: Seq<Seq<char>>, es1: AttrsView, es2: AttrsView)
    requires
        forall|i: int| 0 <= i < exact.len() ==> attr_lookup(es1, exact[i]) == attr_lookup(es2, exact[i]),
    ensures
        exact_writes(exact, es1) == exact_writes(exact, es2),
    decreases exact.len(),
{
    if exact.len() > 0 {
        let prev = exact.drop_last();
        assert forall|i: int| 0 <= i < prev.len() implies attr_lookup(es1, prev[i]) == attr_lookup(es2, prev[i]) by {
            assert(prev[i] == exact[i]);
        }
        lemma_exact_writes_determined(prev, es1, es2);
        assert(attr_lookup(es1, exact.last()) == attr_lookup(es2, exact.last()));
    }
}

/// The keys a cached check result depends on.
pub struct Referenced {
    absence_keys: Vec<String>,
    exact_keys: Vec<String>,
}

impl View for Referenced {
    /// The absence keys and the exact keys.
    type V = (Seq<Seq<char>>, Seq<Seq<char>>);

    closed spec fn view(&self) -> (Seq<Seq<char>>, Seq<Seq<char>>) {
        (
            self.absence_keys@.map_values(|s: String| s@),
            self.exact_keys@.map_values(|s: String| s@),
        )
    }
}

impl Referenced {
    /// No keys.
    pub fn new() -> (r: Referenced)
        ensures
            r@.0 == Seq::<Seq<char>>::empty(),
            r@.1 == Seq::<Seq<char>>::empty(),
    {
        let r = Referenced { absence_keys: Vec::new(), exact_keys: Vec::new() };
        assert(r@.0 =~= Seq::<Seq<char>>::empty());
        assert(r@.1 =~= Seq::<Seq<char>>::empty());
        r
    }

    /// Records the referenced attributes of a check response, in order: the
    /// word each names (a global word, or for a negative name `-(j + 1)` the
    /// per-message word `words[j]`) is added to the absence keys or the exact
    /// keys by its condition (an unspecified condition adds nothing). Stops
    /// and returns false at the first attribute whose name stands for no
    /// word or whose condition is a pattern; the keys recorded before it stay.
    pub fn fill(&mut self, reference: &ReferencedAttributes) -> (ok: bool)
        ensures
            ok == all_ok(reference.attribute_matches@, words_view(reference.words@)),
            final(self)@.0 == old(self)@.0 + names_with(
                reference.attribute_matches@.take(
                    fill_stop(reference.attribute_matches@, words_view(reference.words@)),
                ),
                words_view(reference.words@),
                Condition::ABSENCE,
            ),
            final(self)@.1 == old(self)@.1 + names_with(
                reference.attribute_matches@.take(
                    fill_stop(reference.attribute_matches@, words_view(reference.words@)),
                ),
                words_view(reference.words@),
                Condition::EXACT,
            ),
    {
        let global_dict = GlobalDictionary::new();
        let ghost ms = reference.attribute_matches@;
        let ghost ws = words_view(reference.words@);
        let ghost a0 = self@.0;
        let ghost e0 = self@.1;
        let n = reference.attribute_matches.len();
        // The number of attributes recorded: up to the first that cannot be.
        let mut stop: usize = 0;
        while stop < n
            invariant
                stop <= n,
                n == ms.len(),
                ms == reference.attribute_matches@,
                ws == words_view(reference.words@),
                global_dict@ == global_words(),
                forall|j: int| 0 <= j < stop ==> match_ok(ms[j], ws),
            ensures
                stop == n || is_first_bad(ms, ws, stop as int),
            decreases n - stop,
        {
            let attr_match = reference.attribute_matches[stop];
            let known = if attr_match.name >= 0 {
                (attr_match.name as usize) < global_dict.size()
            } else {
                let m_idx: i64 = -(attr_match.name as i64) - 1;
                (m_idx as usize) < reference.words.len()
            };
            if !known || attr_match.condition == Condition::REGEX {
                proof {
                    lemma_fill_stop_bad(ms, ws, stop as int);
                }
                break;
            }
            stop = stop + 1;
        }
        proof {
            if stop == n {
                assert(all_ok(ms, ws));
            }
            assert(fill_stop(ms, ws) == stop);
        }
        let mut i: usize = 0;
        proof {
            assert(ms.take(0) =~= Seq::<AttributeMatch>::empty());
            assert(a0 + Seq::<Seq<char>>::empty() =~= a0);
            assert(e0 + Seq::<Seq<char>>::empty() =~= e0);
        }
        while i < stop
            invariant
                i <= stop <= ms.len(),
                ms == reference.attribute_matches@,
                ws == words_view(reference.words@),
                global_dict@ == global_words(),
                forall|j: int| 0 <= j < stop ==> match_ok(ms[j], ws),
                self@.0 == a0 + names_with(ms.take(i as int), ws, Condition::ABSENCE),
                self@.1 == e0 + names_with(ms.take(i as int), ws, Condition::EXACT),
            decreases stop - i,
        {
            let attr_match = reference.attribute_matches[i];
            proof {
                assert(ms.take(i + 1).drop_last() =~= ms.take(i as int));
                assert(ms.take(i + 1).last() == attr_match);
                assert(match_ok(ms[i as int], ws));
            }
            let name: &String = if attr_match.name >= 0 {
                global_dict.word_at(attr_match.name as usize).unwrap()
            } else {
                let m_idx: i64 = -(attr_match.name as i64) - 1;
                &reference.words[m_idx as usize]
            };
            let ghost nv = name_word(attr_match.name, ws);
            assert(name@ == nv);
            match attr_match.condition {
                Condition::ABSENCE => {
                    let ghost before = self.absence_keys@;
                    self.absence_keys.push(name.clone());
                    proof {
                        assert(self.absence_keys@.map_values(|s: String| s@) =~= before.map_values(
                            |s: String| s@,
                        ).push(nv));
                    }
                },
                Condition::EXACT => {
                    let ghost before = self.exact_keys@;
                    self.exact_keys.push(name.clone());
                    proof {
                        assert(self.exact_keys@.map_values(|s: String| s@) =~= before.map_values(
                            |s: String| s@,
                        ).push(nv));
                    }
                },
                _ => {},
            }
            proof {
                assert(self@.0 =~= a0 + names_with(ms.take(i + 1), ws, Condition::ABSENCE));
                assert(self@.1 =~= e0 + names_with(ms.take(i + 1), ws, Condition::EXACT));
            }
            i = i + 1;
        }
        stop == n
    }

    /// The cache signature of `attributes`: none if one of the absence keys
    /// is present; otherwise the digest of a fresh `DefaultHasher` fed with
    /// the values of the exact keys, in order, and then `extra_key`.
    pub fn signature(&self, attributes: &AttributeWrapper, extra_key: &str) -> (r: Option<u64>)
        requires
            attributes.wf(),
        ensures
            r == signature_spec(self@.0, self@.1, attributes@, extra_key@),
    {
        let ghost absence = self@.0;
        let ghost exact = self@.1;
        let mut i: usize = 0;
        while i < self.absence_keys.len()
            invariant
                i <= self.absence_keys.len(),
                absence == self@.0,
                attributes.wf(),
                forall|j: int| 0 <= j < i ==> !has_name(attributes@, absence[j]),
            decreases self.absence_keys.len() - i,
        {
            if attributes.key_exists(self.absence_keys[i].as_str()) {
                assert(some_absent_key_present(absence, attributes@)) by {
                    assert(absence[i as int] == self.absence_keys[i as int]@);
                }
                return None;
            }
            i = i + 1;
        }
        let mut hashing = DefaultHasher::new();
        let mut j: usize = 0;
        proof {
            assert(exact.take(0) =~= Seq::<Seq<char>>::empty());
            assert(hashing@ =~= exact_writes(exact.take(0), attributes@));
        }
        while j < self.exact_keys.len()
            invariant
                j <= self.exact_keys.len(),
                exact == self@.1,
                attributes.wf(),
                hashing@ == exact_writes(exact.take(j as int), attributes@),
            decreases self.exact_keys.len() - j,
        {
            proof {
                assert(exact.take(j + 1).drop_last() =~= exact.take(j as int));
                assert(exact.take(j + 1).last() == self.exact_keys[j as int]@);
            }
            attributes.hash(self.exact_keys[j].as_str(), &mut hashing);
            j = j + 1;
        }
        proof {
            assert(exact.take(self.exact_keys.len() as int) =~= exact);
        }
        hash_str(extra_key, &mut hashing);
        Some(hashing.finish())
    }

    /// Feeds the keys into the hasher, as `referenced_writes` says: the
    /// absence keys and then the exact keys, each sorted.
    pub fn hash(&self, state: &mut DefaultHasher)
        ensures
            final(state)@ == old(state)@ + referenced_writes(self@),
    {
        let sorted_absence_keys = sort_keys(&self.absence_keys);
        hash_keys(&sorted_absence_keys, state);
        let sorted_exact_keys = sort_keys(&self.exact_keys);
        hash_keys(&sorted_exact_keys, state);
        assert(old(state)@ + referenced_writes(self@) =~= old(state)@ + keys_writes(
            strings_view(sorted_absence_keys@),
        ) + keys_writes(strings_view(sorted_exact_keys@)));
    }
}

/// Feeds each key into the hasher as a string, in order.
fn hash_keys(keys: &Vec<String>, state: &mut DefaultHasher)
    ensures
        final(state)@ == old(state)@ + keys_writes(strings_view(keys@)),
{
    let ghost kv = strings_view(keys@);
    let mut i: usize = 0;
    proof {
        assert(kv.take(0) =~= Seq::<Seq<char>>::empty());
        assert(state@ =~= old(state)@ + keys_writes(kv.take(0)));
    }
    while i < keys.len()
        invariant
            i <= keys.len(),
            kv == strings_view(keys@),
            state@ == old(state)@ + keys_writes(kv.take(i as int)),
        decreases keys.len() - i,
    {
        proof {
            assert(kv.take(i + 1).drop_last() =~= kv.take(i as int));
            assert(kv.take(i + 1).last() == keys@[i as int]@);
        }
        hash_str(keys[i].as_str(), state);
        proof {
            assert(state@ =~= old(state)@ + keys_writes(kv.take(i + 1)));
        }
        i = i + 1;
    }
    proof {
        assert(kv.take(keys.len() as int) =~= kv);
    }
}

} // verus!
