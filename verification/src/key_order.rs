//! The order of strings (byte-wise lexicographic, as `Ord` orders `str`),
//! and sorting attribute keys in it.

use vstd::prelude::*;
use vstd::relations::{total_ordering, sorted_by};
use vstd::utf8::{encode_utf8, encode_utf8_decode_utf8};

verus! {

/// Byte-wise lexicographic order: a prefix comes first, else the first
/// differing byte decides.
pub open spec fn bytes_le(a: Seq<u8>, b: Seq<u8>) -> bool
    decreases a.len(),
{
    if a.len() == 0 {
        true
    } else if b.len() == 0 {
        false
    } else if a[0] != b[0] {
        a[0] < b[0]
    } else {
        bytes_le(a.drop_first(), b.drop_first())
    }
}

/// The order of strings: the order of their UTF-8 bytes.
pub open spec fn key_le(a: Seq<char>, b: Seq<char>) -> bool {
    bytes_le(encode_utf8(a), encode_utf8(b))
}

/// The order of strings, as a relation.
pub open spec fn key_order() -> spec_fn(Seq<char>, Seq<char>) -> bool {
    |a: Seq<char>, b: Seq<char>| key_le(a, b)
}

/// The keys in the order of strings.
pub open spec fn sorted_keys(keys: Seq<Seq<char>>) -> Seq<Seq<char>> {
    keys.sort_by(key_order())
}

proof fn lemma_bytes_le_reflexive(a: Seq<u8>)
    ensures
        bytes_le(a, a),
    decreases a.len(),
{
    if a.len() > 0 {
        lemma_bytes_le_reflexive(a.drop_first());
    }
}

proof fn lemma_bytes_le_total(a: Seq<u8>, b: Seq<u8>)
    ensures
        bytes_le(a, b) || bytes_le(b, a),
    decreases a.len(),
{
    if a.len() > 0 && b.len() > 0 && a[0] == b[0] {
        lemma_bytes_le_total(a.drop_first(), b.drop_first());
    }
}

proof fn lemma_bytes_le_transitive(a: Seq<u8>, b: Seq<u8>, c: Seq<u8>)
    requires
        bytes_le(a, b),
        bytes_le(b, c),
    ensures
        bytes_le(a, c),
    decreases a.len(),
{
    if a.len() > 0 && b.len() > 0 && c.len() > 0 && a[0] == b[0] && b[0] == c[0] {
        lemma_bytes_le_transitive(a.drop_first(), b.drop_first(), c.drop_first());
    }
}

proof fn lemma_bytes_le_antisymmetric(a: Seq<u8>, b: Seq<u8>)
    requires
        bytes_le(a, b),
        bytes_le(b, a),
    ensures
        a == b,
    decreases a.len(),
{
    if a.len() == 0 {
        assert(a =~= b);
    } else {
        lemma_bytes_le_antisymmetric(a.drop_first(), b.drop_first());
        assert forall|i: int| 0 <= i < a.len() implies a[i] == b[i] by {
            if i > 0 {
                assert(a[i] == a.drop_first()[i - 1]);
                assert(b[i] == b.drop_first()[i - 1]);
            }
        }
        assert(a =~= b);
    }
}

/// The order of strings is a total order.
pub proof fn lemma_key_order_total()
    ensures
        total_ordering(key_order()),
{
    let r = key_order();
    assert forall|x: Seq<char>| #[trigger] r(x, x) by {
        lemma_bytes_le_reflexive(encode_utf8(x));
    }
    assert forall|x: Seq<char>, y: Seq<char>| #[trigger] r(x, y) && #[trigger] r(y, x) implies x == y by {
        lemma_bytes_le_antisymmetric(encode_utf8(x), encode_utf8(y));
        encode_utf8_decode_utf8(x);
        encode_utf8_decode_utf8(y);
    }
    assert forall|x: Seq<char>, y: Seq<char>, z: Seq<char>|
        #[trigger] r(x, y) && #[trigger] r(y, z) implies r(x, z) by {
        lemma_bytes_le_transitive(encode_utf8(x), encode_utf8(y), encode_utf8(z));
    }
    assert forall|x: Seq<char>, y: Seq<char>| #[trigger] r(x, y) || #[trigger] r(y, x) by {
        lemma_bytes_le_total(encode_utf8(x), encode_utf8(y));
    }
    assert(vstd::relations::reflexive(r));
    assert(vstd::relations::antisymmetric(r));
    assert(vstd::relations::transitive(r));
    assert(vstd::relations::strongly_connected(r));
}

/// Sorting keys depends only on which keys there are, with their
/// multiplicities: two sequences of the same keys in any order sort alike.
pub proof fn lemma_sorted_keys_order_independent(a: Seq<Seq<char>>, b: Seq<Seq<char>>)
    requires
        a.to_multiset() == b.to_multiset(),
    ensures
        sorted_keys(a) == sorted_keys(b),
{
    lemma_key_order_total();
    a.lemma_sort_by_ensures(key_order());
    b.lemma_sort_by_ensures(key_order());
    vstd::seq_lib::lemma_sorted_unique(sorted_keys(a), sorted_keys(b), key_order());
}

/// Compares two byte strings in byte-wise lexicographic order.
fn bytes_le_exec(a: &[u8], b: &[u8]) -> (r: bool)
    ensures
        r == bytes_le(a@, b@),
{
    let mut i: usize = 0;
    assert(a@.skip(0) =~= a@);
    assert(b@.skip(0) =~= b@);
    while i < a.len() && i < b.len()
        invariant
            i <= a.len(),
            i <= b.len(),
            bytes_le(a@, b@) == bytes_le(a@.skip(i as int), b@.skip(i as int)),
        decreases a.len() - i,
    {
        assert(a@.skip(i as int)[0] == a@[i as int]);
        assert(b@.skip(i as int)[0] == b@[i as int]);
        if a[i] != b[i] {
            return a[i] < b[i];
        }
        assert(a@.skip(i as int).drop_first() =~= a@.skip(i + 1));
        assert(b@.skip(i as int).drop_first() =~= b@.skip(i + 1));
        i = i + 1;
    }
    if i == a.len() {
        assert(a@.skip(i as int).len() == 0);
        true
    } else {
        assert(b@.skip(i as int).len() == 0);
        false
    }
}

/// Compares two strings in the order of strings.
pub fn key_le_exec(a: &String, b: &String) -> (r: bool)
    ensures
        r == key_le(a@, b@),
{
    bytes_le_exec(a.as_str().as_bytes(), b.as_str().as_bytes())
}

/// The views of a sequence of strings.
pub open spec fn strings_view(v: Seq<String>) -> Seq<Seq<char>> {
    v.map_values(|s: String| s@)
}

/// Inserting `x` before the first element greater than it keeps a sorted
/// sequence sorted.
proof fn lemma_insert_sorted(s: Seq<Seq<char>>, p: int, x: Seq<char>)
    requires
        sorted_by(s, key_order()),
        0 <= p <= s.len(),
        forall|j: int| 0 <= j < p ==> key_le(s[j], x),
        p < s.len() ==> !key_le(s[p], x),
    ensures
        sorted_by(s.insert(p, x), key_order()),
{
    lemma_key_order_total();
    let r = key_order();
    let t = s.insert(p, x);
    assert forall|i: int, j: int| 0 <= i < j < t.len() implies #[trigger] r(t[i], t[j]) by {
        if j < p {
            assert(r(s[i], s[j]));
        } else if j == p {
            assert(key_le(s[i], x));
        } else if i < p {
            assert(r(s[i], s[j - 1]));
        } else if i == p {
            assert(r(s[p], x) || r(x, s[p]));
            if j - 1 > p {
                assert(r(s[p], s[j - 1]));
            }
        } else {
            assert(r(s[i - 1], s[j - 1]));
        }
    }
}

/// The keys sorted in the order of strings.
pub fn sort_keys(keys: &Vec<String>) -> (r: Vec<String>)
    ensures
        strings_view(r@) == sorted_keys(strings_view(keys@)),
{
    let ghost kv = strings_view(keys@);
    let mut out: Vec<String> = Vec::new();
    let mut i: usize = 0;
    proof {
        assert(strings_view(out@) =~= kv.take(0));
    }
    while i < keys.len()
        invariant
            i <= keys.len(),
            kv == strings_view(keys@),
            sorted_by(strings_view(out@), key_order()),
            strings_view(out@).to_multiset() == kv.take(i as int).to_multiset(),
        decreases keys.len() - i,
    {
        let x = keys[i].clone();
        let ghost ov = strings_view(out@);
        let mut p: usize = 0;
        while p < out.len()
            invariant
                p <= out.len(),
                ov == strings_view(out@),
                forall|j: int| 0 <= j < p ==> key_le(ov[j], x@),
            ensures
                p <= out.len(),
                forall|j: int| 0 <= j < p ==> key_le(ov[j], x@),
                p < out.len() ==> !key_le(ov[p as int], x@),
            decreases out.len() - p,
        {
            if !key_le_exec(&out[p], &x) {
                break;
            }
            p = p + 1;
        }
        proof {
            lemma_insert_sorted(ov, p as int, x@);
            vstd::seq_lib::to_multiset_insert(ov, p as int, x@);
            assert(kv.take(i + 1) =~= kv.take(i as int).push(kv[i as int]));
            vstd::seq_lib::to_multiset_build(kv.take(i as int), kv[i as int]);
        }
        out.insert(p, x);
        proof {
            assert(strings_view(out@) =~= ov.insert(p as int, x@));
        }
        i = i + 1;
    }
    proof {
        assert(kv.take(keys.len() as int) =~= kv);
        lemma_key_order_total();
        kv.lemma_sort_by_ensures(key_order());
        vstd::seq_lib::lemma_sorted_unique(strings_view(out@), sorted_keys(kv), key_order());
    }
    out
}

} // verus!
