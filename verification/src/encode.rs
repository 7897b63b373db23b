//! The Istio attribute header: (key, value) pairs written as
//! `key@value!` one after another, encoded in standard base64.

use vstd::prelude::*;
use vstd::utf8::{encode_utf8, valid_utf8, decode_utf8};
use vstd::std_specs::iter::IteratorSpec;
use vstd::string::StrSliceExecFns;
use crate::string_map::{map_insert, map_insert_spec};
use crate::attr_wrapper::{pairs_view, distinct_pair_keys};

verus! {

/// The character of a 6-bit value in the standard base64 alphabet:
/// `A`-`Z`, `a`-`z`, `0`-`9`, `+`, `/`.
pub open spec fn base64_char(v: int) -> char {
    if v < 26 {
        (65 + v) as char
    } else if v < 52 {
        (97 + v - 26) as char
    } else if v < 62 {
        (48 + v - 52) as char
    } else if v == 62 {
        '+'
    } else {
        '/'
    }
}

/// Standard base64 with padding: each group of three bytes becomes four
/// characters, six bits each, most significant first; a last group of one
/// or two bytes becomes two or three characters followed by `=` padding to
/// four.
pub open spec fn base64_encoding(bytes: Seq<u8>) -> Seq<char>
    decreases bytes.len(),
{
    if bytes.len() == 0 {
        Seq::empty()
    } else if bytes.len() == 1 {
        let b0 = bytes[0] as int;
        seq![base64_char(b0 / 4), base64_char((b0 % 4) * 16), '=', '=']
    } else if bytes.len() == 2 {
        let b0 = bytes[0] as int;
        let b1 = bytes[1] as int;
        seq![
            base64_char(b0 / 4),
            base64_char((b0 % 4) * 16 + b1 / 16),
            base64_char((b1 % 16) * 4),
            '=',
        ]
    } else {
        let b0 = bytes[0] as int;
        let b1 = bytes[1] as int;
        let b2 = bytes[2] as int;
        seq![
            base64_char(b0 / 4),
            base64_char((b0 % 4) * 16 + b1 / 16),
            base64_char((b1 % 16) * 4 + b2 / 64),
            base64_char(b2 % 64),
        ] + base64_encoding(bytes.skip(3))
    }
}

/// What standard base64 decodes `text` to, or none where it is not valid
/// base64.
pub uninterp spec fn base64_decoding(text: Seq<char>) -> Option<Seq<u8>>;

/// Calls `base64::encode` (standard alphabet, with padding). The contract
/// claims its result is the standard padded encoding that `base64_encoding`
/// spells out, and that decoding it with `base64::decode` gives the bytes
/// back. Inputs whose encoded size
/// would overflow `usize` (on which the crate panics) are excluded.
#[verifier::external_body]
fn base64_encode(bytes: &[u8]) -> (r: String)
    requires
        bytes@.len() <= usize::MAX / 2,
    ensures
        r@ == base64_encoding(bytes@),
        base64_decoding(r@) == Some(bytes@),
{
    base64::encode(bytes)
}

/// Calls `base64::decode` (standard alphabet, with padding). The contract
/// names its result `base64_decoding(text)`; an error is none. Inputs
/// within 7 of `usize::MAX` bytes (on which the crate panics) are excluded.
#[verifier::external_body]
fn base64_decode(text: &str) -> (r: Option<Vec<u8>>)
    requires
        encode_utf8(text@).len() <= usize::MAX - 7,
    ensures
        match r {
            Some(b) => base64_decoding(text@) == Some(b@),
            None => base64_decoding(text@).is_none(),
        },
{
    match base64::decode(text) {
        Ok(bytes) => Some(bytes),
        Err(_) => None,
    }
}

/// Calls `String::from_utf8`: the text the bytes encode in UTF-8, or none
/// where they are not valid UTF-8.
#[verifier::external_body]
fn string_from_utf8(bytes: Vec<u8>) -> (r: Option<String>)
    ensures
        match r {
            Some(s) => valid_utf8(bytes@) && s@ == decode_utf8(bytes@),
            None => !valid_utf8(bytes@),
        },
{
    String::from_utf8(bytes).ok()
}

/// The characters of `s`, in order.
fn chars_of(s: &str) -> (r: Vec<char>)
    ensures
        r@ == s@,
{
    broadcast use vstd::string::axiom_spec_iter, vstd::string::next_postcondition;
    let mut it = s.chars();
    let mut r: Vec<char> = Vec::new();
    loop
        invariant
            r@ + it.remaining() == s@,
            it.decrease() is Some,
        ensures
            r@ == s@,
        decreases it.decrease()->0,
    {
        match it.next() {
            Some(c) => {
                r.push(c);
            },
            None => {
                assert(r@ + it.remaining() =~= r@);
                break;
            },
        }
    }
    r
}

/// The header text of the pairs: `key@value!` for each, in order.
pub open spec fn header_text(list: Seq<(Seq<char>, Seq<char>)>) -> Seq<char>
    decreases list.len(),
{
    if list.len() == 0 {
        Seq::empty()
    } else {
        header_text(list.drop_last()) + list.last().0 + "@"@ + list.last().1 + "!"@
    }
}

/// The views of a sequence of string-slice pairs.
pub open spec fn str_pairs_view(list: Seq<(&str, &str)>) -> Seq<(Seq<char>, Seq<char>)> {
    list.map_values(|p: (&str, &str)| (p.0@, p.1@))
}

/// Encodes the pairs as the Istio attribute header: the base64 encoding of
/// the UTF-8 bytes of their header text.
pub fn encode_istio_header(list: &Vec<(&str, &str)>) -> (r: String)
    requires
        encode_utf8(header_text(str_pairs_view(list@))).len() <= usize::MAX / 2,
    ensures
        r@ == base64_encoding(encode_utf8(header_text(str_pairs_view(list@)))),
        base64_decoding(r@) == Some(encode_utf8(header_text(str_pairs_view(list@)))),
{
    let ghost lv = str_pairs_view(list@);
    let mut text = String::new();
    let mut i: usize = 0;
    proof {
        assert(lv.take(0) =~= Seq::<(Seq<char>, Seq<char>)>::empty());
    }
    while i < list.len()
        invariant
            i <= list.len(),
            lv == str_pairs_view(list@),
            text@ == header_text(lv.take(i as int)),
        decreases list.len() - i,
    {
        proof {
            assert(lv.take(i + 1).drop_last() =~= lv.take(i as int));
            assert(lv.take(i + 1).last() == lv[i as int]);
        }
        text.append(list[i].0);
        text.append("@");
        text.append(list[i].1);
        text.append("!");
        i = i + 1;
    }
    proof {
        assert(lv.take(list.len() as int) =~= lv);
    }
    base64_encode(text.as_str().as_bytes())
}

/// `i` is the position of the first `@` of `seg`.
pub open spec fn is_first_at(seg: Seq<char>, i: int) -> bool {
    &&& 0 <= i < seg.len()
    &&& seg[i] == '@'
    &&& forall|j: int| 0 <= j < i ==> seg[j] != '@'
}

/// The position of the first `@` of `seg` (meaningful where it has one).
pub open spec fn first_at(seg: Seq<char>) -> int {
    choose|i: int| is_first_at(seg, i)
}

/// The first `@` is unique.
pub proof fn lemma_first_at(seg: Seq<char>, i: int)
    requires
        is_first_at(seg, i),
    ensures
        seg.contains('@'),
        first_at(seg) == i,
{
    assert(seg[i] == '@');
    let c = first_at(seg);
    assert(is_first_at(seg, c));
    if c < i {
        assert(seg[c] != '@');
    } else if c > i {
        assert(seg[i] != '@');
    }
}

/// The (key, value) pair of one segment of the header text: the text before
/// its first `@` and the text after it; none for a segment without `@`.
pub open spec fn segment_pair(seg: Seq<char>) -> Option<(Seq<char>, Seq<char>)> {
    if seg.contains('@') {
        let at = first_at(seg);
        Some((seg.take(at), seg.skip(at + 1)))
    } else {
        None
    }
}

/// The pairs of the segments of `text`, and the segment still open at its
/// end: segments end at each `!`.
pub open spec fn scan_segments(text: Seq<char>) -> (Seq<(Seq<char>, Seq<char>)>, Seq<char>)
    decreases text.len(),
{
    if text.len() == 0 {
        (Seq::empty(), Seq::empty())
    } else {
        let (ps, cur) = scan_segments(text.drop_last());
        if text.last() == '!' {
            (close_segment(ps, cur), Seq::empty())
        } else {
            (ps, cur.push(text.last()))
        }
    }
}

/// The pairs after a segment ends: its pair is added, if it has one.
pub open spec fn close_segment(ps: Seq<(Seq<char>, Seq<char>)>, seg: Seq<char>) -> Seq<(Seq<char>, Seq<char>)> {
    match segment_pair(seg) {
        Some(p) => ps.push(p),
        None => ps,
    }
}

/// The pairs of all segments of the header text, the last one included.
pub open spec fn header_pairs(text: Seq<char>) -> Seq<(Seq<char>, Seq<char>)> {
    let (ps, cur) = scan_segments(text);
    close_segment(ps, cur)
}

/// The map the pairs form, a later pair replacing the value of an earlier
/// one with the same key.
pub open spec fn pairs_map(ps: Seq<(Seq<char>, Seq<char>)>) -> Seq<(Seq<char>, Seq<char>)> {
    crate::string_map::map_of_pairs(ps)
}

/// The map the decoded bytes of a header give: empty where they are not
/// UTF-8 text, else the map of the pairs of the text.
pub open spec fn bytes_header_map(bytes: Seq<u8>) -> Seq<(Seq<char>, Seq<char>)> {
    if valid_utf8(bytes) {
        pairs_map(header_pairs(decode_utf8(bytes)))
    } else {
        Seq::empty()
    }
}

/// The map a header decodes to: empty where it is not base64 of UTF-8 text,
/// else the map of the pairs of its text.
pub open spec fn decoded_header(encoded: Seq<char>) -> Seq<(Seq<char>, Seq<char>)> {
    match base64_decoding(encoded) {
        Some(bytes) => bytes_header_map(bytes),
        None => Seq::empty(),
    }
}

/// Splits the segment `text[from..to]` at its first `@`; `cs` holds the
/// characters of `text`.
fn split_segment(text: &str, cs: &Vec<char>, from: usize, to: usize) -> (r: Option<(String, String)>)
    requires
        cs@ == text@,
        from <= to <= cs.len(),
    ensures
        match r {
            Some((k, v)) => segment_pair(cs@.subrange(from as int, to as int)) == Some((k@, v@)),
            None => segment_pair(cs@.subrange(from as int, to as int)).is_none(),
        },
{
    let ghost seg = cs@.subrange(from as int, to as int);
    let mut i: usize = from;
    while i < to
        invariant
            from <= i <= to <= cs.len(),
            cs@ == text@,
            seg == cs@.subrange(from as int, to as int),
            forall|j: int| 0 <= j < i - from ==> seg[j] != '@',
        decreases to - i,
    {
        if cs[i] == '@' {
            proof {
                assert(seg[i - from] == '@');
                lemma_first_at(seg, i - from);
            }
            let key = text.substring_char(from, i).to_owned();
            let value = text.substring_char(i + 1, to).to_owned();
            proof {
                assert(key@ =~= seg.take(i - from));
                assert(value@ =~= seg.skip(i - from + 1));
            }
            return Some((key, value));
        }
        i = i + 1;
    }
    proof {
        assert(!seg.contains('@'));
    }
    None
}

/// Decodes the Istio attribute header into its map, as `decoded_header`
/// says: the base64 text is decoded, and the bytes are read as
/// `header_map_of_bytes` does.
pub fn decode_istio_header(encoded: &str) -> (r: Vec<(String, String)>)
    requires
        encode_utf8(encoded@).len() <= usize::MAX - 7,
    ensures
        pairs_view(r@) == decoded_header(encoded@),
        distinct_pair_keys(pairs_view(r@)),
{
    match base64_decode(encoded) {
        Some(bytes) => header_map_of_bytes(bytes),
        None => {
            let empty: Vec<(String, String)> = Vec::new();
            assert(pairs_view(empty@) =~= Seq::<(Seq<char>, Seq<char>)>::empty());
            empty
        },
    }
}

/// The map of the decoded bytes of a header, as `bytes_header_map` says:
/// bytes that are not UTF-8 give the empty map; otherwise the segments of
/// the text are separated by `!`, each is split at its first `@` into key
/// and value (a segment without `@` gives nothing), and a later key replaces
/// the value of an earlier one.
pub fn header_map_of_bytes(bytes: Vec<u8>) -> (r: Vec<(String, String)>)
    ensures
        pairs_view(r@) == bytes_header_map(bytes@),
        distinct_pair_keys(pairs_view(r@)),
{
    let ghost byte_view = bytes@;
    let text = match string_from_utf8(bytes) {
        Some(t) => t,
        None => {
            let empty: Vec<(String, String)> = Vec::new();
            assert(pairs_view(empty@) =~= Seq::<(Seq<char>, Seq<char>)>::empty());
            return empty;
        },
    };
    let cs = chars_of(text.as_str());
    let ghost t = cs@;
    let mut map: Vec<(String, String)> = Vec::new();
    let mut start: usize = 0;
    let mut i: usize = 0;
    proof {
        assert(t.take(0) =~= Seq::<char>::empty());
        assert(pairs_view(map@) =~= Seq::<(Seq<char>, Seq<char>)>::empty());
        assert(t.subrange(0, 0) =~= Seq::<char>::empty());
    }
    while i < cs.len()
        invariant
            start <= i <= cs.len(),
            t == cs@,
            t == text@,
            pairs_view(map@) == pairs_map(scan_segments(t.take(i as int)).0),
            t.subrange(start as int, i as int) == scan_segments(t.take(i as int)).1,
            distinct_pair_keys(pairs_view(map@)),
        decreases cs.len() - i,
    {
        proof {
            assert(t.take(i + 1).drop_last() =~= t.take(i as int));
            assert(t.take(i + 1).last() == t[i as int]);
        }
        let c = cs[i];
        if c == '!' {
            let ghost ps = scan_segments(t.take(i as int)).0;
            match split_segment(text.as_str(), &cs, start, i) {
                Some((k, v)) => {
                    proof {
                        assert(ps.push((k@, v@)).drop_last() =~= ps);
                    }
                    map_insert(&mut map, k, v);
                },
                None => {},
            }
            start = i + 1;
            proof {
                assert(t.subrange(start as int, i + 1) =~= Seq::<char>::empty());
            }
        } else {
            proof {
                assert(t.subrange(start as int, i + 1) =~= t.subrange(start as int, i as int).push(c));
            }
        }
        i = i + 1;
    }
    proof {
        assert(t.take(cs.len() as int) =~= t);
    }
    let ghost ps = scan_segments(t).0;
    match split_segment(text.as_str(), &cs, start, cs.len()) {
        Some((k, v)) => {
            proof {
                assert(ps.push((k@, v@)).drop_last() =~= ps);
            }
            map_insert(&mut map, k, v);
        },
        None => {},
    }
    map
}

/// No key holds `@` or `!`, and no value holds `!`: the pairs can be
/// written as header text and read back.
pub open spec fn plain_pairs(list: Seq<(Seq<char>, Seq<char>)>) -> bool {
    forall|i: int|
        0 <= i < list.len() ==> {
            &&& !(#[trigger] list[i]).0.contains('@')
            &&& !list[i].0.contains('!')
            &&& !list[i].1.contains('!')
        }
}

/// Scanning text without `!` only extends the open segment.
proof fn lemma_scan_no_bang(a: Seq<char>, b: Seq<char>)
    requires
        !b.contains('!'),
    ensures
        scan_segments(a + b) == (scan_segments(a).0, scan_segments(a).1 + b),
    decreases b.len(),
{
    if b.len() == 0 {
        assert(a + b =~= a);
        assert(scan_segments(a).1 + b =~= scan_segments(a).1);
    } else {
        let b1 = b.drop_last();
        assert(!b1.contains('!')) by {
            if b1.contains('!') {
                let j = choose|j: int| 0 <= j < b1.len() && b1[j] == '!';
                assert(b[j] == '!');
            }
        }
        lemma_scan_no_bang(a, b1);
        assert((a + b).drop_last() =~= a + b1);
        assert((a + b).last() == b.last());
        assert(b.last() != '!') by {
            assert(b[b.len() - 1] == b.last());
        }
        assert(scan_segments(a + b1).1.push(b.last()) =~= scan_segments(a).1 + b);
    }
}

/// A segment without `!` followed by `!` is closed.
proof fn lemma_scan_segment(a: Seq<char>, seg: Seq<char>)
    requires
        !seg.contains('!'),
    ensures
        scan_segments(a + seg + "!"@) == (
            close_segment(scan_segments(a).0, scan_segments(a).1 + seg),
            Seq::<char>::empty(),
        ),
{
    reveal_strlit("!");
    lemma_scan_no_bang(a, seg);
    let t = a + seg + "!"@;
    assert(t.drop_last() =~= a + seg);
    assert(t.last() == '!');
}

/// The segment `key@value` of a key without `@` splits into the pair.
proof fn lemma_segment_pair_plain(k: Seq<char>, v: Seq<char>)
    requires
        !k.contains('@'),
    ensures
        segment_pair(k + "@"@ + v) == Some((k, v)),
{
    reveal_strlit("@");
    let seg = k + "@"@ + v;
    assert(seg[k.len() as int] == '@');
    assert forall|j: int| 0 <= j < k.len() implies seg[j] != '@' by {
        assert(seg[j] == k[j]);
    }
    assert(is_first_at(seg, k.len() as int));
    lemma_first_at(seg, k.len() as int);
    assert(seg.take(k.len() as int) =~= k);
    assert(seg.skip(k.len() as int + 1) =~= v);
}

/// Scanning the header text of plain pairs gives the pairs back, with no
/// open segment.
proof fn lemma_scan_header(list: Seq<(Seq<char>, Seq<char>)>)
    requires
        plain_pairs(list),
    ensures
        scan_segments(header_text(list)) == (list, Seq::<char>::empty()),
    decreases list.len(),
{
    reveal_strlit("@");
    reveal_strlit("!");
    if list.len() == 0 {
        assert(header_text(list) =~= Seq::<char>::empty());
        assert(list =~= Seq::<(Seq<char>, Seq<char>)>::empty());
    } else {
        let rest = list.drop_last();
        let (k, v) = list.last();
        assert(list[list.len() - 1] == list.last());
        assert(plain_pairs(rest)) by {
            assert forall|i: int| 0 <= i < rest.len() implies {
                &&& !(#[trigger] rest[i]).0.contains('@')
                &&& !rest[i].0.contains('!')
                &&& !rest[i].1.contains('!')
            } by {
                assert(rest[i] == list[i]);
            }
        }
        lemma_scan_header(rest);
        let seg = k + "@"@ + v;
        assert(!seg.contains('!')) by {
            if seg.contains('!') {
                let j = choose|j: int| 0 <= j < seg.len() && seg[j] == '!';
                if j < k.len() {
                    assert(k[j] == '!');
                } else if j == k.len() {
                    assert(seg[j] == '@');
                } else {
                    assert(v[j - k.len() - 1] == '!');
                }
            }
        }
        let a = header_text(rest);
        assert(header_text(list) =~= a + seg + "!"@);
        lemma_scan_segment(a, seg);
        assert(Seq::<char>::empty() + seg =~= seg);
        lemma_segment_pair_plain(k, v);
        assert(rest.push((k, v)) =~= list);
    }
}

/// Reading the header text of plain pairs gives the pairs back.
pub proof fn lemma_header_pairs(list: Seq<(Seq<char>, Seq<char>)>)
    requires
        plain_pairs(list),
    ensures
        header_pairs(header_text(list)) == list,
{
    lemma_scan_header(list);
    assert(!Seq::<char>::empty().contains('@'));
}

/// Decoding a header that base64-decodes to the encoded header text of
/// plain pairs gives the map of those pairs: a later pair replaces the value
/// of an earlier one with the same key. What `encode_istio_header` returns
/// is such a header.
pub proof fn lemma_decode_encoded(list: Seq<(Seq<char>, Seq<char>)>, encoded: Seq<char>)
    requires
        plain_pairs(list),
        base64_decoding(encoded) == Some(encode_utf8(header_text(list))),
    ensures
        decoded_header(encoded) == crate::string_map::map_of_pairs(list),
{
    vstd::utf8::encode_utf8_valid_utf8(header_text(list));
    vstd::utf8::encode_utf8_decode_utf8(header_text(list));
    lemma_header_pairs(list);
}

} // verus!
