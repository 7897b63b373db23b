//! The global dictionary: attribute words known to both client and mixer
//! server, addressed by non-negative indices.

use vstd::prelude::*;

verus! {

/// The views of a sequence of strings.
pub open spec fn words_view(ws: Seq<String>) -> Seq<Seq<char>> {
    ws.map_values(|s: String| s@)
}

/// `i` is the first position of `w` in `ws`.
pub open spec fn is_first_index(ws: Seq<Seq<char>>, w: Seq<char>, i: int) -> bool {
    &&& 0 <= i < ws.len()
    &&& ws[i] == w
    &&& forall|j: int| 0 <= j < i ==> ws[j] != w
}

/// The first position of `w` in `ws` (meaningful where `ws` contains `w`).
pub open spec fn first_index(ws: Seq<Seq<char>>, w: Seq<char>) -> int {
    choose|i: int| is_first_index(ws, w, i)
}

/// The first position of a word is unique, so `first_index` names it.
pub proof fn lemma_first_index(ws: Seq<Seq<char>>, w: Seq<char>, i: int)
    requires
        is_first_index(ws, w, i),
    ensures
        first_index(ws, w) == i,
{
    let k = first_index(ws, w);
    assert(is_first_index(ws, w, k));
    if k < i {
        assert(ws[k] == w);
    } else if k > i {
        assert(ws[i] != w);
    }
}

/// A word that occurs in `ws` has a first position.
pub proof fn lemma_first_index_exists(ws: Seq<Seq<char>>, w: Seq<char>)
    requires
        ws.contains(w),
    ensures
        is_first_index(ws, w, first_index(ws, w)),
    decreases ws.len(),
{
    if ws[0] == w {
        assert(is_first_index(ws, w, 0));
    } else {
        let rest = ws.drop_first();
        let j = choose|j: int| 0 <= j < ws.len() && ws[j] == w;
        assert(rest[j - 1] == w);
        lemma_first_index_exists(rest, w);
        let k = first_index(rest, w);
        assert forall|m: int| 0 <= m < k + 1 implies ws[m] != w by {
            if m > 0 {
                assert(ws[m] == rest[m - 1]);
            }
        }
        assert(is_first_index(ws, w, k + 1));
    }
}

/// Finds the first position of `name` in `words`.
pub fn find_word(words: &Vec<String>, name: &String) -> (r: Option<usize>)
    ensures
        match r {
            Some(i) => is_first_index(words_view(words@), name@, i as int),
            None => !words_view(words@).contains(name@),
        },
{
    let ghost ws = words_view(words@);
    let mut i: usize = 0;
    while i < words.len()
        invariant
            i <= words.len(),
            ws == words_view(words@),
            forall|j: int| 0 <= j < i ==> ws[j] != name@,
        decreases words.len() - i,
    {
        if words[i] == *name {
            return Some(i);
        }
        i = i + 1;
    }
    proof {
        assert forall|j: int| 0 <= j < ws.len() implies ws[j] != name@ by {}
    }
    None
}

/// The words of the global dictionary, in index order: a prefix of the
/// dictionary shared with the mixer server.
pub open spec fn global_words() -> Seq<Seq<char>> {
    seq![
        "source.ip"@,
        "source.port"@,
        "source.name"@,
        "source.uid"@,
        "source.namespace"@,
        "source.labels"@,
        "source.user"@,
        "target.ip"@,
        "target.port"@,
        "target.service"@,
        "target.name"@,
        "target.uid"@,
        "target.namespace"@,
        "target.labels"@,
        "target.user"@,
        "request.headers"@,
        "request.id"@,
        "request.path"@,
        "request.host"@,
        "request.method"@,
        "request.reason"@,
        "request.referer"@,
        "request.scheme"@,
        "request.size"@,
        "request.time"@,
        "request.useragent"@,
        "response.headers"@,
        "response.size"@,
        "response.time"@,
        "response.duration"@,
        "response.code"@,
    ]
}

/// The global dictionary: the words the mixer server knows by index.
pub struct GlobalDictionary {
    words: Vec<String>,
}

impl View for GlobalDictionary {
    type V = Seq<Seq<char>>;

    closed spec fn view(&self) -> Seq<Seq<char>> {
        words_view(self.words@)
    }
}

impl GlobalDictionary {
    /// Every index of a word fits in an `i32`.
    pub open spec fn wf(&self) -> bool {
        self@.len() <= i32::MAX
    }

    /// The dictionary of the `global_words`.
    pub fn new() -> (d: GlobalDictionary)
        ensures
            d@ == global_words(),
            d.wf(),
    {
        let words: Vec<String> = vec![
            "source.ip".to_owned(),
            "source.port".to_owned(),
            "source.name".to_owned(),
            "source.uid".to_owned(),
            "source.namespace".to_owned(),
            "source.labels".to_owned(),
            "source.user".to_owned(),
            "target.ip".to_owned(),
            "target.port".to_owned(),
            "target.service".to_owned(),
            "target.name".to_owned(),
            "target.uid".to_owned(),
            "target.namespace".to_owned(),
            "target.labels".to_owned(),
            "target.user".to_owned(),
            "request.headers".to_owned(),
            "request.id".to_owned(),
            "request.path".to_owned(),
            "request.host".to_owned(),
            "request.method".to_owned(),
            "request.reason".to_owned(),
            "request.referer".to_owned(),
            "request.scheme".to_owned(),
            "request.size".to_owned(),
            "request.time".to_owned(),
            "request.useragent".to_owned(),
            "response.headers".to_owned(),
            "response.size".to_owned(),
            "response.time".to_owned(),
            "response.duration".to_owned(),
            "response.code".to_owned(),
        ];
        let d = GlobalDictionary { words };
        assert(d@ =~= global_words());
        d
    }

    /// A dictionary of the given words, in order.
    pub fn from_words(words: Vec<String>) -> (d: GlobalDictionary)
        requires
            words.len() <= i32::MAX,
        ensures
            d@ == words_view(words@),
            d.wf(),
    {
        GlobalDictionary { words }
    }

    /// The index of `name`: its first position among the global words.
    pub fn index_of(&self, name: &String) -> (r: Option<i32>)
        requires
            self.wf(),
        ensures
            match r {
                Some(i) => is_first_index(self@, name@, i as int),
                None => !self@.contains(name@),
            },
    {
        match find_word(&self.words, name) {
            Some(i) => Some(i as i32),
            None => None,
        }
    }

    /// The number of global words.
    pub fn size(&self) -> (n: usize)
        ensures
            n == self@.len(),
    {
        self.words.len()
    }

    /// The global word at index `i`, if there is one.
    pub fn word_at(&self, i: usize) -> (r: Option<&String>)
        ensures
            match r {
                Some(w) => i < self@.len() && w@ == self@[i as int],
                None => i >= self@.len(),
            },
    {
        if i < self.words.len() {
            Some(&self.words[i])
        } else {
            None
        }
    }
}

} // verus!
