//! Words of a text and their overlap: splitting on whitespace, dropping repeated words,
//! and counting the words two texts share.

use vstd::prelude::*;

verus! {

/// Unicode white space (the `White_Space` property, which `char::is_whitespace` and
/// `str::split_whitespace` use): tab to carriage return, space, next line, no-break space,
/// ogham space mark, the spaces from en quad to hair space, line and paragraph separators,
/// narrow no-break space, medium mathematical space and ideographic space.
pub open spec fn is_white_space(c: char) -> bool {
    ||| '\t' <= c <= '\r'
    ||| c == ' '
    ||| c == '\u{85}'
    ||| c == '\u{a0}'
    ||| c == '\u{1680}'
    ||| '\u{2000}' <= c <= '\u{200a}'
    ||| c == '\u{2028}'
    ||| c == '\u{2029}'
    ||| c == '\u{202f}'
    ||| c == '\u{205f}'
    ||| c == '\u{3000}'
}

/// Scanning `s` from the left: the words completed so far and where the word being read
/// started, if one is.
pub open spec fn scan_words(s: Seq<char>) -> (Seq<Seq<char>>, Option<int>)
    decreases s.len(),
{
    if s.len() == 0 {
        (Seq::empty(), None)
    } else {
        let (ws, start) = scan_words(s.drop_last());
        let i = s.len() - 1;
        if is_white_space(s[i]) {
            match start {
                Some(a) => (ws.push(s.subrange(a, i)), None),
                None => (ws, None),
            }
        } else {
            match start {
                Some(a) => (ws, Some(a)),
                None => (ws, Some(i)),
            }
        }
    }
}

/// The words of `s`: its maximal runs of characters that are not white space, in order.
pub open spec fn whitespace_words(s: Seq<char>) -> Seq<Seq<char>> {
    let (ws, start) = scan_words(s);
    match start {
        Some(a) => ws.push(s.subrange(a, s.len() as int)),
        None => ws,
    }
}

/// The characters of each string.
pub open spec fn word_views(v: Seq<String>) -> Seq<Seq<char>> {
    v.map_values(|w: String| w@)
}

/// Whether `c` is white space.
pub fn is_white_space_char(c: char) -> (b: bool)
    ensures
        b == is_white_space(c),
{
    ('\t' <= c && c <= '\r') || c == ' ' || c == '\u{85}' || c == '\u{a0}' || c == '\u{1680}'
        || ('\u{2000}' <= c && c <= '\u{200a}') || c == '\u{2028}' || c == '\u{2029}' || c == '\u{202f}'
        || c == '\u{205f}' || c == '\u{3000}'
}

/// The start of the word being read, as a position.
pub open spec fn start_view(start: Option<usize>) -> Option<int> {
    match start {
        Some(a) => Some(a as int),
        None => None,
    }
}

/// The words of `s`, split on white space, as owned strings.
pub fn split_words(s: &str) -> (v: Vec<String>)
    ensures
        word_views(v@) == whitespace_words(s@),
{
    let cs = crate::text::chars_of(s);
    let mut v: Vec<String> = Vec::new();
    let mut start: Option<usize> = None;
    let mut i: usize = 0;
    while i < cs.len()
        invariant
            i <= cs@.len(),
            cs@ == s@,
            (word_views(v@), start_view(start)) == scan_words(s@.take(i as int)),
            start matches Some(a) ==> a < i,
        decreases cs@.len() - i,
    {
        let c = cs[i];
        let ghost pre = s@.take(i as int);
        let ghost next = s@.take(i + 1);
        proof {
            assert(next.drop_last() =~= pre);
            assert(next[i as int] == c);
        }
        if is_white_space_char(c) {
            match start {
                Some(a) => {
                    let w = s.substring_char(a, i).to_owned();
                    proof {
                        assert(w@ =~= next.subrange(a as int, i as int));
                    }
                    v.push(w);
                    proof {
                        assert(word_views(v@) =~= scan_words(pre).0.push(next.subrange(a as int, i as int)));
                    }
                    start = None;
                },
                None => {},
            }
        } else {
            match start {
                Some(_) => {},
                None => {
                    start = Some(i);
                },
            }
        }
        i = i + 1;
    }
    proof {
        assert(s@.take(cs@.len() as int) =~= s@);
    }
    match start {
        Some(a) => {
            let w = s.substring_char(a, cs.len()).to_owned();
            v.push(w);
            proof {
                assert(word_views(v@) =~= scan_words(s@).0.push(s@.subrange(a as int, s@.len() as int)));
            }
        },
        None => {},
    }
    v
}

/// The words of `s` without repetitions, each at its first occurrence.
pub open spec fn distinct_words(s: Seq<Seq<char>>) -> Seq<Seq<char>>
    decreases s.len(),
{
    if s.len() == 0 {
        Seq::empty()
    } else {
        let d = distinct_words(s.drop_last());
        if d.contains(s.last()) {
            d
        } else {
            d.push(s.last())
        }
    }
}

/// How many words of `q` occur in `d`.
pub open spec fn shared_count(q: Seq<Seq<char>>, d: Seq<Seq<char>>) -> nat
    decreases q.len(),
{
    if q.len() == 0 {
        0
    } else {
        shared_count(q.drop_last(), d) + if d.contains(q.last()) { 1nat } else { 0nat }
    }
}

/// How many words of `d` do not occur in `q`.
pub open spec fn missing_count(d: Seq<Seq<char>>, q: Seq<Seq<char>>) -> nat
    decreases d.len(),
{
    if d.len() == 0 {
        0
    } else {
        missing_count(d.drop_last(), q) + if q.contains(d.last()) { 0nat } else { 1nat }
    }
}

proof fn lemma_word_views_take(v: Seq<String>, i: int)
    requires
        0 <= i < v.len(),
    ensures
        word_views(v.take(i + 1)).drop_last() == word_views(v.take(i)),
        word_views(v.take(i + 1)).last() == v[i]@,
        word_views(v.take(i + 1)).len() == i + 1,
{
    assert(word_views(v.take(i + 1)).drop_last() =~= word_views(v.take(i)));
}

/// Whether `w` is among `ws`.
pub fn contains_word(ws: &Vec<String>, w: &String) -> (r: bool)
    ensures
        r == word_views(ws@).contains(w@),
{
    let mut i: usize = 0;
    while i < ws.len()
        invariant
            i <= ws@.len(),
            forall|k: int| 0 <= k < i ==> ws@[k]@ != w@,
        decreases ws@.len() - i,
    {
        if ws[i] == *w {
            assert(word_views(ws@)[i as int] == w@);
            return true;
        }
        i = i + 1;
    }
    assert forall|k: int| 0 <= k < word_views(ws@).len() implies word_views(ws@)[k] != w@ by {
        assert(word_views(ws@)[k] == ws@[k]@);
    }
    false
}

/// The words of `ws` without repetitions, each at its first occurrence.
pub fn dedup_words(ws: &Vec<String>) -> (r: Vec<String>)
    ensures
        word_views(r@) == distinct_words(word_views(ws@)),
{
    let mut r: Vec<String> = Vec::new();
    let mut i: usize = 0;
    while i < ws.len()
        invariant
            i <= ws@.len(),
            word_views(r@) == distinct_words(word_views(ws@.take(i as int))),
        decreases ws@.len() - i,
    {
        proof {
            lemma_word_views_take(ws@, i as int);
        }
        if !contains_word(&r, &ws[i]) {
            let w = ws[i].clone();
            r.push(w);
            assert(word_views(r@) =~= word_views(r@.drop_last()).push(w@));
        }
        i = i + 1;
    }
    assert(ws@.take(i as int) =~= ws@);
    r
}

proof fn lemma_shared_bounded(q: Seq<Seq<char>>, d: Seq<Seq<char>>)
    ensures
        shared_count(q, d) <= q.len(),
    decreases q.len(),
{
    if q.len() > 0 {
        lemma_shared_bounded(q.drop_last(), d);
    }
}

/// How many words of `q` occur in `d`.
pub fn count_shared(q: &Vec<String>, d: &Vec<String>) -> (n: usize)
    ensures
        n == shared_count(word_views(q@), word_views(d@)),
{
    let mut n: usize = 0;
    let mut i: usize = 0;
    while i < q.len()
        invariant
            i <= q@.len(),
            n == shared_count(word_views(q@.take(i as int)), word_views(d@)),
        decreases q@.len() - i,
    {
        proof {
            lemma_word_views_take(q@, i as int);
            lemma_shared_bounded(word_views(q@.take(i as int)), word_views(d@));
        }
        if contains_word(d, &q[i]) {
            n = n + 1;
        }
        i = i + 1;
    }
    assert(q@.take(i as int) =~= q@);
    n
}

/// The words of `q` followed by the words of `d` that `q` lacks.
pub fn union_words(q: &Vec<String>, d: &Vec<String>) -> (r: Vec<String>)
    ensures
        r@.len() == q@.len() + missing_count(word_views(d@), word_views(q@)),
{
    let mut r: Vec<String> = Vec::new();
    let mut k: usize = 0;
    while k < q.len()
        invariant
            k <= q@.len(),
            r@.len() == k,
        decreases q@.len() - k,
    {
        r.push(q[k].clone());
        k = k + 1;
    }
    let mut i: usize = 0;
    while i < d.len()
        invariant
            i <= d@.len(),
            r@.len() == q@.len() + missing_count(word_views(d@.take(i as int)), word_views(q@)),
        decreases d@.len() - i,
    {
        proof {
            lemma_word_views_take(d@, i as int);
        }
        if !contains_word(q, &d[i]) {
            r.push(d[i].clone());
        }
        i = i + 1;
    }
    assert(d@.take(i as int) =~= d@);
    r
}

} // verus!
