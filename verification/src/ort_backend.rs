//! Model back-ends: the ONNX Runtime back-end, and the mock back-end whose vectorizer derives
//! features from a text's BLAKE3 digest and whose reranker orders documents by the share of
//! words they have in common with the query.
//!
//! Loading models and turning scores into floating-point numbers happen outside this
//! library; a ranking here carries each score as the exact fraction of shared words.

use vstd::prelude::*;
use vstd::set_lib::{lemma_int_range, lemma_len_subset, set_int_range};
use vstd::string::StringSliceAdditionalSpecFns;

use crate::digest::{blake3_digest, blake3_digest_bytes};
use crate::text::{lowercase_of, to_lowercase};
use crate::words::{
    count_shared, dedup_words, distinct_words, missing_count, shared_count, split_words,
    union_words, whitespace_words, word_views,
};

verus! {

/// Embedding dimension of the mock vectorizer.
pub const MOCK_EMBEDDING_DIM: usize = 1024;

/// The back-end built on ONNX Runtime 1.16.
#[derive(Debug, Clone, Copy, PartialEq, Eq, Structural)]
pub struct OrtV1Backend {}

impl OrtV1Backend {
    /// A new ONNX Runtime back-end.
    pub fn new() -> (b: Self)
        ensures
            b == (OrtV1Backend {}),
    {
        OrtV1Backend {}
    }

    /// The back-end's name and version.
    pub fn name(&self) -> (s: &'static str)
        ensures
            s@ == "ONNX Runtime v1.16"@,
    {
        "ONNX Runtime v1.16"
    }
}

/// The back-end that needs no model files.
#[derive(Debug, Clone, Copy, PartialEq, Eq, Structural)]
pub struct MockBackend {}

impl MockBackend {
    /// A new mock back-end.
    pub fn new() -> (b: Self)
        ensures
            b == (MockBackend {}),
    {
        MockBackend {}
    }

    /// The back-end's name.
    pub fn name(&self) -> (s: &'static str)
        ensures
            s@ == "Mock Backend (no ONNX)"@,
    {
        "Mock Backend (no ONNX)"
    }

    /// The mock vectorizer; it needs no model.
    pub fn create_vectorizer(&self) -> (v: MockVectorizer)
        ensures
            v.dim() == MOCK_EMBEDDING_DIM,
    {
        MockVectorizer::new()
    }

    /// The mock reranker; it needs no model.
    pub fn create_reranker(&self) -> (r: MockReranker)
        ensures
            r == (MockReranker {}),
    {
        MockReranker::new()
    }
}

/// Which back-end to use.
#[derive(Debug, Clone, Copy, PartialEq, Eq, Structural)]
pub enum BackendChoice {
    OrtV1,
    Mock,
}

/// Picks the best available back-end.
pub struct BackendFactory {}

impl BackendFactory {
    /// The mock back-end when the environment forces it (the variable
    /// `MAGRAY_USE_MOCK_MODELS` reads exactly `true`), else ONNX Runtime when it could be
    /// set up, else the mock back-end.
    pub fn best_available(mock_forced_value: &str, ort_available: bool) -> (c: BackendChoice)
        ensures
            c == (if mock_forced_value@ == "true"@ {
                BackendChoice::Mock
            } else if ort_available {
                BackendChoice::OrtV1
            } else {
                BackendChoice::Mock
            }),
    {
        let forced = mock_forced_value.to_owned();
        let expected = "true".to_owned();
        if forced == expected {
            BackendChoice::Mock
        } else if ort_available {
            BackendChoice::OrtV1
        } else {
            BackendChoice::Mock
        }
    }
}

/// Vectorizer of the mock back-end.
pub struct MockVectorizer {
    embedding_dim: usize,
}

impl MockVectorizer {
    /// The embedding dimension.
    pub closed spec fn dim(&self) -> usize {
        self.embedding_dim
    }

    /// A mock vectorizer of dimension 1024.
    pub fn new() -> (v: Self)
        ensures
            v.dim() == MOCK_EMBEDDING_DIM,
    {
        MockVectorizer { embedding_dim: MOCK_EMBEDDING_DIM }
    }

    /// The embedding dimension.
    pub fn embedding_dim(&self) -> (d: usize)
        ensures
            d == self.dim(),
    {
        self.embedding_dim
    }

    /// The bytes from which the mock embedding of `text` is made: the leading coordinates
    /// come from the bytes of the text's BLAKE3 digest, as many as the dimension allows.
    pub fn feature_bytes(&self, text: &str) -> (b: Vec<u8>)
        ensures
            b@ == blake3_digest(text.spec_bytes()).take(
                if self.dim() < 32 { self.dim() as int } else { 32 },
            ),
    {
        let digest = blake3_digest_bytes(text.as_bytes());
        let mut b: Vec<u8> = Vec::new();
        let mut i: usize = 0;
        while i < digest.len() && i < self.embedding_dim
            invariant
                i <= digest@.len(),
                digest@.len() == 32,
                i <= self.dim(),
                b@ == digest@.take(i as int),
            decreases digest@.len() - i,
        {
            b.push(digest[i]);
            i = i + 1;
        }
        assert(b@ =~= digest@.take(if self.dim() < 32 { self.dim() as int } else { 32 }));
        b
    }
}

/// Reranker of the mock back-end.
#[derive(Debug, Clone, Copy, PartialEq, Eq, Structural)]
pub struct MockReranker {}

/// The score of one document: the number of distinct words it shares with the query, out of
/// the number of distinct words in the two together (the score is 0 when both are empty).
#[derive(Debug, Clone, Copy, PartialEq, Eq, Structural)]
pub struct RerankScore {
    pub index: usize,
    pub shared: usize,
    pub total: usize,
}

/// The denominator of a score: the word total, or 1 when there are no words.
pub open spec fn den(total: usize) -> int {
    if total == 0 {
        1
    } else {
        total as int
    }
}

/// `a` ranks before `b`: its score is higher, or equal with an earlier document.
pub open spec fn ranks_before(a: RerankScore, b: RerankScore) -> bool {
    let l = a.shared * den(b.total);
    let r = b.shared * den(a.total);
    l > r || (l == r && a.index < b.index)
}

/// The documents a ranking lists.
pub open spec fn indices_of(r: Seq<RerankScore>) -> Seq<int> {
    r.map_values(|e: RerankScore| e.index as int)
}

/// `r` lists the `k` best of `all` (all of them when there are fewer), best first.
pub open spec fn is_top_ranking(r: Seq<RerankScore>, all: Seq<RerankScore>, k: nat) -> bool {
    &&& r.len() == (if k < all.len() { k } else { all.len() })
    &&& forall|i: int| 0 <= i < r.len() ==> (#[trigger] r[i]).index < all.len() && r[i] == all[r[i].index as int]
    &&& forall|i: int, j: int| 0 <= i < j < r.len() ==> ranks_before(#[trigger] r[i], #[trigger] r[j])
    &&& forall|i: int, j: int|
        0 <= i < r.len() && 0 <= j < all.len() && !indices_of(r).contains(j) ==> ranks_before(#[trigger] r[i], #[trigger] all[j])
}

/// The score of the document at `index` whose words are `doc`, for the distinct query words `q`.
pub open spec fn overlap_of(q: Seq<Seq<char>>, doc: Seq<Seq<char>>, index: int) -> RerankScore {
    let d = distinct_words(doc);
    RerankScore {
        index: index as usize,
        shared: shared_count(q, d) as usize,
        total: (q.len() + missing_count(d, q)) as usize,
    }
}

/// The scores of all documents for `query`, in document order, on lower-cased words.
pub open spec fn mock_scores(query: Seq<char>, docs: Seq<Seq<char>>) -> Seq<RerankScore> {
    let q = distinct_words(whitespace_words(lowercase_of(query)));
    Seq::new(docs.len(), |i: int| overlap_of(q, whitespace_words(lowercase_of(docs[i])), i))
}

proof fn lemma_cross(sa: int, ta: int, sb: int, tb: int, sc: int, tc: int)
    requires
        ta > 0,
        tb > 0,
        tc > 0,
    ensures
        sa * tb > sb * ta && sb * tc >= sc * tb ==> sa * tc > sc * ta,
        sa * tb >= sb * ta && sb * tc > sc * tb ==> sa * tc > sc * ta,
        sa * tb == sb * ta && sb * tc == sc * tb ==> sa * tc == sc * ta,
{
    assert(sa * tb * tc >= sb * ta * tc ==> sa * tb * tc - sb * ta * tc == (sa * tb - sb * ta) * tc) by (nonlinear_arith);
    assert((sb * tc - sc * tb) * ta == sb * tc * ta - sc * tb * ta) by (nonlinear_arith);
    assert((sa * tb - sb * ta) * tc == sa * tb * tc - sb * ta * tc) by (nonlinear_arith);
    assert((sa * tc - sc * ta) * tb == sa * tb * tc - sc * tb * ta) by (nonlinear_arith);
    assert(sb * ta * tc == sb * tc * ta) by (nonlinear_arith);
    assert(sa * tb > sb * ta ==> (sa * tb - sb * ta) * tc > 0) by (nonlinear_arith)
        requires
            tc > 0,
    ;
    assert(sb * tc > sc * tb ==> (sb * tc - sc * tb) * ta > 0) by (nonlinear_arith)
        requires
            ta > 0,
    ;
    assert(sa * tb >= sb * ta ==> (sa * tb - sb * ta) * tc >= 0) by (nonlinear_arith)
        requires
            tc > 0,
    ;
    assert(sb * tc >= sc * tb ==> (sb * tc - sc * tb) * ta >= 0) by (nonlinear_arith)
        requires
            ta > 0,
    ;
    assert((sa * tc - sc * ta) * tb > 0 ==> sa * tc - sc * ta > 0) by (nonlinear_arith)
        requires
            tb > 0,
    ;
    assert((sa * tc - sc * ta) * tb == 0 ==> sa * tc - sc * ta == 0) by (nonlinear_arith)
        requires
            tb > 0,
    ;
}

/// Ranking is transitive.
pub proof fn lemma_ranks_transitive(a: RerankScore, b: RerankScore, c: RerankScore)
    requires
        ranks_before(a, b),
        ranks_before(b, c),
    ensures
        ranks_before(a, c),
{
    lemma_cross(a.shared as int, den(a.total), b.shared as int, den(b.total), c.shared as int, den(c.total));
}

/// Of two different documents, one ranks before the other, and none before itself.
pub proof fn lemma_ranks_total(a: RerankScore, b: RerankScore)
    ensures
        !ranks_before(a, a),
        a.index != b.index ==> ranks_before(a, b) || ranks_before(b, a),
{
}

/// The score of the document at `index` with words `doc` against the distinct query words `q`.
pub fn overlap_score(q: &Vec<String>, doc: &Vec<String>, index: usize) -> (s: RerankScore)
    ensures
        s == overlap_of(word_views(q@), word_views(doc@), index as int),
{
    let d = dedup_words(doc);
    let shared = count_shared(q, &d);
    let all = union_words(q, &d);
    RerankScore { index, shared, total: all.len() }
}

/// Whether `a` ranks before `b`.
pub fn score_before(a: &RerankScore, b: &RerankScore) -> (r: bool)
    ensures
        r == ranks_before(*a, *b),
{
    let da: u128 = if a.total == 0 { 1 } else { a.total as u128 };
    let db: u128 = if b.total == 0 { 1 } else { b.total as u128 };
    assert((a.shared as u128) * db <= 0xffff_ffff_ffff_ffffu128 * 0xffff_ffff_ffff_ffffu128) by (nonlinear_arith)
        requires
            a.shared <= 0xffff_ffff_ffff_ffffu128,
            db <= 0xffff_ffff_ffff_ffffu128,
    ;
    assert((b.shared as u128) * da <= 0xffff_ffff_ffff_ffffu128 * 0xffff_ffff_ffff_ffffu128) by (nonlinear_arith)
        requires
            b.shared <= 0xffff_ffff_ffff_ffffu128,
            da <= 0xffff_ffff_ffff_ffffu128,
    ;
    let l = (a.shared as u128) * db;
    let r = (b.shared as u128) * da;
    l > r || (l == r && a.index < b.index)
}

/// Whether the ranking `r` lists the document `j`.
fn index_taken(r: &Vec<RerankScore>, j: usize) -> (t: bool)
    ensures
        t == indices_of(r@).contains(j as int),
{
    let mut i: usize = 0;
    while i < r.len()
        invariant
            i <= r@.len(),
            forall|k: int| 0 <= k < i ==> r@[k].index != j,
        decreases r@.len() - i,
    {
        if r[i].index == j {
            assert(indices_of(r@)[i as int] == j as int);
            return true;
        }
        i = i + 1;
    }
    assert forall|k: int| 0 <= k < indices_of(r@).len() implies indices_of(r@)[k] != j as int by {
        assert(indices_of(r@)[k] == r@[k].index as int);
    }
    false
}

/// A ranking shorter than `n` leaves some document of `0..n` out.
proof fn lemma_some_untaken(r: Seq<RerankScore>, n: nat)
    requires
        r.len() < n,
    ensures
        exists|j: int| 0 <= j < n && !indices_of(r).contains(j),
{
    let ids = indices_of(r);
    lemma_int_range(0, n as int);
    ids.lemma_cardinality_of_set();
    if forall|j: int| 0 <= j < n ==> ids.contains(j) {
        assert forall|j: int| set_int_range(0, n as int).contains(j) implies ids.to_set().contains(j) by {
            assert(ids.contains(j));
        }
        lemma_len_subset(set_int_range(0, n as int), ids.to_set());
        assert(false);
    }
}

/// The `top_k` best of `scores`, best first; `scores[i]` is the score of document `i`.
pub fn top_ranked(scores: &Vec<RerankScore>, top_k: usize) -> (r: Vec<RerankScore>)
    requires
        forall|i: int| 0 <= i < scores@.len() ==> (#[trigger] scores@[i]).index == i,
    ensures
        is_top_ranking(r@, scores@, top_k as nat),
{
    let n = scores.len();
    let count = if top_k < n { top_k } else { n };
    let mut r: Vec<RerankScore> = Vec::new();
    while r.len() < count
        invariant
            n == scores@.len(),
            count == (if top_k < n { top_k } else { n }),
            r@.len() <= count,
            forall|i: int| 0 <= i < scores@.len() ==> (#[trigger] scores@[i]).index == i,
            forall|i: int| 0 <= i < r@.len() ==> (#[trigger] r@[i]).index < n && r@[i] == scores@[r@[i].index as int],
            forall|i: int, j: int| 0 <= i < j < r@.len() ==> ranks_before(#[trigger] r@[i], #[trigger] r@[j]),
            forall|i: int, j: int|
                0 <= i < r@.len() && 0 <= j < n && !indices_of(r@).contains(j) ==> ranks_before(#[trigger] r@[i], #[trigger] scores@[j]),
        decreases count - r@.len(),
    {
        let mut best: usize = n;
        let mut j: usize = 0;
        while j < n
            invariant
                n == scores@.len(),
                j <= n,
                forall|i: int| 0 <= i < scores@.len() ==> (#[trigger] scores@[i]).index == i,
                best == n || (best < j && !indices_of(r@).contains(best as int)),
                best < n ==> forall|m: int|
                    0 <= m < j && m != best && !indices_of(r@).contains(m) ==> ranks_before(scores@[best as int], #[trigger] scores@[m]),
                best == n ==> forall|m: int| 0 <= m < j ==> #[trigger] indices_of(r@).contains(m),
            decreases n - j,
        {
            if !index_taken(&r, j) {
                if best == n || score_before(&scores[j], &scores[best]) {
                    proof {
                        if best < n {
                            assert forall|m: int|
                                0 <= m < j + 1 && m != j && !indices_of(r@).contains(m) implies ranks_before(scores@[j as int], #[trigger] scores@[m]) by {
                                if m != best {
                                    lemma_ranks_transitive(scores@[j as int], scores@[best as int], scores@[m]);
                                }
                            }
                        }
                    }
                    best = j;
                } else {
                    proof {
                        lemma_ranks_total(scores@[j as int], scores@[best as int]);
                        assert(scores@[j as int].index != scores@[best as int].index);
                    }
                }
            }
            j = j + 1;
        }
        proof {
            if best == n {
                lemma_some_untaken(r@, n as nat);
                let m = choose|m: int| 0 <= m < n && !indices_of(r@).contains(m);
                assert(indices_of(r@).contains(m));
            }
        }
        let e = scores[best];
        let ghost old_r = r@;
        r.push(e);
        proof {
            assert(indices_of(r@) =~= indices_of(old_r).push(best as int));
            assert forall|i: int, k: int| 0 <= i < k < r@.len() implies ranks_before(#[trigger] r@[i], #[trigger] r@[k]) by {
                if k == old_r.len() {
                    assert(r@[k] == scores@[best as int]);
                    assert(r@[i] == old_r[i]);
                }
            }
            assert forall|i: int, m: int|
                0 <= i < r@.len() && 0 <= m < n && !indices_of(r@).contains(m) implies ranks_before(#[trigger] r@[i], #[trigger] scores@[m]) by {
                assert(!indices_of(old_r).contains(m)) by {
                    if indices_of(old_r).contains(m) {
                        let t = choose|t: int| 0 <= t < indices_of(old_r).len() && indices_of(old_r)[t] == m;
                        assert(indices_of(r@)[t] == m);
                    }
                }
                assert(m != best) by {
                    assert(indices_of(r@)[old_r.len() as int] == best as int);
                }
                if i < old_r.len() {
                    assert(r@[i] == old_r[i]);
                }
            }
        }
    }
    r
}

impl MockReranker {
    /// A new mock reranker.
    pub fn new() -> (r: Self)
        ensures
            r == (MockReranker {}),
    {
        MockReranker {}
    }

    /// Ranks `documents` for `query` by the share of distinct lower-cased words each has in
    /// common with the query, keeping the `top_k` best, best first; equal scores keep the
    /// documents' order.
    pub fn rerank(&self, query: &str, documents: &Vec<String>, top_k: usize) -> (r: Vec<RerankScore>)
        ensures
            is_top_ranking(r@, mock_scores(query@, word_views(documents@)), top_k as nat),
    {
        let query_lower = to_lowercase(query);
        let query_all = split_words(query_lower.as_str());
        let q = dedup_words(&query_all);
        let mut scores: Vec<RerankScore> = Vec::new();
        let mut i: usize = 0;
        while i < documents.len()
            invariant
                i <= documents@.len(),
                word_views(q@) == distinct_words(whitespace_words(lowercase_of(query@))),
                scores@.len() == i,
                forall|k: int| 0 <= k < i ==> #[trigger] scores@[k] == mock_scores(query@, word_views(documents@))[k],
            decreases documents@.len() - i,
        {
            let doc_lower = to_lowercase(documents[i].as_str());
            let doc_words = split_words(doc_lower.as_str());
            let s = overlap_score(&q, &doc_words, i);
            assert(word_views(documents@)[i as int] == documents@[i as int]@);
            scores.push(s);
            i = i + 1;
        }
        assert forall|k: int| 0 <= k < scores@.len() implies (#[trigger] scores@[k]).index == k by {
            assert(scores@[k] == mock_scores(query@, word_views(documents@))[k]);
        }
        let r = top_ranked(&scores, top_k);
        assert(scores@ =~= mock_scores(query@, word_views(documents@)));
        r
    }
}

} // verus!
