//! Vectorizer and reranker services that fall back to mock models: the embedding cache key,
//! the token estimate of a request, and the reranker's document limit and hits.
//!
//! Loading the models and running them happen outside this library.

use vstd::prelude::*;
use vstd::string::{StringExecFns, StringSliceAdditionalSpecFns};

use vstd::utf8::encode_utf8;

use crate::digest::{blake3_digest, blake3_hex, hex_of};
use crate::words::word_views;

verus! {

/// The key under which the embedding of `text` is cached: `embed:` and the lowercase hex
/// BLAKE3 digest of the text's bytes.
pub fn embedding_cache_key(text: &str) -> (k: String)
    ensures
        k@ == "embed:"@ + hex_of(blake3_digest(text.spec_bytes())),
{
    let hex = blake3_hex(text.as_bytes());
    let mut k = String::from_str("embed:");
    k.append(hex.as_str());
    k
}

/// The token estimate of a request: the sum over its texts of a quarter of each length in bytes.
pub open spec fn tokens_estimate(lens: Seq<nat>) -> int
    decreases lens.len(),
{
    if lens.len() == 0 {
        0
    } else {
        tokens_estimate(lens.drop_last()) + (lens.last() / 4) as int
    }
}

/// The byte lengths of the texts, through their UTF-8 encodings.
pub open spec fn utf8_lens(texts: Seq<String>) -> Seq<nat> {
    texts.map_values(|t: String| encode_utf8(t@).len())
}

proof fn lemma_tokens_monotone(lens: Seq<nat>, i: int)
    requires
        0 <= i <= lens.len(),
    ensures
        tokens_estimate(lens.take(i)) <= tokens_estimate(lens),
    decreases lens.len() - i,
{
    if i < lens.len() {
        lemma_tokens_monotone(lens, i + 1);
        assert(lens.take(i + 1).drop_last() =~= lens.take(i));
    } else {
        assert(lens.take(i) =~= lens);
    }
}

/// The number of tokens a request of `texts` is taken to use. The sum is kept in 32 bits.
pub fn estimate_tokens(texts: &Vec<String>) -> (n: u32)
    requires
        tokens_estimate(utf8_lens(texts@)) <= u32::MAX,
    ensures
        n == tokens_estimate(utf8_lens(texts@)),
{
    let mut n: u32 = 0;
    let mut i: usize = 0;
    while i < texts.len()
        invariant
            i <= texts@.len(),
            n == tokens_estimate(utf8_lens(texts@).take(i as int)),
            tokens_estimate(utf8_lens(texts@)) <= u32::MAX,
        decreases texts@.len() - i,
    {
        let text = texts[i].as_str();
        let len = text.as_bytes().len();
        proof {
            assert(text@ == texts@[i as int]@);
            assert(len == encode_utf8(text@).len());
            assert(utf8_lens(texts@)[i as int] == len);
            assert(utf8_lens(texts@).take(i + 1).last() == len);
            assert(utf8_lens(texts@).take(i + 1).drop_last() =~= utf8_lens(texts@).take(i as int));
            lemma_tokens_monotone(utf8_lens(texts@), i + 1);
        }
        n = n + ((len / 4) as u32);
        i = i + 1;
    }
    assert(utf8_lens(texts@).take(i as int) =~= utf8_lens(texts@));
    n
}

/// Which reranking model a service runs.
#[derive(Debug, Clone, Copy, PartialEq, Eq, Structural)]
pub enum RerankerModel {
    Real,
    Mock,
}

/// The reranking service: the real model when it loaded, else the mock one, over at most
/// 64 documents per request.
#[derive(Debug, Clone, Copy, PartialEq, Eq, Structural)]
pub struct RerankerService {
    pub model: RerankerModel,
    pub max_documents: usize,
}

/// One reranked document.
#[derive(Debug, Clone)]
pub struct RerankHit<S> {
    pub index: usize,
    pub score: S,
    pub document: String,
}

impl RerankerService {
    /// A service over the real model when it loaded, else over the mock model.
    pub fn new(real_model_loaded: bool) -> (s: Self)
        ensures
            s.model == (if real_model_loaded { RerankerModel::Real } else { RerankerModel::Mock }),
            s.max_documents == 64,
    {
        RerankerService {
            model: if real_model_loaded { RerankerModel::Real } else { RerankerModel::Mock },
            max_documents: 64,
        }
    }

    /// The documents a request hands to the model: the first `max_documents` of them.
    pub fn documents_to_process(&self, documents: &Vec<String>) -> (r: Vec<String>)
        ensures
            word_views(r@) == word_views(documents@).take(
                if documents@.len() > self.max_documents { self.max_documents as int } else { documents@.len() as int },
            ),
    {
        let n = if documents.len() > self.max_documents { self.max_documents } else { documents.len() };
        let mut r: Vec<String> = Vec::new();
        let mut i: usize = 0;
        while i < n
            invariant
                i <= n,
                n <= documents@.len(),
                word_views(r@) == word_views(documents@).take(i as int),
            decreases n - i,
        {
            let d = documents[i].clone();
            let ghost before = r@;
            r.push(d);
            assert(r@ == before.push(documents@[i as int]));
            assert(word_views(r@) =~= word_views(before).push(documents@[i as int]@));
            assert(word_views(documents@).take(i + 1) =~= word_views(documents@).take(i as int).push(documents@[i as int]@));
            i = i + 1;
        }
        r
    }

    /// The hits of a reranking: each scored position with its document.
    pub fn hits<S: Copy>(&self, scored: &Vec<(usize, S)>, documents: &Vec<String>) -> (r: Vec<RerankHit<S>>)
        requires
            forall|k: int| 0 <= k < scored@.len() ==> (#[trigger] scored@[k]).0 < documents@.len(),
        ensures
            r@.len() == scored@.len(),
            forall|k: int| 0 <= k < r@.len() ==> (#[trigger] r@[k]).index == scored@[k].0 && r@[k].score == scored@[k].1
                && r@[k].document@ == documents@[scored@[k].0 as int]@,
    {
        let mut r: Vec<RerankHit<S>> = Vec::new();
        let mut k: usize = 0;
        while k < scored.len()
            invariant
                k <= scored@.len(),
                r@.len() == k,
                forall|k: int| 0 <= k < scored@.len() ==> (#[trigger] scored@[k]).0 < documents@.len(),
                forall|j: int| 0 <= j < k ==> (#[trigger] r@[j]).index == scored@[j].0 && r@[j].score == scored@[j].1
                    && r@[j].document@ == documents@[scored@[j].0 as int]@,
            decreases scored@.len() - k,
        {
            let (index, score) = scored[k];
            let document = documents[index].clone();
            r.push(RerankHit { index, score, document });
            k = k + 1;
        }
        r
    }
}

} // verus!
