//! Fusing the scores of a cross-encoder into a candidate list.

use vstd::prelude::*;
use crate::candidate::{with_score, ScorePair, ScoredCandidate};
use crate::error::{ServiceError, ServiceErrorView};
use crate::ranking::{
    descending, lemma_ranked_descending, lemma_ranked_len, rank_candidates, rank_of, ranked,
};
use crate::resolver::{preferred_origin, resolve, Purpose, ServiceSettings};
use crate::score::Score;
use crate::transport::{
    api_key, bearer_of, failed_call, json_content_type, json_post, request_failure,
    required_api_key, JsonPost, Reply,
};

verus! {

/// An older shape of a re-ranking response: each document with its score.
#[derive(Clone, Debug, PartialEq, Eq)]
pub struct ReRankResponse {
    pub docs: Vec<(String, Score)>,
}

/// The body of a re-ranking request.
#[derive(Clone, Debug, PartialEq, Eq)]
pub struct CrossEncoderData {
    pub query: String,
    /// The candidates' texts, in the candidates' order.
    pub texts: Vec<String>,
    /// Whether the service may cut a text that is too long for it.
    pub truncate: bool,
}

/// A re-ranking that waits for the service's reply.
#[derive(Clone, Debug, PartialEq, Eq)]
pub struct PendingRerank {
    pub results: Vec<ScoredCandidate>,
    pub page_size: u64,
}

/// What re-ranking does next.
#[derive(Clone, Debug, PartialEq, Eq)]
pub enum RerankStep {
    /// Nothing is sent: this is the result.
    Done(Vec<ScoredCandidate>),
    /// The request is to be posted, and its reply handed to
    /// [`finish_cross_encoder`] together with the pending state.
    Send(JsonPost<CrossEncoderData>, PendingRerank),
}

/// The score that position `at` holds once `pairs` have been applied in
/// order: that of the last pair that names the position, or `given` where
/// none does.
pub open spec fn fused_score(pairs: Seq<ScorePair>, at: int, given: Score) -> Score
    decreases pairs.len(),
{
    if pairs.len() == 0 {
        given
    } else if pairs.last().index == at {
        pairs.last().score
    } else {
        fused_score(pairs.drop_last(), at, given)
    }
}

/// The candidates, in their order, each with its fused score.
pub open spec fn fused(candidates: Seq<ScoredCandidate>, pairs: Seq<ScorePair>) -> Seq<
    ScoredCandidate,
> {
    Seq::new(
        candidates.len(),
        |i: int| with_score(candidates[i], fused_score(pairs, i, candidates[i].score)),
    )
}

/// Every pair names a position of a list of `len` candidates.
pub open spec fn addresses(pairs: Seq<ScorePair>, len: nat) -> bool {
    forall|k: int| 0 <= k < pairs.len() ==> (#[trigger] pairs[k]).index < len
}

proof fn lemma_fused_step(candidates: Seq<ScoredCandidate>, pairs: Seq<ScorePair>, k: int)
    requires
        0 <= k < pairs.len(),
        pairs[k].index < candidates.len(),
    ensures
        fused(candidates, pairs.take(k + 1)) == fused(candidates, pairs.take(k)).update(
            pairs[k].index as int,
            with_score(fused(candidates, pairs.take(k))[pairs[k].index as int], pairs[k].score),
        ),
{
    let before = pairs.take(k);
    let after = pairs.take(k + 1);
    assert(after.drop_last() == before);
    assert(after.last() == pairs[k]);
    assert(fused(candidates, after) =~= fused(candidates, before).update(
        pairs[k].index as int,
        with_score(fused(candidates, before)[pairs[k].index as int], pairs[k].score),
    ));
}

/// Writes each pair's score onto the candidate at the pair's position, in the
/// order of the pairs.
pub fn overwrite_scores(results: &mut Vec<ScoredCandidate>, pairs: &Vec<ScorePair>)
    requires
        addresses(pairs@, old(results)@.len()),
    ensures
        final(results)@ == fused(old(results)@, pairs@),
{
    let mut k: usize = 0;
    assert(pairs@.take(0) == Seq::<ScorePair>::empty());
    assert(results@ =~= fused(results@, pairs@.take(0)));
    while k < pairs.len()
        invariant
            k <= pairs.len(),
            addresses(pairs@, old(results)@.len()),
            results@ == fused(old(results)@, pairs@.take(k as int)),
        decreases pairs.len() - k,
    {
        let pair = pairs[k];
        proof {
            lemma_fused_step(old(results)@, pairs@, k as int);
        }
        results[pair.index].score = pair.score;
        k += 1;
    }
    assert(pairs@.take(pairs.len() as int) == pairs@);
}

/// The texts of the candidates, in their order.
pub open spec fn contents(candidates: Seq<ScoredCandidate>) -> Seq<String> {
    candidates.map_values(|c: ScoredCandidate| c.content)
}

/// The number of candidates on a page: the page size, or all of them where
/// they are fewer.
pub open spec fn page_len(page_size: u64, available: nat) -> nat {
    if page_size < available {
        page_size as nat
    } else {
        available
    }
}

/// The first page of the candidates once `pairs` have been fused into them
/// and they have been ranked.
pub open spec fn reranked(
    candidates: Seq<ScoredCandidate>,
    pairs: Seq<ScorePair>,
    page_size: u64,
) -> Seq<ScoredCandidate> {
    ranked(fused(candidates, pairs)).take(page_len(page_size, candidates.len()) as int)
}

/// Whether fusing `pairs` into `candidates` orders numbers only: every pair
/// names a candidate and, where there is anything to order, every fused
/// score is a number.
pub open spec fn fusable(candidates: Seq<ScoredCandidate>, pairs: Seq<ScorePair>) -> bool {
    &&& addresses(pairs, candidates.len())
    &&& candidates.len() >= 2 ==> forall|i: int|
        0 <= i < candidates.len() ==> !(#[trigger] fused(candidates, pairs)[i]).score.spec_is_nan()
}

/// Some pair names position `at`.
pub open spec fn names(pairs: Seq<ScorePair>, at: int) -> bool {
    exists|k: int| 0 <= k < pairs.len() && (#[trigger] pairs[k]).index == at
}

/// The pairs name every position of a list of `len` candidates, each once.
pub open spec fn covers_once(pairs: Seq<ScorePair>, len: nat) -> bool {
    &&& addresses(pairs, len)
    &&& forall|at: int| 0 <= at < len ==> #[trigger] names(pairs, at)
    &&& forall|j: int, k: int|
        0 <= j < k < pairs.len() ==> (#[trigger] pairs[j]).index != (#[trigger] pairs[k]).index
}

/// Whatever the reply holds, the page is in descending order of rank and has
/// as many candidates as the page size allows: all of them where the page
/// size is not less than their number.
pub proof fn lemma_reranked_page(
    candidates: Seq<ScoredCandidate>,
    pairs: Seq<ScorePair>,
    page_size: u64,
)
    ensures
        descending(reranked(candidates, pairs, page_size)),
        reranked(candidates, pairs, page_size).len() == page_len(page_size, candidates.len()),
{
    let all = ranked(fused(candidates, pairs));
    let page = reranked(candidates, pairs, page_size);
    lemma_ranked_len(fused(candidates, pairs));
    lemma_ranked_descending(fused(candidates, pairs));
    assert forall|i: int, j: int| 0 <= i < j < page.len() implies rank_of(#[trigger] page[i])
        >= rank_of(#[trigger] page[j]) by {
        assert(page[i] == all[i] && page[j] == all[j]);
    }
}

/// Where a pair is the last to name its position, the position holds the
/// pair's score after the fusion.
pub proof fn lemma_last_pair_decides(pairs: Seq<ScorePair>, k: int, given: Score)
    requires
        0 <= k < pairs.len(),
        forall|j: int| k < j < pairs.len() ==> (#[trigger] pairs[j]).index != pairs[k].index,
    ensures
        fused_score(pairs, pairs[k].index as int, given) == pairs[k].score,
    decreases pairs.len(),
{
    if k < pairs.len() - 1 {
        assert(pairs.drop_last()[k] == pairs[k]);
        assert forall|j: int| k < j < pairs.drop_last().len() implies (
        #[trigger] pairs.drop_last()[j]).index != pairs.drop_last()[k].index by {
            assert(pairs.drop_last()[j] == pairs[j]);
        }
        lemma_last_pair_decides(pairs.drop_last(), k, given);
    }
}

/// A reply that names every candidate once decides every score: after the
/// fusion the candidate at any position holds the score of the pair that
/// names the position, and nothing else about it has changed.
pub proof fn lemma_covering_reply_decides(
    candidates: Seq<ScoredCandidate>,
    pairs: Seq<ScorePair>,
    at: int,
)
    requires
        covers_once(pairs, candidates.len()),
        0 <= at < candidates.len(),
    ensures
        exists|k: int|
            0 <= k < pairs.len() && (#[trigger] pairs[k]).index == at && fused(
                candidates,
                pairs,
            )[at] == with_score(candidates[at], pairs[k].score),
{
    assert(names(pairs, at));
    let k = choose|k: int| 0 <= k < pairs.len() && (#[trigger] pairs[k]).index == at;
    lemma_last_pair_decides(pairs, k, candidates[at].score);
}

/// Whether every pair names a position of a list of `len` candidates.
pub fn pairs_address(pairs: &Vec<ScorePair>, len: usize) -> (ok: bool)
    ensures
        ok == addresses(pairs@, len as nat),
{
    let mut k: usize = 0;
    while k < pairs.len()
        invariant
            k <= pairs.len(),
            forall|j: int| 0 <= j < k ==> (#[trigger] pairs@[j]).index < len,
        decreases pairs.len() - k,
    {
        if pairs[k].index >= len {
            return false;
        }
        k += 1;
    }
    true
}

/// Whether fusing `pairs` into `results` orders numbers only. A caller for
/// whom a score that is no number is a fault tests this before it fuses.
pub fn is_fusable(results: &Vec<ScoredCandidate>, pairs: &Vec<ScorePair>) -> (ok: bool)
    ensures
        ok == fusable(results@, pairs@),
{
    if !pairs_address(pairs, results.len()) {
        return false;
    }
    if results.len() < 2 {
        return true;
    }
    let mut i: usize = 0;
    while i < results.len()
        invariant
            i <= results.len(),
            results@.len() >= 2,
            addresses(pairs@, results@.len()),
            forall|j: int|
                0 <= j < i ==> !(#[trigger] fused(results@, pairs@)[j]).score.spec_is_nan(),
        decreases results.len() - i,
    {
        let score = score_after(pairs, i, results[i].score);
        assert(fused(results@, pairs@)[i as int].score == score);
        if score.is_nan() {
            return false;
        }
        i += 1;
    }
    true
}

/// The score that position `at` holds once `pairs` have been applied.
pub fn score_after(pairs: &Vec<ScorePair>, at: usize, given: Score) -> (score: Score)
    ensures
        score == fused_score(pairs@, at as int, given),
{
    let mut k: usize = pairs.len();
    assert(pairs@.take(k as int) == pairs@);
    while k > 0
        invariant
            k <= pairs.len(),
            fused_score(pairs@, at as int, given) == fused_score(
                pairs@.take(k as int),
                at as int,
                given,
            ),
        decreases k,
    {
        proof {
            assert(pairs@.take(k as int).drop_last() == pairs@.take(k - 1));
        }
        if pairs[k - 1].index == at {
            return pairs[k - 1].score;
        }
        k -= 1;
    }
    given
}

/// Fuses the scores of `pairs` into `results`, ranks the candidates and
/// keeps the first page. Every pair has to name a candidate.
pub fn fuse(results: Vec<ScoredCandidate>, pairs: &Vec<ScorePair>, page_size: u64) -> (page: Vec<
    ScoredCandidate,
>)
    requires
        addresses(pairs@, results@.len()),
    ensures
        page@ == reranked(results@, pairs@, page_size),
        page@.len() == page_len(page_size, results@.len()),
        descending(page@),
{
    proof {
        lemma_reranked_page(results@, pairs@, page_size);
    }
    let mut results = results;
    let ghost given = results@;
    overwrite_scores(&mut results, pairs);
    rank_candidates(&mut results);
    proof {
        lemma_ranked_len(fused(given, pairs@));
    }
    if page_size < results.len() as u64 {
        results.truncate(page_size as usize);
    } else {
        assert(results@.take(results@.len() as int) == results@);
    }
    results
}

/// The first step of re-ranking `results` against `query`. For an empty list
/// nothing is sent and no setting is looked at: the empty list is the
/// result. Otherwise the step holds the request for the re-ranking service:
/// the query and the candidates' texts, in their order.
pub fn cross_encoder(
    query: String,
    page_size: u64,
    results: Vec<ScoredCandidate>,
    settings: &ServiceSettings,
) -> (step: Result<RerankStep, ServiceError>)
    ensures
        results@.len() == 0 ==> (step matches Ok(RerankStep::Done(page)) && page@.len() == 0),
        results@.len() > 0 ==> match preferred_origin(
            settings@.reranker_server_origin,
            settings@.gpu_server_origin,
        ) {
            Err(missing) => step is Err && step->Err_0@ == missing,
            Ok(origin) => match required_api_key(settings@) {
                Err(missing) => step is Err && step->Err_0@ == missing,
                Ok(key) => {
                    &&& step matches Ok(RerankStep::Send(post, pending))
                    &&& post.url@ == origin + "/rerank"@
                    &&& post.content_type@ == json_content_type()
                    &&& post.authorization@ == bearer_of(key)
                    &&& post.body.query == query
                    &&& post.body.texts@ == contents(results@)
                    &&& post.body.truncate
                    &&& pending.results == results
                    &&& pending.page_size == page_size
                },
            },
        },
{
    if results.len() == 0 {
        return Ok(RerankStep::Done(results));
    }
    let origin = match resolve(Purpose::Rerank, "", settings) {
        Ok(origin) => origin,
        Err(missing) => {
            return Err(missing);
        },
    };
    let mut texts: Vec<String> = Vec::new();
    let mut i: usize = 0;
    while i < results.len()
        invariant
            i <= results.len(),
            texts@ == contents(results@).take(i as int),
        decreases results.len() - i,
    {
        texts.push(results[i].content.clone());
        proof {
            assert(texts@ =~= contents(results@).take(i + 1));
        }
        i += 1;
    }
    proof {
        assert(contents(results@).take(results@.len() as int) == contents(results@));
    }
    let key = match api_key(settings) {
        Ok(key) => key,
        Err(missing) => {
            return Err(missing);
        },
    };
    let body = CrossEncoderData { query, texts, truncate: true };
    let post = json_post(origin, "/rerank", key.as_str(), body);
    Ok(RerankStep::Send(post, PendingRerank { results, page_size }))
}

/// The last step of re-ranking: reads the service's reply. A reply that
/// could not be had or read fails the whole operation; the candidates as
/// they stood are never returned in its place. Every pair of a reply that
/// was read has to name a candidate.
pub fn finish_cross_encoder(pending: PendingRerank, reply: Reply<Vec<ScorePair>>) -> (page: Result<
    Vec<ScoredCandidate>,
    ServiceError,
>)
    requires
        reply matches Reply::Parsed(pairs) ==> addresses(pairs@, pending.results@.len()),
    ensures
        match reply {
            Reply::Failed(upstream) => page is Err && page->Err_0@
                == ServiceErrorView::RequestFailure(failed_call(upstream@)),
            Reply::Unreadable => page is Err && page->Err_0@ == ServiceErrorView::ParseFailure,
            Reply::Parsed(pairs) => {
                &&& page is Ok
                &&& page->Ok_0@ == reranked(pending.results@, pairs@, pending.page_size)
                &&& page->Ok_0@.len() == page_len(pending.page_size, pending.results@.len())
                &&& descending(page->Ok_0@)
            },
        },
{
    match reply {
        Reply::Failed(upstream) => Err(request_failure(upstream.as_str())),
        Reply::Unreadable => Err(ServiceError::ParseFailure),
        Reply::Parsed(pairs) => Ok(fuse(pending.results, &pairs, pending.page_size)),
    }
}

} // verus!
