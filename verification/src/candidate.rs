//! Candidates of a retrieval and the scores that a re-ranking sends for them.

use vstd::prelude::*;
use crate::score::Score;

verus! {

/// A retrieved candidate with the score it currently has.
#[derive(Clone, Debug, PartialEq, Eq)]
pub struct ScoredCandidate {
    /// The candidate's place in the list that retrieval returned.
    pub index: usize,
    /// The text that is scored against the query.
    pub content: String,
    pub score: Score,
}

/// One entry of a re-ranking response: a new score for the candidate at a
/// position of the request.
#[derive(Clone, Copy, Debug, PartialEq, Eq)]
pub struct ScorePair {
    pub index: usize,
    pub score: Score,
}

/// The candidate with another score.
pub open spec fn with_score(candidate: ScoredCandidate, score: Score) -> ScoredCandidate {
    ScoredCandidate { index: candidate.index, content: candidate.content, score }
}

} // verus!
