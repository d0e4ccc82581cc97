//! Scores of candidates against a query, from the skim fuzzy matcher.

use fuzzy_matcher::skim::SkimMatcherV2;
use fuzzy_matcher::FuzzyMatcher;
use vstd::prelude::*;

use crate::lines::texts;

verus! {

/// What the skim matcher in its default configuration makes of `choice` for
/// `pattern`: a score, higher for a better match, or `None` where the pattern
/// does not match at all.
pub uninterp spec fn skim_score(choice: Seq<char>, pattern: Seq<char>) -> Option<i64>;

/// Calls `fuzzy_match` of `fuzzy_matcher::FuzzyMatcher` on a
/// `fuzzy_matcher::skim::SkimMatcherV2` that `default` made for this one call.
/// Such a matcher computes its answer from the two texts alone, so the answer
/// has the name `skim_score`; and it answers an empty pattern with the score 0
/// before it looks at the choice. Nothing else is claimed of the score.
#[verifier::external_body]
fn fuzzy_score(choice: &str, pattern: &str) -> (score: Option<i64>)
    ensures
        score == skim_score(choice@, pattern@),
        pattern@.len() == 0 ==> score == Some(0i64),
{
    SkimMatcherV2::default().fuzzy_match(choice, pattern)
}

/// The scores of a list's candidates against `query`, in the order of the list.
pub open spec fn scores_of(candidates: Seq<Seq<char>>, query: Seq<char>) -> Seq<Option<i64>> {
    Seq::new(candidates.len(), |i: int| skim_score(candidates[i], query))
}

/// Scores every candidate of a list against `query`.
pub fn score_candidates(candidates: &Vec<String>, query: &str) -> (scores: Vec<Option<i64>>)
    ensures
        scores@ == scores_of(texts(candidates@), query@),
        query@.len() == 0 ==> forall|i: int| 0 <= i < scores.len() ==> scores[i] == Some(0i64),
{
    let mut scores: Vec<Option<i64>> = Vec::new();
    let mut i: usize = 0;
    while i < candidates.len()
        invariant
            i <= candidates.len(),
            scores.len() == i,
            forall|k: int| 0 <= k < i ==> scores[k] == skim_score(#[trigger] candidates[k]@, query@),
            query@.len() == 0 ==> forall|k: int| 0 <= k < i ==> scores[k] == Some(0i64),
        decreases candidates.len() - i,
    {
        let score = fuzzy_score(candidates[i].as_str(), query);
        scores.push(score);
        i += 1;
    }
    scores
}

} // verus!
