//! Fuzzy scores of candidate labels against what the user has typed.

use crate::text::{same_ignoring_case, texts};
use fuzzy_matcher::skim::SkimMatcherV2;
use fuzzy_matcher::FuzzyMatcher;
use vstd::prelude::*;

verus! {

/// The score that the skim matcher, as it is configured by default, gives
/// the text `choice` for the pattern `pattern`; `None` where the pattern
/// does not match.
pub uninterp spec fn skim_score(choice: Seq<char>, pattern: Seq<char>) -> Option<i64>;

/// The longest query, in characters, that is handed to the matcher. The
/// matcher sums its scores in 32 bits, and each character of the query adds
/// at most 32 to a sum: up to this length no sum passes a quarter of what
/// 32 bits hold.
pub const MATCH_LIMIT: usize = 16_777_216;

/// Whether `text` holds an ASCII upper-case letter.
pub open spec fn has_upper(text: Seq<char>) -> bool {
    exists|i: int| 0 <= i < text.len() && 'A' <= (#[trigger] text[i]) <= 'Z'
}

/// Whether `query` spells the whole of `label`, as the matcher compares
/// characters: a query with an upper-case letter is compared exactly, any
/// other query up to the case of ASCII letters.
pub open spec fn spells(label: Seq<char>, query: Seq<char>) -> bool {
    if has_upper(query) {
        label == query
    } else {
        same_ignoring_case(label, query)
    }
}

/// Calls `SkimMatcherV2::default().fuzzy_match` of the `fuzzy-matcher`
/// crate. Trusted: the result depends on `choice` and `pattern` alone; and
/// a pattern that spells the whole choice matches, since the matcher gives
/// a score whenever it finds the pattern's characters in the choice in
/// order, comparing them as `spells` does. The bound on the pattern's
/// length keeps the matcher's score arithmetic in range.
#[verifier::external_body]
fn skim_match(choice: &str, pattern: &str) -> (score: Option<i64>)
    requires
        pattern@.len() <= MATCH_LIMIT,
    ensures
        score == skim_score(choice@, pattern@),
        spells(choice@, pattern@) ==> score is Some,
{
    SkimMatcherV2::default().fuzzy_match(choice, pattern)
}

/// The score of the candidate `label` for `query`: the matcher's, for a
/// query within `MATCH_LIMIT`; a longer query matches nothing.
pub open spec fn candidate_score(label: Seq<char>, query: Seq<char>) -> Option<i64> {
    if query.len() <= MATCH_LIMIT {
        skim_score(label, query)
    } else {
        None
    }
}

/// The scores of all `labels` for `query`, in the order of the labels.
pub open spec fn candidate_scores(labels: Seq<Seq<char>>, query: Seq<char>) -> Seq<Option<i64>> {
    Seq::new(labels.len(), |i: int| candidate_score(labels[i], query))
}

/// Scores one candidate. A query within `MATCH_LIMIT` that spells the whole
/// label gets a score.
pub fn score_candidate(label: &str, query: &str) -> (score: Option<i64>)
    ensures
        score == candidate_score(label@, query@),
        query@.len() <= MATCH_LIMIT && spells(label@, query@) ==> score is Some,
{
    if query.unicode_len() <= MATCH_LIMIT {
        skim_match(label, query)
    } else {
        None
    }
}

/// Scores every candidate. A query within `MATCH_LIMIT` gives a score to
/// each label that it spells in whole.
pub fn score_candidates(candidates: &Vec<String>, query: &str) -> (scores: Vec<Option<i64>>)
    ensures
        scores@ == candidate_scores(texts(candidates@), query@),
        forall|i: int|
            0 <= i < candidates@.len() && query@.len() <= MATCH_LIMIT && spells(
                candidates@[i]@,
                query@,
            ) ==> (#[trigger] scores@[i]) is Some,
{
    let mut scores: Vec<Option<i64>> = Vec::new();
    let mut i: usize = 0;
    while i < candidates.len()
        invariant
            i <= candidates.len(),
            scores@.len() == i,
            forall|j: int|
                0 <= j < i ==> (#[trigger] scores@[j]) == candidate_score(candidates@[j]@, query@),
            forall|j: int|
                0 <= j < i && query@.len() <= MATCH_LIMIT && spells(candidates@[j]@, query@)
                    ==> (#[trigger] scores@[j]) is Some,
        decreases candidates.len() - i,
    {
        scores.push(score_candidate(candidates[i].as_str(), query));
        i += 1;
    }
    assert(scores@ =~= candidate_scores(texts(candidates@), query@));
    scores
}

} // verus!
