//! The bookkeeping side of a word's learning state: when it was last reviewed,
//! how often, and whether the user set it aside. The two running averages of
//! the scores are floating-point and are kept by the caller.
use vstd::prelude::*;

verus! {

/// The plain part of a word's learning state.
#[derive(Clone, Copy, Debug, PartialEq, Eq, Structural)]
pub struct ReviewProgress {
    pub word_id: i64,
    pub last_reviewed_at: i64,
    pub review_count: i64,
    pub is_ignored: bool,
}

/// The state that an optional reference points to.
pub open spec fn copied(o: Option<&ReviewProgress>) -> Option<ReviewProgress> {
    match o {
        Some(s) => Some(*s),
        None => None,
    }
}

/// The state after a review of `word_id` at time `now`: a first review starts
/// a fresh, not ignored state; a later one counts one more review and keeps
/// the ignored flag.
pub open spec fn reviewed(current: Option<ReviewProgress>, word_id: i64, now: i64) -> ReviewProgress {
    match current {
        Some(s) => ReviewProgress {
            word_id,
            last_reviewed_at: now,
            review_count: (s.review_count + 1) as i64,
            is_ignored: s.is_ignored,
        },
        None => ReviewProgress { word_id, last_reviewed_at: now, review_count: 1, is_ignored: false },
    }
}

/// The bookkeeping of `update_learning_state`: what a review at
/// `current_timestamp` makes of the current state of `word_id`.
pub fn record_review(current: Option<&ReviewProgress>, word_id: i64, current_timestamp: i64) -> (next:
    ReviewProgress)
    requires
        current matches Some(s) ==> s.review_count < i64::MAX,
    ensures
        next == reviewed(copied(current), word_id, current_timestamp),
{
    match current {
        Some(s) => ReviewProgress {
            word_id,
            last_reviewed_at: current_timestamp,
            review_count: s.review_count + 1,
            is_ignored: s.is_ignored,
        },
        None => ReviewProgress {
            word_id,
            last_reviewed_at: current_timestamp,
            review_count: 1,
            is_ignored: false,
        },
    }
}

/// Each review counts exactly once and sets the review time; reviewing never
/// changes whether the word is ignored, and a word's first review leaves it
/// not ignored.
pub proof fn lemma_review_counts_once(current: Option<ReviewProgress>, word_id: i64, now: i64)
    requires
        current matches Some(s) ==> 0 <= s.review_count < i64::MAX,
    ensures
        reviewed(current, word_id, now).review_count == match current {
            Some(s) => s.review_count + 1,
            None => 1,
        },
        reviewed(current, word_id, now).review_count >= 1,
        reviewed(current, word_id, now).last_reviewed_at == now,
        reviewed(current, word_id, now).word_id == word_id,
        reviewed(current, word_id, now).is_ignored == match current {
            Some(s) => s.is_ignored,
            None => false,
        },
{
}

/// Which weighting formula a word gets when cards are drawn.
#[derive(Clone, Copy, Debug, PartialEq, Eq, Structural)]
pub enum WeightBasis {
    /// Reviewed and not ignored: weighted by its scores and by the seconds
    /// since its last review (never negative).
    Learned { elapsed_secs: i64 },
    /// Ignored: weight zero.
    Ignored,
    /// No state, or never reviewed: the weight for new words.
    Unlearned,
}

/// Whether a state counts as learned: reviewed at least once and not ignored.
pub open spec fn is_learned(s: ReviewProgress) -> bool {
    s.review_count > 0 && !s.is_ignored
}

/// The formula `calculate_weight` applies to `state` at time `now`.
pub open spec fn weight_basis_of(state: Option<ReviewProgress>, now: i64) -> WeightBasis {
    match state {
        Some(s) => if is_learned(s) {
            let d = now - s.last_reviewed_at;
            WeightBasis::Learned { elapsed_secs: if d < 0 { 0 } else { d as i64 } }
        } else if s.is_ignored {
            WeightBasis::Ignored
        } else {
            WeightBasis::Unlearned
        },
        None => WeightBasis::Unlearned,
    }
}

/// The branch `calculate_weight` takes for `state` at `current_timestamp`, with
/// the elapsed time it uses.
pub fn weight_basis(state: Option<&ReviewProgress>, current_timestamp: i64) -> (basis: WeightBasis)
    requires
        state matches Some(s) ==> (is_learned(*s) ==> i64::MIN <= current_timestamp
            - s.last_reviewed_at <= i64::MAX),
    ensures
        basis == weight_basis_of(copied(state), current_timestamp),
{
    match state {
        Some(s) => {
            if s.review_count > 0 && !s.is_ignored {
                let d = current_timestamp - s.last_reviewed_at;
                WeightBasis::Learned { elapsed_secs: if d < 0 { 0 } else { d } }
            } else if s.is_ignored {
                WeightBasis::Ignored
            } else {
                WeightBasis::Unlearned
            }
        },
        None => WeightBasis::Unlearned,
    }
}

/// An ignored word always gets weight zero, whatever its history; a word
/// that is not ignored never does; a learned word's elapsed time is never
/// negative.
pub proof fn lemma_ignored_words_weigh_nothing(state: ReviewProgress, now: i64)
    requires
        is_learned(state) ==> i64::MIN <= now - state.last_reviewed_at <= i64::MAX,
    ensures
        state.is_ignored <==> weight_basis_of(Some(state), now) == WeightBasis::Ignored,
        weight_basis_of(Some(state), now) matches WeightBasis::Learned { elapsed_secs } ==> elapsed_secs
            >= 0,
        weight_basis_of(None, now) == WeightBasis::Unlearned,
{
}

/// A word just reviewed and not ignored is weighed as learned, with no time
/// elapsed yet; an ignored word stays at weight zero after a review.
pub proof fn lemma_review_then_weigh(current: Option<ReviewProgress>, word_id: i64, now: i64)
    requires
        current matches Some(s) ==> 0 <= s.review_count < i64::MAX,
    ensures
        !reviewed(current, word_id, now).is_ignored ==> weight_basis_of(
            Some(reviewed(current, word_id, now)),
            now,
        ) == (WeightBasis::Learned { elapsed_secs: 0 }),
        reviewed(current, word_id, now).is_ignored ==> weight_basis_of(
            Some(reviewed(current, word_id, now)),
            now,
        ) == WeightBasis::Ignored,
{
}


/// A learned word's elapsed time is the time since its last review, for
/// every time of weighing (zero only if that time lies before the review):
/// it grows without bound as the review recedes.
pub proof fn lemma_learned_elapsed_is_time_since_review(state: ReviewProgress, now: i64)
    requires
        is_learned(state),
        i64::MIN <= now - state.last_reviewed_at <= i64::MAX,
    ensures
        weight_basis_of(Some(state), now) matches WeightBasis::Learned { elapsed_secs } && (
        now >= state.last_reviewed_at ==> state.last_reviewed_at + elapsed_secs == now) && (now
            < state.last_reviewed_at ==> elapsed_secs == 0),
{
}


/// A state that was never reviewed and is not ignored, or no state at all,
/// gets the weight of a new word.
pub proof fn lemma_unreviewed_words_weigh_as_new(state: ReviewProgress, now: i64)
    requires
        state.review_count <= 0,
        !state.is_ignored,
    ensures
        weight_basis_of(Some(state), now) == WeightBasis::Unlearned,
        weight_basis_of(None, now) == WeightBasis::Unlearned,
{
}

} // verus!
