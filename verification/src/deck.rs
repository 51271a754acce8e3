//! The plan of a flashcard deck: how many review and new cards it holds, which
//! words are review candidates, and which words the search for new ones
//! leaves out.
use vstd::prelude::*;
use crate::progress::{ReviewProgress, is_learned};

verus! {

/// Fewest new-word candidates fetched for the weighted draw.
pub const NEW_POOL_MIN: usize = 50;

/// How many new-word candidates are fetched per new card wanted.
pub const NEW_POOL_MULTIPLIER: usize = 10;

/// A word the user has met: reviewed at least once, or set aside.
pub open spec fn is_seen(s: ReviewProgress) -> bool {
    s.review_count > 0 || s.is_ignored
}

/// The ids of the learned states (reviewed and not ignored), in order.
pub open spec fn due_ids(states: Seq<ReviewProgress>) -> Seq<i64>
    decreases states.len(),
{
    if states.len() == 0 {
        Seq::empty()
    } else {
        let rest = due_ids(states.drop_last());
        if is_learned(states.last()) {
            rest.push(states.last().word_id)
        } else {
            rest
        }
    }
}

/// The ids of the states of words the user has met, in order.
pub open spec fn seen_ids(states: Seq<ReviewProgress>) -> Seq<i64>
    decreases states.len(),
{
    if states.len() == 0 {
        Seq::empty()
    } else {
        let rest = seen_ids(states.drop_last());
        if is_seen(states.last()) {
            rest.push(states.last().word_id)
        } else {
            rest
        }
    }
}

/// The size of the pool of new-word candidates for `new_target` new cards.
pub open spec fn pool_size_for(new_target: nat) -> nat {
    let p = new_target * 10;
    if p < 50 {
        50
    } else {
        p
    }
}

/// The query for new cards: which words it leaves out, and how many
/// candidates it fetches.
pub struct NewPool {
    pub exclude_ids: Vec<i64>,
    pub pool_size: usize,
}

/// What `get_flashcard_deck` asks of the databases, given how many of its
/// cards are review cards.
pub struct DeckPlan {
    pub review_target: usize,
    pub new_target: usize,
    /// The words to fetch as review candidates; `None` when no review card is
    /// wanted or no word qualifies.
    pub review_ids: Option<Vec<i64>>,
    /// `None` when no new card is wanted.
    pub new_pool: Option<NewPool>,
}

/// The view of a [`DeckPlan`].
pub struct DeckPlanView {
    pub review_target: nat,
    pub new_target: nat,
    pub review_ids: Option<Seq<i64>>,
    pub new_pool: Option<(Seq<i64>, nat)>,
}

impl View for DeckPlan {
    type V = DeckPlanView;

    open spec fn view(&self) -> DeckPlanView {
        DeckPlanView {
            review_target: self.review_target as nat,
            new_target: self.new_target as nat,
            review_ids: match self.review_ids {
                Some(v) => Some(v@),
                None => None,
            },
            new_pool: match self.new_pool {
                Some(p) => Some((p.exclude_ids@, p.pool_size as nat)),
                None => None,
            },
        }
    }
}

/// The plan for a deck of `total_cards` cards of which `review_target` are
/// review cards, given the learning states of the user.
pub open spec fn planned(total_cards: nat, review_target: nat, states: Seq<ReviewProgress>) -> DeckPlanView {
    let new_target = (total_cards - review_target) as nat;
    DeckPlanView {
        review_target,
        new_target,
        review_ids: if review_target > 0 && due_ids(states).len() > 0 {
            Some(due_ids(states))
        } else {
            None
        },
        new_pool: if new_target > 0 {
            Some((seen_ids(states), pool_size_for(new_target)))
        } else {
            None
        },
    }
}

/// The ids of the learned states: the words that may come back as review
/// cards.
pub fn review_candidate_ids(states: &Vec<ReviewProgress>) -> (ids: Vec<i64>)
    ensures
        ids@ == due_ids(states@),
{
    let mut ids: Vec<i64> = Vec::new();
    let n = states.len();
    let mut i: usize = 0;
    while i < n
        invariant
            n == states@.len(),
            i <= n,
            ids@ == due_ids(states@.take(i as int)),
        decreases n - i,
    {
        let s = states[i];
        proof {
            assert(states@.take(i + 1).drop_last() =~= states@.take(i as int));
        }
        if s.review_count > 0 && !s.is_ignored {
            ids.push(s.word_id);
        }
        i = i + 1;
    }
    assert(states@.take(n as int) =~= states@);
    ids
}

/// The ids of the words the user has met: none of them is offered as a new
/// card.
pub fn seen_word_ids(states: &Vec<ReviewProgress>) -> (ids: Vec<i64>)
    ensures
        ids@ == seen_ids(states@),
{
    let mut ids: Vec<i64> = Vec::new();
    let n = states.len();
    let mut i: usize = 0;
    while i < n
        invariant
            n == states@.len(),
            i <= n,
            ids@ == seen_ids(states@.take(i as int)),
        decreases n - i,
    {
        let s = states[i];
        proof {
            assert(states@.take(i + 1).drop_last() =~= states@.take(i as int));
        }
        if s.review_count > 0 || s.is_ignored {
            ids.push(s.word_id);
        }
        i = i + 1;
    }
    assert(states@.take(n as int) =~= states@);
    ids
}

/// The number of new cards: the cards that are not review cards.
pub fn new_card_target(total_cards: u32, review_target: usize) -> (n: usize)
    requires
        review_target <= total_cards,
    ensures
        n == total_cards - review_target,
{
    total_cards as usize - review_target
}

/// How many new-word candidates are fetched: ten per new card, at least fifty.
pub fn new_pool_size(new_target: usize) -> (n: usize)
    requires
        new_target * 10 <= usize::MAX,
    ensures
        n == pool_size_for(new_target as nat),
{
    let p = new_target * NEW_POOL_MULTIPLIER;
    if p < NEW_POOL_MIN {
        NEW_POOL_MIN
    } else {
        p
    }
}

/// The decisions of `get_flashcard_deck` between reading the learning states
/// and drawing the cards.
pub fn plan_deck(total_cards: u32, review_target: usize, states: &Vec<ReviewProgress>) -> (plan:
    DeckPlan)
    requires
        review_target <= total_cards,
        (total_cards - review_target) * 10 <= usize::MAX,
    ensures
        plan@ == planned(total_cards as nat, review_target as nat, states@),
{
    let new_target = new_card_target(total_cards, review_target);
    let review_ids = if review_target > 0 {
        let ids = review_candidate_ids(states);
        if ids.len() > 0 {
            Some(ids)
        } else {
            None
        }
    } else {
        None
    };
    let new_pool = if new_target > 0 {
        Some(NewPool { exclude_ids: seen_word_ids(states), pool_size: new_pool_size(new_target) })
    } else {
        None
    };
    DeckPlan { review_target, new_target, review_ids, new_pool }
}

/// A word is a review candidate exactly when the user has a learned state for
/// it.
pub proof fn lemma_due_ids_are_learned_words(states: Seq<ReviewProgress>, id: i64)
    ensures
        due_ids(states).contains(id) <==> exists|i: int|
            0 <= i < states.len() && #[trigger] states[i].word_id == id && is_learned(states[i]),
    decreases states.len(),
{
    if states.len() > 0 {
        let init = states.drop_last();
        lemma_due_ids_are_learned_words(init, id);
        if exists|i: int| 0 <= i < init.len() && #[trigger] init[i].word_id == id && is_learned(init[i]) {
            let i = choose|i: int| 0 <= i < init.len() && #[trigger] init[i].word_id == id && is_learned(init[i]);
            assert(states[i] == init[i]);
        }
        if exists|i: int| 0 <= i < states.len() && #[trigger] states[i].word_id == id && is_learned(states[i]) {
            let i = choose|i: int| 0 <= i < states.len() && #[trigger] states[i].word_id == id && is_learned(states[i]);
            if i < states.len() - 1 {
                assert(init[i] == states[i]);
            }
        }
        let rest = due_ids(init);
        if is_learned(states.last()) {
            assert(rest.push(states.last().word_id).last() == states.last().word_id);
            assert forall|x: i64| rest.contains(x) implies rest.push(states.last().word_id).contains(x) by {
                let k = choose|k: int| 0 <= k < rest.len() && rest[k] == x;
                assert(rest.push(states.last().word_id)[k] == x);
            }
            assert forall|x: i64| rest.push(states.last().word_id).contains(x) implies (rest.contains(x)
                || x == states.last().word_id) by {
                let k = choose|k: int| 0 <= k < rest.len() + 1 && rest.push(states.last().word_id)[k] == x;
                if k < rest.len() {
                    assert(rest[k] == x);
                }
            }
        }
    }
}

/// A word is left out of the new cards exactly when the user has met it.
pub proof fn lemma_seen_ids_are_met_words(states: Seq<ReviewProgress>, id: i64)
    ensures
        seen_ids(states).contains(id) <==> exists|i: int|
            0 <= i < states.len() && #[trigger] states[i].word_id == id && is_seen(states[i]),
    decreases states.len(),
{
    if states.len() > 0 {
        let init = states.drop_last();
        lemma_seen_ids_are_met_words(init, id);
        if exists|i: int| 0 <= i < init.len() && #[trigger] init[i].word_id == id && is_seen(init[i]) {
            let i = choose|i: int| 0 <= i < init.len() && #[trigger] init[i].word_id == id && is_seen(init[i]);
            assert(states[i] == init[i]);
        }
        if exists|i: int| 0 <= i < states.len() && #[trigger] states[i].word_id == id && is_seen(states[i]) {
            let i = choose|i: int| 0 <= i < states.len() && #[trigger] states[i].word_id == id && is_seen(states[i]);
            if i < states.len() - 1 {
                assert(init[i] == states[i]);
            }
        }
        let rest = seen_ids(init);
        if is_seen(states.last()) {
            assert(rest.push(states.last().word_id).last() == states.last().word_id);
            assert forall|x: i64| rest.contains(x) implies rest.push(states.last().word_id).contains(x) by {
                let k = choose|k: int| 0 <= k < rest.len() && rest[k] == x;
                assert(rest.push(states.last().word_id)[k] == x);
            }
            assert forall|x: i64| rest.push(states.last().word_id).contains(x) implies (rest.contains(x)
                || x == states.last().word_id) by {
                let k = choose|k: int| 0 <= k < rest.len() + 1 && rest.push(states.last().word_id)[k] == x;
                if k < rest.len() {
                    assert(rest[k] == x);
                }
            }
        }
    }
}

/// The review and new cards add up to the deck; a word queued for review is
/// never among the new-card candidates; the new-card pool holds at least fifty
/// and at least ten per new card.
pub proof fn lemma_deck_plan_laws(total_cards: nat, review_target: nat, states: Seq<ReviewProgress>)
    requires
        review_target <= total_cards,
    ensures
        planned(total_cards, review_target, states).review_target + planned(
            total_cards,
            review_target,
            states,
        ).new_target == total_cards,
        planned(total_cards, review_target, states).review_ids matches Some(r) ==> (
        planned(total_cards, review_target, states).new_pool matches Some(p) ==> forall|id: i64|
            r.contains(id) ==> p.0.contains(id)),
        planned(total_cards, review_target, states).new_pool matches Some(p) ==> (p.1 >= 50 && p.1
            >= 10 * planned(total_cards, review_target, states).new_target),
{
    assert forall|id: i64| due_ids(states).contains(id) implies seen_ids(states).contains(id) by {
        lemma_due_ids_are_learned_words(states, id);
        lemma_seen_ids_are_met_words(states, id);
        let i = choose|i: int| 0 <= i < states.len() && #[trigger] states[i].word_id == id && is_learned(states[i]);
        assert(is_seen(states[i]));
    }
}


/// A deck plan queries for new cards exactly when it wants some: with a
/// positive number of new cards it always carries an exclusion list and a
/// pool size, whatever that number, and with none it carries no query.
pub proof fn lemma_new_cards_wanted_are_queried(total_cards: nat, review_target: nat, states: Seq<
    ReviewProgress,
>)
    requires
        review_target <= total_cards,
    ensures
        planned(total_cards, review_target, states).new_target == total_cards - review_target,
        planned(total_cards, review_target, states).new_target > 0 <==> planned(
            total_cards,
            review_target,
            states,
        ).new_pool is Some,
        planned(total_cards, review_target, states).new_pool matches Some(p) ==> p.0 == seen_ids(
            states,
        ),
{
}

/// When review cards are wanted and the user has any learned word, the plan
/// fetches review candidates, and every learned word is among them.
pub proof fn lemma_learned_words_are_review_candidates(
    total_cards: nat,
    review_target: nat,
    states: Seq<ReviewProgress>,
    i: int,
)
    requires
        review_target <= total_cards,
        review_target > 0,
        0 <= i < states.len(),
        is_learned(states[i]),
    ensures
        planned(total_cards, review_target, states).review_ids matches Some(r) && r.contains(
            states[i].word_id,
        ),
        planned(total_cards, review_target, states).review_ids matches Some(r) && forall|j: int|
            0 <= j < states.len() && is_learned(#[trigger] states[j]) ==> r.contains(states[j].word_id),
{
    assert forall|j: int| 0 <= j < states.len() && is_learned(#[trigger] states[j]) implies due_ids(
        states,
    ).contains(states[j].word_id) by {
        lemma_due_ids_are_learned_words(states, states[j].word_id);
    }
    assert(due_ids(states).contains(states[i].word_id));
}


/// The new-card pool is ten candidates per new card, except that it never
/// falls below fifty.
pub proof fn lemma_pool_is_ten_per_card_floored_at_fifty(new_target: nat)
    ensures
        new_target <= 5 ==> pool_size_for(new_target) == 50,
        new_target >= 5 ==> pool_size_for(new_target) == 10 * new_target,
{
}

/// In terms of the states themselves: a word with a state that was reviewed
/// or set aside is never offered as a new card, and one that was reviewed and
/// not set aside comes back as a review candidate when review cards are
/// wanted.
pub proof fn lemma_plan_by_state_fields(
    total_cards: nat,
    review_target: nat,
    states: Seq<ReviewProgress>,
    i: int,
)
    requires
        review_target <= total_cards,
        0 <= i < states.len(),
    ensures
        (states[i].review_count > 0 || states[i].is_ignored) ==> (planned(
            total_cards,
            review_target,
            states,
        ).new_pool matches Some(p) ==> p.0.contains(states[i].word_id)),
        (review_target > 0 && states[i].review_count > 0 && !states[i].is_ignored) ==> (planned(
            total_cards,
            review_target,
            states,
        ).review_ids matches Some(r) && r.contains(states[i].word_id)),
        planned(total_cards, review_target, states).review_ids matches Some(r) ==> forall|id: i64|
            r.contains(id) ==> exists|j: int|
                0 <= j < states.len() && #[trigger] states[j].word_id == id && states[j].review_count
                    > 0 && !states[j].is_ignored,
{
    lemma_seen_ids_are_met_words(states, states[i].word_id);
    lemma_due_ids_are_learned_words(states, states[i].word_id);
    if review_target > 0 && states[i].review_count > 0 && !states[i].is_ignored {
        lemma_learned_words_are_review_candidates(total_cards, review_target, states, i);
    }
    assert forall|id: i64| due_ids(states).contains(id) implies exists|j: int|
        0 <= j < states.len() && #[trigger] states[j].word_id == id && states[j].review_count > 0
            && !states[j].is_ignored by {
        lemma_due_ids_are_learned_words(states, id);
    }
}

} // verus!
