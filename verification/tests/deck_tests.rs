use word_book::deck::{new_card_target, new_pool_size, plan_deck, review_candidate_ids, seen_word_ids};
use word_book::progress::ReviewProgress;

fn st(word_id: i64, review_count: i64, is_ignored: bool) -> ReviewProgress {
    ReviewProgress { word_id, last_reviewed_at: 0, review_count, is_ignored }
}

fn states() -> Vec<ReviewProgress> {
    vec![st(1, 3, false), st(2, 0, true), st(3, 2, true), st(4, 0, false), st(5, 1, false)]
}

#[test]
fn review_candidates_are_learned_words() {
    assert_eq!(review_candidate_ids(&states()), vec![1, 5]);
}

#[test]
fn met_words_are_left_out_of_new_cards() {
    assert_eq!(seen_word_ids(&states()), vec![1, 2, 3, 5]);
}

#[test]
fn pool_size_is_ten_per_card_and_at_least_fifty() {
    assert_eq!(new_pool_size(0), 50);
    assert_eq!(new_pool_size(3), 50);
    assert_eq!(new_pool_size(5), 50);
    assert_eq!(new_pool_size(6), 60);
    assert_eq!(new_pool_size(20), 200);
}

#[test]
fn new_cards_fill_the_deck() {
    assert_eq!(new_card_target(20, 14), 6);
    assert_eq!(new_card_target(20, 20), 0);
    assert_eq!(new_card_target(0, 0), 0);
}

#[test]
fn a_mixed_deck_plan() {
    let p = plan_deck(20, 14, &states());
    assert_eq!(p.review_target, 14);
    assert_eq!(p.new_target, 6);
    assert_eq!(p.review_ids, Some(vec![1, 5]));
    let pool = p.new_pool.expect("new cards wanted");
    assert_eq!(pool.exclude_ids, vec![1, 2, 3, 5]);
    assert_eq!(pool.pool_size, 60);
}

#[test]
fn an_all_review_deck_plan() {
    let p = plan_deck(10, 10, &states());
    assert_eq!(p.new_target, 0);
    assert!(p.new_pool.is_none());
    assert_eq!(p.review_ids, Some(vec![1, 5]));
}

#[test]
fn a_new_only_deck_plan() {
    let p = plan_deck(10, 0, &states());
    assert!(p.review_ids.is_none());
    assert_eq!(p.new_pool.expect("new cards wanted").pool_size, 100);
}

#[test]
fn no_review_ids_without_learned_words() {
    let p = plan_deck(10, 4, &vec![st(9, 0, true)]);
    assert!(p.review_ids.is_none());
    assert_eq!(p.new_pool.expect("new cards wanted").exclude_ids, vec![9]);
}

#[test]
fn review_words_are_never_new_candidates() {
    let p = plan_deck(30, 10, &states());
    let review = p.review_ids.expect("review cards wanted");
    let pool = p.new_pool.expect("new cards wanted");
    for id in review {
        assert!(pool.exclude_ids.contains(&id));
    }
    assert_eq!(p.review_target + p.new_target, 30);
    assert!(pool.pool_size >= 50 && pool.pool_size >= 10 * p.new_target);
}
