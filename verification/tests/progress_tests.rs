use word_book::progress::{record_review, weight_basis, ReviewProgress, WeightBasis};

fn state(review_count: i64, is_ignored: bool) -> ReviewProgress {
    ReviewProgress { word_id: 1, last_reviewed_at: 1000, review_count, is_ignored }
}

#[test]
fn a_first_review_starts_a_state() {
    let s = record_review(None, 1, 1000);
    assert_eq!(s.word_id, 1);
    assert_eq!(s.last_reviewed_at, 1000);
    assert_eq!(s.review_count, 1);
    assert!(!s.is_ignored);
}

#[test]
fn a_later_review_counts_once_more() {
    let s = record_review(Some(&state(1, false)), 1, 2000);
    assert_eq!(s.review_count, 2);
    assert_eq!(s.last_reviewed_at, 2000);
    assert!(!s.is_ignored);
}

#[test]
fn a_review_keeps_the_ignored_flag() {
    let s = record_review(Some(&state(5, true)), 1, 2000);
    assert_eq!(s.review_count, 6);
    assert!(s.is_ignored);
}

#[test]
fn weight_basis_of_unlearned_words() {
    assert_eq!(weight_basis(None, 1000), WeightBasis::Unlearned);
    assert_eq!(weight_basis(Some(&state(0, false)), 1000), WeightBasis::Unlearned);
}

#[test]
fn weight_basis_of_ignored_words() {
    assert_eq!(weight_basis(Some(&state(1, true)), 2000), WeightBasis::Ignored);
    assert_eq!(weight_basis(Some(&state(0, true)), 2000), WeightBasis::Ignored);
}

#[test]
fn weight_basis_of_learned_words() {
    assert_eq!(weight_basis(Some(&state(1, false)), 2000), WeightBasis::Learned { elapsed_secs: 1000 });
    assert_eq!(weight_basis(Some(&state(3, false)), 500), WeightBasis::Learned { elapsed_secs: 0 });
}

#[test]
fn a_word_just_reviewed_is_weighed_as_learned() {
    let s = record_review(None, 4, 5000);
    assert_eq!(weight_basis(Some(&s), 5000), WeightBasis::Learned { elapsed_secs: 0 });
    let t = record_review(Some(&state(2, true)), 1, 5000);
    assert_eq!(weight_basis(Some(&t), 5000), WeightBasis::Ignored);
}
