use rand::distr::weighted::WeightedIndex;
use rand::distr::Distribution;
use rand::Rng;
use word_book::sampling::{sample_count, WeightedDraw};
use word_book::words::Word;

#[derive(Clone, Debug)]
struct Card {
    word: Word,
    calculated_weight: f32,
}

fn mock_card(id: i64, weight: f32) -> Card {
    Card {
        word: Word {
            id,
            lemma: format!("word{}", id),
            frequency_count: 10,
            frequency_rank: 1,
            surface_forms: None,
        },
        calculated_weight: weight,
    }
}

/// The weighted draw without replacement, driven the way the application drives it.
fn sample_cards(final_deck: &mut Vec<Card>, source_cards: &[Card], target_count: usize, rng: &mut impl Rng) {
    if source_cards.is_empty() || target_count == 0 {
        return;
    }
    let mut weights: Vec<f32> = source_cards.iter().map(|c| c.calculated_weight.max(0.001)).collect();
    let mut draw = WeightedDraw::new(source_cards.len(), target_count);
    while draw.wants_more() {
        match WeightedIndex::new(&weights) {
            Ok(dist) => {
                let idx: usize = dist.sample(rng);
                if !draw.record(idx) {
                    break;
                }
                final_deck.push(source_cards[idx].clone());
                weights[idx] = 0.0;
            }
            Err(_) => {
                draw.stop();
                break;
            }
        }
    }
}

#[test]
fn test_sample_cards_basic() {
    let cards = vec![mock_card(1, 10.0), mock_card(2, 5.0), mock_card(3, 1.0)];
    let mut deck = Vec::new();
    let mut rng = rand::rng();
    sample_cards(&mut deck, &cards, 2, &mut rng);
    assert_eq!(deck.len(), 2);
    assert_ne!(deck[0].word.id, deck[1].word.id);
}

#[test]
fn test_sample_cards_more_than_available() {
    let cards = vec![mock_card(1, 10.0), mock_card(2, 5.0)];
    let mut deck = Vec::new();
    let mut rng = rand::rng();
    sample_cards(&mut deck, &cards, 5, &mut rng);
    assert_eq!(deck.len(), 2);
}

#[test]
fn test_sample_cards_empty_or_zero() {
    let cards = vec![mock_card(1, 10.0)];
    let mut deck = Vec::new();
    let mut rng = rand::rng();
    sample_cards(&mut deck, &cards, 0, &mut rng);
    assert_eq!(deck.len(), 0);
    sample_cards(&mut deck, &[], 2, &mut rng);
    assert_eq!(deck.len(), 0);
}

#[test]
fn test_sample_cards_zero_weight_fallback() {
    let cards = vec![mock_card(1, 0.0), mock_card(2, 0.0)];
    let mut deck = Vec::new();
    let mut rng = rand::rng();
    sample_cards(&mut deck, &cards, 2, &mut rng);
    assert_eq!(deck.len(), 2);
}

#[test]
fn a_draw_plans_at_most_the_pool() {
    assert_eq!(sample_count(2, 3), 2);
    assert_eq!(sample_count(5, 2), 2);
    assert_eq!(sample_count(0, 2), 0);
    assert_eq!(sample_count(2, 0), 0);
}

#[test]
fn a_draw_refuses_repeats_and_strays() {
    let mut d = WeightedDraw::new(3, 2);
    assert!(d.wants_more());
    assert!(d.record(1));
    assert!(d.is_picked(1));
    assert!(!d.record(1));
    assert!(!d.record(3));
    assert!(d.record(0));
    assert!(!d.wants_more());
    assert!(!d.record(2));
    assert_eq!(d.drawn(), &vec![1, 0]);
    assert_eq!(d.pool_len(), 3);
}

#[test]
fn a_stopped_draw_takes_nothing() {
    let mut d = WeightedDraw::new(3, 3);
    assert!(d.record(2));
    d.stop();
    assert!(!d.wants_more());
    assert!(!d.record(0));
    assert_eq!(d.drawn(), &vec![2]);
}

#[test]
fn many_draws_never_repeat_a_card() {
    let cards: Vec<Card> = (0..20).map(|i| mock_card(i, (i % 4) as f32)).collect();
    let mut rng = rand::rng();
    for _ in 0..50 {
        let mut deck = Vec::new();
        sample_cards(&mut deck, &cards, 15, &mut rng);
        assert_eq!(deck.len(), 15);
        let mut ids: Vec<i64> = deck.iter().map(|c| c.word.id).collect();
        ids.sort();
        ids.dedup();
        assert_eq!(ids.len(), 15);
    }
}
