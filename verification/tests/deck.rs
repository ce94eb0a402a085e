//! Tests of the deck module.
use klondike::model::rng::SplitMix64;
use klondike::Deck;
use std::collections::HashSet;

#[test]
fn standard_deck_has_52_unique_cards() {
    let deck = Deck::standard();
    assert_eq!(deck.len(), 52);
    let mut seen = HashSet::new();
    for c in &deck.cards {
        assert!(seen.insert((c.rank, c.suit)), "duplicate card {c:?}");
    }
    assert_eq!(seen.len(), 52);
}

#[test]
fn shuffle_is_deterministic() {
    let mut a = Deck::standard();
    let mut b = Deck::standard();
    a.shuffle(&mut SplitMix64::new(12345));
    b.shuffle(&mut SplitMix64::new(12345));
    assert_eq!(a, b);
}

#[test]
fn shuffle_preserves_multiset() {
    let original: HashSet<_> = Deck::standard()
        .cards
        .iter()
        .map(|c| (c.rank, c.suit))
        .collect();
    let mut deck = Deck::standard();
    deck.shuffle(&mut SplitMix64::new(99));
    let shuffled: HashSet<_> = deck.cards.iter().map(|c| (c.rank, c.suit)).collect();
    assert_eq!(original, shuffled);
    assert_eq!(deck.len(), 52);
}

#[test]
fn different_seeds_usually_differ() {
    let mut a = Deck::standard();
    let mut b = Deck::standard();
    a.shuffle(&mut SplitMix64::new(1));
    b.shuffle(&mut SplitMix64::new(2));
    assert_ne!(a, b);
}
