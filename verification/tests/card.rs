//! Tests of the card module.
use klondike::{Card, Color, Rank, Suit};

#[test]
fn color_from_suit() {
    assert_eq!(Suit::Hearts.color(), Color::Red);
    assert_eq!(Suit::Diamonds.color(), Color::Red);
    assert_eq!(Suit::Clubs.color(), Color::Black);
    assert_eq!(Suit::Spades.color(), Color::Black);
}

#[test]
fn rank_values_and_ordering() {
    assert_eq!(Rank::Ace.value(), 1);
    assert_eq!(Rank::King.value(), 13);
    assert!(Rank::Ace < Rank::King);
    // Every rank has a distinct value in 1..=13.
    let mut seen = std::collections::HashSet::new();
    for r in Rank::ALL {
        assert!((1..=13).contains(&r.value()));
        assert!(seen.insert(r.value()), "duplicate rank value");
    }
}

#[test]
fn rank_succ() {
    assert_eq!(Rank::Ace.succ(), Some(Rank::Two));
    assert_eq!(Rank::Ten.succ(), Some(Rank::Jack));
    assert_eq!(Rank::King.succ(), None);
}

#[test]
fn flip_helpers() {
    let c = Card::new(Rank::Ace, Suit::Spades);
    assert!(!c.face_up);
    assert!(c.face_up().face_up);
    let mut m = c;
    m.flip_up();
    assert!(m.face_up);
    m.flip_down();
    assert!(!m.face_up);
}
