//! Tests of the pile module.
use klondike::{Card, Foundation, Rank, Suit, TableauColumn, Waste};

fn up(rank: Rank, suit: Suit) -> Card {
    Card::new(rank, suit).face_up()
}
fn down(rank: Rank, suit: Suit) -> Card {
    Card::new(rank, suit)
}

#[test]
fn tableau_invariant_detects_violation() {
    let ok = TableauColumn::new(vec![
        down(Rank::Five, Suit::Clubs),
        up(Rank::Four, Suit::Hearts),
    ]);
    assert!(ok.invariant_holds());

    // A raw column with a face-down card above a face-up one violates it.
    let bad = TableauColumn::new(vec![up(Rank::Four, Suit::Hearts), down(Rank::Five, Suit::Clubs)]);
    assert!(!bad.invariant_holds());
}

#[test]
fn flip_top_when_face_down() {
    let mut col = TableauColumn::new(vec![down(Rank::Nine, Suit::Spades)]);
    assert!(col.flip_top_if_face_down());
    assert!(col.top().unwrap().face_up);
    // Already up: no second flip.
    assert!(!col.flip_top_if_face_down());
}

#[test]
fn take_and_push_run() {
    let mut col = TableauColumn::new(vec![
        down(Rank::King, Suit::Clubs),
        up(Rank::Seven, Suit::Hearts),
        up(Rank::Six, Suit::Spades),
    ]);
    // Only two face-up cards; cannot take three.
    assert!(col.take_run(3).is_none());
    let run = col.take_run(2).unwrap();
    assert_eq!(run.len(), 2);
    assert_eq!(col.len(), 1);
    let mut dest = TableauColumn::new(vec![up(Rank::Eight, Suit::Clubs)]);
    dest.push_run(run);
    assert_eq!(dest.len(), 3);
    assert_eq!(dest.top().unwrap().rank, Rank::Six);
}

#[test]
fn foundation_completion_and_suit() {
    let mut f = Foundation::new();
    assert_eq!(f.suit(), None);
    f.push(up(Rank::Ace, Suit::Diamonds));
    assert_eq!(f.suit(), Some(Suit::Diamonds));
    assert!(!f.is_complete());
}

#[test]
fn waste_drain_is_top_first() {
    let mut w = Waste::new(vec![
        up(Rank::Ace, Suit::Clubs),
        up(Rank::Two, Suit::Clubs),
        up(Rank::Three, Suit::Clubs),
    ]);
    // Top is Three; draining top-first yields 3,2,A.
    let drained = w.drain_top_first();
    assert_eq!(drained[0].rank, Rank::Three);
    assert_eq!(drained[2].rank, Rank::Ace);
    assert!(w.is_empty());
}
