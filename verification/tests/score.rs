//! Tests of the score module.
use klondike::{Score, ScoreEvent};

#[test]
fn event_point_values() {
    assert_eq!(ScoreEvent::WasteToTableau.points(), 5);
    assert_eq!(ScoreEvent::FlipTableauCard.points(), 5);
    assert_eq!(ScoreEvent::WasteToFoundation.points(), 10);
    assert_eq!(ScoreEvent::TableauToFoundation.points(), 10);
    assert_eq!(ScoreEvent::FoundationToTableau.points(), -15);
    assert_eq!(ScoreEvent::RecycleDrawOne.points(), -100);
}

#[test]
fn score_clamps_at_zero() {
    let mut s = Score::new();
    s.apply(ScoreEvent::FoundationToTableau); // -15, clamped
    assert_eq!(s.event_points(), 0);
    s.apply(ScoreEvent::WasteToFoundation); // +10
    assert_eq!(s.event_points(), 10);
    s.apply(ScoreEvent::FoundationToTableau); // 10 - 15 -> clamp 0
    assert_eq!(s.event_points(), 0);
}

#[test]
fn time_penalty_and_bonus() {
    assert_eq!(Score::time_penalty(20), 4);
    assert_eq!(Score::time_penalty(9), 0);
    assert_eq!(Score::time_penalty(19), 2);
    assert!(Score::win_bonus(60) > 0);
    assert_eq!(Score::win_bonus(0), 0);
}

#[test]
fn untimed_ignores_elapsed() {
    let mut s = Score::new();
    s.apply(ScoreEvent::WasteToFoundation); // 10
    assert_eq!(s.current(1000, false), 10);
    assert_eq!(s.current(1000, true), 0); // penalty exceeds points, clamped
}

#[test]
fn final_score_adds_win_bonus_when_timed() {
    let mut s = Score::new();
    for _ in 0..30 {
        s.apply(ScoreEvent::TableauToFoundation); // 300
    }
    let untimed = s.final_score(60, false, true);
    assert_eq!(untimed, 300);
    let timed = s.final_score(60, true, true);
    // 300 - (60/10)*2 + 700000/60 = 300 - 12 + 11666
    assert_eq!(timed, 300 - 12 + 700_000 / 60);
}
