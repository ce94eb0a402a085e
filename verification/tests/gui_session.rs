//! Tests of the GUI session's apply/undo/redo bookkeeping.
use klondike::gui::session::Session;
use klondike::{GameConfig, Move};

#[test]
fn apply_undo_redo_restore_state_and_counters() {
    let mut s = Session::new(42, GameConfig::default());
    assert_eq!(s.move_count(), 0);
    let before = s.state().clone();

    // A fresh deal always allows a draw.
    assert!(s.apply(Move::Draw));
    assert_eq!(s.move_count(), 1);
    assert_ne!(*s.state(), before);

    s.undo();
    assert_eq!(s.move_count(), 0);
    assert_eq!(*s.state(), before, "undo restores the exact prior state");

    s.redo();
    assert_eq!(s.move_count(), 1);
    assert!(s.state().waste.top().is_some());
}

#[test]
fn new_game_resets() {
    let mut s = Session::new(1, GameConfig::default());
    s.apply(Move::Draw);
    s.apply(Move::Draw);
    assert_eq!(s.move_count(), 2);
    let fresh = Session::new(2, GameConfig::default());
    assert_eq!(fresh.move_count(), 0);
    assert!(fresh.message().is_none());
}

#[test]
fn a_new_move_clears_redo() {
    let mut s = Session::new(7, GameConfig::default());
    s.apply(Move::Draw);
    s.undo(); // redo now has one
    s.apply(Move::Draw); // a new move must clear redo
    s.redo(); // nothing to redo
    assert_eq!(s.message(), Some("Nothing to redo"));
}

#[test]
fn rejected_move_reports_and_keeps_the_position() {
    let mut s = Session::new(3, GameConfig::default());
    let before = s.state().clone();
    // Nothing is on the waste at the deal.
    assert!(!s.apply(Move::WasteToFoundation { foundation: 0 }));
    assert_eq!(*s.state(), before);
    assert_eq!(s.move_count(), 0);
    assert!(s.message().is_some());
    s.undo();
    assert_eq!(s.message(), Some("Nothing to undo"));
}

#[test]
fn undo_walks_back_through_several_moves() {
    let mut s = Session::new(9, GameConfig::default());
    let start = s.state().clone();
    for _ in 0..5 {
        assert!(s.apply(Move::Draw));
    }
    s.set_elapsed(30);
    assert_eq!(s.elapsed_secs(), 30);
    for _ in 0..5 {
        s.undo();
    }
    assert_eq!(s.move_count(), 0);
    assert_eq!(s.state().stock, start.stock);
    assert_eq!(s.state().waste, start.waste);
    assert_eq!(s.state().tableau, start.tableau);
}

#[test]
fn auto_solve_flags() {
    let mut s = Session::new(5, GameConfig::default());
    assert!(!s.is_auto_solving());
    s.begin_auto_solve();
    assert!(s.is_auto_solving());
    s.cancel_auto_solve();
    assert!(!s.is_auto_solving());
    assert!(!s.was_auto_solved());
    s.begin_auto_solve();
    s.finish_auto_solve();
    assert!(!s.is_auto_solving());
    assert!(s.was_auto_solved());
    s.set_message("hello");
    assert_eq!(s.message(), Some("hello"));
    assert_eq!(s.seed(), 5);
    assert_eq!(s.score(), 0);
    assert_eq!(s.final_score(), Some(0));
    assert!(!s.is_won());
}
