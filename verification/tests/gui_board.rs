//! Tests of the board's input decisions: keys, taps, drags and drops.
use klondike::gui::board::{input_step, BoardKey, InputAction, InputEvent};
use klondike::gui::input::{Hit, Source};
use klondike::gui::layout::ButtonId;
use klondike::gui::session::Session;
use klondike::{GameConfig, Move};

fn fresh() -> Session {
    Session::new(42, GameConfig::default())
}

#[test]
fn tap_on_stock_draws() {
    let mut s = fresh();
    let mut drag: Option<Source> = None;
    let stock_before = s.state().stock.len();
    let a = input_step(&mut s, &mut drag, InputEvent::Press { hit: Hit::Stock, double: false });
    assert_eq!(a, InputAction::Nothing);
    assert_eq!(drag, None);
    assert_eq!(s.move_count(), 1);
    assert!(s.state().stock.len() < stock_before);
    assert_eq!(s.state().stock.len() + s.state().waste.len(), stock_before);
    assert!(s.state().waste.top().is_some());
}

#[test]
fn tap_on_empty_stock_recycles() {
    let mut s = fresh();
    let mut drag: Option<Source> = None;
    while !s.state().stock.is_empty() {
        assert!(s.apply(Move::Draw));
    }
    let waste_before = s.state().waste.len();
    assert!(waste_before > 0);
    input_step(&mut s, &mut drag, InputEvent::Press { hit: Hit::Stock, double: false });
    assert_eq!(s.state().stock.len(), waste_before);
    assert!(s.state().waste.is_empty());
}

#[test]
fn press_on_waste_begins_a_drag_and_a_bare_release_snaps_back() {
    let mut s = fresh();
    let mut drag: Option<Source> = None;
    input_step(&mut s, &mut drag, InputEvent::Press { hit: Hit::Stock, double: false });
    let a = input_step(&mut s, &mut drag, InputEvent::Press { hit: Hit::Waste, double: false });
    assert_eq!(a, InputAction::BeginDrag(Source::Waste));
    assert_eq!(drag, Some(Source::Waste));

    // A second press while dragging is ignored.
    let before = s.state().clone();
    let a = input_step(&mut s, &mut drag, InputEvent::Press { hit: Hit::Stock, double: false });
    assert_eq!(a, InputAction::Nothing);
    assert_eq!(drag, Some(Source::Waste));
    assert_eq!(*s.state(), before);

    let a = input_step(&mut s, &mut drag, InputEvent::Release { target: None, moved: true });
    assert_eq!(a, InputAction::SnapBack);
    assert_eq!(drag, None);
    assert_eq!(s.message(), Some("No move"));
    assert_eq!(*s.state(), before);
}

#[test]
fn release_without_movement_is_a_plain_click() {
    let mut s = fresh();
    let mut drag: Option<Source> = None;
    input_step(&mut s, &mut drag, InputEvent::Press { hit: Hit::Stock, double: false });
    input_step(&mut s, &mut drag, InputEvent::Press { hit: Hit::Waste, double: false });
    let a = input_step(&mut s, &mut drag, InputEvent::Release { target: None, moved: false });
    assert_eq!(a, InputAction::Nothing);
    assert_eq!(drag, None);
    assert_eq!(s.message(), None);
}

#[test]
fn press_on_nothing_starts_no_drag() {
    let mut s = fresh();
    let mut drag: Option<Source> = None;
    let a = input_step(&mut s, &mut drag, InputEvent::Press { hit: Hit::Nowhere, double: false });
    assert_eq!(a, InputAction::Nothing);
    assert_eq!(drag, None);
    let a = input_step(&mut s, &mut drag, InputEvent::Press { hit: Hit::Nowhere, double: true });
    assert_eq!(a, InputAction::Nothing);
    assert_eq!(s.move_count(), 0);
}

#[test]
fn undo_tap_undoes_and_hold_redoes() {
    let mut s = fresh();
    let mut drag: Option<Source> = None;
    let dealt = s.state().clone();
    input_step(&mut s, &mut drag, InputEvent::Press { hit: Hit::Stock, double: false });
    let drawn = s.state().clone();
    assert_eq!(input_step(&mut s, &mut drag, InputEvent::UndoTap), InputAction::Nothing);
    assert_eq!(*s.state(), dealt);
    assert_eq!(input_step(&mut s, &mut drag, InputEvent::UndoHold), InputAction::Nothing);
    assert_eq!(*s.state(), drawn);
}

#[test]
fn undo_is_ignored_while_dragging() {
    let mut s = fresh();
    let mut drag: Option<Source> = None;
    input_step(&mut s, &mut drag, InputEvent::Press { hit: Hit::Stock, double: false });
    input_step(&mut s, &mut drag, InputEvent::Press { hit: Hit::Waste, double: false });
    let drawn = s.state().clone();
    input_step(&mut s, &mut drag, InputEvent::UndoTap);
    assert_eq!(*s.state(), drawn);
    assert_eq!(drag, Some(Source::Waste));
}

#[test]
fn keys_map_to_commands() {
    let mut s = fresh();
    let mut drag: Option<Source> = None;
    input_step(&mut s, &mut drag, InputEvent::Press { hit: Hit::Stock, double: false });
    input_step(&mut s, &mut drag, InputEvent::Press { hit: Hit::Waste, double: false });
    assert_eq!(input_step(&mut s, &mut drag, InputEvent::Key(BoardKey::Deselect)), InputAction::Nothing);
    assert_eq!(drag, None);
    assert_eq!(input_step(&mut s, &mut drag, InputEvent::Key(BoardKey::Undo)), InputAction::Nothing);
    assert_eq!(s.move_count(), 0);
    input_step(&mut s, &mut drag, InputEvent::Key(BoardKey::Redo));
    assert_eq!(s.move_count(), 1);
    assert_eq!(input_step(&mut s, &mut drag, InputEvent::Key(BoardKey::NewGame)), InputAction::NewGame);
}

#[test]
fn auto_solve_key_starts_only_with_a_known_line() {
    let mut s = fresh();
    let mut drag: Option<Source> = None;
    assert_eq!(
        input_step(&mut s, &mut drag, InputEvent::AutoSolveKey { known: false }),
        InputAction::Nothing
    );
    assert!(!s.is_auto_solving());
    assert_eq!(
        input_step(&mut s, &mut drag, InputEvent::AutoSolveKey { known: true }),
        InputAction::StartAutoSolve
    );
    assert!(s.is_auto_solving());
}

#[test]
fn buttons_and_indicator_when_idle_and_when_dragging() {
    let mut s = fresh();
    let mut drag: Option<Source> = None;
    assert_eq!(input_step(&mut s, &mut drag, InputEvent::Button(ButtonId::New)), InputAction::NewGame);
    assert_eq!(input_step(&mut s, &mut drag, InputEvent::Button(ButtonId::Undo)), InputAction::Nothing);
    assert_eq!(
        input_step(&mut s, &mut drag, InputEvent::Indicator { checking: false }),
        InputAction::OpenSolver
    );
    assert_eq!(
        input_step(&mut s, &mut drag, InputEvent::Indicator { checking: true }),
        InputAction::Nothing
    );
    input_step(&mut s, &mut drag, InputEvent::Press { hit: Hit::Stock, double: false });
    input_step(&mut s, &mut drag, InputEvent::Press { hit: Hit::Waste, double: false });
    assert_eq!(input_step(&mut s, &mut drag, InputEvent::Button(ButtonId::New)), InputAction::Nothing);
    assert_eq!(
        input_step(&mut s, &mut drag, InputEvent::Indicator { checking: false }),
        InputAction::Nothing
    );
}

#[test]
fn auto_move_waste_key_with_empty_waste_does_nothing() {
    let mut s = fresh();
    let mut drag: Option<Source> = None;
    let before = s.state().clone();
    assert_eq!(
        input_step(&mut s, &mut drag, InputEvent::Key(BoardKey::AutoMoveWaste)),
        InputAction::Nothing
    );
    assert_eq!(*s.state(), before);
    assert_eq!(s.message(), None);
}

#[test]
fn double_tap_plays_the_best_move_or_says_none() {
    // Find a deal and a waste card after one draw; a double tap on the waste
    // either plays a move (and animates it) or reports that there is none.
    let mut s = fresh();
    let mut drag: Option<Source> = None;
    input_step(&mut s, &mut drag, InputEvent::Press { hit: Hit::Stock, double: false });
    let count = s.move_count();
    let a = input_step(&mut s, &mut drag, InputEvent::Press { hit: Hit::Waste, double: true });
    assert_eq!(drag, None);
    match a {
        InputAction::Animate(_) => assert_eq!(s.move_count(), count + 1),
        InputAction::Nothing => {
            assert_eq!(s.move_count(), count);
            assert_eq!(s.message(), Some("No move for that card"));
        },
        other => panic!("unexpected action {:?}", other),
    }
}
