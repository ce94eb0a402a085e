//! Tests of the per-frame decisions: input routing, the clock, auto-solve
//! playback and the assist following the position.
use klondike::gui::frame::{
    autosolve_input, clock_step, frame_step, input_route, FrameAction, FrameEvent, FrameState,
    InputRoute, Overlay, Playback,
};
use klondike::gui::session::Session;
use klondike::gui::solver::Assist;
use klondike::solver::encode::encode;
use klondike::{GameConfig, Move};

#[test]
fn input_goes_to_the_dialog_first() {
    assert_eq!(input_route(true, Overlay::Solver, true), InputRoute::Dialog);
    assert_eq!(input_route(false, Overlay::Solver, true), InputRoute::SolverOverlay);
    assert_eq!(input_route(false, Overlay::Settings, true), InputRoute::Settings);
    assert_eq!(input_route(false, Overlay::Closed, true), InputRoute::AutoSolve);
    assert_eq!(input_route(false, Overlay::Closed, false), InputRoute::Board);
}

#[test]
fn clock_runs_while_playing_and_holds_at_zero_while_auto_solving() {
    let mut s = Session::new(7, GameConfig::default());
    clock_step(&mut s, 17);
    assert_eq!(s.elapsed_secs(), 17);
    s.begin_auto_solve();
    clock_step(&mut s, 30);
    assert_eq!(s.elapsed_secs(), 0);
}

#[test]
fn any_input_cancels_auto_solve() {
    let mut s = Session::new(7, GameConfig::default());
    s.begin_auto_solve();
    assert!(!autosolve_input(&mut s, false));
    assert!(s.is_auto_solving());
    assert!(autosolve_input(&mut s, true));
    assert!(!s.is_auto_solving());
    assert!(!s.was_auto_solved());
}

#[test]
fn playback_plays_the_next_move_and_waits_when_busy() {
    let mut s = Session::new(3, GameConfig::default());
    let mut assist = Assist::new(s.state());
    let mut app = FrameState::new(&s);
    s.begin_auto_solve();
    let before = s.state().clone();
    let a = frame_step(
        &mut app,
        &mut s,
        &mut assist,
        FrameEvent { playback: Playback::Busy, pointer_active: false },
    );
    assert_eq!(a, FrameAction::Nothing);
    assert_eq!(*s.state(), before);
    let a = frame_step(
        &mut app,
        &mut s,
        &mut assist,
        FrameEvent { playback: Playback::Next(Move::Draw), pointer_active: false },
    );
    assert_eq!(a, FrameAction::Animate(Move::Draw));
    assert_eq!(s.move_count(), 1);
    assert_eq!(app.last_key.bytes(), encode(s.state()).bytes());
}

#[test]
fn drained_line_on_an_unwon_game_cancels_the_auto_solve() {
    let mut s = Session::new(3, GameConfig::default());
    let mut assist = Assist::new(s.state());
    let mut app = FrameState::new(&s);
    s.begin_auto_solve();
    let a = frame_step(
        &mut app,
        &mut s,
        &mut assist,
        FrameEvent { playback: Playback::Drained, pointer_active: false },
    );
    assert_eq!(a, FrameAction::Nothing);
    assert!(!s.is_auto_solving());
    assert!(!s.was_auto_solved());
}

#[test]
fn frame_remembers_the_seed_and_position_it_saw() {
    let mut s = Session::new(5, GameConfig::default());
    let mut assist = Assist::new(s.state());
    let mut app = FrameState::new(&s);
    assert_eq!(app.last_seed, 5);
    assert_eq!(app.last_key.bytes(), encode(s.state()).bytes());
    assert!(s.apply(Move::Draw));
    let a = frame_step(
        &mut app,
        &mut s,
        &mut assist,
        FrameEvent { playback: Playback::Busy, pointer_active: true },
    );
    assert_eq!(a, FrameAction::Nothing);
    assert_eq!(app.last_seed, 5);
    assert_eq!(app.last_key.bytes(), encode(s.state()).bytes());
}
