//! Tests of the terminal game session's key handling.
use klondike::cli::session::{random_seed, scramble, KeyInput, Session};
use klondike::cli::{Pile, Signal};
use klondike::{Card, DrawMode, Foundation, GameConfig, Rank, Suit, TableauColumn};

fn cfg() -> GameConfig {
    GameConfig::default()
}

fn up(rank: Rank, suit: Suit) -> Card {
    Card::new(rank, suit).face_up()
}

#[test]
fn foundation_to_tableau_via_keys() {
    let mut s = Session::new(0, cfg());
    // Hand-arrange: foundation 0 = A♥,2♥; column 1 top = 3♠ (accepts red 2♥).
    s.state.stock = Default::default();
    s.state.waste = Default::default();
    s.state.foundations = Default::default();
    s.state.tableau = Default::default();
    let mut f = Foundation::new();
    f.push(up(Rank::Ace, Suit::Hearts));
    f.push(up(Rank::Two, Suit::Hearts));
    s.state.foundations[0] = f;
    s.state.tableau[0] = TableauColumn::new(vec![up(Rank::Three, Suit::Spades)]);

    // Foundation source key '8' then tableau target key '1'.
    s.handle_key(KeyInput::Char('8'));
    assert_eq!(s.selection(), Some(Pile::Foundation(0)));
    s.handle_key(KeyInput::Char('1'));
    assert_eq!(
        s.move_count(),
        1,
        "foundation->tableau should apply; msg={:?}",
        s.message()
    );
    assert_eq!(s.state().tableau[0].top().map(|c| c.rank), Some(Rank::Two));
}

#[test]
fn deal_increments_and_is_undoable() {
    let mut s = Session::new(42, cfg());
    assert_eq!(s.move_count(), 0);
    let before = s.state().clone();
    // Space on an empty waste deals immediately.
    s.handle_key(KeyInput::Char(' '));
    assert_eq!(s.move_count(), 1);
    assert!(s.state().waste.top().is_some());
    // Undo restores the exact prior state and count.
    s.handle_key(KeyInput::Char('u'));
    assert_eq!(s.move_count(), 0);
    assert_eq!(s.state(), &before);
}

#[test]
fn second_space_deals_without_clobbering_selection() {
    let mut s = Session::new(1, cfg());
    s.handle_key(KeyInput::Char(' ')); // deal (waste empty -> deal)
    assert_eq!(s.move_count(), 1);
    let waste_top = s.state().waste.top();
    // Now waste has a card: first space selects, does not deal.
    s.handle_key(KeyInput::Char(' '));
    assert_eq!(s.selection(), Some(Pile::StockWaste));
    assert_eq!(s.move_count(), 1);
    assert_eq!(s.state().waste.top(), waste_top);
    // Second space deals.
    s.handle_key(KeyInput::Char(' '));
    assert_eq!(s.selection(), None);
    assert_eq!(s.move_count(), 2);
}

#[test]
fn new_move_clears_redo() {
    let mut s = Session::new(7, cfg());
    s.handle_key(KeyInput::Char(' ')); // move 1 (deal)
    s.handle_key(KeyInput::Char('u')); // undo -> redo has 1
    s.handle_key(KeyInput::Char('r')); // redo -> back
    s.handle_key(KeyInput::Char('u')); // undo again -> redo has 1
    // A fresh move should clear the redo stack.
    s.handle_key(KeyInput::Char(' ')); // deal again (new move)
    assert!(!s.can_redo(), "redo must be cleared by a new move");
}

#[test]
fn illegal_move_reports_and_no_op() {
    let mut s = Session::new(3, cfg());
    let before = s.state().clone();
    // Select column 1 then column 2 — almost certainly not a legal move at deal.
    s.handle_key(KeyInput::Char('1'));
    assert_eq!(s.selection(), Some(Pile::Tableau(0)));
    s.handle_key(KeyInput::Char('2'));
    // Either it was illegal (message + unchanged) — with a fresh deal, two
    // single face-up cards rarely stack. Assert state only changed if a move
    // was actually recorded.
    if s.move_count() == 0 {
        assert_eq!(s.state(), &before);
        assert!(s.message().is_some());
    }
}

#[test]
fn quit_and_help_signals() {
    let mut s = Session::new(9, cfg());
    assert_eq!(s.handle_key(KeyInput::Char('?')), Signal::Continue);
    assert!(s.help_visible());
    // Any key dismisses help.
    assert_eq!(s.handle_key(KeyInput::Char('1')), Signal::Continue);
    assert!(!s.help_visible());
    assert_eq!(s.handle_key(KeyInput::Char('q')), Signal::Quit);
}

#[test]
fn draw_one_config_draws_single() {
    let config = GameConfig {
        draw_mode: DrawMode::One,
        ..GameConfig::default()
    };
    let mut s = Session::new(5, config);
    s.handle_key(KeyInput::Char(' '));
    assert_eq!(s.state().waste.len(), 1);
}

#[test]
fn undo_and_redo_with_nothing_to_step_say_so() {
    let mut s = Session::new(11, cfg());
    s.handle_key(KeyInput::Char('u'));
    assert_eq!(s.message(), Some("Nothing to undo"));
    s.handle_key(KeyInput::Char('r'));
    assert_eq!(s.message(), Some("Nothing to redo"));
    s.handle_key(KeyInput::Char(' '));
    s.handle_key(KeyInput::Char('u'));
    assert_eq!(s.message(), Some("Undid last move"));
    assert!(s.can_redo());
    s.handle_key(KeyInput::Char('r'));
    assert_eq!(s.message(), Some("Redid move"));
    assert_eq!(s.move_count(), 1);
    assert_eq!(s.history().len(), 1);
}

#[test]
fn won_game_only_answers_new_game() {
    let mut s = Session::new(0, cfg());
    s.state.stock = Default::default();
    s.state.waste = Default::default();
    s.state.tableau = Default::default();
    for (i, suit) in [Suit::Clubs, Suit::Diamonds, Suit::Hearts, Suit::Spades]
        .into_iter()
        .enumerate()
    {
        let mut f = Foundation::new();
        for r in Rank::ALL {
            f.push(up(r, suit));
        }
        s.state.foundations[i] = f;
    }
    assert!(s.is_won());
    let moves = s.move_count();
    s.handle_key(KeyInput::Char(' '));
    s.handle_key(KeyInput::Char('u'));
    assert_eq!(s.move_count(), moves);
    assert!(s.is_won());
    s.handle_key(KeyInput::Char('n'));
    assert!(!s.is_won());
    assert_eq!(s.message(), Some("New game"));
    assert_eq!(s.move_count(), 0);
}

#[test]
fn esc_clears_a_selection_and_unknown_keys_are_ignored() {
    let mut s = Session::new(4, cfg());
    s.handle_key(KeyInput::Char('3'));
    assert_eq!(s.selection(), Some(Pile::Tableau(2)));
    s.handle_key(KeyInput::Esc);
    assert_eq!(s.selection(), None);
    let before = s.state().clone();
    s.handle_key(KeyInput::Char('x'));
    assert_eq!(s.state(), &before);
    assert_eq!(s.selection(), None);
}

#[test]
fn seeds_are_scrambled_clock_readings() {
    // The SplitMix64 finalizer of 0 ^ 0x9E37_79B9_7F4A_7C15.
    assert_eq!(scramble(0), 0xE220_A839_7B1D_CDAF);
    assert_ne!(scramble(1), scramble(2));
    let _ = random_seed();
}
