//! Tests of the rules module.
use klondike::model::rules::{can_stack_on_foundation, can_stack_on_tableau};
use klondike::{
    apply_move, apply_undoable, legal_moves, undo_move, Card, DrawMode, Foundation, GameConfig,
    GameState, Move, MoveError, Rank, Stock, Suit, TableauColumn, Waste,
};

fn up(rank: Rank, suit: Suit) -> Card {
    Card::new(rank, suit).face_up()
}
fn down(rank: Rank, suit: Suit) -> Card {
    Card::new(rank, suit)
}

/// Build a bare state we can hand-arrange for focused rule tests.
fn blank(config: GameConfig) -> GameState {
    let mut g = GameState::new_with_seed(0, config);
    g.stock = Stock::default();
    g.waste = Waste::default();
    g.foundations = Default::default();
    g.tableau = Default::default();
    g
}

#[test]
fn tableau_placement_rules() {
    // Red six on black seven: legal.
    assert!(can_stack_on_tableau(
        up(Rank::Six, Suit::Hearts),
        Some(up(Rank::Seven, Suit::Spades))
    ));
    // Same color: illegal.
    assert!(!can_stack_on_tableau(
        up(Rank::Six, Suit::Diamonds),
        Some(up(Rank::Seven, Suit::Hearts))
    ));
    // Empty column: only a King.
    assert!(can_stack_on_tableau(up(Rank::King, Suit::Clubs), None));
    assert!(!can_stack_on_tableau(up(Rank::Queen, Suit::Clubs), None));
}

#[test]
fn foundation_placement_rules() {
    assert!(can_stack_on_foundation(up(Rank::Ace, Suit::Hearts), None));
    assert!(!can_stack_on_foundation(up(Rank::Two, Suit::Hearts), None));
    assert!(can_stack_on_foundation(
        up(Rank::Five, Suit::Hearts),
        Some(up(Rank::Four, Suit::Hearts))
    ));
    // Wrong suit.
    assert!(!can_stack_on_foundation(
        up(Rank::Five, Suit::Spades),
        Some(up(Rank::Four, Suit::Hearts))
    ));
    // Not the next rank.
    assert!(!can_stack_on_foundation(
        up(Rank::Six, Suit::Hearts),
        Some(up(Rank::Four, Suit::Hearts))
    ));
}

#[test]
fn illegal_move_is_a_no_op() {
    let mut g = blank(GameConfig::default());
    g.tableau[0] = TableauColumn::new(vec![up(Rank::Five, Suit::Hearts)]);
    let before = g.clone();
    // Cannot put a red five on a red... there's nothing to put anyway; try
    // an illegal foundation move.
    let err = apply_move(
        &mut g,
        Move::TableauToFoundation {
            column: 0,
            foundation: 0,
        },
    );
    assert_eq!(err, Err(MoveError::IllegalFoundationPlacement));
    assert_eq!(g, before, "state must be unchanged after an illegal move");
}

#[test]
fn tableau_to_foundation_scores_and_autoflips() {
    let mut g = blank(GameConfig::default());
    // Column: [face-down 9♠, face-up A♥]. Moving the Ace to an empty
    // foundation should score +10 and flip the 9♠ (+5).
    g.tableau[0] = TableauColumn::new(vec![
        down(Rank::Nine, Suit::Spades),
        up(Rank::Ace, Suit::Hearts),
    ]);
    apply_move(
        &mut g,
        Move::TableauToFoundation {
            column: 0,
            foundation: 0,
        },
    )
    .unwrap();
    assert_eq!(g.foundations[0].top().unwrap().rank, Rank::Ace);
    assert!(
        g.tableau[0].top().unwrap().face_up,
        "9♠ should be flipped up"
    );
    assert_eq!(g.score().event_points(), 15); // 10 + 5 flip
}

#[test]
fn foundation_to_tableau_penalizes() {
    let mut g = blank(GameConfig::default());
    let mut f = Foundation::new();
    f.push(up(Rank::Ace, Suit::Spades));
    f.push(up(Rank::Two, Suit::Spades));
    g.foundations[0] = f;
    // Two of Spades (black) onto a red Three.
    g.tableau[0] = TableauColumn::new(vec![up(Rank::Three, Suit::Hearts)]);
    apply_move(
        &mut g,
        Move::FoundationToTableau {
            foundation: 0,
            column: 0,
        },
    )
    .unwrap();
    // Score was 0, -15 clamps to 0.
    assert_eq!(g.score().event_points(), 0);
    assert_eq!(g.tableau[0].top().unwrap().rank, Rank::Two);
}

#[test]
fn recycle_respects_limit_and_penalty() {
    // Draw-one with a redeal limit of 1.
    let cfg = GameConfig {
        draw_mode: DrawMode::One,
        redeal_limit: Some(1),
        timed: false,
    };
    let mut g = blank(cfg);
    g.waste = Waste::new(vec![up(Rank::Ace, Suit::Clubs), up(Rank::Two, Suit::Clubs)]);
    // First recycle allowed, penalized -100 (draw-one) clamped to 0.
    apply_move(&mut g, Move::Recycle).unwrap();
    assert_eq!(g.recycles_done(), 1);
    assert!(g.waste.is_empty());
    assert_eq!(g.stock.len(), 2);
    // Draw the stock empty again, then a second recycle is blocked by the limit.
    apply_move(&mut g, Move::Draw).unwrap();
    apply_move(&mut g, Move::Draw).unwrap();
    assert!(g.stock.is_empty());
    let err = apply_move(&mut g, Move::Recycle);
    assert_eq!(err, Err(MoveError::RedealLimitReached));
}

#[test]
fn draw_three_moves_three_cards() {
    let cfg = GameConfig {
        draw_mode: DrawMode::Three,
        ..Default::default()
    };
    let mut g = blank(cfg);
    g.stock = Stock::new(vec![
        down(Rank::Ace, Suit::Clubs),
        down(Rank::Two, Suit::Clubs),
        down(Rank::Three, Suit::Clubs),
        down(Rank::Four, Suit::Clubs),
    ]);
    apply_move(&mut g, Move::Draw).unwrap();
    assert_eq!(g.waste.len(), 3);
    assert!(g.waste.cards().iter().all(|c| c.face_up));
    assert_eq!(g.stock.len(), 1);
}

#[test]
fn move_a_run_between_columns() {
    let mut g = blank(GameConfig::default());
    // Source column top run: 7♥(red), 6♠(black) — a valid descending run.
    g.tableau[0] = TableauColumn::new(vec![
        down(Rank::King, Suit::Clubs),
        up(Rank::Seven, Suit::Hearts),
        up(Rank::Six, Suit::Spades),
    ]);
    // Destination top: 8♠(black) accepts red 7.
    g.tableau[1] = TableauColumn::new(vec![up(Rank::Eight, Suit::Spades)]);
    apply_move(
        &mut g,
        Move::TableauToTableau {
            from: 0,
            to: 1,
            count: 2,
        },
    )
    .unwrap();
    assert_eq!(g.tableau[1].len(), 3);
    assert_eq!(g.tableau[1].top().unwrap().rank, Rank::Six);
    // Source exposed the King and auto-flipped it (+5).
    assert!(g.tableau[0].top().unwrap().face_up);
    assert_eq!(g.score().event_points(), 5);
}

#[test]
fn win_detection() {
    let mut g = blank(GameConfig::default());
    assert!(!g.is_won());
    for (i, suit) in Suit::ALL.into_iter().enumerate() {
        let mut f = Foundation::new();
        for rank in Rank::ALL {
            f.push(up(rank, suit));
        }
        g.foundations[i] = f;
    }
    assert!(g.is_won());
}

#[test]
fn apply_undo_is_identity_and_matches_clone_over_a_walk() {
    // Over several deals, at each reached state, verify for EVERY legal move
    // that (a) apply_undoable then undo_move restores the exact prior state,
    // and (b) apply_undoable equals cloning and calling apply_move.
    for seed in [1u64, 2, 7, 42, 2024, 12345] {
        let mut state = GameState::new_with_seed(seed, GameConfig::default());
        for step in 0..60 {
            let before = state.clone();
            let moves = legal_moves(&state);
            if moves.is_empty() {
                break;
            }
            for &mv in &moves {
                // make == clone-and-apply
                let mut cloned = before.clone();
                apply_move(&mut cloned, mv).expect("legal move applies to clone");
                let undo = apply_undoable(&mut state, mv).expect("legal move applies");
                assert_eq!(state, cloned, "make must equal clone-and-apply: {mv:?}");
                // undo restores exactly
                undo_move(&mut state, mv, undo);
                assert_eq!(
                    state, before,
                    "undo must restore exact state (seed {seed}, step {step}, {mv:?})"
                );
            }
            // Advance to a new state; prefer the last move (tableau/foundation
            // moves sort later) to dig into the deal and exercise auto-flips.
            let mv = *moves.last().unwrap();
            apply_undoable(&mut state, mv).expect("advance move applies");
        }
    }
}

#[test]
fn undo_reverses_auto_flip() {
    let mut g = blank(GameConfig::default());
    // Column: face-down 9♠ beneath a face-up A♥. Moving the Ace up flips 9♠.
    g.tableau[0] = TableauColumn::new(vec![
        down(Rank::Nine, Suit::Spades),
        up(Rank::Ace, Suit::Hearts),
    ]);
    let before = g.clone();
    let mv = Move::TableauToFoundation {
        column: 0,
        foundation: 0,
    };
    let undo = apply_undoable(&mut g, mv).unwrap();
    assert!(
        g.tableau[0].top().unwrap().face_up,
        "9♠ flipped up by the move"
    );
    undo_move(&mut g, mv, undo);
    assert_eq!(g, before, "undo restores the face-down 9♠ and the Ace");
}

#[test]
fn undo_reverses_recycle_with_score_and_count() {
    let cfg = GameConfig {
        draw_mode: DrawMode::One,
        ..GameConfig::default()
    };
    let mut g = blank(cfg);
    g.waste = Waste::new(vec![up(Rank::Ace, Suit::Clubs), up(Rank::Two, Suit::Clubs)]);
    let before = g.clone();
    let undo = apply_undoable(&mut g, Move::Recycle).unwrap();
    assert_eq!(g.recycles_done(), 1);
    assert!(g.stock.len() == 2 && g.waste.is_empty());
    undo_move(&mut g, Move::Recycle, undo);
    assert_eq!(
        g, before,
        "undo restores stock/waste, recycle count, and score"
    );
}

#[test]
fn legal_moves_list_each_move_once() {
    for seed in 0..40u64 {
        let mut s = klondike::GameState::new_with_seed(seed, klondike::GameConfig::default());
        for _ in 0..60 {
            let moves = klondike::legal_moves(&s);
            for i in 0..moves.len() {
                for j in (i + 1)..moves.len() {
                    assert_ne!(moves[i], moves[j]);
                }
            }
            assert!(!(moves.contains(&klondike::Move::Draw) && moves.contains(&klondike::Move::Recycle)));
            match moves.last() {
                Some(mv) => {
                    let mv = *mv;
                    klondike::apply_move(&mut s, mv).unwrap();
                }
                None => break,
            }
        }
    }
}
