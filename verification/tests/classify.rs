//! Tests of the solver's classify module.
use klondike::solver::classify::{apply_equivalence_pruning, is_no_op, no_op_structural};
use klondike::{Card, GameConfig, GameState, Move, Rank, Suit, TableauColumn};

fn up(rank: Rank, suit: Suit) -> Card {
    Card::new(rank, suit).face_up()
}
fn down(rank: Rank, suit: Suit) -> Card {
    Card::new(rank, suit)
}

fn blank() -> GameState {
    let mut g = GameState::new_with_seed(0, GameConfig::default());
    g.stock = Default::default();
    g.waste = Default::default();
    g.foundations = Default::default();
    g.tableau = Default::default();
    g
}

/// Apply a move to a clone and return the child (helper mirroring the search).
fn child_of(pre: &GameState, mv: Move) -> GameState {
    let mut c = pre.clone();
    c.apply(mv).expect("legal move");
    c
}

#[test]
fn king_between_empty_columns_is_no_op() {
    let mut g = blank();
    g.tableau[0] = TableauColumn::new(vec![up(Rank::King, Suit::Spades)]);
    // column 1 is empty
    let mv = Move::TableauToTableau {
        from: 0,
        to: 1,
        count: 1,
    };
    assert!(is_no_op(&g, mv, &child_of(&g, mv)));
}

#[test]
fn lateral_shift_between_equivalent_hosts_is_no_op() {
    let mut g = blank();
    // red 2 on black 3 (3♠); another black 3 (3♣) elsewhere; neither 3 can move.
    g.tableau[0] = TableauColumn::new(vec![
        up(Rank::Three, Suit::Spades),
        up(Rank::Two, Suit::Hearts),
    ]);
    g.tableau[1] = TableauColumn::new(vec![up(Rank::Three, Suit::Clubs)]);
    let mv = Move::TableauToTableau {
        from: 0,
        to: 1,
        count: 1,
    };
    assert!(is_no_op(&g, mv, &child_of(&g, mv)));
}

#[test]
fn revealing_move_is_not_a_no_op() {
    let mut g = blank();
    // Moving the red 2 exposes a FACE-DOWN card -> reveal -> not a no-op.
    g.tableau[0] = TableauColumn::new(vec![
        down(Rank::Nine, Suit::Spades),
        up(Rank::Two, Suit::Hearts),
    ]);
    g.tableau[1] = TableauColumn::new(vec![up(Rank::Three, Suit::Clubs)]);
    let mv = Move::TableauToTableau {
        from: 0,
        to: 1,
        count: 1,
    };
    assert!(!is_no_op(&g, mv, &child_of(&g, mv)));
}

#[test]
fn exposed_card_with_a_move_is_not_a_no_op() {
    let mut g = blank();
    // Move red 2 off black 3 (3♠); 3♠ CAN then go onto a red 4 -> productive.
    g.tableau[0] = TableauColumn::new(vec![
        up(Rank::Three, Suit::Spades),
        up(Rank::Two, Suit::Hearts),
    ]);
    g.tableau[1] = TableauColumn::new(vec![up(Rank::Three, Suit::Clubs)]);
    g.tableau[2] = TableauColumn::new(vec![up(Rank::Four, Suit::Diamonds)]); // red 4 accepts 3♠
    let mv = Move::TableauToTableau {
        from: 0,
        to: 1,
        count: 1,
    };
    assert!(!is_no_op(&g, mv, &child_of(&g, mv)));
}

#[test]
fn stock_and_foundation_moves_are_never_no_ops() {
    let mut g = blank();
    g.tableau[0] = TableauColumn::new(vec![up(Rank::Ace, Suit::Hearts)]);
    // Draw and foundation moves short-circuit to false.
    let child = g.clone();
    assert!(!is_no_op(&g, Move::Draw, &child));
    assert!(!is_no_op(
        &g,
        Move::TableauToFoundation {
            column: 0,
            foundation: 0
        },
        &child
    ));
}

#[test]
fn classifiers_pass_over_moves_whose_foundation_they_never_read() {
    let g = blank();
    // Foundation numbers are never read: such moves are simply not no-ops.
    assert_eq!(no_op_structural(&g, Move::WasteToFoundation { foundation: 9 }), None);
    assert_eq!(no_op_structural(&g, Move::FoundationToTableau { foundation: 7, column: 0 }), None);
    let moves = vec![
        Move::TableauToFoundation { column: 0, foundation: 12 },
        Move::WasteToFoundation { foundation: 5 },
        Move::Draw,
    ];
    assert_eq!(apply_equivalence_pruning(&g, moves.clone()), moves);
}
