//! Tests of the solver's heuristics module.
use klondike::solver::heuristics::{
    apply_empty_column_symmetry, is_safe, move_priority, safe_move_in,
};
use klondike::{legal_moves, Card, Foundation, GameConfig, GameState, Move, Rank, Suit, TableauColumn};

fn up(rank: Rank, suit: Suit) -> Card {
    Card::new(rank, suit).face_up()
}
fn down(rank: Rank, suit: Suit) -> Card {
    Card::new(rank, suit)
}
fn blank() -> GameState {
    let mut g = GameState::new_with_seed(0, GameConfig::default());
    g.stock = Default::default();
    g.waste = Default::default();
    g.foundations = Default::default();
    g.tableau = Default::default();
    g
}

#[test]
fn aces_and_twos_always_safe() {
    let g = blank();
    assert!(is_safe(&g, up(Rank::Ace, Suit::Spades)));
    assert!(is_safe(&g, up(Rank::Two, Suit::Hearts)));
}

#[test]
fn higher_card_safe_when_opposite_colors_caught_up_even_if_same_color_lags() {
    let mut g = blank();
    // Blacks (spades, clubs) at 5; reds uneven (diamonds low). A red 6 is safe
    // because both black 5s are already home.
    let mut s = Foundation::new();
    for r in Rank::ALL.into_iter().take(5) {
        s.push(up(r, Suit::Spades));
    }
    let mut c = Foundation::new();
    for r in Rank::ALL.into_iter().take(5) {
        c.push(up(r, Suit::Clubs));
    }
    g.foundations[0] = s;
    g.foundations[1] = c;
    assert!(is_safe(&g, up(Rank::Six, Suit::Hearts)));
    // A black 6 would need reds at 5 — not the case — so it is unsafe.
    assert!(!is_safe(&g, up(Rank::Six, Suit::Spades)));
}

#[test]
fn safe_move_prefers_a_safe_card() {
    let mut g = blank();
    // Ace on a tableau column can be safely auto-played.
    g.tableau[0] = TableauColumn::new(vec![up(Rank::Ace, Suit::Hearts)]);
    assert_eq!(
        safe_move_in(&g, &legal_moves(&g)),
        Some(Move::TableauToFoundation {
            column: 0,
            foundation: 0
        })
    );
}

#[test]
fn reveal_beats_draw_in_ordering() {
    let mut g = blank();
    // A revealing tableau move vs a draw.
    g.tableau[0] = TableauColumn::new(vec![
        down(Rank::Nine, Suit::Spades),
        up(Rank::Ace, Suit::Hearts),
    ]);
    let reveal = Move::TableauToFoundation {
        column: 0,
        foundation: 0,
    };
    let draw = Move::Draw;
    let pr = move_priority(&g, reveal, None, true);
    let pd = move_priority(&g, draw, None, true);
    assert!(pr < pd, "revealing move should sort before a draw");
}

#[test]
fn consecutive_draw_is_deprioritized() {
    let g = blank();
    let fresh = move_priority(&g, Move::Draw, None, true);
    let after_draw = move_priority(&g, Move::Draw, Some(Move::Draw), true);
    assert!(after_draw > fresh);
}

#[test]
fn foundation_to_tableau_sorts_last() {
    let g = blank();
    let ft = move_priority(
        &g,
        Move::FoundationToTableau {
            foundation: 0,
            column: 0,
        },
        None,
        true,
    );
    let draw = move_priority(&g, Move::Draw, Some(Move::Draw), true);
    assert!(ft > draw, "foundation->tableau is the last resort");
}

#[test]
fn digging_direction_tiebreak() {
    let mut g = blank();
    // Two revealing moves from columns of different heights.
    g.tableau[0] = TableauColumn::new(vec![
        down(Rank::Nine, Suit::Spades),
        up(Rank::Ace, Suit::Hearts),
    ]);
    g.tableau[1] = TableauColumn::new(vec![
        down(Rank::Ten, Suit::Clubs),
        down(Rank::Nine, Suit::Clubs),
        up(Rank::Ace, Suit::Diamonds),
    ]);
    let short = Move::TableauToFoundation {
        column: 0,
        foundation: 0,
    };
    let tall = Move::TableauToFoundation {
        column: 1,
        foundation: 1,
    };
    // Larger-first: the taller column (1) sorts before the shorter (0).
    assert!(move_priority(&g, tall, None, true) < move_priority(&g, short, None, true));
    // Smaller-first inverts it.
    assert!(move_priority(&g, short, None, false) < move_priority(&g, tall, None, false));
}

#[test]
fn empty_column_symmetry_keeps_one_target() {
    let mut g = blank();
    // A King on the waste; columns 1..7 empty (column 0 holds nothing either).
    g.waste = klondike::Waste::new(vec![up(Rank::King, Suit::Spades)]);
    // All 7 columns empty -> a King-to-empty move exists for each.
    let moves = vec![
        Move::WasteToTableau { column: 0 },
        Move::WasteToTableau { column: 3 },
        Move::WasteToTableau { column: 6 },
    ];
    let pruned = apply_empty_column_symmetry(&g, moves);
    assert_eq!(pruned, vec![Move::WasteToTableau { column: 0 }]);
}

#[test]
fn heuristics_rank_moves_whose_foundation_they_never_read() {
    let mut g = blank();
    g.tableau[0] = TableauColumn::new(vec![up(Rank::Ace, Suit::Hearts)]);
    assert_eq!(move_priority(&g, Move::FoundationToTableau { foundation: 7, column: 2 }, None, true), (4, 0));
    assert_eq!(move_priority(&g, Move::WasteToFoundation { foundation: 9 }, None, true), (1, 0));
    // The column names the card; the foundation number is not looked at.
    assert_eq!(
        safe_move_in(&g, &[Move::TableauToFoundation { column: 0, foundation: 11 }]),
        Some(Move::TableauToFoundation { column: 0, foundation: 11 })
    );
    let moves = vec![Move::WasteToFoundation { foundation: 8 }, Move::Recycle];
    assert_eq!(apply_empty_column_symmetry(&g, moves.clone()), moves);
}
