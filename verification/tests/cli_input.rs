//! Tests of key mapping and move resolution for the terminal front-end.
use klondike::cli::input::{auto_target, key_to_pile, resolve_move};
use klondike::cli::Pile;
use klondike::{Card, Foundation, GameConfig, GameState, Move, Rank, Suit, TableauColumn};

fn up(rank: Rank, suit: Suit) -> Card {
    Card::new(rank, suit).face_up()
}

/// A bare state we can hand-arrange for focused resolution tests.
fn blank() -> GameState {
    let mut g = GameState::new_with_seed(0, GameConfig::default());
    g.stock = Default::default();
    g.waste = Default::default();
    g.foundations = Default::default();
    g.tableau = Default::default();
    g
}

#[test]
fn foundation_to_tableau_resolves() {
    let mut g = blank();
    let mut f = Foundation::new();
    f.push(up(Rank::Ace, Suit::Hearts));
    f.push(up(Rank::Two, Suit::Hearts));
    g.foundations[0] = f;
    // 3♠ (black) top accepts the red 2♥ from the foundation.
    g.tableau[0] = TableauColumn::new(vec![up(Rank::Three, Suit::Spades)]);
    assert_eq!(
        resolve_move(&g, Pile::Foundation(0), Pile::Tableau(0)),
        Ok(Some(Move::FoundationToTableau {
            foundation: 0,
            column: 0
        }))
    );
}

#[test]
fn auto_assign_prefers_the_largest_run() {
    let mut g = blank();
    // Source column: valid face-up run 9♥ 8♠ 7♦ (red/black/red descending).
    g.tableau[0] = TableauColumn::new(vec![
        up(Rank::Nine, Suit::Hearts),
        up(Rank::Eight, Suit::Spades),
        up(Rank::Seven, Suit::Diamonds),
    ]);
    // 10♠ accepts the full 3-card run (bottom 9♥); 9♦ accepts only the 2-card
    // run (bottom 8♠). Greedy auto should pick the 3-card move.
    g.tableau[1] = TableauColumn::new(vec![up(Rank::Ten, Suit::Spades)]);
    g.tableau[2] = TableauColumn::new(vec![up(Rank::Nine, Suit::Diamonds)]);
    assert_eq!(
        auto_target(&g, Pile::Tableau(0)),
        Some(Move::TableauToTableau {
            from: 0,
            to: 1,
            count: 3
        })
    );
}

#[test]
fn key_mapping() {
    assert_eq!(key_to_pile('1'), Some(Pile::Tableau(0)));
    assert_eq!(key_to_pile('7'), Some(Pile::Tableau(6)));
    assert_eq!(key_to_pile('8'), Some(Pile::Foundation(0)));
    assert_eq!(key_to_pile('9'), Some(Pile::Foundation(1)));
    assert_eq!(key_to_pile('0'), Some(Pile::Foundation(2)));
    assert_eq!(key_to_pile('-'), Some(Pile::Foundation(3)));
    assert_eq!(key_to_pile(' '), Some(Pile::StockWaste));
    assert_eq!(key_to_pile('x'), None);
    assert_eq!(key_to_pile('4'), Some(Pile::Tableau(3)));
}

#[test]
fn tableau_pair_resolves_the_one_fitting_run() {
    let mut g = blank();
    // Column 1 holds the run 8♠ 7♦ 6♣.
    g.tableau[0] = TableauColumn::new(vec![
        up(Rank::Eight, Suit::Spades),
        up(Rank::Seven, Suit::Diamonds),
        up(Rank::Six, Suit::Clubs),
    ]);
    // An empty column accepts only a King-led run: nothing fits.
    assert_eq!(resolve_move(&g, Pile::Tableau(0), Pile::Tableau(1)), Ok(None));
    // 9♥ takes the whole run (bottom 8♠) and nothing shorter.
    g.tableau[1] = TableauColumn::new(vec![up(Rank::Nine, Suit::Hearts)]);
    assert_eq!(
        resolve_move(&g, Pile::Tableau(0), Pile::Tableau(1)),
        Ok(Some(Move::TableauToTableau {
            from: 0,
            to: 1,
            count: 3
        }))
    );
    // Auto-assign from an empty source has nothing to play.
    assert_eq!(auto_target(&g, Pile::Tableau(2)), None);
}
