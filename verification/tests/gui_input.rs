//! Tests of pointer-selection move resolution.
use klondike::gui::input::{auto_target, move_dest, resolve, source_of, source_pile, Hit, Pile, Source};
use klondike::{Card, Foundation, GameConfig, GameState, Move, Rank, Suit, TableauColumn, Waste};

fn up(rank: Rank, suit: Suit) -> Card {
    Card::new(rank, suit).face_up()
}

fn blank() -> GameState {
    let mut g = GameState::new_with_seed(0, GameConfig::default());
    g.stock = Default::default();
    g.waste = Default::default();
    g.foundations = Default::default();
    g.tableau = Default::default();
    g
}

#[test]
fn hits_select_only_face_up_cards() {
    let mut g = blank();
    assert_eq!(source_of(&g, Hit::Waste), None);
    g.waste = Waste::new(vec![up(Rank::Ace, Suit::Hearts)]);
    assert_eq!(source_of(&g, Hit::Waste), Some(Source::Waste));
    g.tableau[2] = TableauColumn::new(vec![
        Card::new(Rank::Four, Suit::Clubs),
        up(Rank::Nine, Suit::Hearts),
    ]);
    assert_eq!(source_of(&g, Hit::TableauCard { col: 2, index: 0 }), None);
    assert_eq!(
        source_of(&g, Hit::TableauCard { col: 2, index: 1 }),
        Some(Source::TableauRun { col: 2, index: 1 })
    );
    assert_eq!(source_of(&g, Hit::TableauCard { col: 2, index: 5 }), None);
    assert_eq!(source_of(&g, Hit::Foundation(1)), None);
    assert_eq!(source_of(&g, Hit::Stock), None);
    assert_eq!(source_of(&g, Hit::Nowhere), None);
}

#[test]
fn moves_land_where_they_say() {
    assert_eq!(
        move_dest(&Move::TableauToTableau { from: 1, to: 4, count: 3 }),
        Some((Pile::Tableau(4), 3))
    );
    assert_eq!(
        move_dest(&Move::WasteToFoundation { foundation: 2 }),
        Some((Pile::Foundation(2), 1))
    );
    assert_eq!(move_dest(&Move::Draw), None);
    assert_eq!(move_dest(&Move::Recycle), None);
}

#[test]
fn selections_resolve_to_legal_moves() {
    let mut g = blank();
    g.waste = Waste::new(vec![up(Rank::Ace, Suit::Hearts)]);
    assert_eq!(
        resolve(&g, Source::Waste, Pile::Foundation(3)),
        Some(Move::WasteToFoundation { foundation: 0 })
    );
    g.tableau[0] = TableauColumn::new(vec![
        up(Rank::Nine, Suit::Hearts),
        up(Rank::Eight, Suit::Spades),
    ]);
    g.tableau[1] = TableauColumn::new(vec![up(Rank::Ten, Suit::Spades)]);
    assert_eq!(
        resolve(&g, Source::TableauRun { col: 0, index: 0 }, Pile::Tableau(1)),
        Some(Move::TableauToTableau { from: 0, to: 1, count: 2 })
    );
    assert_eq!(resolve(&g, Source::TableauRun { col: 0, index: 1 }, Pile::Tableau(1)), None);
    // Only a column's top card goes to a foundation.
    assert_eq!(resolve(&g, Source::TableauRun { col: 0, index: 0 }, Pile::Foundation(0)), None);
    let mut f = Foundation::new();
    f.push(up(Rank::Ace, Suit::Clubs));
    g.foundations[0] = f;
    g.tableau[3] = TableauColumn::new(vec![up(Rank::Two, Suit::Clubs)]);
    assert_eq!(
        resolve(&g, Source::TableauRun { col: 3, index: 0 }, Pile::Foundation(2)),
        Some(Move::TableauToFoundation { column: 3, foundation: 0 })
    );
    assert_eq!(resolve(&g, Source::Waste, Pile::Waste), None);
}

#[test]
fn auto_prefers_a_foundation() {
    let mut g = blank();
    g.waste = Waste::new(vec![up(Rank::Ace, Suit::Hearts)]);
    g.tableau[0] = TableauColumn::new(vec![up(Rank::Two, Suit::Spades)]);
    assert_eq!(
        auto_target(&g, Source::Waste),
        Some(Move::WasteToFoundation { foundation: 0 })
    );
    g.waste = Waste::new(vec![up(Rank::Nine, Suit::Hearts)]);
    g.tableau[1] = TableauColumn::new(vec![up(Rank::Ten, Suit::Clubs)]);
    assert_eq!(
        auto_target(&g, Source::Waste),
        Some(Move::WasteToTableau { column: 1 })
    );
    assert_eq!(auto_target(&g, Source::Foundation(0)), None);
}

#[test]
fn sources_occupy_their_piles() {
    assert_eq!(source_pile(Source::TableauRun { col: 3, index: 1 }, 4), (Pile::Tableau(3), 4));
    assert_eq!(source_pile(Source::Waste, 4), (Pile::Waste, 1));
    assert_eq!(source_pile(Source::Foundation(2), 4), (Pile::Foundation(2), 1));
}
