//! Tests of the state module.
use klondike::{
    Card, DrawMode, Foundation, GameConfig, GameState, Rank, Stock, Suit, TableauColumn, Waste,
};

#[test]
fn default_config_is_classic() {
    let c = GameConfig::default();
    assert_eq!(c.draw_mode, DrawMode::Three);
    assert_eq!(c.redeal_limit, None);
    assert!(!c.timed);
}

#[test]
fn initial_layout_is_correct() {
    let g = GameState::new_with_seed(42, GameConfig::default());
    // Column i has i+1 cards, only the top face-up.
    for (i, col) in g.tableau.iter().enumerate() {
        assert_eq!(col.len(), i + 1, "column {i} size");
        let face_up: Vec<_> = col.cards().iter().filter(|c| c.face_up).collect();
        assert_eq!(
            face_up.len(),
            1,
            "column {i} should have exactly one face-up card"
        );
        assert!(
            col.top().unwrap().face_up,
            "column {i} top should be face-up"
        );
        assert!(col.invariant_holds());
    }
    // 28 dealt to tableau, 24 remain in the stock.
    assert_eq!(g.stock.len(), 24);
    assert!(g.stock.cards().iter().all(|c| !c.face_up));
    assert!(g.waste.is_empty());
    assert!(g.foundations.iter().all(|f| f.is_empty()));
}

#[test]
fn deal_is_reproducible() {
    let a = GameState::new_with_seed(2024, GameConfig::default());
    let b = GameState::new_with_seed(2024, GameConfig::default());
    assert_eq!(a, b);
    // A different seed almost certainly differs.
    let c = GameState::new_with_seed(2025, GameConfig::default());
    assert_ne!(a, c);
}

#[test]
fn state_retains_seed_and_config() {
    let cfg = GameConfig {
        draw_mode: DrawMode::One,
        redeal_limit: Some(3),
        timed: true,
    };
    let g = GameState::new_with_seed(7, cfg);
    assert_eq!(g.seed(), 7);
    assert_eq!(g.config(), cfg);
}

#[test]
fn total_dealt_cards_is_52() {
    let g = GameState::new_with_seed(1, GameConfig::default());
    let tableau_cards: usize = g.tableau.iter().map(|c| c.len()).sum();
    assert_eq!(tableau_cards + g.stock.len() + g.waste.len(), 52);
}

#[test]
fn from_piles_sets_up_the_given_position() {
    let ace = Card { rank: Rank::Ace, suit: Suit::Spades, face_up: true };
    let two = Card { rank: Rank::Two, suit: Suit::Hearts, face_up: false };
    let mut f0 = Foundation::new();
    f0.push(ace);
    let tableau = [
        TableauColumn::new(vec![two]),
        TableauColumn::new(vec![]),
        TableauColumn::new(vec![]),
        TableauColumn::new(vec![]),
        TableauColumn::new(vec![]),
        TableauColumn::new(vec![]),
        TableauColumn::new(vec![]),
    ];
    let g = GameState::from_piles(
        Stock::new(vec![]),
        Waste::new(vec![]),
        [f0, Foundation::new(), Foundation::new(), Foundation::new()],
        tableau,
        9,
        GameConfig::default(),
    );
    assert_eq!(g.seed(), 9);
    assert_eq!(g.config(), GameConfig::default());
    assert_eq!(g.recycles_done(), 0);
    assert_eq!(g.score().event_points(), 0);
    assert_eq!(g.foundations[0].top(), Some(ace));
    assert_eq!(g.tableau[0].len(), 1);
    assert!(g.stock.is_empty() && g.waste.is_empty());
    assert!(!g.is_won());
}
