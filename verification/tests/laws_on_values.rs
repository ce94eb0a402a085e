//! The library's laws, checked on concrete positions.
use klondike::solver::{encode, zobrist};
use klondike::{solve_state, KeyStrategy, SolveBudget, SolveOptions, Verdict};
use klondike::{
    apply_move, apply_undoable, legal_moves, undo_move, Card, DrawMode, Foundation, GameConfig,
    GameState, Move, MoveError, Rank, Stock, Suit, TableauColumn, Waste,
};

fn up(rank: Rank, suit: Suit) -> Card {
    Card::new(rank, suit).face_up()
}

fn blank(config: GameConfig) -> GameState {
    let mut g = GameState::new_with_seed(0, config);
    g.stock = Stock::default();
    g.waste = Waste::default();
    g.foundations = Default::default();
    g.tableau = Default::default();
    g
}

/// Every card of the position, face ignored, sorted.
fn census(g: &GameState) -> Vec<(u8, u8)> {
    let mut all: Vec<(u8, u8)> = Vec::new();
    let mut add = |cs: &[Card]| {
        for c in cs {
            all.push((c.suit.index(), c.rank.value()));
        }
    };
    add(g.stock.cards());
    add(g.waste.cards());
    for f in &g.foundations {
        add(f.cards());
    }
    for t in &g.tableau {
        add(t.cards());
    }
    all.sort();
    all
}

/// Face-down cards sit only below the face-up run of a column, whose top is
/// face-up; the stock is face-down and the waste face-up.
fn well_laid(g: &GameState) -> bool {
    let cols_ok = g.tableau.iter().all(|t| {
        let cs = t.cards();
        let first_up = cs.iter().position(|c| c.face_up).unwrap_or(cs.len());
        cs[first_up..].iter().all(|c| c.face_up) && cs.last().map_or(true, |c| c.face_up)
    });
    cols_ok
        && g.stock.cards().iter().all(|c| !c.face_up)
        && g.waste.cards().iter().all(|c| c.face_up)
        && g.foundations.iter().all(|f| f.cards().iter().all(|c| c.face_up))
}

#[test]
fn moves_keep_all_fifty_two_cards_and_lay_them_right() {
    for seed in [3u64, 11, 99] {
        let mut g = GameState::new_with_seed(seed, GameConfig::default());
        let start = census(&g);
        assert_eq!(start.len(), 52);
        assert!(well_laid(&g));
        for _ in 0..80 {
            let moves = legal_moves(&g);
            let mv = match moves.last() {
                Some(m) => *m,
                None => break,
            };
            apply_move(&mut g, mv).expect("a legal move applies");
            assert_eq!(census(&g), start);
            assert!(well_laid(&g));
        }
    }
}

#[test]
fn keys_ignore_score_clock_and_recycles() {
    let mut a = GameState::new_with_seed(5, GameConfig::default());
    let b = a.clone();
    a.set_elapsed_secs(500);
    assert_eq!(encode(&a).bytes(), encode(&b).bytes());
    assert_eq!(zobrist(&a), zobrist(&b));
    // Same piles reached with a different score: draw then undo keeps the key.
    let mut c = b.clone();
    let u = apply_undoable(&mut c, Move::Draw).unwrap();
    assert_ne!(encode(&c).bytes(), encode(&b).bytes());
    undo_move(&mut c, Move::Draw, u);
    assert_eq!(encode(&c).bytes(), encode(&b).bytes());
}

#[test]
fn keys_ignore_which_slot_holds_a_foundation() {
    let mut a = blank(GameConfig::default());
    let mut hearts = Foundation::new();
    hearts.push(up(Rank::Ace, Suit::Hearts));
    let mut clubs = Foundation::new();
    clubs.push(up(Rank::Ace, Suit::Clubs));
    clubs.push(up(Rank::Two, Suit::Clubs));
    a.foundations[0] = hearts.clone();
    a.foundations[1] = clubs.clone();
    let mut b = blank(GameConfig::default());
    b.foundations[3] = hearts;
    b.foundations[2] = clubs;
    assert_eq!(encode(&a).bytes(), encode(&b).bytes());
    assert_eq!(zobrist(&a), zobrist(&b));
    // A different position has a different key.
    b.tableau[0] = TableauColumn::new(vec![up(Rank::King, Suit::Spades)]);
    assert_ne!(encode(&a).bytes(), encode(&b).bytes());
    assert_ne!(zobrist(&a), zobrist(&b));
}

#[test]
fn each_move_error_has_its_input() {
    let config = GameConfig {
        draw_mode: DrawMode::One,
        redeal_limit: Some(0),
        timed: false,
    };
    let mut g = blank(config);
    let before = g.clone();
    let cases = [
        (Move::WasteToTableau { column: 9 }, MoveError::IndexOutOfRange),
        (Move::WasteToFoundation { foundation: 0 }, MoveError::EmptySource),
        (Move::Draw, MoveError::StockEmpty),
    ];
    for (mv, want) in cases {
        assert_eq!(apply_move(&mut g, mv), Err(want), "{mv:?}");
        assert_eq!(g, before, "a rejected move leaves the state alone");
    }
    g.stock = Stock::new(vec![Card::new(Rank::Two, Suit::Clubs)]);
    assert_eq!(apply_move(&mut g, Move::Recycle), Err(MoveError::StockNotEmpty));
    g.stock = Stock::default();
    g.waste = Waste::new(vec![up(Rank::Two, Suit::Clubs)]);
    assert_eq!(apply_move(&mut g, Move::Recycle), Err(MoveError::RedealLimitReached));
    assert_eq!(
        apply_move(&mut g, Move::WasteToFoundation { foundation: 0 }),
        Err(MoveError::IllegalFoundationPlacement)
    );
    assert_eq!(
        apply_move(&mut g, Move::WasteToTableau { column: 0 }),
        Err(MoveError::IllegalTableauPlacement)
    );
    g.tableau[0] = TableauColumn::new(vec![up(Rank::Five, Suit::Hearts)]);
    assert_eq!(
        apply_move(&mut g, Move::TableauToTableau { from: 0, to: 1, count: 2 }),
        Err(MoveError::InvalidRun)
    );
    assert_eq!(MoveError::IndexOutOfRange.message(), "pile index out of range");
    assert_eq!(MoveError::InvalidRun.message(), "invalid tableau run length");
    assert_eq!(MoveError::StockNotEmpty.message(), "stock is not empty; cannot recycle");
}

#[test]
fn a_won_position_is_recognised() {
    let mut g = blank(GameConfig::default());
    for (i, suit) in [Suit::Clubs, Suit::Diamonds, Suit::Hearts, Suit::Spades]
        .into_iter()
        .enumerate()
    {
        let mut f = Foundation::new();
        for r in Rank::ALL {
            f.push(up(r, suit));
        }
        assert!(f.is_complete());
        g.foundations[i] = f;
    }
    assert!(g.is_won());
    assert!(legal_moves(&g)
        .iter()
        .all(|m| matches!(m, Move::FoundationToTableau { .. })));
}

#[test]
fn turning_a_card_keeps_its_identity() {
    let c = up(Rank::Queen, Suit::Diamonds);
    let d = c.face_down();
    assert!(!d.face_up);
    assert_eq!((d.rank, d.suit), (Rank::Queen, Suit::Diamonds));
    assert_eq!(d.face_up(), c);
    assert_eq!(d.to_string(), "[]");
    assert_eq!(c.to_string(), "Q♦");
}

#[test]
fn exact_keys_tell_positions_apart() {
    let a = GameState::new_with_seed(1, GameConfig::default());
    let b = GameState::new_with_seed(2, GameConfig::default());
    assert_ne!(encode(&a).bytes(), encode(&b).bytes());
    let mut c = a.clone();
    apply_move(&mut c, Move::Draw).unwrap();
    assert_ne!(encode(&a).bytes(), encode(&c).bytes());
    // The key's length: 7 columns (28 cards + 7 length bytes), stock and
    // waste (24 cards + 2 length bytes), 4 foundation bytes.
    assert_eq!(encode(&a).len(), 28 + 7 + 24 + 2 + 4);
}

#[test]
fn a_plain_search_reports_a_stuck_position_unwinnable() {
    let plain = SolveOptions {
        no_op_pruning: false,
        equivalence_pruning: false,
        safe_automoves: false,
        move_ordering: false,
        empty_column_symmetry: false,
        dig_larger_first: true,
        transposition_table: false,
        max_table_entries: 0,
        key: KeyStrategy::ExactBytes,
    };
    let budget = SolveBudget {
        max_nodes: None,
        max_time: None,
    };
    // Nothing to move and nothing to draw: no line wins.
    let mut g = blank(GameConfig::default());
    g.tableau[0] = TableauColumn::new(vec![
        Card::new(Rank::Two, Suit::Clubs),
        up(Rank::Three, Suit::Hearts),
    ]);
    let r = solve_state(&g, budget, plain);
    assert_eq!(r.verdict, Verdict::Unwinnable);
    assert!(!r.solvable);
    // One foundation move short of a win: solvable with a one-move line.
    let mut w = blank(GameConfig::default());
    for (i, suit) in [Suit::Clubs, Suit::Diamonds, Suit::Hearts, Suit::Spades]
        .into_iter()
        .enumerate()
    {
        let mut f = Foundation::new();
        for r in Rank::ALL {
            if !(suit == Suit::Spades && r == Rank::King) {
                f.push(up(r, suit));
            }
        }
        w.foundations[i] = f;
    }
    w.tableau[0] = TableauColumn::new(vec![up(Rank::King, Suit::Spades)]);
    let r = solve_state(&w, budget, plain);
    assert_eq!(r.verdict, Verdict::Solvable);
    assert_eq!(r.moveset.as_ref().map(|m| m.len()), Some(1));
}

#[test]
fn an_ordered_search_with_a_table_reports_a_stuck_position_unwinnable() {
    let with_table = SolveOptions {
        no_op_pruning: false,
        equivalence_pruning: false,
        safe_automoves: false,
        move_ordering: true,
        empty_column_symmetry: true,
        dig_larger_first: true,
        transposition_table: true,
        max_table_entries: 4,
        key: KeyStrategy::ExactBytes,
    };
    let budget = SolveBudget {
        max_nodes: None,
        max_time: None,
    };
    // A stock to cycle through but no card that can ever be played: the
    // search walks the draws and recycles, closes them in a small table, and
    // finds no win.
    let mut g = blank(GameConfig::default());
    g.tableau[0] = TableauColumn::new(vec![
        Card::new(Rank::Two, Suit::Clubs),
        up(Rank::Three, Suit::Hearts),
    ]);
    g.stock = Stock::new(vec![
        Card::new(Rank::Four, Suit::Hearts),
        Card::new(Rank::Six, Suit::Diamonds),
        Card::new(Rank::Eight, Suit::Hearts),
    ]);
    let r = solve_state(&g, budget, with_table);
    assert_eq!(r.verdict, Verdict::Unwinnable);
    assert!(!r.solvable);
    assert!(r.table_entries >= 1);
}

#[test]
fn a_search_with_empty_column_symmetry_reports_a_dead_end_unwinnable() {
    let symmetric = SolveOptions {
        no_op_pruning: false,
        equivalence_pruning: false,
        safe_automoves: false,
        move_ordering: true,
        empty_column_symmetry: true,
        dig_larger_first: true,
        transposition_table: true,
        max_table_entries: 64,
        key: KeyStrategy::ExactBytes,
    };
    let budget = SolveBudget {
        max_nodes: None,
        max_time: None,
    };
    // A King with six empty columns to go to, and a Queen under it: every
    // line shuffles them among the columns, none wins.
    let mut g = blank(GameConfig::default());
    g.tableau[0] = TableauColumn::new(vec![
        Card::new(Rank::Queen, Suit::Diamonds),
        up(Rank::King, Suit::Spades),
    ]);
    let r = solve_state(&g, budget, symmetric);
    assert_eq!(r.verdict, Verdict::Unwinnable);
    let plain = SolveOptions { empty_column_symmetry: false, ..symmetric };
    let r2 = solve_state(&g, budget, plain);
    assert_eq!(r2.verdict, Verdict::Unwinnable);
    assert!(r.nodes_expanded <= r2.nodes_expanded);
}

/// A winnable position that forced "safe" foundation moves lose: the Five of
/// Hearts must stay down to host a black Four, which must host the Three of
/// Diamonds so that the Two under it can be turned; but the Five counts as
/// safe (both black foundations stand at Four) and is sent up at once.
fn safe_move_trap() -> GameState {
    let mut g = blank(GameConfig::default());
    for (i, suit, top) in [
        (0usize, Suit::Spades, 4usize),
        (1, Suit::Clubs, 4),
        (2, Suit::Hearts, 4),
        (3, Suit::Diamonds, 1),
    ] {
        let mut f = Foundation::new();
        for r in Rank::ALL.into_iter().take(top) {
            f.push(up(r, suit));
        }
        g.foundations[i] = f;
    }
    g.tableau[0] = TableauColumn::new(vec![
        Card::new(Rank::Five, Suit::Diamonds),
        Card::new(Rank::Two, Suit::Diamonds),
        up(Rank::Three, Suit::Diamonds),
    ]);
    g.tableau[1] = TableauColumn::new(vec![up(Rank::Five, Suit::Hearts)]);
    // Every other card in one column, face-down, in the order the
    // foundations take them once the Diamonds are free; the Four on top.
    let mut rest: Vec<Card> = vec![Card::new(Rank::Four, Suit::Diamonds)];
    for (k, r) in Rank::ALL.into_iter().enumerate().skip(4) {
        rest.push(Card::new(r, Suit::Spades));
        rest.push(Card::new(r, Suit::Clubs));
        if k + 1 < 13 {
            rest.push(Card::new(Rank::ALL[k + 1], Suit::Hearts));
            rest.push(Card::new(Rank::ALL[k + 1], Suit::Diamonds));
        }
    }
    rest.reverse();
    let top = rest.len() - 1;
    rest[top] = rest[top].face_up();
    g.tableau[2] = TableauColumn::new(rest);
    g
}

#[test]
fn forced_safe_moves_can_lose_a_win() {
    let g = safe_move_trap();
    let budget = SolveBudget {
        max_nodes: Some(2_000_000),
        max_time: None,
    };
    let exact = SolveOptions {
        no_op_pruning: false,
        equivalence_pruning: false,
        safe_automoves: false,
        move_ordering: true,
        empty_column_symmetry: false,
        dig_larger_first: true,
        transposition_table: true,
        max_table_entries: 1 << 20,
        key: KeyStrategy::ExactBytes,
    };
    // Trying every move finds the win: Four of Spades down onto the Five,
    // the Three onto it, and the Two is turned.
    let r = solve_state(&g, budget, exact);
    assert_eq!(r.verdict, Verdict::Solvable);
    // The line it found replays to a win, so the deal is winnable.
    let mut t = g.clone();
    for mv in r.moveset.clone().unwrap() {
        klondike::apply_move(&mut t, mv).unwrap();
    }
    assert!(t.is_won());
    // Forcing the safe moves sends the Five up first and never finds it.
    let forced = SolveOptions { safe_automoves: true, ..exact };
    let r = solve_state(&g, budget, forced);
    assert_eq!(r.verdict, Verdict::Unwinnable);
}

#[test]
fn default_options_call_a_winnable_position_unwinnable() {
    // The defaults force safe moves too, so the same winnable position is
    // reported unwinnable: that verdict speaks only of the moves tried.
    let g = safe_move_trap();
    let budget = SolveBudget {
        max_nodes: Some(2_000_000),
        max_time: None,
    };
    let r = solve_state(&g, budget, SolveOptions::default());
    assert_eq!(r.verdict, Verdict::Unwinnable);
}
