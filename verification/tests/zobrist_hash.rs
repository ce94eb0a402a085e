//! Tests of the solver's zobrist module.
use klondike::solver::encode::encode;
use klondike::{
    apply_undoable, legal_moves, zobrist, Card, DrawMode, Foundation, GameConfig, GameState, Rank,
    Suit,
};

#[test]
fn deterministic_and_positional_only() {
    let a = GameState::new_with_seed(7, GameConfig::default());
    assert_eq!(zobrist(&a), zobrist(&a));
    let mut b = a.clone();
    b.set_elapsed_secs(9999); // score/time must not affect the hash
    assert_eq!(zobrist(&a), zobrist(&b));
}

#[test]
fn foundation_slots_are_interchangeable() {
    let mut a = GameState::new_with_seed(0, GameConfig::default());
    a.stock = Default::default();
    a.waste = Default::default();
    a.foundations = Default::default();
    a.tableau = Default::default();
    let mut b = a.clone();
    let ace_h = Card::new(Rank::Ace, Suit::Hearts).face_up();
    let ace_s = Card::new(Rank::Ace, Suit::Spades).face_up();
    // Same contents, different foundation slots.
    a.foundations[0] = {
        let mut f = Foundation::new();
        f.push(ace_h);
        f
    };
    a.foundations[1] = {
        let mut f = Foundation::new();
        f.push(ace_s);
        f
    };
    b.foundations[2] = {
        let mut f = Foundation::new();
        f.push(ace_h);
        f
    };
    b.foundations[3] = {
        let mut f = Foundation::new();
        f.push(ace_s);
        f
    };
    assert_eq!(zobrist(&a), zobrist(&b));
}

#[test]
fn hash_identity_matches_byte_encoding() {
    // Over a walk, collect (byte key, zobrist) and assert they induce the
    // same equality relation: encode_eq(x,y) <=> zobrist_eq(x,y).
    for cfg in [
        GameConfig::default(),
        GameConfig {
            draw_mode: DrawMode::One,
            redeal_limit: Some(2),
            timed: false,
        },
    ] {
        let mut state = GameState::new_with_seed(42, cfg);
        let mut samples = Vec::new();
        for step in 0..120 {
            samples.push((encode(&state), zobrist(&state)));
            let moves = legal_moves(&state);
            if moves.is_empty() {
                break;
            }
            apply_undoable(&mut state, moves[step % moves.len()]).unwrap();
        }
        for (i, (e1, z1)) in samples.iter().enumerate() {
            for (e2, z2) in samples.iter().skip(i) {
                assert_eq!(
                    e1 == e2,
                    z1 == z2,
                    "zobrist equality must match byte-encoding equality"
                );
            }
        }
    }
}
