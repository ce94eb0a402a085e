//! Tests of the solver's encode module.
use klondike::solver::encode::encode;
use klondike::{DrawMode, GameConfig, GameState};

#[test]
fn deterministic() {
    let g = GameState::new_with_seed(42, GameConfig::default());
    assert_eq!(encode(&g), encode(&g));
}

#[test]
fn distinct_positions_differ() {
    let mut g = GameState::new_with_seed(42, GameConfig::default());
    let before = encode(&g);
    g.apply(klondike::Move::Draw).unwrap();
    assert_ne!(before, encode(&g), "drawing must change the encoding");
}

#[test]
fn excludes_score_and_time() {
    let a = GameState::new_with_seed(7, GameConfig::default());
    let mut b = a.clone();
    b.set_elapsed_secs(9999); // affects score/time, not the position
    assert_eq!(encode(&a), encode(&b));
}

#[test]
fn unlimited_redeal_ignores_recycle_count() {
    // Under the default (unlimited) redeal, recycle count is not encoded, so
    // the byte length is fixed regardless of recycles performed.
    let g = GameState::new_with_seed(1, GameConfig::default());
    assert!(g.config().redeal_limit.is_none());
    let len_unlimited = encode(&g).len();

    let bounded = GameConfig {
        draw_mode: DrawMode::Three,
        redeal_limit: Some(3),
        timed: false,
    };
    let gb = GameState::new_with_seed(1, bounded);
    // Bounded redeal appends one extra byte (recycles remaining).
    assert_eq!(encode(&gb).len(), len_unlimited + 1);
}
