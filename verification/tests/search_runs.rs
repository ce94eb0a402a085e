//! Tests of the solver's search module.
use klondike::solver::{solve_reusing, solve_state, ClosedTable};
use klondike::{DrawMode, GameConfig, GameState, SolveBudget, SolveOptions, Verdict};

fn draw_one() -> GameConfig {
    GameConfig {
        draw_mode: DrawMode::One,
        redeal_limit: None,
        timed: false,
    }
}

/// Seed 2 (draw-one) is solvable in well under a thousand nodes — a fast,
/// decisive fixture for the reuse/convergence tests.
fn solvable_root() -> GameState {
    GameState::new_with_seed(2, draw_one())
}

#[test]
fn node_budget_only_returns_well_formed_result() {
    // No time budget: exercises the path that never consults a clock (the
    // only path available on wasm).
    let mut table = ClosedTable::with_capacity(1 << 20);
    let r = solve_reusing(
        &solvable_root(),
        Some(1_000_000),
        SolveOptions::default(),
        &mut table,
    );
    assert_eq!(r.verdict, Verdict::Solvable);
    assert!(r.solvable);
    assert!(r.moveset.is_some());
    assert!(r.nodes_expanded > 0);
}

#[test]
fn reusing_with_full_budget_matches_one_shot() {
    let root = solvable_root();
    let one_shot = solve_state(&root, SolveBudget::default(), SolveOptions::default());
    let mut table = ClosedTable::with_capacity(1 << 20);
    let reused = solve_reusing(&root, Some(10_000_000), SolveOptions::default(), &mut table);
    assert_eq!(reused.verdict, one_shot.verdict);
}

#[test]
fn shared_table_is_consulted_across_calls() {
    // Seed 3 (draw-one) needs hundreds of thousands of nodes, so a small
    // budget leaves the search inconclusive but fills the table. A second
    // call sharing that table must re-hit those proven-winless positions.
    let root = GameState::new_with_seed(3, draw_one());
    let mut table = ClosedTable::with_capacity(1 << 20);
    let first = solve_reusing(&root, Some(2_000), SolveOptions::default(), &mut table);
    assert_eq!(first.verdict, Verdict::Inconclusive);
    assert!(
        table.peak_entries() > 0,
        "first call should record winless positions"
    );
    let second = solve_reusing(&root, Some(2_000), SolveOptions::default(), &mut table);
    assert!(
        second.table_hits > 0,
        "second call should consult the shared table"
    );
}

#[test]
fn repeated_small_budgets_converge_to_the_decisive_verdict() {
    let root = solvable_root();
    let reference = solve_state(&root, SolveBudget::default(), SolveOptions::default());
    assert_eq!(reference.verdict, Verdict::Solvable);

    // Drive many tiny node-bounded slices sharing one table, exactly as the
    // GUI will, and confirm they reach the same decisive verdict.
    let mut table = ClosedTable::with_capacity(1 << 20);
    let mut verdict = Verdict::Inconclusive;
    for _ in 0..5_000 {
        let r = solve_reusing(&root, Some(200), SolveOptions::default(), &mut table);
        if r.verdict != Verdict::Inconclusive {
            verdict = r.verdict;
            break;
        }
    }
    assert_eq!(verdict, Verdict::Solvable);
}
