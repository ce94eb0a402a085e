//! Tests of the `--solve` mode's flag mapping and report.
use std::time::Duration;

use klondike::cli::solve::{build_budget, build_options, format_report, HeuristicFlags};
use klondike::{GameConfig, KeyStrategy, SolveResult, Verdict};

#[test]
fn budget_zero_means_unlimited() {
    let b = build_budget(0, 0);
    assert!(b.max_nodes.is_none());
    assert!(b.max_time.is_none());
    let b = build_budget(500, 7);
    assert_eq!(b.max_nodes, Some(500));
    assert_eq!(b.max_time, Some(Duration::from_secs(7)));
}

#[test]
fn options_mapping() {
    // Defaults: heuristics on, no-op on, equivalence off.
    let o = build_options(HeuristicFlags::default());
    assert!(o.no_op_pruning);
    assert!(!o.equivalence_pruning);
    assert!(o.safe_automoves && o.move_ordering && o.empty_column_symmetry);
    assert!(o.dig_larger_first);

    // Individual disables.
    let o = build_options(HeuristicFlags {
        equivalence: true,
        no_noop: true,
        no_ordering: true,
        dig_smaller: true,
        ..Default::default()
    });
    assert!(!o.no_op_pruning);
    assert!(o.equivalence_pruning);
    assert!(!o.move_ordering);
    assert!(!o.dig_larger_first);
    assert!(o.safe_automoves && o.empty_column_symmetry);
}

#[test]
fn exact_keys_flag_maps_to_key_strategy() {
    assert_eq!(
        build_options(HeuristicFlags::default()).key,
        KeyStrategy::Zobrist
    );
    assert_eq!(
        build_options(HeuristicFlags {
            exact_keys: true,
            ..Default::default()
        })
        .key,
        KeyStrategy::ExactBytes
    );
}

#[test]
fn baseline_flag_disables_all_heuristics() {
    let o = build_options(HeuristicFlags {
        baseline: true,
        ..Default::default()
    });
    assert!(o.no_op_pruning); // baseline keeps no-op + cycle pruning
    assert!(!o.safe_automoves);
    assert!(!o.move_ordering);
    assert!(!o.empty_column_symmetry);
    assert!(!o.equivalence_pruning);
}

fn sample_result(verdict: Verdict) -> SolveResult {
    let solvable = verdict == Verdict::Solvable;
    SolveResult {
        solvable,
        moveset: solvable.then(|| vec![klondike::Move::Draw]),
        nodes_expanded: 3,
        max_depth: 1,
        elapsed: Duration::from_millis(1200),
        peak_logical_bytes: 210,
        peak_positions: 3,
        forced_automoves: 4,
        verdict,
        table_entries: 100,
        table_hits: 7,
        table_evictions: 2,
        budget_exhausted: verdict == Verdict::Inconclusive,
    }
}

#[test]
fn report_solved_lists_moves_and_stats() {
    let text = format_report(42, GameConfig::default(), &sample_result(Verdict::Solvable));
    assert!(text.contains(&format!("seed {}", klondike::seed::encode(42))));
    assert!(text.contains("result: SOLVABLE"));
    assert!(text.contains("winning moves: 1"));
    assert!(text.contains("forced auto-moves: 4"));
    assert!(text.contains("transposition table: 100 entries, 7 hits, 2 evictions"));
    assert!(text.contains("Draw"));
}

#[test]
fn report_unwinnable_is_distinct_from_inconclusive() {
    let unwinnable = format_report(
        1,
        GameConfig::default(),
        &sample_result(Verdict::Unwinnable),
    );
    assert!(unwinnable.contains("UNWINNABLE (proven"));
    let inconclusive = format_report(
        1,
        GameConfig::default(),
        &sample_result(Verdict::Inconclusive),
    );
    assert!(inconclusive.contains("INCONCLUSIVE"));
    assert!(!inconclusive.contains("winning moves"));
}
