//! The `--solve` mode: map flags to a budget/options and format a readable
//! report of the solver's result. The mapping and formatting are pure; the
//! program around the library prints.
use std::time::Duration;
use vstd::prelude::*;
use vstd::string::StringExecFns;

use crate::model::moves::Move;
use crate::model::seed::{encode, encode_spec};
use crate::model::state::{DrawMode, GameConfig};
use crate::model::text::{decimal_text, padded_left, push_decimal, push_padded, decimal_string};
use crate::solver::clock::duration_from_secs;
use crate::solver::{
    baseline_options, KeyStrategy, SolveBudget, SolveOptions, SolveResult, Verdict,
    DEFAULT_MAX_TABLE_ENTRIES,
};

verus! {

/// Build a [`SolveBudget`] from flag values. A value of `0` means "unlimited".
pub fn build_budget(max_nodes: u64, max_time_secs: u64) -> (b: SolveBudget)
    ensures
        b.max_nodes == (if max_nodes != 0 {
            Some(max_nodes)
        } else {
            None
        }),
        b.max_time is Some <==> max_time_secs != 0,
{
    SolveBudget {
        max_nodes: if max_nodes != 0 {
            Some(max_nodes)
        } else {
            None
        },
        max_time: if max_time_secs != 0 {
            Some(duration_from_secs(max_time_secs))
        } else {
            None
        },
    }
}

/// Solver heuristic flags gathered from the CLI.
#[derive(Debug, Clone, Copy, PartialEq, Eq, Structural)]
pub struct HeuristicFlags {
    pub equivalence: bool,
    pub no_noop: bool,
    /// Disable all heuristics at once (reproduce the naive baseline).
    pub baseline: bool,
    pub no_safe_automoves: bool,
    pub no_ordering: bool,
    pub no_symmetry: bool,
    /// Prefer digging the smaller source column instead of the larger.
    pub dig_smaller: bool,
    /// Disable the global transposition table.
    pub no_transposition: bool,
    /// Transposition-table capacity in entries (0 = use the default).
    pub max_table_entries: usize,
    /// Use exact byte keys instead of the default Zobrist hash.
    pub exact_keys: bool,
}

impl Default for HeuristicFlags {
    /// No flag given: every switch off and the default table capacity.
    fn default() -> (f: HeuristicFlags)
        ensures
            f == (HeuristicFlags {
                equivalence: false,
                no_noop: false,
                baseline: false,
                no_safe_automoves: false,
                no_ordering: false,
                no_symmetry: false,
                dig_smaller: false,
                no_transposition: false,
                max_table_entries: 0,
                exact_keys: false,
            }),
    {
        HeuristicFlags {
            equivalence: false,
            no_noop: false,
            baseline: false,
            no_safe_automoves: false,
            no_ordering: false,
            no_symmetry: false,
            dig_smaller: false,
            no_transposition: false,
            max_table_entries: 0,
            exact_keys: false,
        }
    }
}

/// The options the flags select: with `baseline`, the baseline with the
/// flags' table capacity and key; otherwise every heuristic and the table on
/// unless its flag turns it off. A capacity of 0 means the default.
pub open spec fn options_for(f: HeuristicFlags) -> SolveOptions {
    let max_table_entries = if f.max_table_entries == 0 {
        DEFAULT_MAX_TABLE_ENTRIES
    } else {
        f.max_table_entries
    };
    let key = if f.exact_keys {
        KeyStrategy::ExactBytes
    } else {
        KeyStrategy::Zobrist
    };
    if f.baseline {
        SolveOptions { max_table_entries, key, ..baseline_options() }
    } else {
        SolveOptions {
            no_op_pruning: !f.no_noop,
            equivalence_pruning: f.equivalence,
            safe_automoves: !f.no_safe_automoves,
            move_ordering: !f.no_ordering,
            empty_column_symmetry: !f.no_symmetry,
            dig_larger_first: !f.dig_smaller,
            transposition_table: !f.no_transposition,
            max_table_entries,
            key,
        }
    }
}

/// Build [`SolveOptions`] from the heuristic flags. Heuristics and the table are
/// on by default; `--baseline` forces them all off (leaving only no-op + cycle
/// pruning).
pub fn build_options(f: HeuristicFlags) -> (o: SolveOptions)
    ensures
        o == options_for(f),
{
    let max_table_entries = if f.max_table_entries == 0 {
        DEFAULT_MAX_TABLE_ENTRIES
    } else {
        f.max_table_entries
    };
    let key = if f.exact_keys {
        KeyStrategy::ExactBytes
    } else {
        KeyStrategy::Zobrist
    };
    if f.baseline {
        let mut o = SolveOptions::baseline();
        o.max_table_entries = max_table_entries;
        o.key = key;
        return o;
    }
    SolveOptions {
        no_op_pruning: !f.no_noop,
        equivalence_pruning: f.equivalence,
        safe_automoves: !f.no_safe_automoves,
        move_ordering: !f.no_ordering,
        empty_column_symmetry: !f.no_symmetry,
        dig_larger_first: !f.dig_smaller,
        transposition_table: !f.no_transposition,
        max_table_entries,
        key,
    }
}

/// A move as its `Debug` form shows it.
pub open spec fn move_text(mv: Move) -> Seq<char> {
    match mv {
        Move::Draw => "Draw"@,
        Move::Recycle => "Recycle"@,
        Move::WasteToFoundation { foundation } => "WasteToFoundation { foundation: "@ + decimal_text(
            foundation as nat,
        ) + " }"@,
        Move::WasteToTableau { column } => "WasteToTableau { column: "@ + decimal_text(column as nat)
            + " }"@,
        Move::TableauToTableau { from, to, count } => "TableauToTableau { from: "@ + decimal_text(
            from as nat,
        ) + ", to: "@ + decimal_text(to as nat) + ", count: "@ + decimal_text(count as nat)
            + " }"@,
        Move::TableauToFoundation { column, foundation } => "TableauToFoundation { column: "@
            + decimal_text(column as nat) + ", foundation: "@ + decimal_text(foundation as nat)
            + " }"@,
        Move::FoundationToTableau { foundation, column } => "FoundationToTableau { foundation: "@
            + decimal_text(foundation as nat) + ", column: "@ + decimal_text(column as nat) + " }"@,
    }
}

/// The numbered lines listing the first `n` moves of a winning line.
pub open spec fn move_lines(ms: Seq<Move>, n: int) -> Seq<char>
    decreases n,
{
    if n <= 0 {
        Seq::empty()
    } else {
        move_lines(ms, n - 1) + "  "@ + padded_left(decimal_text(n as nat), 3, ' ') + ". "@ + move_text(
            ms[n - 1],
        ) + "\n"@
    }
}

/// How a verdict reads in the report.
pub open spec fn verdict_text(v: Verdict) -> Seq<char> {
    match v {
        Verdict::Solvable => "SOLVABLE"@,
        Verdict::Unwinnable => "UNWINNABLE (proven — full search, no win)"@,
        Verdict::Inconclusive => "INCONCLUSIVE (budget hit; not proven unwinnable)"@,
    }
}

/// The report for `seed`'s deal under `config` and result `r`, with the
/// elapsed time written as `elapsed`.
pub open spec fn report_text(seed: u64, config: GameConfig, r: SolveResult, elapsed: Seq<char>) -> Seq<
    char,
> {
    let draw = match config.draw_mode {
        DrawMode::One => "1"@,
        DrawMode::Three => "3"@,
    };
    let redeal = match config.redeal_limit {
        Some(n) => decimal_text(n as nat),
        None => "unlimited"@,
    };
    let head = "Klondike solver — seed "@ + encode_spec(seed) + "  (draw "@ + draw + ", redeal "@
        + redeal + ")\n"@ + "result: "@ + verdict_text(r.verdict) + "\n"@ + "nodes expanded: "@
        + decimal_text(r.nodes_expanded as nat) + "\n"@ + "max depth: "@ + decimal_text(
        r.max_depth as nat,
    ) + "\n"@ + "elapsed: "@ + elapsed + "\n"@ + "peak memory: "@ + decimal_text(
        r.peak_logical_bytes as nat,
    ) + " B ("@ + decimal_text(r.peak_positions as nat) + " positions)\n"@ + "forced auto-moves: "@
        + decimal_text(r.forced_automoves as nat) + "\n"@ + "transposition table: "@ + decimal_text(
        r.table_entries as nat,
    ) + " entries, "@ + decimal_text(r.table_hits as nat) + " hits, "@ + decimal_text(
        r.table_evictions as nat,
    ) + " evictions\n"@;
    match r.moveset {
        Some(ms) => head + "winning moves: "@ + decimal_text(ms@.len()) + "\n"@ + move_lines(
            ms@,
            ms@.len() as int,
        ),
        None => head,
    }
}

/// A duration as `{:.2?}` prints it. What is left unsaid: the text (a
/// `Duration` has no value form a contract can name).
#[verifier::external_body]
fn duration_text(d: &Duration) -> (s: String) {
    format!("{:.2?}", d)
}

/// Append a move as its `Debug` form shows it.
fn push_move(out: &mut String, mv: Move)
    ensures
        final(out)@ == old(out)@ + move_text(mv),
{
    match mv {
        Move::Draw => out.append("Draw"),
        Move::Recycle => out.append("Recycle"),
        Move::WasteToFoundation { foundation } => {
            out.append("WasteToFoundation { foundation: ");
            push_decimal(out, foundation as u64);
            out.append(" }");
        },
        Move::WasteToTableau { column } => {
            out.append("WasteToTableau { column: ");
            push_decimal(out, column as u64);
            out.append(" }");
        },
        Move::TableauToTableau { from, to, count } => {
            out.append("TableauToTableau { from: ");
            push_decimal(out, from as u64);
            out.append(", to: ");
            push_decimal(out, to as u64);
            out.append(", count: ");
            push_decimal(out, count as u64);
            out.append(" }");
        },
        Move::TableauToFoundation { column, foundation } => {
            out.append("TableauToFoundation { column: ");
            push_decimal(out, column as u64);
            out.append(", foundation: ");
            push_decimal(out, foundation as u64);
            out.append(" }");
        },
        Move::FoundationToTableau { foundation, column } => {
            out.append("FoundationToTableau { foundation: ");
            push_decimal(out, foundation as u64);
            out.append(", column: ");
            push_decimal(out, column as u64);
            out.append(" }");
        },
    }
    assert(final(out)@ =~= old(out)@ + move_text(mv));
}

/// Format the solver result as a readable multi-line report.
pub fn format_report(seed: u64, config: GameConfig, result: &SolveResult) -> (s: String)
    ensures
        exists|elapsed: Seq<char>| s@ == report_text(seed, config, *result, elapsed),
{
    let mut out = String::new();
    out.append("Klondike solver — seed ");
    let code = encode(seed);
    out.append(code.as_str());
    out.append("  (draw ");
    match config.draw_mode {
        DrawMode::One => out.append("1"),
        DrawMode::Three => out.append("3"),
    }
    out.append(", redeal ");
    match config.redeal_limit {
        Some(n) => push_decimal(&mut out, n as u64),
        None => out.append("unlimited"),
    }
    out.append(")\n");
    out.append("result: ");
    match result.verdict {
        Verdict::Solvable => out.append("SOLVABLE"),
        Verdict::Unwinnable => out.append("UNWINNABLE (proven — full search, no win)"),
        Verdict::Inconclusive => out.append("INCONCLUSIVE (budget hit; not proven unwinnable)"),
    }
    out.append("\n");
    out.append("nodes expanded: ");
    push_decimal(&mut out, result.nodes_expanded);
    out.append("\n");
    out.append("max depth: ");
    push_decimal(&mut out, result.max_depth as u64);
    out.append("\n");
    out.append("elapsed: ");
    let elapsed = duration_text(&result.elapsed);
    out.append(elapsed.as_str());
    out.append("\n");
    out.append("peak memory: ");
    push_decimal(&mut out, result.peak_logical_bytes as u64);
    out.append(" B (");
    push_decimal(&mut out, result.peak_positions as u64);
    out.append(" positions)\n");
    out.append("forced auto-moves: ");
    push_decimal(&mut out, result.forced_automoves);
    out.append("\n");
    out.append("transposition table: ");
    push_decimal(&mut out, result.table_entries as u64);
    out.append(" entries, ");
    push_decimal(&mut out, result.table_hits);
    out.append(" hits, ");
    push_decimal(&mut out, result.table_evictions);
    out.append(" evictions\n");
    let ghost head = out@;
    match &result.moveset {
        Some(moveset) => {
            out.append("winning moves: ");
            push_decimal(&mut out, moveset.len() as u64);
            out.append("\n");
            let ghost before = out@;
            let mut i: usize = 0;
            while i < moveset.len()
                invariant
                    i <= moveset@.len(),
                    out@ == before + move_lines(moveset@, i as int),
                decreases moveset@.len() - i,
            {
                out.append("  ");
                let index = decimal_string((i + 1) as u64);
                push_padded(&mut out, &index, 3, ' ');
                out.append(". ");
                push_move(&mut out, moveset[i]);
                out.append("\n");
                i = i + 1;
                assert(out@ =~= before + move_lines(moveset@, i as int));
            }
        },
        None => {},
    }
    assert(out@ =~= report_text(seed, config, *result, elapsed@));
    out
}

} // verus!
