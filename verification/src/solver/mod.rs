//! Automatic solver.
//!
//! A depth-first search with heuristics and a global transposition table that
//! records positions searched out without a win so each is expanded once.
//! An independent, never-evicted on-path set guarantees termination. A completed
//! search that finds no win reports the deal **unwinnable**; a search stopped by
//! the budget reports **inconclusive**. Positions are keyed by the byte
//! encoding ([`encode`]) or by a 128-bit Zobrist hash ([`zobrist`]).

pub mod classify;
pub mod clock;
pub mod encode;
pub mod heuristics;
pub mod laws;
pub mod reach;
pub mod table;
pub mod zobrist;
pub mod search;
pub mod symmetry;

use std::time::Duration;
use vstd::prelude::*;

use crate::model::moves::Move;
use crate::model::state::GameConfig;
use crate::solver::clock::duration_from_secs;

pub use encode::{encode, PositionKey};
pub use search::{solve, solve_reusing, solve_state};
pub use table::ClosedTable;
pub use zobrist::zobrist;

verus! {

/// Limits that bound the (exponential) search. The search stops at the first
/// win or when a limit is reached.
#[derive(Debug, Clone, Copy)]
pub struct SolveBudget {
    /// Maximum number of expanded nodes, or `None` for unlimited.
    pub max_nodes: Option<u64>,
    /// Maximum wall-clock time, or `None` for unlimited.
    pub max_time: Option<Duration>,
}

impl Default for SolveBudget {
    /// Defaults: 10,000,000 nodes and 15 seconds.
    fn default() -> (b: SolveBudget)
        ensures
            b.max_nodes == Some(10_000_000u64),
            b.max_time is Some,
    {
        SolveBudget { max_nodes: Some(10_000_000), max_time: Some(duration_from_secs(15)) }
    }
}

/// How the search keys positions in its table and on-path set.
#[derive(Debug, Clone, Copy, PartialEq, Eq, Structural)]
pub enum KeyStrategy {
    /// 128-bit Zobrist hash — compact and fast (default).
    Zobrist,
    /// Exact byte encoding — collision-free reference used for validation.
    ExactBytes,
}

/// Default transposition-table capacity (entries).
pub const DEFAULT_MAX_TABLE_ENTRIES: usize = 4_000_000;

/// Which pruning rules and heuristics are active. `Default` is the *useful*
/// (heuristic-on) configuration; disabling the heuristics reproduces the naive
/// brute-force baseline.
#[derive(Debug, Clone, Copy, PartialEq, Eq, Structural)]
pub struct SolveOptions {
    /// Skip no-op moves (host exchanges that open nothing). On by default.
    pub no_op_pruning: bool,
    /// Collapse equivalent waste destinations (experimental). Off by default.
    pub equivalence_pruning: bool,
    /// Force foundation auto-moves of cards that count as safe. On by default.
    pub safe_automoves: bool,
    /// Order candidate moves by the priority heuristic. On by default.
    pub move_ordering: bool,
    /// Only try the first of several empty columns when placing a King (empty
    /// columns are interchangeable). On by default.
    pub empty_column_symmetry: bool,
    /// Digging tie-break: prefer revealing in the larger source column. On by default.
    pub dig_larger_first: bool,
    /// Use the global transposition table (closed set). On by default.
    pub transposition_table: bool,
    /// Maximum number of entries the transposition table retains before evicting.
    pub max_table_entries: usize,
    /// How positions are keyed (Zobrist hash by default; exact bytes for validation).
    pub key: KeyStrategy,
}

/// The default options: every sound heuristic and the table on, the
/// experimental equivalence pruning off, Zobrist keys.
pub open spec fn default_options() -> SolveOptions {
    SolveOptions {
        no_op_pruning: true,
        equivalence_pruning: false,
        safe_automoves: true,
        move_ordering: true,
        empty_column_symmetry: true,
        dig_larger_first: true,
        transposition_table: true,
        max_table_entries: DEFAULT_MAX_TABLE_ENTRIES,
        key: KeyStrategy::Zobrist,
    }
}

/// The naive per-path baseline: heuristics and the table off, leaving only
/// no-op and on-path cycle pruning.
pub open spec fn baseline_options() -> SolveOptions {
    SolveOptions {
        no_op_pruning: true,
        equivalence_pruning: false,
        safe_automoves: false,
        move_ordering: false,
        empty_column_symmetry: false,
        dig_larger_first: true,
        transposition_table: false,
        max_table_entries: DEFAULT_MAX_TABLE_ENTRIES,
        key: KeyStrategy::Zobrist,
    }
}

impl Default for SolveOptions {
    fn default() -> (o: SolveOptions)
        ensures
            o == default_options(),
    {
        SolveOptions {
            no_op_pruning: true,
            equivalence_pruning: false,
            safe_automoves: true,
            move_ordering: true,
            empty_column_symmetry: true,
            dig_larger_first: true,
            transposition_table: true,
            max_table_entries: DEFAULT_MAX_TABLE_ENTRIES,
            key: KeyStrategy::Zobrist,
        }
    }
}

impl SolveOptions {
    /// The naive per-path baseline: heuristics and the transposition table off,
    /// leaving only no-op + on-path cycle pruning.
    pub fn baseline() -> (o: SolveOptions)
        ensures
            o == baseline_options(),
    {
        SolveOptions {
            no_op_pruning: true,
            equivalence_pruning: false,
            safe_automoves: false,
            move_ordering: false,
            empty_column_symmetry: false,
            dig_larger_first: true,
            transposition_table: false,
            max_table_entries: DEFAULT_MAX_TABLE_ENTRIES,
            key: KeyStrategy::Zobrist,
        }
    }
}

/// The three possible outcomes of a search.
#[derive(Debug, Clone, Copy, PartialEq, Eq, Structural)]
pub enum Verdict {
    /// A winning line was found.
    Solvable,
    /// The reachable state space was fully explored within budget with no win.
    Unwinnable,
    /// A budget/limit was hit before the space was exhausted and no win was found.
    Inconclusive,
}

/// The outcome of a search.
#[derive(Debug, Clone)]
pub struct SolveResult {
    /// Whether a win was found within the budget.
    pub solvable: bool,
    /// The winning move-sequence, when solvable (need not be minimal).
    pub moveset: Option<Vec<Move>>,
    /// Number of nodes expanded.
    pub nodes_expanded: u64,
    /// Deepest path reached.
    pub max_depth: usize,
    /// Wall-clock time spent.
    pub elapsed: Duration,
    /// Peak logical memory held by the solver's own structures, in bytes.
    pub peak_logical_bytes: usize,
    /// Peak number of positions held on the search path.
    pub peak_positions: usize,
    /// Number of forced safe foundation auto-moves played.
    pub forced_automoves: u64,
    /// The three-way outcome.
    pub verdict: Verdict,
    /// Peak number of positions retained in the transposition table.
    pub table_entries: usize,
    /// Positions skipped because they were found in the transposition table.
    pub table_hits: u64,
    /// Transposition-table evictions (entries dropped by clear-on-full).
    pub table_evictions: u64,
    /// Whether a budget limit was hit (with no win, the result is inconclusive).
    pub budget_exhausted: bool,
}

impl SolveResult {
    /// Whether the outcome is inconclusive: no win found and a budget limit
    /// stopped the search before the space was exhausted.
    pub fn is_inconclusive(&self) -> (b: bool)
        ensures
            b == (self.verdict == Verdict::Inconclusive),
    {
        self.verdict == Verdict::Inconclusive
    }

    /// Whether the search reported the deal unwinnable (full search, no win, no
    /// cut-off).
    pub fn is_unwinnable(&self) -> (b: bool)
        ensures
            b == (self.verdict == Verdict::Unwinnable),
    {
        self.verdict == Verdict::Unwinnable
    }
}

/// One seed's before/after verdict when toggling an optional pruning rule.
#[derive(Debug, Clone, Copy, PartialEq, Eq, Structural)]
pub struct ValidationOutcome {
    pub seed: u64,
    /// Solvable verdict with the rule enabled.
    pub with_rule: bool,
    /// Solvable verdict with the rule disabled.
    pub without_rule: bool,
}

impl ValidationOutcome {
    /// Whether the rule left the solvable verdict unchanged for this seed.
    pub fn agrees(&self) -> (b: bool)
        ensures
            b == (self.with_rule == self.without_rule),
    {
        self.with_rule == self.without_rule
    }
}

/// An optional rule whose effect on the solvable verdict the validators measure.
#[derive(Clone, Copy)]
pub(crate) enum ValidationRule {
    NoOp,
    Equivalence,
    SafeAutomoves,
    MoveOrdering,
    EmptyColumnSymmetry,
    TranspositionTable,
    ZobristKeys,
}

/// The default options with `rule` switched on or off (for the key rule: the
/// Zobrist key when on, exact bytes when off).
pub(crate) open spec fn rule_options(rule: ValidationRule, on: bool) -> SolveOptions {
    let d = default_options();
    match rule {
        ValidationRule::NoOp => SolveOptions { no_op_pruning: on, ..d },
        ValidationRule::Equivalence => SolveOptions { equivalence_pruning: on, ..d },
        ValidationRule::SafeAutomoves => SolveOptions { safe_automoves: on, ..d },
        ValidationRule::MoveOrdering => SolveOptions { move_ordering: on, ..d },
        ValidationRule::EmptyColumnSymmetry => SolveOptions { empty_column_symmetry: on, ..d },
        ValidationRule::TranspositionTable => SolveOptions { transposition_table: on, ..d },
        ValidationRule::ZobristKeys => SolveOptions {
            key: if on {
                KeyStrategy::Zobrist
            } else {
                KeyStrategy::ExactBytes
            },
            ..d
        },
    }
}

/// The default options with `rule` switched on or off.
pub(crate) fn validate_rule_options(rule: ValidationRule, on: bool) -> (o: SolveOptions)
    ensures
        o == rule_options(rule, on),
{
    let mut o = SolveOptions::default();
    match rule {
        ValidationRule::NoOp => o.no_op_pruning = on,
        ValidationRule::Equivalence => o.equivalence_pruning = on,
        ValidationRule::SafeAutomoves => o.safe_automoves = on,
        ValidationRule::MoveOrdering => o.move_ordering = on,
        ValidationRule::EmptyColumnSymmetry => o.empty_column_symmetry = on,
        ValidationRule::TranspositionTable => o.transposition_table = on,
        ValidationRule::ZobristKeys => {
            o.key = if on {
                KeyStrategy::Zobrist
            } else {
                KeyStrategy::ExactBytes
            };
        },
    }
    o
}

/// Differentially validate the **no-op** rule: for each seed, compare the
/// solvable verdict with no-op pruning on vs. off (same budget). A discrepancy
/// means the rule changed win-findability — evidence it is unsound.
pub fn validate_no_op(seeds: &[u64], config: GameConfig, budget: SolveBudget) -> (r: Vec<
    ValidationOutcome,
>)
    ensures
        r@.len() == seeds@.len(),
        forall|i: int| 0 <= i < seeds@.len() ==> search::validation_sound(#[trigger] r@[i], seeds@[i], config, budget),
{
    search::validate(seeds, config, budget, ValidationRule::NoOp)
}

/// Differentially validate the **equivalence** rule (no-op stays on in both runs).
pub fn validate_equivalence(seeds: &[u64], config: GameConfig, budget: SolveBudget) -> (r: Vec<
    ValidationOutcome,
>)
    ensures
        r@.len() == seeds@.len(),
        forall|i: int| 0 <= i < seeds@.len() ==> search::validation_sound(#[trigger] r@[i], seeds@[i], config, budget),
{
    search::validate(seeds, config, budget, ValidationRule::Equivalence)
}

/// Differentially validate the **safe auto-move** heuristic against the full
/// heuristic configuration (it must not change the solvable verdict).
pub fn validate_safe_automoves(seeds: &[u64], config: GameConfig, budget: SolveBudget) -> (r: Vec<
    ValidationOutcome,
>)
    ensures
        r@.len() == seeds@.len(),
        forall|i: int| 0 <= i < seeds@.len() ==> search::validation_sound(#[trigger] r@[i], seeds@[i], config, budget),
{
    search::validate(seeds, config, budget, ValidationRule::SafeAutomoves)
}

/// Differentially validate **move ordering** (must only reorder, never change the verdict).
pub fn validate_move_ordering(seeds: &[u64], config: GameConfig, budget: SolveBudget) -> (r: Vec<
    ValidationOutcome,
>)
    ensures
        r@.len() == seeds@.len(),
        forall|i: int| 0 <= i < seeds@.len() ==> search::validation_sound(#[trigger] r@[i], seeds@[i], config, budget),
{
    search::validate(seeds, config, budget, ValidationRule::MoveOrdering)
}

/// Differentially validate **empty-column symmetry** pruning (must not change the verdict).
pub fn validate_empty_column_symmetry(seeds: &[u64], config: GameConfig, budget: SolveBudget) -> (r:
    Vec<ValidationOutcome>)
    ensures
        r@.len() == seeds@.len(),
        forall|i: int| 0 <= i < seeds@.len() ==> search::validation_sound(#[trigger] r@[i], seeds@[i], config, budget),
{
    search::validate(seeds, config, budget, ValidationRule::EmptyColumnSymmetry)
}

/// Differentially validate the **transposition table** (must not change the verdict).
pub fn validate_transposition_table(seeds: &[u64], config: GameConfig, budget: SolveBudget) -> (r:
    Vec<ValidationOutcome>)
    ensures
        r@.len() == seeds@.len(),
        forall|i: int| 0 <= i < seeds@.len() ==> search::validation_sound(#[trigger] r@[i], seeds@[i], config, budget),
{
    search::validate(seeds, config, budget, ValidationRule::TranspositionTable)
}

/// Differentially validate the **key strategy**: Zobrist vs exact-byte keys must
/// reach the same solvable verdict (a hash collision would show up as a mismatch).
pub fn validate_key_strategy(seeds: &[u64], config: GameConfig, budget: SolveBudget) -> (r: Vec<
    ValidationOutcome,
>)
    ensures
        r@.len() == seeds@.len(),
        forall|i: int| 0 <= i < seeds@.len() ==> search::validation_sound(#[trigger] r@[i], seeds@[i], config, budget),
{
    search::validate(seeds, config, budget, ValidationRule::ZobristKeys)
}

} // verus!
