//! The depth-first search: heuristics, an independent on-path cycle guard, and a
//! global transposition table (closed set). It explores by **make/unmake** — a
//! single mutable `GameState` is mutated down each branch and undone on
//! backtrack, with no per-child clone. Positions are keyed by a 128-bit Zobrist
//! hash by default, or the exact byte encoding for validation.
//!
//! Full caching carries a theoretical graph-history-interaction risk (a cycle
//! prune could make a winnable position look winless); the differential
//! validators guard against it. The on-path set (never evicted) and the node
//! count bound the search; reported wins always replay to a won position.
use vstd::prelude::*;

use crate::model::faces::{
    lemma_apply_ignores_stock_faces, lemma_apply_keeps_waste_face_up,
    lemma_undo_ignores_pile_faces, lemma_undo_ignores_stock_faces,
    lemma_undo_restores_up_to_pile_faces, lemma_undo_restores_up_to_stock_faces, settle_faces,
    stock_down, waste_face_up,
};
use crate::model::invariants::{lemma_apply_keeps_well_laid, well_laid};
use crate::model::laws::{has_all_piles, lemma_legal_moves_are_exactly_applicable, lemma_undo_restores};
use crate::model::moves::{Move, MoveError};
use crate::model::rules::{apply_undoable, legal_moves, undo_move};
use crate::model::rules_spec::{
    apply_fits, apply_spec, drawn_by, flipped_by, legal_moves_spec, move_in_range, undo_ok,
    undo_spec,
};
use crate::model::state::{model_is_won, new_game_model, GameConfig, GameModel, GameState};
use crate::solver::classify::{
    apply_equivalence_pruning, column_has_legal_move, equivalence_pruned, no_op_spec,
    no_op_structural,
};
use crate::solver::clock::Clock;
use crate::solver::{validate_rule_options, ValidationOutcome, ValidationRule};
use crate::solver::encode::PositionKey;
use crate::model::census::lemma_new_game_cards;
use crate::model::suited::{foundations_ok, suited_run};
use crate::solver::reach::{
    lemma_closed_unwinnable, lemma_line_ok_step, limit_fits_key, line_ok,
};
use crate::solver::heuristics::{
    all_in_range, apply_empty_column_symmetry, build_target, empty_count, first_empty_from,
    redundant_empty_target, move_priority, priority_spec, safe_move, safe_move_in, symmetric_moves,
};
use crate::solver::symmetry::retarget;
use crate::solver::table::{ClosedTable, KeySet, SearchKey};
use crate::solver::{KeyStrategy, SolveBudget, SolveOptions, SolveResult, Verdict};

verus! {

/// The position reached by playing `moves` in order from `m`, or the first
/// error met on the way.
pub open spec fn replay(m: GameModel, moves: Seq<Move>) -> Result<GameModel, MoveError>
    decreases moves.len(),
{
    if moves.len() == 0 {
        Ok(m)
    } else {
        match replay(m, moves.drop_last()) {
            Ok(p) => apply_spec(p, moves.last()),
            Err(e) => Err(e),
        }
    }
}

/// Whether playing `moves` from `m` is legal throughout and ends in a won
/// position.
pub open spec fn wins_from(m: GameModel, moves: Seq<Move>) -> bool {
    replay(m, moves) matches Ok(w) && model_is_won(w)
}

/// Whether some line of play from `m` wins.
pub open spec fn winnable(m: GameModel) -> bool {
    exists|moves: Seq<Move>| wins_from(m, moves)
}

/// Whether playing `moves` from `s` reaches a won position without playing on
/// from a position whose key (under the key type `K`) is in `seen` or repeats
/// that of an earlier position of the line: the lines a plain depth-first
/// search with an on-path cycle guard walks.
pub open spec fn fresh_win<K: SearchKey>(s: GameModel, moves: Seq<Move>, seen: Set<K::V>) -> bool
    decreases moves.len(),
{
    if model_is_won(s) {
        true
    } else if moves.len() == 0 || seen.contains(K::key_of(s)) {
        false
    } else {
        move_in_range(moves[0]) && match apply_spec(s, moves[0]) {
            Ok(c) => fresh_win::<K>(c, moves.drop_first(), seen.insert(K::key_of(s))),
            Err(_) => false,
        }
    }
}

/// Options under which the search tries every legal move in the order the
/// rules list them, with no pruning, no forced moves and no table.
pub open spec fn plain_options(o: SolveOptions) -> bool {
    &&& !o.safe_automoves
    &&& !o.no_op_pruning
    &&& !o.empty_column_symmetry
    &&& !o.equivalence_pruning
    &&& !o.move_ordering
    &&& !o.transposition_table
}

/// Options under which the search tries every legal move (but, with
/// empty-column symmetry, only the first of several empty columns to land
/// on), in the order the rules list them or by priority, with no other
/// pruning and no forced moves (a table may be kept).
pub open spec fn exhaustive_options(o: SolveOptions) -> bool {
    &&& !o.safe_automoves
    &&& !o.no_op_pruning
    &&& !o.equivalence_pruning
}

/// Whether the search, under options `o`, keeps the move `mv` of `m`: every
/// move but, with empty-column symmetry on and two or more empty columns, one
/// onto an empty column other than the first.
pub open spec fn kept_by_symmetry(o: SolveOptions, m: GameModel, mv: Move) -> bool {
    !(o.empty_column_symmetry && empty_count(m, 7) >= 2 && redundant_empty_target(
        m,
        first_empty_from(m, 0),
        mv,
    ))
}

/// Whether some position of `em` has key `v` (under the key type `K`).
pub open spec fn recorded<K: SearchKey>(em: Set<GameModel>, v: K::V) -> bool {
    exists|q: GameModel| #[trigger] em.contains(q) && K::key_of(q) == v
}

/// Whether the key of `c` is on the path `path` or that of a position of `em`.
pub open spec fn covered<K: SearchKey>(em: Set<GameModel>, path: Set<K::V>, c: GameModel) -> bool {
    path.contains(K::key_of(c)) || recorded::<K>(em, K::key_of(c))
}

/// The move `mv` of `p` lands on an empty column other than the first empty
/// one, and the same move onto the first empty column leads to a position
/// covered by `em` and `path`.
#[verifier::opaque]
pub open spec fn twin_covered<K: SearchKey>(
    em: Set<GameModel>,
    path: Set<K::V>,
    p: GameModel,
    mv: Move,
) -> bool {
    build_target(mv) matches Some(a) && {
        let b = first_empty_from(p, 0);
        &&& p.tableau[a as int].len() == 0
        &&& 0 <= b < 7
        &&& b != a
        &&& apply_spec(p, retarget(mv, b as usize)) is Ok
        &&& covered::<K>(em, path, apply_spec(p, retarget(mv, b as usize))->Ok_0)
    }
}

/// The position the move `mv` of `p` leads to is covered by `em` and `path`,
/// or `mv` lands on an empty column and its twin onto the first one is.
pub open spec fn move_covered<K: SearchKey>(em: Set<GameModel>, path: Set<K::V>, p: GameModel, mv: Move) -> bool {
    covered::<K>(em, path, apply_spec(p, mv)->Ok_0) || twin_covered::<K>(em, path, p, mv)
}

/// Position `p` was searched to the end: it lies right, is in configuration
/// `config`, is not won, and each of its moves is covered by `em` and `path`.
pub open spec fn searched_out<K: SearchKey>(
    p: GameModel,
    config: GameConfig,
    em: Set<GameModel>,
    path: Set<K::V>,
) -> bool {
    &&& line_ok(p)
    &&& p.config == config
    &&& !model_is_won(p)
    &&& forall|mv: Move|
        move_in_range(mv) && apply_spec(p, mv) is Ok ==> #[trigger] move_covered::<K>(em, path, p, mv)
}

/// What an exhausted search from `root` leaves behind: positions each searched
/// out with nothing left on the path, one of them with the root's key.
#[verifier::opaque]
pub open spec fn closed_under_play<K: SearchKey>(root: GameModel, em: Set<GameModel>) -> bool {
    &&& recorded::<K>(em, K::key_of(root))
    &&& forall|p: GameModel| #[trigger] em.contains(p) ==> searched_out::<K>(p, root.config, em, Set::empty())
}

/// No line from `m` wins without revisiting a key of the strategy `key`: what
/// an unwinnable verdict of a plain search establishes.
pub open spec fn no_fresh_win(m: GameModel, key: KeyStrategy) -> bool {
    match key {
        KeyStrategy::Zobrist => forall|l: Seq<Move>| !#[trigger] fresh_win::<u128>(m, l, Set::empty()),
        KeyStrategy::ExactBytes => forall|l: Seq<Move>|
            !#[trigger] fresh_win::<PositionKey>(m, l, Set::empty()),
    }
}

/// The legal moves of `m` after the options' list filters: empty-column
/// symmetry, then equivalence pruning.
pub open spec fn filtered_moves(o: SolveOptions, m: GameModel) -> Seq<Move> {
    let c1 = if o.empty_column_symmetry {
        symmetric_moves(m, legal_moves_spec(m))
    } else {
        legal_moves_spec(m)
    };
    if o.equivalence_pruning {
        equivalence_pruned(m, c1, c1.len() as int)
    } else {
        c1
    }
}

/// Whether some legal move of `m` plays a safe card to a foundation.
pub open spec fn has_forced_move(m: GameModel) -> bool {
    exists|i: int| 0 <= i < legal_moves_spec(m).len() && safe_move(m, #[trigger] legal_moves_spec(m)[i])
}

/// Whether `mv` is the first legal move of `m` that plays a safe card to a
/// foundation: the move safe automoves force.
pub open spec fn forced_move(m: GameModel, mv: Move) -> bool {
    exists|i: int|
        0 <= i < legal_moves_spec(m).len() && #[trigger] legal_moves_spec(m)[i] == mv && safe_move(m, mv)
            && forall|j: int| 0 <= j < i ==> !safe_move(m, #[trigger] legal_moves_spec(m)[j])
}

/// Whether the search under options `o` tries the move `mv` in `m`: the
/// forced safe move alone when safe automoves are on and there is one;
/// otherwise each move left by the list filters, except a no-op when no-op
/// pruning is on. (Move ordering changes only the order of the tries.)
pub open spec fn tried(o: SolveOptions, m: GameModel, mv: Move) -> bool {
    if o.safe_automoves && has_forced_move(m) {
        forced_move(m, mv)
    } else {
        filtered_moves(o, m).contains(mv) && !skipped(o, m, mv)
    }
}

/// Whether the search under options `o` skips the move `mv` of `m` as a no-op.
pub open spec fn skipped(o: SolveOptions, m: GameModel, mv: Move) -> bool {
    o.no_op_pruning && no_op_spec(m, mv, apply_spec(m, mv)->Ok_0)
}

/// Whether the key of `c` is on the path, among the keys `given` to the search
/// in its table, or that of a position of `em`.
pub open spec fn met<K: SearchKey>(em: Set<GameModel>, given: Set<K::V>, path: Set<K::V>, c: GameModel) -> bool {
    path.contains(K::key_of(c)) || given.contains(K::key_of(c)) || recorded::<K>(em, K::key_of(c))
}

/// Position `p` was finished under options `o`: it is not won, and every move
/// the options try in it leads to a position met (see [`met`]).
pub open spec fn finished<K: SearchKey>(
    p: GameModel,
    o: SolveOptions,
    em: Set<GameModel>,
    given: Set<K::V>,
    path: Set<K::V>,
) -> bool {
    &&& !model_is_won(p)
    &&& forall|mv: Move|
        move_in_range(mv) && apply_spec(p, mv) is Ok && tried(o, p, mv) ==> #[trigger] met::<K>(
            em,
            given,
            path,
            apply_spec(p, mv)->Ok_0,
        )
}

/// What an unwinnable verdict under options `o` certifies, for a search given
/// a table of keys `given`: a set `em` of positions, the root among them
/// unless its key was given, each finished with nothing left on the path. So
/// the tree of tried moves is closed: every try from a finished position
/// leads to the key of a finished position (or a given one), and none of the
/// finished positions is won.
pub open spec fn lost_tree<K: SearchKey>(root: GameModel, o: SolveOptions, given: Set<K::V>, em: Set<GameModel>) -> bool {
    &&& em.contains(root) || given.contains(K::key_of(root))
    &&& forall|p: GameModel| #[trigger] em.contains(p) ==> finished::<K>(p, o, em, given, Set::empty())
}

/// [`lost_tree`] for a search given an empty table, under the key type the
/// options choose.
pub open spec fn search_lost(root: GameModel, o: SolveOptions) -> bool {
    match o.key {
        KeyStrategy::Zobrist => exists|em: Set<GameModel>| lost_tree::<u128>(root, o, Set::empty(), em),
        KeyStrategy::ExactBytes => exists|em: Set<GameModel>|
            lost_tree::<PositionKey>(root, o, Set::empty(), em),
    }
}

/// Whether playing `moves` from `s` reaches a won position by moves the
/// options `o` try, without playing on from a position whose key is in `seen`
/// or repeats that of an earlier position of the line: the lines a search
/// without a table walks.
pub open spec fn fresh_tried_win<K: SearchKey>(o: SolveOptions, s: GameModel, moves: Seq<Move>, seen: Set<K::V>) -> bool
    decreases moves.len(),
{
    if model_is_won(s) {
        true
    } else if moves.len() == 0 || seen.contains(K::key_of(s)) {
        false
    } else {
        move_in_range(moves[0]) && tried(o, s, moves[0]) && match apply_spec(s, moves[0]) {
            Ok(c) => fresh_tried_win::<K>(o, c, moves.drop_first(), seen.insert(K::key_of(s))),
            Err(_) => false,
        }
    }
}

/// No line of moves the options `o` try wins from `m` without revisiting a
/// key: what an unwinnable verdict of a search without a table establishes,
/// whatever its other options.
pub open spec fn no_tried_win(m: GameModel, o: SolveOptions) -> bool {
    match o.key {
        KeyStrategy::Zobrist => forall|l: Seq<Move>| !#[trigger] fresh_tried_win::<u128>(o, m, l, Set::empty()),
        KeyStrategy::ExactBytes => forall|l: Seq<Move>|
            !#[trigger] fresh_tried_win::<PositionKey>(o, m, l, Set::empty()),
    }
}

/// What a validation run reports of `seed`'s deal: each flag is whether a
/// search of the deal under `budget` (the rule on, then off) found a win,
/// with all that [`outcome_holds`] says of such a search; so a flag is set
/// only with a winning line, and unset only when that search was cut off
/// where a limit may have stopped it or ended without a win.
pub open spec fn validation_sound(o: ValidationOutcome, seed: u64, config: GameConfig, budget: SolveBudget) -> bool {
    &&& o.seed == seed
    &&& exists|on: SolveResult, off: SolveResult|
        #![trigger outcome_holds(new_game_model(seed, config), budget, on), outcome_holds(new_game_model(seed, config), budget, off)]
        outcome_holds(new_game_model(seed, config), budget, on) && outcome_holds(
            new_game_model(seed, config),
            budget,
            off,
        ) && o.with_rule == on.solvable && o.without_rule == off.solvable
    &&& o.with_rule ==> winnable(new_game_model(seed, config))
    &&& o.without_rule ==> winnable(new_game_model(seed, config))
}

/// Whether `s` is, up to the faces of its stock cards, the position reached by
/// playing `moves` from `root`.
pub open spec fn reaches(root: GameModel, moves: Seq<Move>, s: GameModel) -> bool {
    replay(root, moves) matches Ok(p) && stock_down(p) == stock_down(s)
}

/// A legal move extends a line that reaches `s` to one that reaches the result.
proof fn lemma_reaches_step(root: GameModel, moves: Seq<Move>, s: GameModel, mv: Move)
    requires
        reaches(root, moves, s),
        apply_spec(s, mv) is Ok,
    ensures
        reaches(root, moves.push(mv), apply_spec(s, mv)->Ok_0),
{
    let p = replay(root, moves)->Ok_0;
    assert(moves.push(mv).drop_last() =~= moves);
    lemma_apply_ignores_stock_faces(p, mv);
    lemma_apply_ignores_stock_faces(s, mv);
}

/// A line that reaches a won position wins.
proof fn lemma_won_reaches(root: GameModel, moves: Seq<Move>, s: GameModel)
    requires
        reaches(root, moves, s),
        model_is_won(s),
    ensures
        wins_from(root, moves),
{
    let p = replay(root, moves)->Ok_0;
    assert(p.foundations == s.foundations) by {
        assert(stock_down(p).foundations == stock_down(s).foundations);
    }
}

/// Undoing `mv` in `cur`, a position like the one `mv` produced from `pre` up to
/// the faces of its stock and waste cards, can be done and gives back `pre` up
/// to those faces; when `tidy` (the waste of `pre` face-up, and `cur` like the
/// result up to its stock's faces only), it gives back `pre` up to its stock's
/// faces.
proof fn lemma_undo_child(pre: GameModel, mv: Move, cur: GameModel, tidy: bool)
    requires
        has_all_piles(pre),
        apply_spec(pre, mv) is Ok,
        settle_faces(cur) == settle_faces(apply_spec(pre, mv)->Ok_0),
        tidy ==> waste_face_up(pre) && stock_down(cur) == stock_down(apply_spec(pre, mv)->Ok_0),
    ensures
        undo_ok(cur, mv, drawn_by(pre, mv), flipped_by(pre, mv)),
        settle_faces(
            undo_spec(cur, mv, drawn_by(pre, mv), flipped_by(pre, mv), pre.points, pre.recycles),
        ) == settle_faces(pre),
        tidy ==> stock_down(
            undo_spec(cur, mv, drawn_by(pre, mv), flipped_by(pre, mv), pre.points, pre.recycles),
        ) == stock_down(pre),
{
    let child = apply_spec(pre, mv)->Ok_0;
    let d = drawn_by(pre, mv);
    let f = flipped_by(pre, mv);
    lemma_undo_restores_up_to_pile_faces(pre, mv);
    lemma_undo_ignores_pile_faces(child, cur, mv, d, f, pre.points, pre.recycles);
    if tidy {
        lemma_undo_restores_up_to_stock_faces(pre, mv);
        lemma_undo_ignores_stock_faces(child, mv, d, f, pre.points, pre.recycles);
        lemma_undo_ignores_stock_faces(cur, mv, d, f, pre.points, pre.recycles);
    }
}

/// Every move of `s` that a filter keeps names piles that exist.
proof fn lemma_filter_in_range(s: Seq<Move>, p: spec_fn(Move) -> bool)
    requires
        all_in_range(s),
    ensures
        all_in_range(s.filter(p)),
    decreases s.len(),
{
    reveal_with_fuel(Seq::filter, 1);
    if s.len() > 0 {
        lemma_filter_in_range(s.drop_last(), p);
        assert(move_in_range(s[s.len() - 1]));
    }
}

/// Every move equivalence pruning keeps names piles that exist.
proof fn lemma_pruned_in_range(m: GameModel, s: Seq<Move>, n: int)
    requires
        all_in_range(s),
        n <= s.len(),
    ensures
        all_in_range(equivalence_pruned(m, s, n)),
    decreases n,
{
    if n > 0 {
        lemma_pruned_in_range(m, s, n - 1);
        assert(move_in_range(s[n - 1]));
    }
}

/// Whether the (priority, position) pair `(a, i)` sorts strictly before `(b, j)`.
pub open spec fn ranks_before(a: (u8, i32), i: int, b: (u8, i32), j: int) -> bool {
    a.0 < b.0 || (a.0 == b.0 && (a.1 < b.1 || (a.1 == b.1 && i < j)))
}

/// Whether priority `a` is at most priority `b`.
pub open spec fn priority_le(a: (u8, i32), b: (u8, i32)) -> bool {
    a.0 < b.0 || (a.0 == b.0 && a.1 <= b.1)
}

/// `r` lists `moves` rearranged by `perm` (position `k` of `r` holds move
/// `perm[k]`), in increasing priority, ties kept in their original order: the
/// stable sort of `moves` by [`priority_spec`].
pub open spec fn stably_ordered(
    m: GameModel,
    moves: Seq<Move>,
    prev: Option<Move>,
    dig: bool,
    perm: Seq<int>,
    r: Seq<Move>,
) -> bool {
    &&& perm.len() == moves.len()
    &&& r.len() == moves.len()
    &&& forall|k: int|
        0 <= k < r.len() ==> 0 <= #[trigger] perm[k] < moves.len() && r[k] == moves[perm[k]]
    &&& forall|k: int, l: int|
        0 <= k < l < r.len() ==> ranks_before(
            priority_spec(m, moves[#[trigger] perm[k]], prev, dig),
            perm[k],
            priority_spec(m, moves[#[trigger] perm[l]], prev, dig),
            perm[l],
        )
}

/// A move the symmetry drops is covered by its twin onto the first empty
/// column, when the search covered every move it kept.
proof fn lemma_twin_in_search<K: SearchKey>(
    s0: GameModel,
    cands: Seq<Move>,
    o: SolveOptions,
    em: Set<GameModel>,
    path: Set<K::V>,
    mv: Move,
)
    requires
        has_all_piles(s0),
        move_in_range(mv),
        apply_spec(s0, mv) is Ok,
        !kept_by_symmetry(o, s0, mv),
        forall|j: int|
            0 <= j < legal_moves_spec(s0).len() && kept_by_symmetry(o, s0, legal_moves_spec(s0)[j])
                ==> cands.contains(#[trigger] legal_moves_spec(s0)[j]),
        forall|j: int|
            0 <= j < cands.len() && apply_spec(s0, cands[j]) is Ok ==> #[trigger] covered::<K>(
                em,
                path,
                apply_spec(s0, cands[j])->Ok_0,
            ),
    ensures
        move_covered::<K>(em, path, s0, mv),
{
    let keep = first_empty_from(s0, 0);
    lemma_first_empty(s0, 0);
    if keep >= 7 {
        lemma_no_empty_count(s0, 7);
    }
    let a = build_target(mv)->Some_0;
    let r = retarget(mv, keep as usize);
    crate::solver::symmetry::lemma_retarget(s0, mv, keep as usize);
    assert(move_in_range(r));
    lemma_legal_moves_are_exactly_applicable(s0, r);
    let g = choose|g: int| 0 <= g < legal_moves_spec(s0).len() && legal_moves_spec(s0)[g] == r;
    assert(build_target(r) == Some(keep as usize));
    assert(kept_by_symmetry(o, s0, legal_moves_spec(s0)[g]));
    assert(cands.contains(legal_moves_spec(s0)[g]));
    let j = choose|j: int| 0 <= j < cands.len() && cands[j] == r;
    assert(covered::<K>(em, path, apply_spec(s0, cands[j])->Ok_0));
    reveal(twin_covered);
}

/// The first empty column from `c` on is an empty column, when there is one.
proof fn lemma_first_empty(m: GameModel, c: int)
    requires
        0 <= c <= 7,
    ensures
        first_empty_from(m, c) < 7 ==> c <= first_empty_from(m, c) && m.tableau[first_empty_from(m, c)].len()
            == 0,
        first_empty_from(m, c) >= 7 ==> forall|i: int| c <= i < 7 ==> m.tableau[i].len() != 0,
    decreases 7 - c,
{
    if c < 7 && m.tableau[c].len() != 0 {
        lemma_first_empty(m, c + 1);
    }
}

/// With no empty column among the first `n`, none is counted.
proof fn lemma_no_empty_count(m: GameModel, n: int)
    requires
        0 <= n <= 7,
        forall|i: int| 0 <= i < 7 ==> m.tableau[i].len() != 0,
    ensures
        empty_count(m, n) == 0,
    decreases n,
{
    if n > 0 {
        lemma_no_empty_count(m, n - 1);
    }
}

/// A stably ordered list holds every move it was ordered from.
proof fn lemma_ordered_keeps_all(
    m: GameModel,
    moves: Seq<Move>,
    prev: Option<Move>,
    dig: bool,
    perm: Seq<int>,
    r: Seq<Move>,
)
    requires
        stably_ordered(m, moves, prev, dig, perm, r),
    ensures
        forall|j: int| 0 <= j < moves.len() ==> r.contains(#[trigger] moves[j]),
{
    broadcast use vstd::seq_lib::seq_to_set_is_finite;

    let n = moves.len() as int;
    assert(perm.no_duplicates()) by {
        assert forall|k: int, l: int| 0 <= k < perm.len() && 0 <= l < perm.len() && k != l implies perm[k]
            != perm[l] by {
            if k < l {
                assert(ranks_before(
                    priority_spec(m, moves[perm[k]], prev, dig),
                    perm[k],
                    priority_spec(m, moves[perm[l]], prev, dig),
                    perm[l],
                ));
            } else {
                assert(ranks_before(
                    priority_spec(m, moves[perm[l]], prev, dig),
                    perm[l],
                    priority_spec(m, moves[perm[k]], prev, dig),
                    perm[k],
                ));
            }
        }
    }
    perm.unique_seq_to_set();
    vstd::set_lib::lemma_int_range(0, n);
    assert(perm.to_set().subset_of(vstd::set_lib::set_int_range(0, n))) by {
        assert forall|x: int| perm.to_set().contains(x) implies vstd::set_lib::set_int_range(0, n).contains(x) by {
            let k = choose|k: int| 0 <= k < perm.len() && perm[k] == x;
            assert(0 <= perm[k] < n);
        }
    }
    vstd::set_lib::lemma_subset_equality(perm.to_set(), vstd::set_lib::set_int_range(0, n));
    assert forall|j: int| 0 <= j < moves.len() implies r.contains(#[trigger] moves[j]) by {
        assert(vstd::set_lib::set_int_range(0, n).contains(j));
        assert(perm.to_set().contains(j));
        let k = choose|k: int| 0 <= k < perm.len() && perm[k] == j;
        assert(r[k] == moves[j]);
    }
}

/// Sort candidate moves by their priority, keeping equal-priority moves in
/// their original order.
fn order_moves(state: &GameState, moves: Vec<Move>, prev: Option<Move>, dig: bool) -> (r: Vec<
    Move,
>)
    requires
        all_in_range(moves@),
    ensures
        exists|perm: Seq<int>| stably_ordered(state@, moves@, prev, dig, perm, r@),
        all_in_range(r@),
{
    let ghost m = state@;
    let n = moves.len();
    let mut ranked: Vec<(u8, i32, usize)> = Vec::new();
    let mut i: usize = 0;
    while i < n
        invariant
            n == moves@.len(),
            i <= n,
            m == state@,
            all_in_range(moves@),
            ranked@.len() == i,
            forall|k: int|
                0 <= k < ranked@.len() ==> {
                    &&& (#[trigger] ranked@[k]).2 < i
                    &&& (ranked@[k].0, ranked@[k].1) == priority_spec(
                        m,
                        moves@[ranked@[k].2 as int],
                        prev,
                        dig,
                    )
                },
            forall|k: int, l: int|
                0 <= k < l < ranked@.len() ==> ranks_before(
                    ((#[trigger] ranked@[k]).0, ranked@[k].1),
                    ranked@[k].2 as int,
                    ((#[trigger] ranked@[l]).0, ranked@[l].1),
                    ranked@[l].2 as int,
                ),
        decreases n - i,
    {
        assert(move_in_range(moves@[i as int]));
        let key = move_priority(state, moves[i], prev, dig);
        let mut p: usize = 0;
        while p < ranked.len() && (ranked[p].0 < key.0 || (ranked[p].0 == key.0 && ranked[p].1
            <= key.1))
            invariant
                p <= ranked@.len(),
                forall|k: int|
                    0 <= k < p ==> priority_le(
                        ((#[trigger] ranked@[k]).0, ranked@[k].1),
                        key,
                    ),
            decreases ranked@.len() - p,
        {
            p = p + 1;
        }
        let ghost old_ranked = ranked@;
        proof {
            assert forall|k: int| p <= k < old_ranked.len() implies !priority_le(
                ((#[trigger] old_ranked[k]).0, old_ranked[k].1),
                key,
            ) by {
                if k > p {
                    assert(ranks_before(
                        (old_ranked[p as int].0, old_ranked[p as int].1),
                        old_ranked[p as int].2 as int,
                        (old_ranked[k].0, old_ranked[k].1),
                        old_ranked[k].2 as int,
                    ));
                }
            }
        }
        ranked.insert(p, (key.0, key.1, i));
        proof {
            let new_item = (key.0, key.1, i);
            assert forall|k: int| 0 <= k < ranked@.len() implies {
                &&& (#[trigger] ranked@[k]).2 < i + 1
                &&& (ranked@[k].0, ranked@[k].1) == priority_spec(
                    m,
                    moves@[ranked@[k].2 as int],
                    prev,
                    dig,
                )
            } by {
                if k < p {
                    assert(ranked@[k] == old_ranked[k]);
                } else if k > p {
                    assert(ranked@[k] == old_ranked[k - 1]);
                }
            }
            assert forall|k: int, l: int| 0 <= k < l < ranked@.len() implies ranks_before(
                ((#[trigger] ranked@[k]).0, ranked@[k].1),
                ranked@[k].2 as int,
                ((#[trigger] ranked@[l]).0, ranked@[l].1),
                ranked@[l].2 as int,
            ) by {
                if l < p {
                    assert(ranked@[k] == old_ranked[k] && ranked@[l] == old_ranked[l]);
                } else if l == p {
                    assert(ranked@[k] == old_ranked[k]);
                    assert(priority_le((old_ranked[k].0, old_ranked[k].1), key));
                } else if k > p {
                    assert(ranked@[k] == old_ranked[k - 1] && ranked@[l] == old_ranked[l - 1]);
                } else if k == p {
                    assert(ranked@[l] == old_ranked[l - 1]);
                    assert(!priority_le((old_ranked[l - 1].0, old_ranked[l - 1].1), key));
                } else {
                    assert(ranked@[k] == old_ranked[k] && ranked@[l] == old_ranked[l - 1]);
                }
            }
        }
        i = i + 1;
    }
    let mut out: Vec<Move> = Vec::new();
    let mut k: usize = 0;
    while k < n
        invariant
            n == moves@.len(),
            ranked@.len() == n,
            k <= n,
            out@.len() == k,
            forall|j: int| 0 <= j < ranked@.len() ==> (#[trigger] ranked@[j]).2 < n,
            forall|j: int| 0 <= j < k ==> out@[j] == moves@[(#[trigger] ranked@[j]).2 as int],
        decreases n - k,
    {
        out.push(moves[ranked[k].2]);
        k = k + 1;
    }
    let ghost perm = ranked@.map_values(|x: (u8, i32, usize)| x.2 as int);
    proof {
        assert forall|j: int| 0 <= j < out@.len() implies move_in_range(#[trigger] out@[j]) by {
            assert(out@[j] == moves@[ranked@[j].2 as int]);
            assert(move_in_range(moves@[ranked@[j].2 as int]));
        }
        assert(stably_ordered(m, moves@, prev, dig, perm, out@)) by {
            assert forall|a: int, b: int| 0 <= a < b < out@.len() implies ranks_before(
                priority_spec(m, moves@[#[trigger] perm[a]], prev, dig),
                perm[a],
                priority_spec(m, moves@[#[trigger] perm[b]], prev, dig),
                perm[b],
            ) by {
                assert(ranks_before(
                    (ranked@[a].0, ranked@[a].1),
                    ranked@[a].2 as int,
                    (ranked@[b].0, ranked@[b].1),
                    ranked@[b].2 as int,
                ));
            }
        }
    }
    out
}

/// An independent copy of a move list.
fn copy_moves(moves: &Vec<Move>) -> (r: Vec<Move>)
    ensures
        r@ == moves@,
{
    let mut r: Vec<Move> = Vec::new();
    let mut i: usize = 0;
    while i < moves.len()
        invariant
            i <= moves@.len(),
            r@ == moves@.subrange(0, i as int),
        decreases moves@.len() - i,
    {
        r.push(moves[i]);
        i = i + 1;
        assert(r@ =~= moves@.subrange(0, i as int));
    }
    assert(r@ =~= moves@);
    r
}

/// Whether every move from `state` keeps the score and recycle counters within
/// their machine types (always, short of an astronomically high score): the
/// points leave room for the largest gain of a move, and the recycle count
/// for one more.
fn counters_fit(state: &GameState) -> (b: bool)
    ensures
        b == (state@.points <= i64::MAX - 15 && state@.recycles < u32::MAX),
        b ==> forall|mv: Move| apply_fits(state@, mv),
{
    let points = state.score().event_points();
    let recycles = state.recycles_done();
    points <= i64::MAX - 15 && recycles < u32::MAX
}

/// Covering only grows with the recorded positions and the path.
proof fn lemma_covered_grows<K: SearchKey>(
    em1: Set<GameModel>,
    path1: Set<K::V>,
    em2: Set<GameModel>,
    path2: Set<K::V>,
    c: GameModel,
)
    requires
        covered::<K>(em1, path1, c),
        em1.subset_of(em2),
        path1.subset_of(path2),
    ensures
        covered::<K>(em2, path2, c),
{
    if !path1.contains(K::key_of(c)) {
        let q = choose|q: GameModel| #[trigger] em1.contains(q) && K::key_of(q) == K::key_of(c);
        assert(em2.contains(q));
    }
}

/// Recording a position and taking its key off the path leaves covered
/// whatever was.
proof fn lemma_covered_closing<K: SearchKey>(em: Set<GameModel>, path: Set<K::V>, s: GameModel, c: GameModel)
    requires
        covered::<K>(em, path.insert(K::key_of(s)), c),
    ensures
        covered::<K>(em.insert(s), path, c),
{
    if K::key_of(c) == K::key_of(s) {
        assert(em.insert(s).contains(s));
    } else if !path.contains(K::key_of(c)) {
        let q = choose|q: GameModel| #[trigger] em.contains(q) && K::key_of(q) == K::key_of(c);
        assert(em.insert(s).contains(q));
    }
}

/// Meeting a key only grows with the recorded positions and the path.
proof fn lemma_met_grows<K: SearchKey>(
    em1: Set<GameModel>,
    path1: Set<K::V>,
    em2: Set<GameModel>,
    path2: Set<K::V>,
    given: Set<K::V>,
    c: GameModel,
)
    requires
        met::<K>(em1, given, path1, c),
        em1.subset_of(em2),
        path1.subset_of(path2),
    ensures
        met::<K>(em2, given, path2, c),
{
    if !path1.contains(K::key_of(c)) && !given.contains(K::key_of(c)) {
        let q = choose|q: GameModel| #[trigger] em1.contains(q) && K::key_of(q) == K::key_of(c);
        assert(em2.contains(q));
    }
}

/// Recording a position and taking its key off the path leaves met whatever
/// was.
proof fn lemma_met_closing<K: SearchKey>(
    em: Set<GameModel>,
    given: Set<K::V>,
    path: Set<K::V>,
    s: GameModel,
    c: GameModel,
)
    requires
        met::<K>(em, given, path.insert(K::key_of(s)), c),
    ensures
        met::<K>(em.insert(s), given, path, c),
{
    if K::key_of(c) == K::key_of(s) {
        assert(em.insert(s).contains(s));
    } else if !path.contains(K::key_of(c)) && !given.contains(K::key_of(c)) {
        let q = choose|q: GameModel| #[trigger] em.contains(q) && K::key_of(q) == K::key_of(c);
        assert(em.insert(s).contains(q));
    }
}

/// A finished position stays so as the recorded positions and the path grow.
proof fn lemma_finished_grows<K: SearchKey>(
    p: GameModel,
    o: SolveOptions,
    em1: Set<GameModel>,
    path1: Set<K::V>,
    em2: Set<GameModel>,
    path2: Set<K::V>,
    given: Set<K::V>,
)
    requires
        finished::<K>(p, o, em1, given, path1),
        em1.subset_of(em2),
        path1.subset_of(path2),
    ensures
        finished::<K>(p, o, em2, given, path2),
{
    assert forall|mv: Move|
        move_in_range(mv) && apply_spec(p, mv) is Ok && tried(o, p, mv) implies #[trigger] met::<K>(
        em2,
        given,
        path2,
        apply_spec(p, mv)->Ok_0,
    ) by {
        lemma_met_grows::<K>(em1, path1, em2, path2, given, apply_spec(p, mv)->Ok_0);
    }
}

/// A finished position stays so when a position on the path is recorded and
/// its key taken off the path.
proof fn lemma_finished_closing<K: SearchKey>(
    p: GameModel,
    o: SolveOptions,
    em: Set<GameModel>,
    given: Set<K::V>,
    path: Set<K::V>,
    s: GameModel,
)
    requires
        finished::<K>(p, o, em, given, path.insert(K::key_of(s))),
    ensures
        finished::<K>(p, o, em.insert(s), given, path),
{
    assert forall|mv: Move|
        move_in_range(mv) && apply_spec(p, mv) is Ok && tried(o, p, mv) implies #[trigger] met::<K>(
        em.insert(s),
        given,
        path,
        apply_spec(p, mv)->Ok_0,
    ) by {
        lemma_met_closing::<K>(em, given, path, s, apply_spec(p, mv)->Ok_0);
    }
}

/// Covering a move only grows with the recorded positions and the path.
proof fn lemma_move_covered_grows<K: SearchKey>(
    em1: Set<GameModel>,
    path1: Set<K::V>,
    em2: Set<GameModel>,
    path2: Set<K::V>,
    p: GameModel,
    mv: Move,
)
    requires
        move_covered::<K>(em1, path1, p, mv),
        em1.subset_of(em2),
        path1.subset_of(path2),
    ensures
        move_covered::<K>(em2, path2, p, mv),
{
    if covered::<K>(em1, path1, apply_spec(p, mv)->Ok_0) {
        lemma_covered_grows::<K>(em1, path1, em2, path2, apply_spec(p, mv)->Ok_0);
    } else {
        reveal(twin_covered);
        let b = first_empty_from(p, 0);
        lemma_covered_grows::<K>(em1, path1, em2, path2, apply_spec(p, retarget(mv, b as usize))->Ok_0);
    }
}

/// Recording a position and taking its key off the path leaves covered every
/// move that was.
proof fn lemma_move_covered_closing<K: SearchKey>(
    em: Set<GameModel>,
    path: Set<K::V>,
    s: GameModel,
    p: GameModel,
    mv: Move,
)
    requires
        move_covered::<K>(em, path.insert(K::key_of(s)), p, mv),
    ensures
        move_covered::<K>(em.insert(s), path, p, mv),
{
    if covered::<K>(em, path.insert(K::key_of(s)), apply_spec(p, mv)->Ok_0) {
        lemma_covered_closing::<K>(em, path, s, apply_spec(p, mv)->Ok_0);
    } else {
        reveal(twin_covered);
        let b = first_empty_from(p, 0);
        lemma_covered_closing::<K>(em, path, s, apply_spec(p, retarget(mv, b as usize))->Ok_0);
    }
}

/// A position searched out stays so as the recorded positions and the path
/// grow.
proof fn lemma_searched_out_grows<K: SearchKey>(
    p: GameModel,
    config: GameConfig,
    em1: Set<GameModel>,
    path1: Set<K::V>,
    em2: Set<GameModel>,
    path2: Set<K::V>,
)
    requires
        searched_out::<K>(p, config, em1, path1),
        em1.subset_of(em2),
        path1.subset_of(path2),
    ensures
        searched_out::<K>(p, config, em2, path2),
{
    assert forall|mv: Move| move_in_range(mv) && apply_spec(p, mv) is Ok implies #[trigger] move_covered::<K>(
        em2,
        path2,
        p,
        mv,
    ) by {
        lemma_move_covered_grows::<K>(em1, path1, em2, path2, p, mv);
    }
}

/// A position searched out stays so when a position on the path is recorded
/// and its key taken off the path.
proof fn lemma_searched_out_closing<K: SearchKey>(
    p: GameModel,
    config: GameConfig,
    em: Set<GameModel>,
    path: Set<K::V>,
    s: GameModel,
)
    requires
        searched_out::<K>(p, config, em, path.insert(K::key_of(s))),
    ensures
        searched_out::<K>(p, config, em.insert(s), path),
{
    assert forall|mv: Move| move_in_range(mv) && apply_spec(p, mv) is Ok implies #[trigger] move_covered::<K>(
        em.insert(s),
        path,
        p,
        mv,
    ) by {
        lemma_move_covered_closing::<K>(em, path, s, p, mv);
    }
}

/// The state of one search run.
struct Search<K: SearchKey> {
    budget: SolveBudget,
    options: SolveOptions,
    clock: Clock,
    nodes: u64,
    max_depth: usize,
    /// On-path ancestors. Never evicted; guarantees termination.
    path: KeySet<K>,
    peak_positions: usize,
    /// Global closed set of positions searched out without a win (None when
    /// disabled).
    closed: Option<ClosedTable<K>>,
    table_hits: u64,
    forced_automoves: u64,
    found: Option<Vec<Move>>,
    budget_exhausted: bool,
    /// The positions searched to the end so far, without a win or a cut-off.
    searched: Ghost<Set<GameModel>>,
    /// The keys the table held before the search began.
    preloaded: Ghost<Set<K::V>>,
}

impl<K: SearchKey> Search<K> {
    /// The sets are well formed, a recorded win replays from `root` (when the
    /// root's waste is face-up), the node budget is respected, and forced moves
    /// are counted among expansions.
    spec fn inv(&self, root: GameModel) -> bool {
        &&& self.path.wf()
        &&& (self.closed matches Some(t) ==> t.wf())
        &&& (self.found matches Some(f) ==> (waste_face_up(root) ==> wins_from(root, f@)))
        &&& (self.budget.max_nodes matches Some(mx) ==> self.nodes <= mx)
        &&& self.forced_automoves <= self.nodes
        &&& self.path@.len() <= self.nodes
        &&& (self.budget_exhausted ==> limit_reached(root, self.budget, self.nodes as int))
        &&& (self.closed matches Some(t) ==> forall|k: K::V|
            #[trigger] t@.contains(k) ==> self.preloaded@.contains(k) || recorded::<K>(self.searched@, k))
        &&& (self.tracking(root) ==> forall|p: GameModel|
            #[trigger] self.searched@.contains(p) ==> searched_out::<K>(p, root.config, self.searched@, self.path@))
        &&& (self.tracing(root) ==> forall|p: GameModel|
            #[trigger] self.searched@.contains(p) ==> finished::<K>(
                p,
                self.options,
                self.searched@,
                self.preloaded@,
                self.path@,
            ))
    }

    /// The search, from a root laid right, has neither won nor been cut off.
    spec fn tracing(&self, root: GameModel) -> bool {
        &&& well_laid(root)
        &&& !self.budget_exhausted
        &&& self.found is None
    }

    /// The search tries every legal move from positions that lie right, on a
    /// table that started empty, and has neither won nor been cut off.
    spec fn tracking(&self, root: GameModel) -> bool {
        &&& exhaustive_options(self.options)
        &&& line_ok(root)
        &&& self.preloaded@ == Set::<K::V>::empty()
        &&& !self.budget_exhausted
        &&& self.found is None
    }

    /// The budget, options and presence of a table are those of `other`.
    spec fn same_setup(&self, other: Self) -> bool {
        &&& self.budget == other.budget
        &&& self.options == other.options
        &&& (self.closed is Some) == (other.closed is Some)
        &&& self.preloaded == other.preloaded
        &&& other.searched@.subset_of(self.searched@)
        &&& (other.found is Some ==> self.found is Some)
    }

    /// The search runs with plain options and no table.
    spec fn plain_search(&self) -> bool {
        plain_options(self.options) && self.closed is None
    }

    /// Whether a budget limit stops the search at this node: the node budget
    /// is spent, or, checked every 2048 nodes, the time budget is.
    fn over_budget(&self) -> (b: bool)
        ensures
            (self.budget.max_nodes matches Some(mx) && self.nodes >= mx) ==> b,
            !b ==> (self.budget.max_nodes matches Some(mx) ==> self.nodes < mx),
            b ==> (self.budget.max_nodes matches Some(mx) && self.nodes >= mx) || (
            self.budget.max_time is Some && self.nodes & 0x7FF == 0),
    {
        match self.budget.max_nodes {
            Some(max) => {
                if self.nodes >= max {
                    return true;
                }
            },
            None => {},
        }
        match self.budget.max_time {
            Some(max) => {
                if self.nodes & 0x7FF == 0 && self.clock.reached(max) {
                    return true;
                }
            },
            None => {},
        }
        false
    }

    /// Explore `state`. Returns `true` once a win is found (short-circuits). The
    /// state is restored on return, up to the faces of its stock and waste
    /// cards (every applied move is undone).
    fn dfs(&mut self, state: &mut GameState, moves: &mut Vec<Move>, Ghost(root): Ghost<GameModel>) -> (won: bool)
        requires
            old(self).inv(root),
            waste_face_up(root) ==> waste_face_up(old(state)@) && reaches(
                root,
                old(moves)@,
                old(state)@,
            ),
            line_ok(root) ==> line_ok(old(state)@) && old(state)@.config == root.config,
            well_laid(root) ==> well_laid(old(state)@),
            old(moves)@.len() <= old(self).nodes,
            nonneg(old(state)@.points) <= nonneg(root.points) + 15 * old(moves)@.len(),
            old(state)@.recycles <= root.recycles + old(moves)@.len(),
        ensures
            final(self).tracking(root) ==> covered::<K>(final(self).searched@, old(self).path@, old(state)@),
            final(self).tracing(root) ==> met::<K>(
                final(self).searched@,
                old(self).preloaded@,
                old(self).path@,
                old(state)@,
            ),
            final(self).tracing(root) && !old(self).path@.contains(K::key_of(old(state)@))
                && !old(self).preloaded@.contains(K::key_of(old(state)@)) && !recorded::<K>(
                old(self).searched@,
                K::key_of(old(state)@),
            ) ==> final(self).searched@.contains(old(state)@),
            final(self).inv(root),
            final(self).same_setup(*old(self)),
            final(self).nodes >= old(self).nodes,
            settle_faces(final(state)@) == settle_faces(old(state)@),
            waste_face_up(root) ==> stock_down(final(state)@) == stock_down(old(state)@),
            final(moves)@ == old(moves)@,
            final(self).path@ == old(self).path@,
            old(self).budget_exhausted ==> final(self).budget_exhausted,
            well_laid(old(state)@) ==> final(state)@ == old(state)@,
            old(self).plain_search() && well_laid(old(state)@) && !won && !final(self).budget_exhausted
                ==> forall|l: Seq<Move>| !#[trigger] fresh_win::<K>(old(state)@, l, old(self).path@),
            old(self).closed is None && well_laid(old(state)@) && !won && !final(self).budget_exhausted
                ==> forall|l: Seq<Move>| !#[trigger] fresh_tried_win::<K>(
                old(self).options,
                old(state)@,
                l,
                old(self).path@,
            ),
            old(self).found is None ==> (won <==> final(self).found is Some),
            model_is_won(old(state)@) ==> won && final(self).nodes == old(self).nodes && (final(self).found matches Some(f) && f@ == old(moves)@),
            !model_is_won(old(state)@) && (old(self).budget.max_nodes matches Some(mx)
                && old(self).nodes >= mx) ==> !won && final(self).budget_exhausted
                && final(self).nodes == old(self).nodes,
        decreases (u64::MAX - old(self).nodes) as int, 0int,
    {
        if state.is_won() {
            proof {
                if waste_face_up(root) {
                    lemma_won_reaches(root, moves@, state@);
                }
            }
            self.found = Some(copy_moves(moves));
            return true;
        }
        if self.over_budget() || self.nodes == u64::MAX || self.path.len() == usize::MAX {
            self.budget_exhausted = true;
            return false;
        }
        let key = K::of_state(state);
        let hit = match &self.closed {
            Some(t) => t.contains(&key),
            None => false,
        };
        if hit {
            self.table_hits = self.table_hits.saturating_add(1);
            return false;
        }
        if self.path.contains(&key) {
            return false;  // cycle
        }
        self.nodes = self.nodes + 1;
        let depth = moves.len();
        if depth > self.max_depth {
            self.max_depth = depth;
        }
        proof {
            self.path.lemma_finite();
        }
        self.path.insert(key.duplicate());
        let on_path = self.path.len();
        if on_path > self.peak_positions {
            self.peak_positions = on_path;
        }
        let ghost before_path = old(self).path@;
        let ghost s = state@;
        let ghost inside = self.path@;
        assert(inside == before_path.insert(key@));
        proof {
            if self.tracking(root) {
                assert forall|p: GameModel| #[trigger] self.searched@.contains(p) implies searched_out::<K>(
                    p,
                    root.config,
                    self.searched@,
                    inside,
                ) by {
                    lemma_searched_out_grows::<K>(p, root.config, self.searched@, before_path, self.searched@, inside);
                }
            }
            if self.tracing(root) {
                assert forall|p: GameModel| #[trigger] self.searched@.contains(p) implies finished::<K>(
                    p,
                    self.options,
                    self.searched@,
                    self.preloaded@,
                    inside,
                ) by {
                    lemma_finished_grows::<K>(
                        p,
                        self.options,
                        self.searched@,
                        before_path,
                        self.searched@,
                        inside,
                        self.preloaded@,
                    );
                }
            }
        }
        let won = self.expand(state, moves, Ghost(root));
        self.path.remove(&key);
        assert(self.path@ =~= before_path);
        let ghost em = self.searched@;
        proof {
            if old(self).closed is None && well_laid(s) && !won && !self.budget_exhausted {
                assert forall|l: Seq<Move>| !#[trigger] fresh_tried_win::<K>(self.options, s, l, before_path) by {
                    if fresh_tried_win::<K>(self.options, s, l, before_path) {
                        let c = apply_spec(s, l[0])->Ok_0;
                        assert(fresh_tried_win::<K>(self.options, c, l.drop_first(), inside));
                    }
                }
            }
            if old(self).plain_search() && well_laid(s) && !won && !self.budget_exhausted {
                assert forall|l: Seq<Move>| !#[trigger] fresh_win::<K>(s, l, before_path) by {
                    if fresh_win::<K>(s, l, before_path) {
                        let c = apply_spec(s, l[0])->Ok_0;
                        assert(fresh_win::<K>(c, l.drop_first(), inside));
                    }
                }
            }
        }
        if !won && !self.budget_exhausted {
            self.searched = Ghost(self.searched@.insert(s));
            let mut closed: Option<ClosedTable<K>> = None;
            core::mem::swap(&mut closed, &mut self.closed);
            match closed {
                Some(mut t) => {
                    let ghost before_table = t@;
                    t.insert(key);
                    proof {
                        assert forall|k: K::V| #[trigger] t@.contains(k) implies self.preloaded@.contains(k)
                            || recorded::<K>(self.searched@, k) by {
                            if k == K::key_of(s) {
                                assert(self.searched@.contains(s));
                            } else if !self.preloaded@.contains(k) {
                                assert(before_table.contains(k));
                                let q = choose|q: GameModel| #[trigger] em.contains(q) && K::key_of(q) == k;
                                assert(self.searched@.contains(q));
                            }
                        }
                    }
                    self.closed = Some(t);
                },
                None => {},
            }
            proof {
                if self.tracking(root) {
                    assert forall|p: GameModel| #[trigger] self.searched@.contains(p) implies searched_out::<K>(
                        p,
                        root.config,
                        self.searched@,
                        before_path,
                    ) by {
                        if p == s {
                            assert forall|mv: Move| move_in_range(mv) && apply_spec(s, mv) is Ok implies #[trigger] move_covered::<K>(
                                self.searched@,
                                before_path,
                                s,
                                mv,
                            ) by {
                                lemma_move_covered_closing::<K>(em, before_path, s, s, mv);
                            }
                        } else {
                            lemma_searched_out_closing::<K>(p, root.config, em, before_path, s);
                        }
                    }
                }
                if self.tracing(root) {
                    assert forall|p: GameModel| #[trigger] self.searched@.contains(p) implies finished::<K>(
                        p,
                        self.options,
                        self.searched@,
                        self.preloaded@,
                        before_path,
                    ) by {
                        if p == s {
                            assert(finished::<K>(s, self.options, em, self.preloaded@, inside));
                        }
                        lemma_finished_closing::<K>(p, self.options, em, self.preloaded@, before_path, s);
                    }
                }
                assert(self.searched@.contains(s));
            }
        }
        won
    }

    /// Try the moves of `state`: a forced safe foundation move when one exists,
    /// else every candidate in order until one wins or the budget runs out.
    #[verifier::rlimit(100)]
    fn expand(&mut self, state: &mut GameState, moves: &mut Vec<Move>, Ghost(root): Ghost<GameModel>) -> (won: bool)
        requires
            old(self).inv(root),
            old(self).forced_automoves < old(self).nodes,
            waste_face_up(root) ==> waste_face_up(old(state)@) && reaches(
                root,
                old(moves)@,
                old(state)@,
            ),
            line_ok(root) ==> line_ok(old(state)@) && old(state)@.config == root.config,
            well_laid(root) ==> well_laid(old(state)@),
            old(moves)@.len() < old(self).nodes,
            nonneg(old(state)@.points) <= nonneg(root.points) + 15 * old(moves)@.len(),
            old(state)@.recycles <= root.recycles + old(moves)@.len(),
        ensures
            final(self).tracing(root) ==> forall|mv: Move|
                move_in_range(mv) && apply_spec(old(state)@, mv) is Ok && tried(old(self).options, old(state)@, mv)
                    ==> #[trigger] met::<K>(
                    final(self).searched@,
                    old(self).preloaded@,
                    old(self).path@,
                    apply_spec(old(state)@, mv)->Ok_0,
                ),
            final(self).tracking(root) ==> forall|mv: Move|
                move_in_range(mv) && apply_spec(old(state)@, mv) is Ok ==> #[trigger] move_covered::<K>(
                    final(self).searched@,
                    old(self).path@,
                    old(state)@,
                    mv,
                ),
            final(self).inv(root),
            final(self).same_setup(*old(self)),
            final(self).nodes >= old(self).nodes,
            settle_faces(final(state)@) == settle_faces(old(state)@),
            waste_face_up(root) ==> stock_down(final(state)@) == stock_down(old(state)@),
            final(moves)@ == old(moves)@,
            final(self).path@ == old(self).path@,
            old(self).budget_exhausted ==> final(self).budget_exhausted,
            well_laid(old(state)@) ==> final(state)@ == old(state)@,
            old(self).closed is None && well_laid(old(state)@) && !won && !final(self).budget_exhausted
                ==> forall|mv: Move, l: Seq<Move>|
                move_in_range(mv) && apply_spec(old(state)@, mv) is Ok && tried(old(self).options, old(state)@, mv)
                    ==> !#[trigger] fresh_tried_win::<K>(
                    old(self).options,
                    apply_spec(old(state)@, mv)->Ok_0,
                    l,
                    old(self).path@,
                ),
            old(self).plain_search() && well_laid(old(state)@) && !won && !final(self).budget_exhausted
                ==> forall|mv: Move, l: Seq<Move>|
                move_in_range(mv) && apply_spec(old(state)@, mv) is Ok ==> !#[trigger] fresh_win::<K>(
                    apply_spec(old(state)@, mv)->Ok_0,
                    l,
                    old(self).path@,
                ),
            old(self).found is None ==> (won <==> final(self).found is Some),
        decreases (u64::MAX - old(self).nodes) as int, 1int,
    {
        let ghost tidy = waste_face_up(root);
        let ghost s0 = state@;
        proof {
            state.lemma_has_all_piles();
        }
        let candidates = legal_moves(state);
        proof {
            assert forall|i: int| 0 <= i < candidates@.len() implies move_in_range(
                #[trigger] candidates@[i],
            ) by {
                lemma_legal_moves_are_exactly_applicable(s0, candidates@[i]);
                assert(legal_moves_spec(s0).contains(candidates@[i]));
            }
        }
        if self.options.safe_automoves {
            match safe_move_in(state, candidates.as_slice()) {
                Some(mv) => {
                    proof {
                        let i = choose|i: int|
                            0 <= i < candidates@.len() && candidates@[i] == mv && #[trigger] (
                            candidates@[i]) == candidates@[i];
                        lemma_legal_moves_are_exactly_applicable(s0, mv);
                        assert(legal_moves_spec(s0).contains(candidates@[i]));
                    }
                    if !counters_fit(state) {
                        self.budget_exhausted = true;
                        return false;
                    }
                    match apply_undoable(state, mv) {
                        Ok(undo) => {
                            let ghost child = state@;
                            proof {
                                if tidy {
                                    lemma_reaches_step(root, moves@, s0, mv);
                                    lemma_apply_keeps_waste_face_up(s0, mv);
                                }
                                if well_laid(s0) {
                                    lemma_apply_keeps_well_laid(s0, mv);
                                }
                            }
                            proof {
                                if line_ok(root) {
                                    lemma_line_ok_step(s0, mv);
                                }
                            }
                            proof {
                                lemma_apply_bounds(s0, mv);
                            }
                            self.forced_automoves = self.forced_automoves + 1;
                            moves.push(mv);
                            let won = self.dfs(state, moves, Ghost(root));
                            let _ = moves.pop();
                            proof {
                                assert(moves@ =~= old(moves)@);
                                lemma_undo_child(s0, mv, state@, tidy);
                                if well_laid(s0) {
                                    lemma_apply_keeps_well_laid(s0, mv);
                                    lemma_undo_restores(s0, mv);
                                }
                            }
                            undo_move(state, mv, undo);
                            return won;
                        },
                        Err(_) => {
                            return false;
                        },
                    }
                },
                None => {
                    proof {
                        assert(!has_forced_move(s0));
                    }
                },
            }
        }
        assert(self.options.safe_automoves ==> !has_forced_move(s0));
        let prev: Option<Move> = if moves.len() > 0 {
            Some(moves[moves.len() - 1])
        } else {
            None
        };
        let mut cands = candidates;
        if self.options.empty_column_symmetry {
            cands = apply_empty_column_symmetry(state, cands);
            proof {
                if cands@ != candidates@ {
                    lemma_filter_in_range(
                        candidates@,
                        |mv: Move|
                            !crate::solver::heuristics::redundant_empty_target(
                                s0,
                                crate::solver::heuristics::first_empty_from(s0, 0),
                                mv,
                            ),
                    );
                }
            }
        }
        if self.options.equivalence_pruning {
            let ghost before = cands@;
            cands = apply_equivalence_pruning(state, cands);
            proof {
                lemma_pruned_in_range(s0, before, before.len() as int);
            }
        }
        proof {
            if exhaustive_options(self.options) {
                assert forall|j: int|
                    0 <= j < legal_moves_spec(s0).len() && kept_by_symmetry(
                        self.options,
                        s0,
                        legal_moves_spec(s0)[j],
                    ) implies cands@.contains(#[trigger] legal_moves_spec(s0)[j]) by {
                    if self.options.empty_column_symmetry && empty_count(s0, 7) >= 2 {
                        candidates@.lemma_filter_contains(
                            |mv: Move|
                                !crate::solver::heuristics::redundant_empty_target(
                                    s0,
                                    crate::solver::heuristics::first_empty_from(s0, 0),
                                    mv,
                                ),
                            j,
                        );
                    } else {
                        assert(cands@[j] == legal_moves_spec(s0)[j]);
                    }
                }
            }
        }
        let ghost fm = cands@;
        assert(fm == filtered_moves(self.options, s0));
        if self.options.move_ordering {
            let ghost unordered = cands@;
            cands = order_moves(state, cands, prev, self.options.dig_larger_first);
            proof {
                let perm = choose|perm: Seq<int>|
                    stably_ordered(s0, unordered, prev, self.options.dig_larger_first, perm, cands@);
                lemma_ordered_keeps_all(s0, unordered, prev, self.options.dig_larger_first, perm, cands@);
            }
        }
        let mut i: usize = 0;
        while i < cands.len()
            invariant
                exhaustive_options(old(self).options) && !old(self).options.move_ordering
                    && !old(self).options.empty_column_symmetry ==> cands@ == legal_moves_spec(s0),
                exhaustive_options(old(self).options) ==> forall|j: int|
                    0 <= j < legal_moves_spec(s0).len() && kept_by_symmetry(
                        old(self).options,
                        s0,
                        legal_moves_spec(s0)[j],
                    ) ==> cands@.contains(#[trigger] legal_moves_spec(s0)[j]),
                line_ok(root) ==> line_ok(s0) && s0.config == root.config,
                well_laid(root) ==> well_laid(s0),
                old(moves)@.len() < old(self).nodes,
                nonneg(s0.points) <= nonneg(root.points) + 15 * old(moves)@.len(),
                s0.recycles <= root.recycles + old(moves)@.len(),
                fm == filtered_moves(old(self).options, s0),
                forall|j: int| 0 <= j < fm.len() ==> cands@.contains(#[trigger] fm[j]),
                old(self).options.safe_automoves ==> !has_forced_move(s0),
                self.tracing(root) ==> forall|j: int|
                    0 <= j < i && apply_spec(s0, cands@[j]) is Ok && !skipped(old(self).options, s0, cands@[j])
                        ==> #[trigger] met::<K>(
                        self.searched@,
                        old(self).preloaded@,
                        old(self).path@,
                        apply_spec(s0, cands@[j])->Ok_0,
                    ),
                self.tracking(root) ==> forall|j: int|
                    0 <= j < i && apply_spec(s0, cands@[j]) is Ok ==> #[trigger] covered::<K>(
                        self.searched@,
                        old(self).path@,
                        apply_spec(s0, cands@[j])->Ok_0,
                    ),
                old(self).closed is None && well_laid(s0) && !self.budget_exhausted ==> forall|
                    j: int,
                    l: Seq<Move>,
                |
                    0 <= j < i && apply_spec(s0, cands@[j]) is Ok && !skipped(old(self).options, s0, cands@[j])
                        ==> !#[trigger] fresh_tried_win::<K>(
                        old(self).options,
                        apply_spec(s0, cands@[j])->Ok_0,
                        l,
                        old(self).path@,
                    ),
                old(self).plain_search() && well_laid(s0) && !self.budget_exhausted ==> forall|
                    j: int,
                    l: Seq<Move>,
                |
                    0 <= j < i && apply_spec(s0, cands@[j]) is Ok ==> !#[trigger] fresh_win::<K>(
                        apply_spec(s0, cands@[j])->Ok_0,
                        l,
                        old(self).path@,
                    ),
                has_all_piles(s0),
                self.inv(root),
                self.same_setup(*old(self)),
                self.nodes >= old(self).nodes,
                tidy == waste_face_up(root),
                s0 == old(state)@,
                all_in_range(cands@),
                i <= cands@.len(),
                settle_faces(state@) == settle_faces(s0),
                tidy ==> stock_down(state@) == stock_down(s0),
                tidy ==> waste_face_up(s0) && reaches(root, old(moves)@, s0),
                moves@ == old(moves)@,
                self.path@ == old(self).path@,
                old(self).budget_exhausted ==> self.budget_exhausted,
                well_laid(s0) ==> state@ == s0,
                old(self).found is None ==> self.found is None,
            decreases cands@.len() - i,
        {
            let mv = cands[i];
            proof {
                assert(move_in_range(cands@[i as int]));
                state.lemma_has_all_piles();
                assert(state@.points == s0.points && state@.recycles == s0.recycles) by {
                    assert(settle_faces(state@).points == settle_faces(s0).points);
                    assert(settle_faces(state@).recycles == settle_faces(s0).recycles);
                }
            }
            let noop_from = if self.options.no_op_pruning {
                no_op_structural(state, mv)
            } else {
                None
            };
            if !counters_fit(state) {
                self.budget_exhausted = true;
                return false;
            }
            let ghost pre = state@;
            proof {
                if tidy {
                    assert(pre.waste == s0.waste) by {
                        assert(stock_down(pre).waste == stock_down(s0).waste);
                    }
                    assert(waste_face_up(pre));
                }
            }
            match apply_undoable(state, mv) {
                Err(_) => {},
                Ok(undo) => {
                    let ghost child = state@;
                    proof {
                        if tidy {
                            lemma_reaches_step(root, moves@, pre, mv);
                            lemma_apply_keeps_waste_face_up(pre, mv);
                        }
                        if well_laid(s0) {
                            lemma_apply_keeps_well_laid(s0, mv);
                        }
                    }
                    let skip = match noop_from {
                        Some(from) => state.column(from).is_empty() || !column_has_legal_move(
                            state,
                            from,
                        ),
                        None => false,
                    };
                    if skip {
                        proof {
                            lemma_undo_child(pre, mv, child, tidy);
                            if well_laid(s0) {
                                lemma_undo_restores(s0, mv);
                            }
                        }
                        undo_move(state, mv, undo);
                    } else {
                        proof {
                            if line_ok(root) {
                                lemma_line_ok_step(s0, mv);
                            }
                        }
                        proof {
                            lemma_apply_bounds(pre, mv);
                        }
                        let ghost em_before = self.searched@;
                        moves.push(mv);
                        let won = self.dfs(state, moves, Ghost(root));
                        let _ = moves.pop();
                        proof {
                            if self.tracing(root) {
                                assert forall|j: int|
                                    0 <= j < i + 1 && apply_spec(s0, cands@[j]) is Ok && !skipped(
                                        old(self).options,
                                        s0,
                                        cands@[j],
                                    ) implies #[trigger] met::<K>(
                                    self.searched@,
                                    old(self).preloaded@,
                                    old(self).path@,
                                    apply_spec(s0, cands@[j])->Ok_0,
                                ) by {
                                    if j < i {
                                        lemma_met_grows::<K>(
                                            em_before,
                                            old(self).path@,
                                            self.searched@,
                                            old(self).path@,
                                            old(self).preloaded@,
                                            apply_spec(s0, cands@[j])->Ok_0,
                                        );
                                    }
                                }
                            }
                            if self.tracking(root) {
                                assert forall|j: int|
                                    0 <= j < i + 1 && apply_spec(s0, cands@[j]) is Ok implies #[trigger] covered::<K>(
                                    self.searched@,
                                    old(self).path@,
                                    apply_spec(s0, cands@[j])->Ok_0,
                                ) by {
                                    if j < i {
                                        lemma_covered_grows::<K>(
                                            em_before,
                                            old(self).path@,
                                            self.searched@,
                                            old(self).path@,
                                            apply_spec(s0, cands@[j])->Ok_0,
                                        );
                                    }
                                }
                            }
                        }
                        proof {
                            assert(moves@ =~= old(moves)@);
                            lemma_undo_child(pre, mv, state@, tidy);
                            if well_laid(s0) {
                                lemma_undo_restores(s0, mv);
                            }
                        }
                        undo_move(state, mv, undo);
                        if won {
                            return true;
                        }
                        if self.budget_exhausted {
                            return false;
                        }
                    }
                },
            }
            i = i + 1;
        }
        proof {
            if self.tracing(root) {
                assert forall|mv: Move|
                    move_in_range(mv) && apply_spec(s0, mv) is Ok && tried(self.options, s0, mv) implies #[trigger] met::<K>(
                    self.searched@,
                    old(self).preloaded@,
                    old(self).path@,
                    apply_spec(s0, mv)->Ok_0,
                ) by {
                    let g = choose|g: int| 0 <= g < fm.len() && fm[g] == mv;
                    assert(cands@.contains(fm[g]));
                    let j = choose|j: int| 0 <= j < cands@.len() && cands@[j] == mv;
                    assert(apply_spec(s0, cands@[j]) is Ok);
                }
            }
            if self.tracking(root) {
                assert forall|mv: Move| move_in_range(mv) && apply_spec(s0, mv) is Ok implies #[trigger] move_covered::<K>(
                    self.searched@,
                    old(self).path@,
                    s0,
                    mv,
                ) by {
                    lemma_legal_moves_are_exactly_applicable(s0, mv);
                    let g = choose|g: int| 0 <= g < legal_moves_spec(s0).len() && legal_moves_spec(s0)[g] == mv;
                    if kept_by_symmetry(self.options, s0, mv) {
                        assert(cands@.contains(legal_moves_spec(s0)[g]));
                        let j = choose|j: int| 0 <= j < cands@.len() && cands@[j] == mv;
                        assert(apply_spec(s0, cands@[j]) is Ok);
                    } else {
                        lemma_twin_in_search::<K>(s0, cands@, self.options, self.searched@, old(self).path@, mv);
                    }
                }
            }
            if old(self).closed is None && well_laid(s0) && !self.budget_exhausted {
                assert forall|mv: Move, l: Seq<Move>|
                    move_in_range(mv) && apply_spec(s0, mv) is Ok && tried(self.options, s0, mv) implies !#[trigger] fresh_tried_win::<K>(
                    self.options,
                    apply_spec(s0, mv)->Ok_0,
                    l,
                    old(self).path@,
                ) by {
                    let g = choose|g: int| 0 <= g < fm.len() && fm[g] == mv;
                    assert(cands@.contains(fm[g]));
                    let j = choose|j: int| 0 <= j < cands@.len() && cands@[j] == mv;
                    assert(apply_spec(s0, cands@[j]) is Ok);
                }
            }
            if old(self).plain_search() && well_laid(s0) && !self.budget_exhausted {
                assert forall|mv: Move, l: Seq<Move>|
                    move_in_range(mv) && apply_spec(s0, mv) is Ok implies !#[trigger] fresh_win::<K>(
                    apply_spec(s0, mv)->Ok_0,
                    l,
                    old(self).path@,
                ) by {
                    lemma_legal_moves_are_exactly_applicable(s0, mv);
                    let j = choose|j: int| 0 <= j < cands@.len() && cands@[j] == mv;
                    assert(apply_spec(s0, cands@[j]) is Ok);
                }
            }
        }
        false
    }
}

/// `x`, or `usize::MAX` when `x` is larger.
pub open spec fn saturated(x: int) -> int {
    if x > usize::MAX {
        usize::MAX as int
    } else {
        x
    }
}

/// The logical memory of a search: the keys on the path at its peak and in the
/// table at its peak, and the moves of the winning line, each product and sum
/// saturating at `usize::MAX`.
pub open spec fn logical_bytes(
    positions: int,
    entries: int,
    key_bytes: int,
    moves: int,
    move_bytes: int,
) -> int {
    saturated(saturated(saturated(positions + entries) * key_bytes) + saturated(moves * move_bytes))
}

/// The size of one key under a key strategy.
pub open spec fn key_bytes(key: KeyStrategy) -> int {
    match key {
        KeyStrategy::Zobrist => vstd::layout::size_of::<u128>() as int,
        KeyStrategy::ExactBytes => vstd::layout::size_of::<PositionKey>() as int,
    }
}

/// What every search from `root` under `budget` guarantees of its result: the
/// verdict is Solvable exactly when a winning line was found, Inconclusive when
/// none was and a limit stopped the search, Unwinnable otherwise; a winning line
/// replays legally from the root to a won position (for a root whose waste is
/// face-up, as every position reached in play has it); the node budget is kept;
/// a won root is reported solved with an empty line before any expansion; a
/// zero node budget stops an unwon root at once; and a search reports itself
/// cut off only where a limit may have stopped it (see [`limit_reached`]).
pub open spec fn outcome_holds(root: GameModel, budget: SolveBudget, r: SolveResult) -> bool {
    &&& r.solvable == (r.moveset is Some)
    &&& r.verdict == if r.solvable {
        Verdict::Solvable
    } else if r.budget_exhausted {
        Verdict::Inconclusive
    } else {
        Verdict::Unwinnable
    }
    &&& (waste_face_up(root) ==> (r.moveset matches Some(ms) ==> wins_from(root, ms@)))
    &&& (budget.max_nodes matches Some(mx) ==> r.nodes_expanded <= mx)
    &&& r.forced_automoves <= r.nodes_expanded
    &&& (model_is_won(root) ==> r.nodes_expanded == 0 && (r.moveset matches Some(ms) && ms@.len()
        == 0))
    &&& (!model_is_won(root) && budget.max_nodes == Some(0u64) ==> r.verdict == Verdict::Inconclusive
        && r.nodes_expanded == 0)
    &&& (r.budget_exhausted ==> limit_reached(root, budget, r.nodes_expanded as int))
}

/// `x`, or 0 when it is negative.
pub open spec fn nonneg(x: int) -> int {
    if x > 0 {
        x
    } else {
        0
    }
}

/// Whether a search from `root` under `budget` that has expanded `nodes`
/// positions may have been cut off: there is a time budget, the node budget
/// is spent, the node or path count has reached its machine limit, or a
/// position as deep as the nodes expanded could carry the score or the recycle
/// count past what a move may add to it (each move adds at most 15 points and
/// one recycle).
pub open spec fn limit_reached(root: GameModel, budget: SolveBudget, nodes: int) -> bool {
    ||| budget.max_time is Some
    ||| (budget.max_nodes matches Some(mx) && nodes >= mx)
    ||| nodes >= u64::MAX
    ||| nodes >= usize::MAX
    ||| nonneg(root.points) + 15 * nodes > i64::MAX - 15
    ||| root.recycles + nodes >= u32::MAX
}

/// A move adds at most 15 points and one recycle.
proof fn lemma_apply_bounds(m: GameModel, mv: Move)
    requires
        apply_spec(m, mv) is Ok,
    ensures
        nonneg((apply_spec(m, mv)->Ok_0).points) <= nonneg(m.points) + 15,
        (apply_spec(m, mv)->Ok_0).recycles <= m.recycles + 1,
{
}

/// `a * b`, or `usize::MAX` when that overflows.
fn saturating_product(a: usize, b: usize) -> (r: usize)
    ensures
        r == saturated(a * b),
{
    match a.checked_mul(b) {
        Some(p) => p,
        None => usize::MAX,
    }
}

/// The keys a table hands a search: none without a table.
pub open spec fn given_keys<K: SearchKey>(closed: Option<ClosedTable<K>>) -> Set<K::V> {
    match closed {
        Some(t) => t@,
        None => Set::empty(),
    }
}

/// Run the search with key type `K`, taking the closed table by value and
/// returning it so it can be reused across calls.
fn run<K: SearchKey>(
    root: &GameState,
    budget: SolveBudget,
    options: SolveOptions,
    closed: Option<ClosedTable<K>>,
) -> (r: (SolveResult, Option<ClosedTable<K>>))
    requires
        closed matches Some(t) ==> t.wf(),
    ensures
        outcome_holds(root@, budget, r.0),
        plain_options(options) && closed is None && well_laid(root@) && r.0.verdict
            == Verdict::Unwinnable ==> forall|l: Seq<Move>|
            !#[trigger] fresh_win::<K>(root@, l, Set::empty()),
        exhaustive_options(options) && line_ok(root@) && (closed matches Some(t) ==> t@ == Set::<
            K::V,
        >::empty()) && r.0.verdict == Verdict::Unwinnable ==> exists|em: Set<GameModel>|
            closed_under_play::<K>(root@, em),
        well_laid(root@) && r.0.verdict == Verdict::Unwinnable ==> exists|em: Set<GameModel>|
            #[trigger] lost_tree::<K>(root@, options, given_keys(closed), em),
        closed is None && well_laid(root@) && r.0.verdict == Verdict::Unwinnable ==> forall|l: Seq<Move>|
            !#[trigger] fresh_tried_win::<K>(options, root@, l, Set::empty()),
        (r.1 is Some) == (closed is Some),
        r.1 matches Some(t) ==> t.wf(),
        r.0.table_entries == match r.1 {
            Some(t) => t.peak_spec(),
            None => 0,
        },
        r.0.table_evictions == match r.1 {
            Some(t) => t.evictions_spec(),
            None => 0,
        },
        r.0.peak_logical_bytes == logical_bytes(
            r.0.peak_positions as int,
            r.0.table_entries as int,
            vstd::layout::size_of::<K>() as int,
            match r.0.moveset {
                Some(ms) => ms@.len() as int,
                None => 0,
            },
            vstd::layout::size_of::<Move>() as int,
        ),
{
    let clock = Clock::start();
    let ghost preloaded: Set<K::V> = if closed is Some {
        closed->Some_0@
    } else {
        Set::empty()
    };
    assert(preloaded == given_keys::<K>(closed));
    let mut search = Search {
        budget,
        options,
        clock,
        nodes: 0,
        max_depth: 0,
        path: KeySet::new(),
        peak_positions: 0,
        closed,
        table_hits: 0,
        forced_automoves: 0,
        found: None,
        budget_exhausted: false,
        searched: Ghost(Set::empty()),
        preloaded: Ghost(preloaded),
    };
    // One copy: the mutable working state make/unmake threads down the tree.
    let mut state = root.copied();
    let mut moves: Vec<Move> = Vec::new();
    proof {
        assert(replay(root@, moves@) == Ok::<GameModel, MoveError>(root@));
    }
    assert(search.path@ == Set::<K::V>::empty());
    let won = search.dfs(&mut state, &mut moves, Ghost(root@));
    let ghost em = search.searched@;
    proof {
        if search.tracking(root@) {
            reveal(closed_under_play);
            assert(closed_under_play::<K>(root@, em));
        }
        if search.tracing(root@) {
            assert(search.path@ =~= Set::<K::V>::empty());
            assert(lost_tree::<K>(root@, options, preloaded, em));
        }
    }
    let Search {
        clock,
        nodes,
        max_depth,
        peak_positions,
        closed,
        table_hits,
        forced_automoves,
        found,
        budget_exhausted,
        ..
    } = search;
    let solvable = found.is_some();
    let verdict = if solvable {
        Verdict::Solvable
    } else if budget_exhausted {
        Verdict::Inconclusive
    } else {
        Verdict::Unwinnable
    };
    let (table_entries, table_evictions) = match &closed {
        Some(t) => (t.peak_entries(), t.evictions()),
        None => (0, 0),
    };
    let moveset_len = match &found {
        Some(m) => m.len(),
        None => 0,
    };
    let peak_logical_bytes = saturating_product(
        peak_positions.saturating_add(table_entries),
        core::mem::size_of::<K>(),
    ).saturating_add(saturating_product(moveset_len, core::mem::size_of::<Move>()));
    let result = SolveResult {
        solvable,
        moveset: found,
        nodes_expanded: nodes,
        max_depth,
        elapsed: clock.elapsed(),
        peak_logical_bytes,
        peak_positions,
        forced_automoves,
        verdict,
        table_entries,
        table_hits,
        table_evictions,
        budget_exhausted,
    };
    (result, closed)
}

/// Solve the deal for `seed`/`config` under the given budget and options.
/// A solvable verdict comes with a line that wins the deal. An unwinnable
/// verdict of a plain search (every legal move tried, no pruning, no forced
/// moves, no table) means no line wins the deal without coming back to a
/// position with a key already met on it; with exact keys and a redeal limit
/// of at most 255, an unwinnable verdict of a search that tries every legal
/// move (in the rules' order or by priority, with or without the table and
/// empty-column symmetry) means no line wins the deal at all. Under any
/// options, an unwinnable verdict means the tree of moves the options try is
/// closed without a win ([`search_lost`]): every position the search finished
/// is not won, and each move tried from one leads to the key of one of them,
/// the deal among them. The forced safe moves can lose a win, so under safe
/// automoves that is all the verdict says.
pub fn solve(seed: u64, config: GameConfig, budget: SolveBudget, options: SolveOptions) -> (r:
    SolveResult)
    ensures
        outcome_holds(new_game_model(seed, config), budget, r),
        r.peak_logical_bytes == logical_bytes(
            r.peak_positions as int,
            r.table_entries as int,
            key_bytes(options.key),
            match r.moveset {
                Some(ms) => ms@.len() as int,
                None => 0,
            },
            vstd::layout::size_of::<Move>() as int,
        ),
        !options.transposition_table ==> r.table_entries == 0 && r.table_evictions == 0,
        plain_options(options) && r.verdict == Verdict::Unwinnable ==> no_fresh_win(
            new_game_model(seed, config),
            options.key,
        ),
        exhaustive_options(options) && options.key == KeyStrategy::ExactBytes && limit_fits_key(
            new_game_model(seed, config),
        ) && r.verdict == Verdict::Unwinnable ==> !winnable(new_game_model(seed, config)),
        r.verdict == Verdict::Unwinnable ==> search_lost(new_game_model(seed, config), options),
        !options.transposition_table && r.verdict == Verdict::Unwinnable ==> no_tried_win(
            new_game_model(seed, config),
            options,
        ),
{
    proof {
        let m = new_game_model(seed, config);
        crate::model::invariants::lemma_new_game_well_laid(seed, config);
        lemma_new_game_cards(seed, config);
        assert(foundations_ok(m)) by {
            assert forall|i: int| 0 <= i < 4 implies suited_run(#[trigger] m.foundations[i]) by {
                assert(m.foundations[i].len() == 0);
            }
        }
    }
    solve_state(&GameState::new_with_seed(seed, config), budget, options)
}

/// Solve from an explicit starting position — the core entry point. Dispatches
/// on the key strategy, specializing the generic search for each key type.
/// What the verdict establishes is as for [`solve`], the unwinnable case for
/// a root that lies right; with exact keys, and a root whose foundations hold
/// one suit each from the Ace up, with no card twice, fewer than 256 cards and
/// a redeal limit of at most 255, an unwinnable verdict of a search that tries
/// every legal move (in any order, with or without the table and empty-column
/// symmetry) means no line wins at all; and for a root laid right, under any
/// options, an unwinnable verdict comes with the closed tree of tries that
/// [`search_lost`] describes.
pub fn solve_state(root: &GameState, budget: SolveBudget, options: SolveOptions) -> (r: SolveResult)
    ensures
        outcome_holds(root@, budget, r),
        r.peak_logical_bytes == logical_bytes(
            r.peak_positions as int,
            r.table_entries as int,
            key_bytes(options.key),
            match r.moveset {
                Some(ms) => ms@.len() as int,
                None => 0,
            },
            vstd::layout::size_of::<Move>() as int,
        ),
        !options.transposition_table ==> r.table_entries == 0 && r.table_evictions == 0,
        plain_options(options) && well_laid(root@) && r.verdict == Verdict::Unwinnable ==> no_fresh_win(
            root@,
            options.key,
        ),
        exhaustive_options(options) && options.key == KeyStrategy::ExactBytes && line_ok(root@)
            && r.verdict == Verdict::Unwinnable ==> !winnable(root@),
        well_laid(root@) && r.verdict == Verdict::Unwinnable ==> search_lost(root@, options),
        !options.transposition_table && well_laid(root@) && r.verdict == Verdict::Unwinnable
            ==> no_tried_win(root@, options),
{
    let cap = options.max_table_entries;
    let r = match options.key {
        KeyStrategy::Zobrist => {
            let closed: Option<ClosedTable<u128>> = if options.transposition_table {
                Some(ClosedTable::with_capacity(cap))
            } else {
                None
            };
            assert(given_keys::<u128>(closed) == Set::<u128>::empty());
            let r = run(root, budget, options, closed).0;
            proof {
                if well_laid(root@) && r.verdict == Verdict::Unwinnable {
                    let em = choose|em: Set<GameModel>|
                        #[trigger] lost_tree::<u128>(root@, options, given_keys::<u128>(closed), em);
                    assert(lost_tree::<u128>(root@, options, Set::empty(), em));
                }
            }
            r
        },
        KeyStrategy::ExactBytes => {
            let closed: Option<ClosedTable<PositionKey>> = if options.transposition_table {
                Some(ClosedTable::with_capacity(cap))
            } else {
                None
            };
            assert(given_keys::<PositionKey>(closed) == Set::<Seq<u8>>::empty());
            let r = run(root, budget, options, closed).0;
            proof {
                if well_laid(root@) && r.verdict == Verdict::Unwinnable {
                    let em = choose|em: Set<GameModel>|
                        #[trigger] lost_tree::<PositionKey>(root@, options, given_keys::<PositionKey>(closed), em);
                    assert(lost_tree::<PositionKey>(root@, options, Set::empty(), em));
                }
                if exhaustive_options(options) && line_ok(root@) && r.verdict == Verdict::Unwinnable {
                    let em = choose|em: Set<GameModel>| closed_under_play::<PositionKey>(root@, em);
                    lemma_closed_unwinnable(root@, em);
                }
            }
            r
        },
    };
    r
}

/// The options a reusing search runs under: `o` with exact keys and the table.
pub open spec fn reused_options(o: SolveOptions) -> SolveOptions {
    SolveOptions { key: KeyStrategy::ExactBytes, transposition_table: true, ..o }
}

/// Solve from `root` under a node budget, **reusing the caller's transposition
/// table**. The table is left populated with the positions searched out, so a
/// later call with the same table (from the same or another reachable
/// position) skips them — letting repeated bounded searches make progress.
/// Keys are exact bytes, so a table hit is never a hash collision. A position
/// is searched out relative to the line that led to it (a move back onto that
/// line counts as tried), so only on a table that starts empty does an
/// unwinnable verdict mean that no line wins; on any table, an unwinnable
/// verdict closes the tree of tries against the positions finished and the
/// keys the table held ([`lost_tree`]). There is no time budget (the caller
/// bounds wall-clock across calls); the search is bounded by `node_budget`
/// (`None` = unbounded).
pub fn solve_reusing(
    root: &GameState,
    node_budget: Option<u64>,
    options: SolveOptions,
    table: &mut ClosedTable<PositionKey>,
) -> (r: SolveResult)
    requires
        old(table).wf(),
    ensures
        final(table).wf(),
        outcome_holds(root@, SolveBudget { max_nodes: node_budget, max_time: None }, r),
        r.table_entries == final(table).peak_spec(),
        r.table_evictions == final(table).evictions_spec(),
        exhaustive_options(options) && line_ok(root@) && old(table)@ == Set::<Seq<u8>>::empty()
            && r.verdict == Verdict::Unwinnable ==> !winnable(root@),
        well_laid(root@) && r.verdict == Verdict::Unwinnable ==> exists|em: Set<GameModel>|
            #[trigger] lost_tree::<PositionKey>(root@, reused_options(options), old(table)@, em),
{
    let budget = SolveBudget { max_nodes: node_budget, max_time: None };
    let mut opts = options;
    opts.key = KeyStrategy::ExactBytes;
    opts.transposition_table = true;
    // Borrow the caller's table by swapping it out and back so the search can own
    // it for the duration of the run.
    let mut taken = ClosedTable::with_capacity(1);
    core::mem::swap(&mut taken, table);
    assert(opts == reused_options(options));
    assert(given_keys::<PositionKey>(Some(taken)) == old(table)@);
    let (result, returned) = run(root, budget, opts, Some(taken));
    proof {
        if exhaustive_options(options) && line_ok(root@) && old(table)@ == Set::<Seq<u8>>::empty()
            && result.verdict == Verdict::Unwinnable {
            let em = choose|em: Set<GameModel>| closed_under_play::<PositionKey>(root@, em);
            lemma_closed_unwinnable(root@, em);
        }
    }
    match returned {
        Some(t) => {
            *table = t;
        },
        None => {},
    }
    result
}

/// Run `seed`'s deal with `rule` on and off, everything else at its default.
fn validate_seed(seed: u64, config: GameConfig, budget: SolveBudget, rule: ValidationRule) -> (o:
    ValidationOutcome)
    ensures
        validation_sound(o, seed, config, budget),
{
    let on = solve(seed, config, budget, validate_rule_options(rule, true));
    let off = solve(seed, config, budget, validate_rule_options(rule, false));
    proof {
        let m = new_game_model(seed, config);
        assert(waste_face_up(m));
        if on.solvable {
            assert(wins_from(m, on.moveset->Some_0@));
        }
        if off.solvable {
            assert(wins_from(m, off.moveset->Some_0@));
        }
        assert(outcome_holds(m, budget, on) && outcome_holds(m, budget, off));
    }
    ValidationOutcome { seed, with_rule: on.solvable, without_rule: off.solvable }
}

/// For each seed, the solvable verdict with `rule` on and with it off.
pub(crate) fn validate(seeds: &[u64], config: GameConfig, budget: SolveBudget, rule: ValidationRule) -> (r:
    Vec<ValidationOutcome>)
    ensures
        r@.len() == seeds@.len(),
        forall|i: int| 0 <= i < seeds@.len() ==> validation_sound(#[trigger] r@[i], seeds@[i], config, budget),
{
    let mut out: Vec<ValidationOutcome> = Vec::new();
    let mut i: usize = 0;
    while i < seeds.len()
        invariant
            i <= seeds@.len(),
            out@.len() == i,
            forall|j: int| 0 <= j < i ==> validation_sound(#[trigger] out@[j], seeds@[j], config, budget),
        decreases seeds@.len() - i,
    {
        out.push(validate_seed(seeds[i], config, budget, rule));
        i = i + 1;
    }
    out
}

} // verus!
