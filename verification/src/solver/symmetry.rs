//! Empty columns are interchangeable: exchanging two columns of a position,
//! and the column numbers its moves name, changes nothing of how it plays.
//! So a move onto one empty column can stand for the same move onto another,
//! and the search tries only the first.
use vstd::prelude::*;

use crate::model::moves::Move;
use crate::model::rules_spec::{apply_spec, move_in_range};
use crate::model::state::{model_is_won, GameModel};
use crate::solver::heuristics::build_target;
use crate::solver::search::{replay, wins_from};

verus! {

/// Column `i` with columns `a` and `b` exchanged.
pub open spec fn swap_index(i: int, a: int, b: int) -> int {
    if i == a {
        b
    } else if i == b {
        a
    } else {
        i
    }
}

/// `m` with its columns `a` and `b` exchanged.
pub open spec fn swap_columns(m: GameModel, a: int, b: int) -> GameModel {
    GameModel { tableau: Seq::new(m.tableau.len(), |i: int| m.tableau[swap_index(i, a, b)]), ..m }
}

/// A column number with `a` and `b` exchanged.
pub open spec fn swap_col(c: usize, a: int, b: int) -> usize {
    swap_index(c as int, a, b) as usize
}

/// `mv` with the columns `a` and `b` exchanged in what it names.
pub open spec fn swap_move(mv: Move, a: int, b: int) -> Move {
    match mv {
        Move::WasteToTableau { column } => Move::WasteToTableau { column: swap_col(column, a, b) },
        Move::TableauToTableau { from, to, count } => Move::TableauToTableau {
            from: swap_col(from, a, b),
            to: swap_col(to, a, b),
            count,
        },
        Move::TableauToFoundation { column, foundation } => Move::TableauToFoundation {
            column: swap_col(column, a, b),
            foundation,
        },
        Move::FoundationToTableau { foundation, column } => Move::FoundationToTableau {
            foundation,
            column: swap_col(column, a, b),
        },
        _ => mv,
    }
}

/// A result with columns `a` and `b` exchanged in its position.
pub open spec fn swap_result(r: Result<GameModel, crate::model::moves::MoveError>, a: int, b: int) -> Result<
    GameModel,
    crate::model::moves::MoveError,
> {
    match r {
        Ok(p) => Ok(swap_columns(p, a, b)),
        Err(e) => Err(e),
    }
}

/// A move played on a position with two columns exchanged is the move that
/// names them exchanged, played on the position, with the columns exchanged.
pub proof fn lemma_swap_apply(m: GameModel, mv: Move, a: int, b: int)
    requires
        0 <= a < 7,
        0 <= b < 7,
        m.tableau.len() == 7,
    ensures
        apply_spec(swap_columns(m, a, b), swap_move(mv, a, b)) == swap_result(apply_spec(m, mv), a, b),
{
    let s = swap_columns(m, a, b);
    assert forall|i: int| 0 <= i < 7 implies s.tableau[swap_index(i, a, b)] == m.tableau[i] by {
        assert(swap_index(swap_index(i, a, b), a, b) == i);
    }
    match mv {
        Move::WasteToTableau { column } => {
            let c = column as int;
            if 0 <= c < 7 {
                let sc = swap_index(c, a, b);
                assert(s.tableau[sc] == m.tableau[c]);
                if apply_spec(m, mv) is Ok {
                    let r = apply_spec(m, mv)->Ok_0;
                    assert(swap_columns(r, a, b).tableau =~= s.tableau.update(sc, s.tableau[sc].push(m.waste.last())));
                }
            }
        },
        Move::TableauToTableau { from, to, count } => {
            let f = from as int;
            let t = to as int;
            if 0 <= f < 7 && 0 <= t < 7 {
                let sf = swap_index(f, a, b);
                let st = swap_index(t, a, b);
                assert(s.tableau[sf] == m.tableau[f]);
                assert(s.tableau[st] == m.tableau[t]);
                assert(sf == st <==> f == t);
                if apply_spec(m, mv) is Ok {
                    let r = apply_spec(m, mv)->Ok_0;
                    let run = crate::model::rules_spec::moved_run(m, f, count as int);
                    let rest = crate::model::rules_spec::without_top(m.tableau[f], count as int);
                    assert(crate::model::rules_spec::moved_run(s, sf, count as int) == run);
                    assert(swap_columns(r, a, b).tableau =~= s.tableau.update(st, s.tableau[st] + run).update(
                        sf,
                        crate::model::pile::flip_top_up(rest),
                    ));
                }
            }
        },
        Move::TableauToFoundation { column, foundation } => {
            let c = column as int;
            if 0 <= c < 7 {
                let sc = swap_index(c, a, b);
                assert(s.tableau[sc] == m.tableau[c]);
                if apply_spec(m, mv) is Ok {
                    let r = apply_spec(m, mv)->Ok_0;
                    let rest = m.tableau[c].drop_last();
                    assert(swap_columns(r, a, b).tableau =~= s.tableau.update(
                        sc,
                        crate::model::pile::flip_top_up(rest),
                    ));
                }
            }
        },
        Move::FoundationToTableau { foundation, column } => {
            let c = column as int;
            let f = foundation as int;
            if 0 <= c < 7 {
                let sc = swap_index(c, a, b);
                assert(s.tableau[sc] == m.tableau[c]);
                if apply_spec(m, mv) is Ok {
                    let r = apply_spec(m, mv)->Ok_0;
                    assert(swap_columns(r, a, b).tableau =~= s.tableau.update(
                        sc,
                        s.tableau[sc].push(m.foundations[f].last()),
                    ));
                }
            }
        },
        _ => {
            if apply_spec(m, mv) is Ok {
                let r = apply_spec(m, mv)->Ok_0;
                assert(swap_columns(r, a, b).tableau =~= s.tableau);
            }
        },
    }
}

/// A line with the columns `a` and `b` exchanged in each of its moves.
pub open spec fn swap_line(l: Seq<Move>, a: int, b: int) -> Seq<Move> {
    l.map_values(|mv: Move| swap_move(mv, a, b))
}

/// A move that can be played keeps the position's seven columns.
proof fn lemma_apply_keeps_columns(m: GameModel, mv: Move)
    requires
        m.tableau.len() == 7,
        apply_spec(m, mv) is Ok,
    ensures
        (apply_spec(m, mv)->Ok_0).tableau.len() == 7,
{
}

/// Playing a line on a position with two columns exchanged is playing the
/// line with them exchanged, with them exchanged in the outcome.
pub proof fn lemma_swap_replay(m: GameModel, l: Seq<Move>, a: int, b: int)
    requires
        0 <= a < 7,
        0 <= b < 7,
        m.tableau.len() == 7,
    ensures
        replay(swap_columns(m, a, b), swap_line(l, a, b)) == swap_result(replay(m, l), a, b),
        replay(m, l) is Ok ==> (replay(m, l)->Ok_0).tableau.len() == 7,
    decreases l.len(),
{
    if l.len() > 0 {
        lemma_swap_replay(m, l.drop_last(), a, b);
        assert(swap_line(l, a, b).drop_last() =~= swap_line(l.drop_last(), a, b));
        assert(swap_line(l, a, b).last() == swap_move(l.last(), a, b));
        match replay(m, l.drop_last()) {
            Ok(p) => {
                lemma_swap_apply(p, l.last(), a, b);
                if apply_spec(p, l.last()) is Ok {
                    lemma_apply_keeps_columns(p, l.last());
                }
            },
            Err(_) => {},
        }
    } else {
        assert(swap_line(l, a, b) =~= Seq::<Move>::empty());
    }
}

/// A line that wins from a position wins, with two columns exchanged, from
/// the position with them exchanged.
pub proof fn lemma_swap_wins(m: GameModel, l: Seq<Move>, a: int, b: int)
    requires
        0 <= a < 7,
        0 <= b < 7,
        m.tableau.len() == 7,
        wins_from(m, l),
    ensures
        wins_from(swap_columns(m, a, b), swap_line(l, a, b)),
{
    lemma_swap_replay(m, l, a, b);
    let w = replay(m, l)->Ok_0;
    assert(swap_columns(w, a, b).foundations == w.foundations);
}

/// `mv` landing on column `b` in place of the one it lands on.
pub open spec fn retarget(mv: Move, b: usize) -> Move {
    match mv {
        Move::WasteToTableau { .. } => Move::WasteToTableau { column: b },
        Move::TableauToTableau { from, count, .. } => Move::TableauToTableau { from, to: b, count },
        _ => mv,
    }
}

/// Onto two empty columns a move lands alike: landing on the other gives the
/// same position with the two exchanged.
pub proof fn lemma_retarget(m: GameModel, mv: Move, b: usize)
    requires
        m.tableau.len() == 7,
        build_target(mv) matches Some(a) && 0 <= a < 7 && m.tableau[a as int].len() == 0,
        b < 7,
        m.tableau[b as int].len() == 0,
        apply_spec(m, mv) is Ok,
    ensures
        apply_spec(m, retarget(mv, b)) == Ok::<GameModel, crate::model::moves::MoveError>(
            swap_columns(apply_spec(m, mv)->Ok_0, build_target(mv)->Some_0 as int, b as int),
        ),
{
    let a = build_target(mv)->Some_0 as int;
    let bi = b as int;
    assert(swap_columns(m, a, bi) == m) by {
        assert(m.tableau[a] =~= m.tableau[bi]);
        assert(swap_columns(m, a, bi).tableau =~= m.tableau);
    }
    lemma_swap_apply(m, mv, a, bi);
    match mv {
        Move::TableauToTableau { from, to, count } => {
            assert(from as int != a);
            if from as int == bi {
                assert(crate::model::pile::face_up_run(m.tableau[bi]).len() == 0);
            }
            assert(swap_move(mv, a, bi) == retarget(mv, b));
        },
        _ => {
            assert(swap_move(mv, a, bi) == retarget(mv, b));
        },
    }
}

} // verus!
