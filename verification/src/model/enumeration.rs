//! The order of the legal-move list: every move has a place (its kind, then
//! its indices), and the list climbs strictly through those places, so no
//! move is listed twice.
use vstd::prelude::*;

use crate::model::laws::has_all_piles;
use crate::model::moves::Move;
use crate::model::pile::{face_up_run, lemma_face_down_prefix, seq_top};
use crate::model::rules_spec::{
    column_to_foundation_moves, foundation_to_columns_moves, foundation_to_tableau_moves,
    foundation_accepts, legal_moves_spec, move_if, run_move_ok, run_to_columns_moves, runs_from_column_moves, stock_moves,
    tableau_accepts, tableau_to_foundation_moves, tableau_to_tableau_moves,
    waste_to_foundation_moves,
    waste_to_tableau_moves,
};
use crate::model::state::GameModel;

verus! {

/// Where a move falls in the enumeration: its kind, then its indices in the
/// order the list walks them.
pub open spec fn move_place(mv: Move) -> (int, int, int, int) {
    match mv {
        Move::Draw => (0, 0, 0, 0),
        Move::Recycle => (0, 1, 0, 0),
        Move::WasteToFoundation { foundation } => (1, foundation as int, 0, 0),
        Move::WasteToTableau { column } => (2, column as int, 0, 0),
        Move::TableauToFoundation { column, foundation } => (3, column as int, foundation as int, 0),
        Move::TableauToTableau { from, to, count } => (4, from as int, count as int, to as int),
        Move::FoundationToTableau { foundation, column } => (5, foundation as int, column as int, 0),
    }
}

/// Lexicographic order on places.
pub open spec fn place_lt(a: (int, int, int, int), b: (int, int, int, int)) -> bool {
    ||| a.0 < b.0
    ||| a.0 == b.0 && a.1 < b.1
    ||| a.0 == b.0 && a.1 == b.1 && a.2 < b.2
    ||| a.0 == b.0 && a.1 == b.1 && a.2 == b.2 && a.3 < b.3
}

/// Whether `s` climbs strictly through the places of its moves.
pub open spec fn strictly_ordered(s: Seq<Move>) -> bool {
    forall|i: int, j: int|
        #![trigger s[i], s[j]]
        0 <= i < j < s.len() ==> place_lt(move_place(s[i]), move_place(s[j]))
}

/// Two strictly ordered lists, the first wholly below the second, make a
/// strictly ordered list.
proof fn lemma_ordered_concat(a: Seq<Move>, b: Seq<Move>)
    requires
        strictly_ordered(a),
        strictly_ordered(b),
        forall|i: int, j: int|
            #![trigger a[i], b[j]]
            0 <= i < a.len() && 0 <= j < b.len() ==> place_lt(move_place(a[i]), move_place(b[j])),
    ensures
        strictly_ordered(a + b),
{
    let s = a + b;
    assert forall|i: int, j: int| 0 <= i < j < s.len() implies place_lt(
        move_place(#[trigger] s[i]),
        move_place(#[trigger] s[j]),
    ) by {
        if j < a.len() {
            assert(s[i] == a[i] && s[j] == a[j]);
        } else if i >= a.len() {
            assert(s[i] == b[i - a.len()] && s[j] == b[j - a.len()]);
        } else {
            assert(s[i] == a[i] && s[j] == b[j - a.len()]);
        }
    }
}

/// A strictly ordered list with a move above all of it appended (or not)
/// stays strictly ordered.
proof fn lemma_append_if(a: Seq<Move>, cond: bool, mv: Move)
    requires
        strictly_ordered(a),
        forall|i: int| 0 <= i < a.len() ==> place_lt(move_place(#[trigger] a[i]), move_place(mv)),
    ensures
        strictly_ordered(a + move_if(cond, mv)),
{
    lemma_ordered_concat(a, move_if(cond, mv));
}

proof fn lemma_waste_to_foundation_ordered(m: GameModel, n: int)
    requires
        n <= usize::MAX + 1,
    ensures
        strictly_ordered(waste_to_foundation_moves(m, n)),
        forall|i: int|
            #![trigger waste_to_foundation_moves(m, n)[i]]
            0 <= i < waste_to_foundation_moves(m, n).len() ==> move_place(
                waste_to_foundation_moves(m, n)[i],
            ).0 == 1 && move_place(waste_to_foundation_moves(m, n)[i]).1 < n,
    decreases n,
{
    if n > 0 {
        lemma_waste_to_foundation_ordered(m, n - 1);
        let a = waste_to_foundation_moves(m, n - 1);
        let mv = Move::WasteToFoundation { foundation: (n - 1) as usize };
        let cond = m.waste.len() > 0 && foundation_accepts(m.waste.last(), seq_top(m.foundations[n - 1]));
        assert forall|i: int| 0 <= i < a.len() implies place_lt(move_place(#[trigger] a[i]), move_place(mv)) by {}
        lemma_append_if(a, cond, mv);
    }
}

proof fn lemma_waste_to_tableau_ordered(m: GameModel, n: int)
    requires
        n <= usize::MAX + 1,
    ensures
        strictly_ordered(waste_to_tableau_moves(m, n)),
        forall|i: int|
            #![trigger waste_to_tableau_moves(m, n)[i]]
            0 <= i < waste_to_tableau_moves(m, n).len() ==> move_place(
                waste_to_tableau_moves(m, n)[i],
            ).0 == 2 && move_place(waste_to_tableau_moves(m, n)[i]).1 < n,
    decreases n,
{
    if n > 0 {
        lemma_waste_to_tableau_ordered(m, n - 1);
        let a = waste_to_tableau_moves(m, n - 1);
        let mv = Move::WasteToTableau { column: (n - 1) as usize };
        let cond = m.waste.len() > 0 && tableau_accepts(m.waste.last(), seq_top(m.tableau[n - 1]));
        assert forall|i: int| 0 <= i < a.len() implies place_lt(move_place(#[trigger] a[i]), move_place(mv)) by {}
        lemma_append_if(a, cond, mv);
    }
}

proof fn lemma_column_to_foundation_ordered(m: GameModel, col: int, n: int)
    requires
        0 <= col <= usize::MAX,
        n <= usize::MAX + 1,
    ensures
        strictly_ordered(column_to_foundation_moves(m, col, n)),
        forall|i: int|
            #![trigger column_to_foundation_moves(m, col, n)[i]]
            0 <= i < column_to_foundation_moves(m, col, n).len() ==> move_place(
                column_to_foundation_moves(m, col, n)[i],
            ).0 == 3 && move_place(column_to_foundation_moves(m, col, n)[i]).1 == col && move_place(
                column_to_foundation_moves(m, col, n)[i],
            ).2 < n,
    decreases n,
{
    if n > 0 {
        lemma_column_to_foundation_ordered(m, col, n - 1);
        let a = column_to_foundation_moves(m, col, n - 1);
        let mv = Move::TableauToFoundation { column: col as usize, foundation: (n - 1) as usize };
        let cond = m.tableau[col].len() > 0 && foundation_accepts(
            m.tableau[col].last(),
            seq_top(m.foundations[n - 1]),
        );
        assert forall|i: int| 0 <= i < a.len() implies place_lt(move_place(#[trigger] a[i]), move_place(mv)) by {}
        lemma_append_if(a, cond, mv);
    }
}

proof fn lemma_tableau_to_foundation_ordered(m: GameModel, n: int)
    requires
        n <= usize::MAX + 1,
    ensures
        strictly_ordered(tableau_to_foundation_moves(m, n)),
        forall|i: int|
            #![trigger tableau_to_foundation_moves(m, n)[i]]
            0 <= i < tableau_to_foundation_moves(m, n).len() ==> move_place(
                tableau_to_foundation_moves(m, n)[i],
            ).0 == 3 && move_place(tableau_to_foundation_moves(m, n)[i]).1 < n,
    decreases n,
{
    if n > 0 {
        lemma_tableau_to_foundation_ordered(m, n - 1);
        lemma_column_to_foundation_ordered(m, n - 1, 4);
        let a = tableau_to_foundation_moves(m, n - 1);
        let b = column_to_foundation_moves(m, n - 1, 4);
        assert forall|i: int, j: int| 0 <= i < a.len() && 0 <= j < b.len() implies place_lt(
            move_place(#[trigger] a[i]),
            move_place(#[trigger] b[j]),
        ) by {}
        lemma_ordered_concat(a, b);
        let s = a + b;
        assert forall|i: int| 0 <= i < s.len() implies move_place(#[trigger] s[i]).0 == 3
            && move_place(s[i]).1 < n by {
            if i < a.len() {
                assert(s[i] == a[i]);
            } else {
                assert(s[i] == b[i - a.len()]);
            }
        }
    }
}

proof fn lemma_run_to_columns_ordered(m: GameModel, from: int, count: int, n: int)
    requires
        0 <= from <= usize::MAX,
        0 <= count <= usize::MAX,
        n <= usize::MAX + 1,
    ensures
        strictly_ordered(run_to_columns_moves(m, from, count, n)),
        forall|i: int|
            #![trigger run_to_columns_moves(m, from, count, n)[i]]
            0 <= i < run_to_columns_moves(m, from, count, n).len() ==> {
                let p = move_place(run_to_columns_moves(m, from, count, n)[i]);
                p.0 == 4 && p.1 == from && p.2 == count && p.3 < n
            },
    decreases n,
{
    if n > 0 {
        lemma_run_to_columns_ordered(m, from, count, n - 1);
        let a = run_to_columns_moves(m, from, count, n - 1);
        let mv = Move::TableauToTableau {
            from: from as usize,
            to: (n - 1) as usize,
            count: count as usize,
        };
        let cond = run_move_ok(m, from, count, n - 1);
        assert forall|i: int| 0 <= i < a.len() implies place_lt(move_place(#[trigger] a[i]), move_place(mv)) by {}
        lemma_append_if(a, cond, mv);
    }
}

proof fn lemma_runs_from_column_ordered(m: GameModel, from: int, k: int)
    requires
        0 <= from <= usize::MAX,
        k <= usize::MAX,
    ensures
        strictly_ordered(runs_from_column_moves(m, from, k)),
        forall|i: int|
            #![trigger runs_from_column_moves(m, from, k)[i]]
            0 <= i < runs_from_column_moves(m, from, k).len() ==> {
                let p = move_place(runs_from_column_moves(m, from, k)[i]);
                p.0 == 4 && p.1 == from && p.2 <= k
            },
    decreases k,
{
    if k > 0 {
        lemma_runs_from_column_ordered(m, from, k - 1);
        lemma_run_to_columns_ordered(m, from, k, 7);
        let a = runs_from_column_moves(m, from, k - 1);
        let b = run_to_columns_moves(m, from, k, 7);
        assert forall|i: int, j: int| 0 <= i < a.len() && 0 <= j < b.len() implies place_lt(
            move_place(#[trigger] a[i]),
            move_place(#[trigger] b[j]),
        ) by {}
        lemma_ordered_concat(a, b);
        let s = a + b;
        assert forall|i: int| 0 <= i < s.len() implies {
            let p = move_place(#[trigger] s[i]);
            p.0 == 4 && p.1 == from && p.2 <= k
        } by {
            if i < a.len() {
                assert(s[i] == a[i]);
            } else {
                assert(s[i] == b[i - a.len()]);
            }
        }
    }
}

proof fn lemma_tableau_to_tableau_ordered(m: GameModel, n: int)
    requires
        n <= 7,
        m.tableau.len() == 7,
        forall|c: int| 0 <= c < 7 ==> (#[trigger] m.tableau[c]).len() <= usize::MAX,
    ensures
        strictly_ordered(tableau_to_tableau_moves(m, n)),
        forall|i: int|
            #![trigger tableau_to_tableau_moves(m, n)[i]]
            0 <= i < tableau_to_tableau_moves(m, n).len() ==> move_place(
                tableau_to_tableau_moves(m, n)[i],
            ).0 == 4 && move_place(tableau_to_tableau_moves(m, n)[i]).1 < n,
    decreases n,
{
    if n > 0 {
        lemma_tableau_to_tableau_ordered(m, n - 1);
        lemma_face_down_prefix(m.tableau[n - 1]);
        let k = face_up_run(m.tableau[n - 1]).len() as int;
        lemma_runs_from_column_ordered(m, n - 1, k);
        let a = tableau_to_tableau_moves(m, n - 1);
        let b = runs_from_column_moves(m, n - 1, k);
        assert forall|i: int, j: int| 0 <= i < a.len() && 0 <= j < b.len() implies place_lt(
            move_place(#[trigger] a[i]),
            move_place(#[trigger] b[j]),
        ) by {}
        lemma_ordered_concat(a, b);
        let s = a + b;
        assert forall|i: int| 0 <= i < s.len() implies move_place(#[trigger] s[i]).0 == 4
            && move_place(s[i]).1 < n by {
            if i < a.len() {
                assert(s[i] == a[i]);
            } else {
                assert(s[i] == b[i - a.len()]);
            }
        }
    }
}

proof fn lemma_foundation_to_columns_ordered(m: GameModel, f: int, n: int)
    requires
        0 <= f <= usize::MAX,
        n <= usize::MAX + 1,
    ensures
        strictly_ordered(foundation_to_columns_moves(m, f, n)),
        forall|i: int|
            #![trigger foundation_to_columns_moves(m, f, n)[i]]
            0 <= i < foundation_to_columns_moves(m, f, n).len() ==> move_place(
                foundation_to_columns_moves(m, f, n)[i],
            ).0 == 5 && move_place(foundation_to_columns_moves(m, f, n)[i]).1 == f && move_place(
                foundation_to_columns_moves(m, f, n)[i],
            ).2 < n,
    decreases n,
{
    if n > 0 {
        lemma_foundation_to_columns_ordered(m, f, n - 1);
        let a = foundation_to_columns_moves(m, f, n - 1);
        let mv = Move::FoundationToTableau { foundation: f as usize, column: (n - 1) as usize };
        let cond = m.foundations[f].len() > 0 && tableau_accepts(
            m.foundations[f].last(),
            seq_top(m.tableau[n - 1]),
        );
        assert forall|i: int| 0 <= i < a.len() implies place_lt(move_place(#[trigger] a[i]), move_place(mv)) by {}
        lemma_append_if(a, cond, mv);
    }
}

proof fn lemma_foundation_to_tableau_ordered(m: GameModel, n: int)
    requires
        n <= usize::MAX + 1,
    ensures
        strictly_ordered(foundation_to_tableau_moves(m, n)),
        forall|i: int|
            #![trigger foundation_to_tableau_moves(m, n)[i]]
            0 <= i < foundation_to_tableau_moves(m, n).len() ==> move_place(
                foundation_to_tableau_moves(m, n)[i],
            ).0 == 5 && move_place(foundation_to_tableau_moves(m, n)[i]).1 < n,
    decreases n,
{
    if n > 0 {
        lemma_foundation_to_tableau_ordered(m, n - 1);
        lemma_foundation_to_columns_ordered(m, n - 1, 7);
        let a = foundation_to_tableau_moves(m, n - 1);
        let b = foundation_to_columns_moves(m, n - 1, 7);
        assert forall|i: int, j: int| 0 <= i < a.len() && 0 <= j < b.len() implies place_lt(
            move_place(#[trigger] a[i]),
            move_place(#[trigger] b[j]),
        ) by {}
        lemma_ordered_concat(a, b);
        let s = a + b;
        assert forall|i: int| 0 <= i < s.len() implies move_place(#[trigger] s[i]).0 == 5
            && move_place(s[i]).1 < n by {
            if i < a.len() {
                assert(s[i] == a[i]);
            } else {
                assert(s[i] == b[i - a.len()]);
            }
        }
    }
}

/// Every place of `s` has kind `kind`.
pub open spec fn all_of_kind(s: Seq<Move>, kind: int) -> bool {
    forall|i: int| 0 <= i < s.len() ==> move_place(#[trigger] s[i]).0 == kind
}

/// Joining a strictly ordered list of one kind to one of a later kind.
proof fn lemma_join_kinds(a: Seq<Move>, ka: int, b: Seq<Move>, kb: int)
    requires
        strictly_ordered(a),
        strictly_ordered(b),
        forall|i: int| 0 <= i < a.len() ==> move_place(#[trigger] a[i]).0 <= ka,
        all_of_kind(b, kb),
        ka < kb,
    ensures
        strictly_ordered(a + b),
        forall|i: int| 0 <= i < (a + b).len() ==> move_place(#[trigger] (a + b)[i]).0 <= kb,
{
    assert forall|i: int, j: int| 0 <= i < a.len() && 0 <= j < b.len() implies place_lt(
        move_place(#[trigger] a[i]),
        move_place(#[trigger] b[j]),
    ) by {}
    lemma_ordered_concat(a, b);
    assert forall|i: int| 0 <= i < (a + b).len() implies move_place(#[trigger] (a + b)[i]).0 <= kb by {
        if i < a.len() {
            assert((a + b)[i] == a[i]);
        } else {
            assert((a + b)[i] == b[i - a.len()]);
        }
    }
}

/// The legal-move list climbs strictly through the places of its moves, so it
/// lists no move twice; in particular a draw and a recycle are never both
/// offered.
pub proof fn lemma_legal_moves_distinct(m: GameModel)
    requires
        has_all_piles(m),
    ensures
        strictly_ordered(legal_moves_spec(m)),
        legal_moves_spec(m).no_duplicates(),
        !(legal_moves_spec(m).contains(Move::Draw) && legal_moves_spec(m).contains(Move::Recycle)),
{
    let a = stock_moves(m);
    let b = waste_to_foundation_moves(m, 4);
    let c = waste_to_tableau_moves(m, 7);
    let d = tableau_to_foundation_moves(m, 7);
    let e = tableau_to_tableau_moves(m, 7);
    let f = foundation_to_tableau_moves(m, 4);
    lemma_waste_to_foundation_ordered(m, 4);
    lemma_waste_to_tableau_ordered(m, 7);
    lemma_tableau_to_foundation_ordered(m, 7);
    lemma_tableau_to_tableau_ordered(m, 7);
    lemma_foundation_to_tableau_ordered(m, 4);
    assert(a.len() <= 1);
    assert(strictly_ordered(a));
    lemma_join_kinds(a, 0, b, 1);
    lemma_join_kinds(a + b, 1, c, 2);
    lemma_join_kinds(a + b + c, 2, d, 3);
    lemma_join_kinds(a + b + c + d, 3, e, 4);
    lemma_join_kinds(a + b + c + d + e, 4, f, 5);
    let s = legal_moves_spec(m);
    assert(s == a + b + c + d + e + f);
    assert forall|i: int, j: int| 0 <= i < s.len() && 0 <= j < s.len() && i != j implies s[i]
        != s[j] by {
        if i < j {
            assert(place_lt(move_place(s[i]), move_place(s[j])));
        } else {
            assert(place_lt(move_place(s[j]), move_place(s[i])));
        }
    }
    if s.contains(Move::Draw) && s.contains(Move::Recycle) {
        let i = choose|i: int| 0 <= i < s.len() && s[i] == Move::Draw;
        let j = choose|j: int| 0 <= j < s.len() && s[j] == Move::Recycle;
        assert(move_place(s[i]).0 == 0 && move_place(s[j]).0 == 0);
        assert(a.len() <= 1 && i < a.len() && j < a.len()) by {
            if i >= a.len() {
                assert(s[i] == (b + c + d + e + f)[i - a.len()]);
            }
            if j >= a.len() {
                assert(s[j] == (b + c + d + e + f)[j - a.len()]);
            }
        }
    }
}

} // verus!
