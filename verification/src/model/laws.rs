//! Laws of the rules engine: what every legal move keeps, what undoing a move
//! restores, and which moves the enumeration lists.
use vstd::prelude::*;

use crate::model::card::Card;
use crate::model::moves::Move;
use crate::model::pile::{
    face_down_prefix, face_up_run, flip_top_down, flip_top_up, lemma_face_down_prefix, seq_top,
    top_is_face_down,
};
use crate::model::rules_spec::{
    all_face_down, all_face_up, apply_spec, column_to_foundation_moves, drawn_by, flipped_by,
    foundation_accepts, foundation_to_columns_moves, foundation_to_tableau_moves,
    legal_moves_spec, move_if, move_in_range, moved_run, recycle_allowed, run_move_ok,
    run_to_columns_moves, runs_from_column_moves, stock_moves, tableau_accepts,
    tableau_to_foundation_moves, tableau_to_tableau_moves, top_cards, undo_ok, undo_spec,
    unflipped, valid_run, waste_to_foundation_moves, waste_to_tableau_moves, without_top,
};
use crate::model::score::{current_score, final_score};
use crate::model::state::{DrawMode, GameModel};

verus! {

/// Every stock card is face-down and every waste card is face-up.
pub open spec fn stock_and_waste_settled(m: GameModel) -> bool {
    &&& forall|i: int| 0 <= i < m.stock.len() ==> !(#[trigger] m.stock[i]).face_up
    &&& forall|i: int| 0 <= i < m.waste.len() ==> (#[trigger] m.waste[i]).face_up
}

/// The position has its four foundations and seven columns.
pub open spec fn has_all_piles(m: GameModel) -> bool {
    &&& m.foundations.len() == 4
    &&& m.tableau.len() == 7
    &&& forall|c: int| 0 <= c < 7 ==> (#[trigger] m.tableau[c]).len() <= usize::MAX
}

/// A non-empty run whose bottom card is face-up keeps the face-down prefix of
/// the column it lands on within that column's old cards.
pub proof fn lemma_face_down_prefix_append(a: Seq<Card>, b: Seq<Card>)
    requires
        b.len() > 0,
        b[0].face_up,
    ensures
        face_down_prefix(a + b) <= a.len(),
{
    lemma_face_down_prefix(a + b);
    if face_down_prefix(a + b) > a.len() {
        assert((a + b)[a.len() as int] == b[0]);
    }
}

/// Turning a face-down top card up and back down restores the pile.
pub proof fn lemma_flip_up_then_down(s: Seq<Card>)
    requires
        top_is_face_down(s),
    ensures
        flip_top_down(flip_top_up(s)) == s,
{
    assert(flip_top_down(flip_top_up(s)) =~= s);
}

/// Undoing a legal move with the token it produced restores the exact prior
/// position — provided the stock was all face-down and the waste all face-up
/// (undoing a draw turns the cards back face-down, undoing a recycle face-up).
pub proof fn lemma_undo_restores(m: GameModel, mv: Move)
    requires
        has_all_piles(m),
        stock_and_waste_settled(m),
        apply_spec(m, mv) is Ok,
    ensures
        undo_ok(apply_spec(m, mv)->Ok_0, mv, drawn_by(m, mv), flipped_by(m, mv)),
        undo_spec(
            apply_spec(m, mv)->Ok_0,
            mv,
            drawn_by(m, mv),
            flipped_by(m, mv),
            m.points,
            m.recycles,
        ) == m,
{
    let post = apply_spec(m, mv)->Ok_0;
    let d = drawn_by(m, mv);
    let f = flipped_by(m, mv);
    let back = undo_spec(post, mv, d, f, m.points, m.recycles);
    match mv {
        Move::Draw => {
            let n = d as int;
            let taken = top_cards(m.stock, n);
            assert(top_cards(post.waste, n) =~= all_face_up(taken.reverse()));
            assert(without_top(post.waste, n) =~= m.waste);
            assert(all_face_down(all_face_up(taken.reverse()).reverse()) =~= taken);
            assert(back.stock =~= m.stock);
            assert(back.waste =~= m.waste);
            assert(back =~= m);
        },
        Move::Recycle => {
            assert(all_face_up(all_face_down(m.waste.reverse()).reverse()) =~= m.waste);
            assert(back.waste =~= m.waste);
            assert(back.stock =~= m.stock);
            assert(back =~= m);
        },
        _ => {
            lemma_undo_restores_off_stock(m, mv);
        },
    }
}

/// Undoing a legal move that does not touch the stock restores the exact prior
/// position, whatever the faces of the stock and waste cards.
pub proof fn lemma_undo_restores_off_stock(m: GameModel, mv: Move)
    requires
        has_all_piles(m),
        apply_spec(m, mv) is Ok,
        !(mv is Draw),
        !(mv is Recycle),
    ensures
        undo_ok(apply_spec(m, mv)->Ok_0, mv, drawn_by(m, mv), flipped_by(m, mv)),
        undo_spec(
            apply_spec(m, mv)->Ok_0,
            mv,
            drawn_by(m, mv),
            flipped_by(m, mv),
            m.points,
            m.recycles,
        ) == m,
{
    let post = apply_spec(m, mv)->Ok_0;
    let d = drawn_by(m, mv);
    let f = flipped_by(m, mv);
    let back = undo_spec(post, mv, d, f, m.points, m.recycles);
    match mv {
        Move::Draw => {},
        Move::Recycle => {},
        Move::WasteToFoundation { foundation } => {
            let fi = foundation as int;
            assert(m.foundations[fi].push(m.waste.last()).drop_last() =~= m.foundations[fi]);
            assert(back.waste =~= m.waste);
            assert(back.foundations =~= m.foundations);
            assert(back =~= m);
        },
        Move::WasteToTableau { column } => {
            let ci = column as int;
            assert(m.tableau[ci].push(m.waste.last()).drop_last() =~= m.tableau[ci]);
            assert(back.waste =~= m.waste);
            assert(back.tableau =~= m.tableau);
            assert(back =~= m);
        },
        Move::TableauToTableau { from, to, count } => {
            let fr = from as int;
            let t = to as int;
            let c = count as int;
            let run = top_cards(m.tableau[fr], c);
            let rest = without_top(m.tableau[fr], c);
            lemma_face_down_prefix(m.tableau[fr]);
            assert(run.len() == c && c > 0);
            assert(valid_run(run));
            assert(run[0].face_up);
            if top_is_face_down(rest) {
                lemma_flip_up_then_down(rest);
            }
            let t1 = unflipped(post, fr, f);
            assert(t1 =~= m.tableau.update(t, m.tableau[t] + run).update(fr, rest));
            assert(t1[t] == m.tableau[t] + run);
            lemma_face_down_prefix_append(m.tableau[t], run);
            assert(top_cards(t1[t], c) =~= run);
            assert(without_top(t1[t], c) =~= m.tableau[t]);
            assert(rest + run =~= m.tableau[fr]);
            assert(back.tableau =~= m.tableau);
            assert(back =~= m);
        },
        Move::TableauToFoundation { column, foundation } => {
            let col = column as int;
            let rest = m.tableau[col].drop_last();
            if top_is_face_down(rest) {
                lemma_flip_up_then_down(rest);
            }
            assert(unflipped(post, col, f) =~= m.tableau.update(col, rest));
            assert(rest.push(m.tableau[col].last()) =~= m.tableau[col]);
            let fi = foundation as int;
            assert(m.foundations[fi].push(m.tableau[col].last()).drop_last() =~= m.foundations[fi]);
            assert(back.tableau =~= m.tableau);
            assert(back.foundations =~= m.foundations);
            assert(back =~= m);
        },
        Move::FoundationToTableau { foundation, column } => {
            let fi = foundation as int;
            let ci = column as int;
            assert(m.tableau[ci].push(m.foundations[fi].last()).drop_last() =~= m.tableau[ci]);
            assert(m.foundations[fi].drop_last().push(m.foundations[fi].last()) =~= m.foundations[fi]);
            assert(back.tableau =~= m.tableau);
            assert(back.foundations =~= m.foundations);
            assert(back =~= m);
        },
    }
}

/// Membership in a concatenation is membership in either part.
proof fn lemma_add_contains(a: Seq<Move>, b: Seq<Move>, x: Move)
    ensures
        (a + b).contains(x) <==> a.contains(x) || b.contains(x),
{
    if a.contains(x) {
        let i = choose|i: int| 0 <= i < a.len() && a[i] == x;
        assert((a + b)[i] == x);
    }
    if b.contains(x) {
        let i = choose|i: int| 0 <= i < b.len() && b[i] == x;
        assert((a + b)[a.len() + i] == x);
    }
    if (a + b).contains(x) {
        let i = choose|i: int| 0 <= i < (a + b).len() && (a + b)[i] == x;
        if i < a.len() {
            assert(a[i] == x);
        } else {
            assert(b[i - a.len()] == x);
        }
    }
}

/// `move_if(c, mv)` holds exactly `mv`, when `c`.
proof fn lemma_move_if_contains(c: bool, mv: Move, x: Move)
    ensures
        move_if(c, mv).contains(x) <==> c && x == mv,
{
    if c {
        assert(move_if(c, mv)[0] == mv);
    }
}

/// The waste's top card may go onto foundation `f`.
pub open spec fn waste_to_foundation_ok(m: GameModel, f: int) -> bool {
    m.waste.len() > 0 && foundation_accepts(m.waste.last(), seq_top(m.foundations[f]))
}

/// The waste's top card may go onto column `c`.
pub open spec fn waste_to_tableau_ok(m: GameModel, c: int) -> bool {
    m.waste.len() > 0 && tableau_accepts(m.waste.last(), seq_top(m.tableau[c]))
}

/// The top card of column `c` may go onto foundation `f`.
pub open spec fn tableau_to_foundation_ok(m: GameModel, c: int, f: int) -> bool {
    m.tableau[c].len() > 0 && foundation_accepts(m.tableau[c].last(), seq_top(m.foundations[f]))
}

/// The top card of foundation `f` may go onto column `c`.
pub open spec fn foundation_to_tableau_ok(m: GameModel, f: int, c: int) -> bool {
    m.foundations[f].len() > 0 && tableau_accepts(m.foundations[f].last(), seq_top(m.tableau[c]))
}

proof fn lemma_waste_to_foundation_moves(m: GameModel, n: int, x: Move)
    requires
        0 <= n <= 4,
    ensures
        waste_to_foundation_moves(m, n).contains(x) <==> match x {
            Move::WasteToFoundation { foundation } => foundation < n && waste_to_foundation_ok(
                m,
                foundation as int,
            ),
            _ => false,
        },
    decreases n,
{
    if n > 0 {
        lemma_waste_to_foundation_moves(m, n - 1, x);
        let item = Move::WasteToFoundation { foundation: (n - 1) as usize };
        lemma_add_contains(
            waste_to_foundation_moves(m, n - 1),
            move_if(waste_to_foundation_ok(m, n - 1), item),
            x,
        );
        lemma_move_if_contains(waste_to_foundation_ok(m, n - 1), item, x);
    }
}

proof fn lemma_waste_to_tableau_moves(m: GameModel, n: int, x: Move)
    requires
        0 <= n <= 7,
    ensures
        waste_to_tableau_moves(m, n).contains(x) <==> match x {
            Move::WasteToTableau { column } => column < n && waste_to_tableau_ok(m, column as int),
            _ => false,
        },
    decreases n,
{
    if n > 0 {
        lemma_waste_to_tableau_moves(m, n - 1, x);
        let item = Move::WasteToTableau { column: (n - 1) as usize };
        lemma_add_contains(
            waste_to_tableau_moves(m, n - 1),
            move_if(waste_to_tableau_ok(m, n - 1), item),
            x,
        );
        lemma_move_if_contains(waste_to_tableau_ok(m, n - 1), item, x);
    }
}

proof fn lemma_column_to_foundation_moves(m: GameModel, col: int, n: int, x: Move)
    requires
        0 <= n <= 4,
        0 <= col < 7,
    ensures
        column_to_foundation_moves(m, col, n).contains(x) <==> match x {
            Move::TableauToFoundation { column, foundation } => column == col && foundation < n
                && tableau_to_foundation_ok(m, col, foundation as int),
            _ => false,
        },
    decreases n,
{
    if n > 0 {
        lemma_column_to_foundation_moves(m, col, n - 1, x);
        let item = Move::TableauToFoundation { column: col as usize, foundation: (n - 1) as usize };
        lemma_add_contains(
            column_to_foundation_moves(m, col, n - 1),
            move_if(tableau_to_foundation_ok(m, col, n - 1), item),
            x,
        );
        lemma_move_if_contains(tableau_to_foundation_ok(m, col, n - 1), item, x);
    }
}

proof fn lemma_tableau_to_foundation_moves(m: GameModel, n: int, x: Move)
    requires
        0 <= n <= 7,
    ensures
        tableau_to_foundation_moves(m, n).contains(x) <==> match x {
            Move::TableauToFoundation { column, foundation } => column < n && foundation < 4
                && tableau_to_foundation_ok(m, column as int, foundation as int),
            _ => false,
        },
    decreases n,
{
    if n > 0 {
        lemma_tableau_to_foundation_moves(m, n - 1, x);
        lemma_column_to_foundation_moves(m, n - 1, 4, x);
        lemma_add_contains(
            tableau_to_foundation_moves(m, n - 1),
            column_to_foundation_moves(m, n - 1, 4),
            x,
        );
    }
}

proof fn lemma_run_to_columns_moves(m: GameModel, from: int, count: int, n: int, x: Move)
    requires
        0 <= n <= 7,
        0 <= from < 7,
        0 < count <= usize::MAX,
    ensures
        run_to_columns_moves(m, from, count, n).contains(x) <==> match x {
            Move::TableauToTableau { from: f, to, count: c } => f == from && c == count && to < n
                && run_move_ok(m, from, count, to as int),
            _ => false,
        },
    decreases n,
{
    if n > 0 {
        lemma_run_to_columns_moves(m, from, count, n - 1, x);
        let item = Move::TableauToTableau {
            from: from as usize,
            to: (n - 1) as usize,
            count: count as usize,
        };
        lemma_add_contains(
            run_to_columns_moves(m, from, count, n - 1),
            move_if(run_move_ok(m, from, count, n - 1), item),
            x,
        );
        lemma_move_if_contains(run_move_ok(m, from, count, n - 1), item, x);
    }
}

proof fn lemma_runs_from_column_moves(m: GameModel, from: int, k: int, x: Move)
    requires
        0 <= from < 7,
        0 <= k <= usize::MAX,
    ensures
        runs_from_column_moves(m, from, k).contains(x) <==> match x {
            Move::TableauToTableau { from: f, to, count } => f == from && 0 < count <= k && to < 7
                && run_move_ok(m, from, count as int, to as int),
            _ => false,
        },
    decreases k,
{
    if k > 0 {
        lemma_runs_from_column_moves(m, from, k - 1, x);
        lemma_run_to_columns_moves(m, from, k, 7, x);
        lemma_add_contains(
            runs_from_column_moves(m, from, k - 1),
            run_to_columns_moves(m, from, k, 7),
            x,
        );
    }
}

proof fn lemma_tableau_to_tableau_moves(m: GameModel, n: int, x: Move)
    requires
        0 <= n <= 7,
        has_all_piles(m),
    ensures
        tableau_to_tableau_moves(m, n).contains(x) <==> match x {
            Move::TableauToTableau { from, to, count } => from < n && 0 < count <= face_up_run(
                m.tableau[from as int],
            ).len() && to < 7 && run_move_ok(m, from as int, count as int, to as int),
            _ => false,
        },
    decreases n,
{
    if n > 0 {
        lemma_tableau_to_tableau_moves(m, n - 1, x);
        assert(m.tableau[n - 1].len() <= usize::MAX);
        lemma_face_down_prefix(m.tableau[n - 1]);
        lemma_runs_from_column_moves(
            m,
            n - 1,
            face_up_run(m.tableau[n - 1]).len() as int,
            x,
        );
        lemma_add_contains(
            tableau_to_tableau_moves(m, n - 1),
            runs_from_column_moves(m, n - 1, face_up_run(m.tableau[n - 1]).len() as int),
            x,
        );
    }
}

proof fn lemma_foundation_to_columns_moves(m: GameModel, f: int, n: int, x: Move)
    requires
        0 <= f < 4,
        0 <= n <= 7,
    ensures
        foundation_to_columns_moves(m, f, n).contains(x) <==> match x {
            Move::FoundationToTableau { foundation, column } => foundation == f && column < n
                && foundation_to_tableau_ok(m, f, column as int),
            _ => false,
        },
    decreases n,
{
    if n > 0 {
        lemma_foundation_to_columns_moves(m, f, n - 1, x);
        let item = Move::FoundationToTableau { foundation: f as usize, column: (n - 1) as usize };
        lemma_add_contains(
            foundation_to_columns_moves(m, f, n - 1),
            move_if(foundation_to_tableau_ok(m, f, n - 1), item),
            x,
        );
        lemma_move_if_contains(foundation_to_tableau_ok(m, f, n - 1), item, x);
    }
}

proof fn lemma_foundation_to_tableau_moves(m: GameModel, n: int, x: Move)
    requires
        0 <= n <= 4,
    ensures
        foundation_to_tableau_moves(m, n).contains(x) <==> match x {
            Move::FoundationToTableau { foundation, column } => foundation < n && column < 7
                && foundation_to_tableau_ok(m, foundation as int, column as int),
            _ => false,
        },
    decreases n,
{
    if n > 0 {
        lemma_foundation_to_tableau_moves(m, n - 1, x);
        lemma_foundation_to_columns_moves(m, n - 1, 7, x);
        lemma_add_contains(
            foundation_to_tableau_moves(m, n - 1),
            foundation_to_columns_moves(m, n - 1, 7),
            x,
        );
    }
}

/// The legal-move list holds exactly the moves (with in-range indices) that
/// apply cleanly: every listed move is accepted by the rules, and every move
/// the rules accept is listed.
pub proof fn lemma_legal_moves_are_exactly_applicable(m: GameModel, x: Move)
    requires
        has_all_piles(m),
    ensures
        legal_moves_spec(m).contains(x) <==> move_in_range(x) && apply_spec(m, x) is Ok,
{
    let a = stock_moves(m);
    let b = waste_to_foundation_moves(m, 4);
    let c = waste_to_tableau_moves(m, 7);
    let d = tableau_to_foundation_moves(m, 7);
    let e = tableau_to_tableau_moves(m, 7);
    let f = foundation_to_tableau_moves(m, 4);
    lemma_add_contains(a, b, x);
    lemma_add_contains(a + b, c, x);
    lemma_add_contains(a + b + c, d, x);
    lemma_add_contains(a + b + c + d, e, x);
    lemma_add_contains(a + b + c + d + e, f, x);
    lemma_waste_to_foundation_moves(m, 4, x);
    lemma_waste_to_tableau_moves(m, 7, x);
    lemma_tableau_to_foundation_moves(m, 7, x);
    lemma_tableau_to_tableau_moves(m, 7, x);
    lemma_foundation_to_tableau_moves(m, 4, x);
    if m.stock.len() > 0 {
        lemma_move_if_contains(true, Move::Draw, x);
        assert(a =~= move_if(true, Move::Draw));
    } else if m.waste.len() > 0 && recycle_allowed(m) {
        lemma_move_if_contains(true, Move::Recycle, x);
        assert(a =~= move_if(true, Move::Recycle));
    } else {
        assert(!a.contains(x));
    }
    match x {
        Move::TableauToTableau { from, to, count } => {
            if from < 7 && to < 7 && from != to && count > 0 && count <= face_up_run(
                m.tableau[from as int],
            ).len() {
                lemma_face_down_prefix(m.tableau[from as int]);
                assert(moved_run(m, from as int, count as int) == top_cards(
                    m.tableau[from as int],
                    count as int,
                ));
            }
        },
        _ => {},
    }
}

/// A recycle turns the whole waste over into an empty stock, face-down, and
/// counts one recycle; it is free in draw-three, and in draw-one costs 100
/// points (never taking the score below zero). It is refused exactly when the
/// stock still has cards, the waste is empty, or the redeal limit is used up.
pub proof fn lemma_recycle_scoring(m: GameModel)
    ensures
        (apply_spec(m, Move::Recycle) is Ok) == (m.stock.len() == 0 && m.waste.len() > 0
            && recycle_allowed(m)),
        apply_spec(m, Move::Recycle) matches Ok(r) ==> {
            &&& r.points == if m.config.draw_mode == DrawMode::Three {
                m.points
            } else if m.points >= 100 {
                m.points - 100
            } else {
                0
            }
            &&& m.recycles < u32::MAX ==> r.recycles == m.recycles + 1
            &&& r.waste.len() == 0
            &&& r.stock.len() == m.waste.len()
            &&& forall|i: int| 0 <= i < r.stock.len() ==> #[trigger] r.stock[i] == Card {
                face_up: false,
                ..m.waste[m.waste.len() - 1 - i]
            }
            &&& r.tableau == m.tableau
            &&& r.foundations == m.foundations
            &&& r.config == m.config
        },
{
    if apply_spec(m, Move::Recycle) is Ok {
        let r = apply_spec(m, Move::Recycle)->Ok_0;
        assert(r.points == if m.config.draw_mode == DrawMode::Three {
                m.points
            } else if m.points >= 100 {
                m.points - 100
            } else {
                0
            });
        assert(r.stock.len() == m.waste.len());
        assert forall|i: int| 0 <= i < r.stock.len() implies #[trigger] r.stock[i] == Card {
            face_up: false,
            ..m.waste[m.waste.len() - 1 - i]
        } by {}
    }
}

/// Whether taking the top `n` cards off column `col` of `m` leaves a
/// face-down card on top (which the move then turns face-up).
pub open spec fn uncovers_face_down(m: GameModel, col: int, n: int) -> bool {
    let c = m.tableau[col];
    c.len() > n && !c[c.len() - n - 1].face_up
}

/// Windows Standard scoring of each move, on a score that is not negative:
/// waste to column +5, waste to foundation +10, column to foundation +10,
/// foundation to column -15 (never below zero), a draw nothing, a recycle
/// nothing in draw-three and -100 in draw-one (never below zero), and +5 more
/// whenever a move off a column turns up the face-down card beneath.
pub proof fn lemma_move_scoring(m: GameModel, mv: Move)
    requires
        m.points >= 0,
        apply_spec(m, mv) is Ok,
    ensures
        (apply_spec(m, mv)->Ok_0).points == m.points + match mv {
            Move::Draw => 0,
            Move::Recycle => if m.config.draw_mode == DrawMode::Three {
                0
            } else if m.points >= 100 {
                -100
            } else {
                -m.points
            },
            Move::WasteToTableau { .. } => 5,
            Move::WasteToFoundation { .. } => 10,
            Move::TableauToFoundation { column, .. } => 10 + if uncovers_face_down(m, column as int, 1) {
                5int
            } else {
                0int
            },
            Move::TableauToTableau { from, count, .. } => if uncovers_face_down(
                m,
                from as int,
                count as int,
            ) {
                5int
            } else {
                0int
            },
            Move::FoundationToTableau { .. } => if m.points >= 15 {
                -15
            } else {
                -m.points
            },
        },
{
    lemma_recycle_scoring(m);
    match mv {
        Move::TableauToFoundation { column, .. } => {
            let c = m.tableau[column as int];
            let rest = c.drop_last();
            assert(top_is_face_down(rest) == uncovers_face_down(m, column as int, 1)) by {
                if rest.len() > 0 {
                    assert(rest.last() == c[c.len() - 2]);
                }
            }
        },
        Move::TableauToTableau { from, count, .. } => {
            let c = m.tableau[from as int];
            lemma_face_down_prefix(c);
            assert(count <= c.len());
            let rest = without_top(c, count as int);
            assert(top_is_face_down(rest) == uncovers_face_down(m, from as int, count as int)) by {
                if rest.len() > 0 {
                    assert(rest.last() == c[c.len() - count - 1]);
                }
            }
        },
        _ => {},
    }
}

/// Timed scoring: untimed, the score is the event points; timed, it loses 2
/// points per full 10 seconds (never going below zero), and a timed win adds
/// 700000 divided by the seconds played (nothing when no time was played).
pub proof fn lemma_timed_scoring(points: int, secs: u64, timed: bool, won: bool)
    ensures
        current_score(points, secs, false) == points,
        current_score(points, secs, true) == if points >= 2 * (secs / 10) {
            points - 2 * (secs / 10)
        } else {
            0
        },
        !(timed && won) ==> final_score(points, secs, timed, won) == current_score(points, secs, timed),
        timed && won && secs == 0 ==> final_score(points, secs, timed, won) == current_score(
            points,
            secs,
            timed,
        ),
        timed && won && 0 < secs <= i64::MAX ==> final_score(points, secs, timed, won)
            == current_score(points, secs, timed) + 700_000int / (secs as int),
{
}

} // verus!
