//! What the face of a stock card does not decide: every stock card is dealt
//! face-up the moment it is drawn, so two positions that differ only in how
//! their stock cards face behave alike under every move and every undo. With
//! this, undoing a move restores the position up to the stock's faces even
//! when the stock held face-up cards.
use vstd::prelude::*;

use crate::model::card::Card;
use crate::model::moves::Move;
use crate::model::rules_spec::{
    all_face_down, all_face_up, apply_spec, draw_amount, drawn_by, flipped_by, top_cards, undo_ok,
    undo_spec, without_top,
};
use crate::model::laws::{
    has_all_piles, lemma_undo_restores, lemma_undo_restores_off_stock, stock_and_waste_settled,
};
use crate::model::state::GameModel;

verus! {

/// The position with every stock card turned face-down.
pub open spec fn stock_down(m: GameModel) -> GameModel {
    GameModel { stock: all_face_down(m.stock), ..m }
}

/// Every waste card is face-up.
pub open spec fn waste_face_up(m: GameModel) -> bool {
    forall|i: int| 0 <= i < m.waste.len() ==> (#[trigger] m.waste[i]).face_up
}

/// Turning cards face-up after turning them face-down is turning them face-up.
proof fn lemma_up_after_down(s: Seq<Card>)
    ensures
        all_face_up(all_face_down(s)) == all_face_up(s),
        all_face_down(all_face_down(s)) == all_face_down(s),
{
    assert(all_face_up(all_face_down(s)) =~= all_face_up(s));
    assert(all_face_down(all_face_down(s)) =~= all_face_down(s));
}

/// A move treats two positions that differ only in their stock's faces alike:
/// it is legal in both or in neither (with the same error), the results again
/// differ only in their stock's faces, and it draws and flips the same.
pub proof fn lemma_apply_ignores_stock_faces(m: GameModel, mv: Move)
    ensures
        match apply_spec(m, mv) {
            Ok(r) => apply_spec(stock_down(m), mv) matches Ok(r2) && r2 == stock_down(r),
            Err(e) => apply_spec(stock_down(m), mv) == Err::<GameModel, crate::model::moves::MoveError>(e),
        },
        drawn_by(stock_down(m), mv) == drawn_by(m, mv),
        flipped_by(stock_down(m), mv) == flipped_by(m, mv),
{
    let n = stock_down(m);
    match mv {
        Move::Draw => {
            if m.stock.len() > 0 {
                let k = draw_amount(m) as int;
                assert(draw_amount(n) == draw_amount(m));
                assert(without_top(n.stock, k) =~= all_face_down(without_top(m.stock, k)));
                assert(all_face_up(top_cards(n.stock, k).reverse()) =~= all_face_up(
                    top_cards(m.stock, k).reverse(),
                ));
                let r = apply_spec(m, mv)->Ok_0;
                let r2 = apply_spec(n, mv)->Ok_0;
                assert(r2 =~= stock_down(r));
            }
        },
        Move::Recycle => {
            if apply_spec(m, mv) is Ok {
                let r = apply_spec(m, mv)->Ok_0;
                lemma_up_after_down(m.waste.reverse());
                assert(apply_spec(n, mv)->Ok_0 =~= stock_down(r));
            }
        },
        _ => {
            if apply_spec(m, mv) is Ok {
                let r = apply_spec(m, mv)->Ok_0;
                assert(apply_spec(n, mv)->Ok_0 =~= stock_down(r));
            }
        },
    }
}

/// Undoing a move treats two positions that differ only in their stock's faces
/// alike: it can be done in both or in neither, and the results again differ
/// only in their stock's faces.
pub proof fn lemma_undo_ignores_stock_faces(
    r: GameModel,
    mv: Move,
    drawn: nat,
    flipped: bool,
    points: int,
    recycles: u32,
)
    ensures
        undo_ok(stock_down(r), mv, drawn, flipped) == undo_ok(r, mv, drawn, flipped),
        stock_down(undo_spec(stock_down(r), mv, drawn, flipped, points, recycles)) == stock_down(
            undo_spec(r, mv, drawn, flipped, points, recycles),
        ),
{
    let a = undo_spec(stock_down(r), mv, drawn, flipped, points, recycles);
    let b = undo_spec(r, mv, drawn, flipped, points, recycles);
    match mv {
        Move::Draw => {
            let d = drawn as int;
            assert(all_face_down(all_face_down(r.stock) + all_face_down(
                top_cards(r.waste, d).reverse(),
            )) =~= all_face_down(r.stock + all_face_down(top_cards(r.waste, d).reverse())));
            assert(stock_down(a) =~= stock_down(b));
        },
        Move::Recycle => {
            lemma_up_after_down(r.stock.reverse());
            assert(all_face_down(r.stock).reverse() =~= all_face_down(r.stock.reverse()));
            assert(stock_down(a) =~= stock_down(b));
        },
        _ => {
            assert(stock_down(a) =~= stock_down(b));
        },
    }
}

/// A legal move keeps every waste card face-up.
pub proof fn lemma_apply_keeps_waste_face_up(m: GameModel, mv: Move)
    requires
        waste_face_up(m),
        apply_spec(m, mv) is Ok,
    ensures
        waste_face_up(apply_spec(m, mv)->Ok_0),
{
    let r = apply_spec(m, mv)->Ok_0;
    match mv {
        Move::Draw => {
            let k = draw_amount(m) as int;
            assert forall|i: int| 0 <= i < r.waste.len() implies (#[trigger] r.waste[i]).face_up by {
                if i >= m.waste.len() {
                    assert(r.waste[i] == all_face_up(top_cards(m.stock, k).reverse())[i
                        - m.waste.len()]);
                } else {
                    assert(r.waste[i] == m.waste[i]);
                }
            }
        },
        Move::Recycle => {},
        Move::WasteToFoundation { .. } | Move::WasteToTableau { .. } => {
            assert forall|i: int| 0 <= i < r.waste.len() implies (#[trigger] r.waste[i]).face_up by {
                assert(r.waste[i] == m.waste[i]);
            }
        },
        _ => {},
    }
}

/// Undoing a legal move with the token it produced restores the prior position
/// up to the faces of its stock cards, provided the waste was all face-up.
pub proof fn lemma_undo_restores_up_to_stock_faces(m: GameModel, mv: Move)
    requires
        has_all_piles(m),
        waste_face_up(m),
        apply_spec(m, mv) is Ok,
    ensures
        undo_ok(apply_spec(m, mv)->Ok_0, mv, drawn_by(m, mv), flipped_by(m, mv)),
        stock_down(
            undo_spec(
                apply_spec(m, mv)->Ok_0,
                mv,
                drawn_by(m, mv),
                flipped_by(m, mv),
                m.points,
                m.recycles,
            ),
        ) == stock_down(m),
{
    let n = stock_down(m);
    let r = apply_spec(m, mv)->Ok_0;
    lemma_apply_ignores_stock_faces(m, mv);
    assert(stock_and_waste_settled(n));
    assert(has_all_piles(n));
    lemma_undo_restores(n, mv);
    lemma_undo_ignores_stock_faces(r, mv, drawn_by(m, mv), flipped_by(m, mv), m.points, m.recycles);
    lemma_up_after_down(m.stock);
    assert(stock_down(n) =~= n);
}

/// The position with every stock card face-down and every waste card face-up.
pub open spec fn settle_faces(m: GameModel) -> GameModel {
    GameModel { stock: all_face_down(m.stock), waste: all_face_up(m.waste), ..m }
}

/// Undoing a move treats two positions that differ only in the faces of their
/// stock and waste cards alike: it can be done in both or in neither, and the
/// results again differ only in those faces.
pub proof fn lemma_undo_ignores_pile_faces(
    a: GameModel,
    b: GameModel,
    mv: Move,
    drawn: nat,
    flipped: bool,
    points: int,
    recycles: u32,
)
    requires
        settle_faces(a) == settle_faces(b),
        undo_ok(a, mv, drawn, flipped),
    ensures
        undo_ok(b, mv, drawn, flipped),
        settle_faces(undo_spec(a, mv, drawn, flipped, points, recycles)) == settle_faces(
            undo_spec(b, mv, drawn, flipped, points, recycles),
        ),
{
    let ua = undo_spec(a, mv, drawn, flipped, points, recycles);
    let ub = undo_spec(b, mv, drawn, flipped, points, recycles);
    assert(all_face_up(a.waste).len() == a.waste.len());
    assert(all_face_up(b.waste).len() == b.waste.len());
    assert(a.waste.len() == b.waste.len());
    assert(a.tableau == b.tableau && a.foundations == b.foundations) by {
        assert(settle_faces(a).tableau == settle_faces(b).tableau);
        assert(settle_faces(a).foundations == settle_faces(b).foundations);
    }
    assert(a.stock.len() == b.stock.len()) by {
        assert(all_face_down(a.stock).len() == a.stock.len());
        assert(all_face_down(b.stock).len() == b.stock.len());
    }
    assert forall|i: int| 0 <= i < a.waste.len() implies #[trigger] a.waste[i].rank == b.waste[i].rank
        && a.waste[i].suit == b.waste[i].suit by {
        assert(all_face_up(a.waste)[i] == all_face_up(b.waste)[i]);
    }
    assert forall|i: int| 0 <= i < a.stock.len() implies #[trigger] a.stock[i].rank == b.stock[i].rank
        && a.stock[i].suit == b.stock[i].suit by {
        assert(all_face_down(a.stock)[i] == all_face_down(b.stock)[i]);
    }
    match mv {
        Move::Draw => {
            let d = drawn as int;
            assert forall|i: int| 0 <= i < a.waste.len() implies #[trigger] all_face_up(a.waste)[i]
                == all_face_up(b.waste)[i] by {
                assert(settle_faces(a).waste[i] == settle_faces(b).waste[i]);
            }
            assert(all_face_up(without_top(a.waste, d)) =~= all_face_up(without_top(b.waste, d))) by {
                assert forall|i: int| 0 <= i < a.waste.len() - d implies all_face_up(
                    without_top(a.waste, d),
                )[i] == all_face_up(without_top(b.waste, d))[i] by {
                    assert(all_face_up(a.waste)[i] == all_face_up(b.waste)[i]);
                }
            }
            assert(all_face_down(a.stock + all_face_down(top_cards(a.waste, d).reverse()))
                =~= all_face_down(b.stock + all_face_down(top_cards(b.waste, d).reverse())));
            assert(settle_faces(ua) =~= settle_faces(ub));
        },
        Move::Recycle => {
            assert(all_face_up(a.waste + all_face_up(a.stock.reverse())) =~= all_face_up(
                b.waste + all_face_up(b.stock.reverse()),
            ));
            assert(settle_faces(ua) =~= settle_faces(ub));
        },
        Move::WasteToFoundation { foundation } => {
            let x = a.foundations[foundation as int].last();
            assert(all_face_up(a.waste.push(x)) =~= all_face_up(b.waste.push(x)));
            assert(settle_faces(ua) =~= settle_faces(ub));
        },
        Move::WasteToTableau { column } => {
            let x = a.tableau[column as int].last();
            assert(all_face_up(a.waste.push(x)) =~= all_face_up(b.waste.push(x)));
            assert(settle_faces(ua) =~= settle_faces(ub));
        },
        _ => {
            assert(settle_faces(ua) =~= settle_faces(ub));
        },
    }
}

/// Undoing a legal move with the token it produced restores the prior position
/// up to the faces of its stock and waste cards, whatever those faces were.
pub proof fn lemma_undo_restores_up_to_pile_faces(m: GameModel, mv: Move)
    requires
        has_all_piles(m),
        apply_spec(m, mv) is Ok,
    ensures
        undo_ok(apply_spec(m, mv)->Ok_0, mv, drawn_by(m, mv), flipped_by(m, mv)),
        settle_faces(
            undo_spec(
                apply_spec(m, mv)->Ok_0,
                mv,
                drawn_by(m, mv),
                flipped_by(m, mv),
                m.points,
                m.recycles,
            ),
        ) == settle_faces(m),
{
    let post = apply_spec(m, mv)->Ok_0;
    let d = drawn_by(m, mv);
    let f = flipped_by(m, mv);
    let back = undo_spec(post, mv, d, f, m.points, m.recycles);
    match mv {
        Move::Draw => {
            let n = d as int;
            let taken = top_cards(m.stock, n);
            assert(top_cards(post.waste, n) =~= all_face_up(taken.reverse()));
            assert(without_top(post.waste, n) =~= m.waste);
            assert(all_face_down(all_face_down(all_face_up(taken.reverse()).reverse()))
                =~= all_face_down(taken));
            assert(all_face_down(back.stock) =~= all_face_down(m.stock));
            assert(back.waste =~= m.waste);
            assert(settle_faces(back) =~= settle_faces(m));
        },
        Move::Recycle => {
            assert(all_face_up(all_face_up(all_face_down(m.waste.reverse()).reverse())) =~= all_face_up(
                m.waste,
            ));
            assert(back.stock =~= m.stock);
            assert(settle_faces(back) =~= settle_faces(m));
        },
        _ => {
            lemma_undo_restores_off_stock(m, mv);
        },
    }
}

/// The position with its play clock set to `secs`.
pub open spec fn clocked(m: GameModel, secs: u64) -> GameModel {
    GameModel { elapsed: secs, ..m }
}

/// The play clock takes no part in the rules: a move treats two positions that
/// differ only in their clocks alike, the results again differ only in their
/// clocks, and it draws and flips the same.
pub proof fn lemma_apply_ignores_clock(m: GameModel, mv: Move, secs: u64)
    ensures
        match apply_spec(m, mv) {
            Ok(r) => apply_spec(clocked(m, secs), mv) == Ok::<GameModel, crate::model::moves::MoveError>(
                clocked(r, secs),
            ),
            Err(e) => apply_spec(clocked(m, secs), mv) == Err::<GameModel, crate::model::moves::MoveError>(e),
        },
        drawn_by(clocked(m, secs), mv) == drawn_by(m, mv),
        flipped_by(clocked(m, secs), mv) == flipped_by(m, mv),
{
    let n = clocked(m, secs);
    if apply_spec(m, mv) is Ok {
        let r = apply_spec(m, mv)->Ok_0;
        assert(apply_spec(n, mv)->Ok_0 =~= clocked(r, secs));
    }
}

} // verus!
