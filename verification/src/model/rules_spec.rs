//! The classic Klondike rules as mathematical functions over [`GameModel`]:
//! placement rules, the outcome of every move, and what undoing it restores.
use vstd::prelude::*;

use crate::model::card::{card_color, rank_value, Card, Rank};
use crate::model::moves::{Move, MoveError};
use crate::model::pile::{
    face_up_run, flip_top_down, flip_top_up, seq_pop, seq_top, top_is_face_down,
};
use crate::model::score::{after_event, ScoreEvent};
use crate::model::state::{draw_mode_count, DrawMode, GameModel};

verus! {

/// An empty column accepts only a King; otherwise the incoming card must be one
/// rank lower than, and of the opposite color to, a face-up top card.
pub open spec fn tableau_accepts(moving: Card, dest_top: Option<Card>) -> bool {
    match dest_top {
        None => moving.rank == Rank::King,
        Some(top) => top.face_up && card_color(moving) != card_color(top) && rank_value(top.rank)
            == rank_value(moving.rank) + 1,
    }
}

/// An empty foundation accepts only an Ace; otherwise the incoming card must be
/// of the same suit and one rank higher than the top card.
pub open spec fn foundation_accepts(moving: Card, found_top: Option<Card>) -> bool {
    match found_top {
        None => moving.rank == Rank::Ace,
        Some(top) => moving.suit == top.suit && rank_value(moving.rank) == rank_value(top.rank)
            + 1,
    }
}

/// A movable tableau sequence (bottom-to-top): every card face-up, each
/// successive card one rank lower than and of the opposite color to the one
/// beneath it.
pub open spec fn valid_run(run: Seq<Card>) -> bool {
    &&& forall|i: int| 0 <= i < run.len() ==> (#[trigger] run[i]).face_up
    &&& forall|i: int| 0 <= i < run.len() - 1 ==> #[trigger] run_step_ok(run, i)
}

/// The card at `i + 1` may sit on the card at `i` in a run: opposite color,
/// one rank lower.
pub open spec fn run_step_ok(run: Seq<Card>, i: int) -> bool {
    card_color(run[i]) != card_color(run[i + 1]) && rank_value(run[i].rank) == rank_value(
        run[i + 1].rank,
    ) + 1
}

/// Every card turned face-up.
pub open spec fn all_face_up(s: Seq<Card>) -> Seq<Card> {
    s.map_values(|c: Card| Card { face_up: true, ..c })
}

/// Every card turned face-down.
pub open spec fn all_face_down(s: Seq<Card>) -> Seq<Card> {
    s.map_values(|c: Card| Card { face_up: false, ..c })
}

/// The top `n` cards of `s`, bottom-to-top.
pub open spec fn top_cards(s: Seq<Card>, n: int) -> Seq<Card> {
    s.subrange(s.len() - n, s.len() as int)
}

/// `s` without its top `n` cards.
pub open spec fn without_top(s: Seq<Card>, n: int) -> Seq<Card> {
    s.subrange(0, s.len() - n)
}

/// Whether the redeal limit still permits a recycle.
pub open spec fn recycle_allowed(m: GameModel) -> bool {
    match m.config.redeal_limit {
        None => true,
        Some(limit) => m.recycles < limit,
    }
}

/// How many cards a draw turns: the draw mode's count, or fewer when the stock
/// runs out.
pub open spec fn draw_amount(m: GameModel) -> nat {
    let n = draw_mode_count(m.config.draw_mode);
    if n <= m.stock.len() {
        n
    } else {
        m.stock.len()
    }
}

/// The points after `e` is scored in `m`.
pub open spec fn scored(m: GameModel, e: ScoreEvent) -> GameModel {
    GameModel { points: after_event(m.points, e), ..m }
}

/// The points after a flip is scored, when `flipped`.
pub open spec fn scored_if(m: GameModel, flipped: bool) -> GameModel {
    if flipped {
        scored(m, ScoreEvent::FlipTableauCard)
    } else {
        m
    }
}

/// Whether the indices a move names are in range.
pub open spec fn move_in_range(mv: Move) -> bool {
    match mv {
        Move::Draw | Move::Recycle => true,
        Move::WasteToFoundation { foundation } => foundation < 4,
        Move::WasteToTableau { column } => column < 7,
        Move::TableauToTableau { from, to, count } => from < 7 && to < 7,
        Move::TableauToFoundation { column, foundation } => column < 7 && foundation < 4,
        Move::FoundationToTableau { foundation, column } => foundation < 4 && column < 7,
    }
}

/// The cards a tableau-to-tableau move carries: the top `count` cards of `from`.
pub open spec fn moved_run(m: GameModel, from: int, count: int) -> Seq<Card> {
    top_cards(m.tableau[from], count)
}

/// Whether a tableau-to-tableau move exposes a face-down card (and so flips it).
pub open spec fn tableau_move_flips(m: GameModel, from: int, count: int) -> bool {
    top_is_face_down(without_top(m.tableau[from], count))
}

/// Whether a tableau-to-foundation move exposes a face-down card.
pub open spec fn foundation_move_flips(m: GameModel, column: int) -> bool {
    top_is_face_down(seq_pop(m.tableau[column]))
}

/// The outcome of drawing from the stock.
pub open spec fn apply_draw(m: GameModel) -> Result<GameModel, MoveError> {
    if m.stock.len() == 0 {
        Err(MoveError::StockEmpty)
    } else {
        let n = draw_amount(m) as int;
        Ok(
            GameModel {
                stock: without_top(m.stock, n),
                waste: m.waste + all_face_up(top_cards(m.stock, n).reverse()),
                ..m
            },
        )
    }
}

/// The outcome of recycling the waste into the stock.
pub open spec fn apply_recycle(m: GameModel) -> Result<GameModel, MoveError> {
    if m.stock.len() != 0 {
        Err(MoveError::StockNotEmpty)
    } else if m.waste.len() == 0 {
        Err(MoveError::EmptySource)
    } else if !recycle_allowed(m) {
        Err(MoveError::RedealLimitReached)
    } else {
        let moved = GameModel {
            stock: all_face_down(m.waste.reverse()),
            waste: Seq::empty(),
            recycles: (m.recycles + 1) as u32,
            ..m
        };
        if m.config.draw_mode == DrawMode::One {
            Ok(scored(moved, ScoreEvent::RecycleDrawOne))
        } else {
            Ok(moved)
        }
    }
}

/// The outcome of moving the waste's top card to a foundation.
pub open spec fn apply_waste_to_foundation(m: GameModel, f: int) -> Result<GameModel, MoveError> {
    if !(0 <= f < 4) {
        Err(MoveError::IndexOutOfRange)
    } else if m.waste.len() == 0 {
        Err(MoveError::EmptySource)
    } else if !foundation_accepts(m.waste.last(), seq_top(m.foundations[f])) {
        Err(MoveError::IllegalFoundationPlacement)
    } else {
        Ok(
            scored(
                GameModel {
                    waste: m.waste.drop_last(),
                    foundations: m.foundations.update(f, m.foundations[f].push(m.waste.last())),
                    ..m
                },
                ScoreEvent::WasteToFoundation,
            ),
        )
    }
}

/// The outcome of moving the waste's top card to a tableau column.
pub open spec fn apply_waste_to_tableau(m: GameModel, c: int) -> Result<GameModel, MoveError> {
    if !(0 <= c < 7) {
        Err(MoveError::IndexOutOfRange)
    } else if m.waste.len() == 0 {
        Err(MoveError::EmptySource)
    } else if !tableau_accepts(m.waste.last(), seq_top(m.tableau[c])) {
        Err(MoveError::IllegalTableauPlacement)
    } else {
        Ok(
            scored(
                GameModel {
                    waste: m.waste.drop_last(),
                    tableau: m.tableau.update(c, m.tableau[c].push(m.waste.last())),
                    ..m
                },
                ScoreEvent::WasteToTableau,
            ),
        )
    }
}

/// The outcome of moving the top `count` cards of column `from` onto column `to`.
pub open spec fn apply_tableau_to_tableau(m: GameModel, from: int, to: int, count: int) -> Result<
    GameModel,
    MoveError,
> {
    if !(0 <= from < 7 && 0 <= to < 7) {
        Err(MoveError::IndexOutOfRange)
    } else if from == to {
        Err(MoveError::IllegalTableauPlacement)
    } else if count == 0 || count > face_up_run(m.tableau[from]).len() {
        Err(MoveError::InvalidRun)
    } else if !valid_run(moved_run(m, from, count)) {
        Err(MoveError::InvalidRun)
    } else if !tableau_accepts(moved_run(m, from, count)[0], seq_top(m.tableau[to])) {
        Err(MoveError::IllegalTableauPlacement)
    } else {
        let rest = without_top(m.tableau[from], count);
        Ok(
            scored_if(
                GameModel {
                    tableau: m.tableau.update(to, m.tableau[to] + moved_run(m, from, count)).update(
                        from,
                        flip_top_up(rest),
                    ),
                    ..m
                },
                top_is_face_down(rest),
            ),
        )
    }
}

/// The outcome of moving the top card of a column onto a foundation.
pub open spec fn apply_tableau_to_foundation(m: GameModel, c: int, f: int) -> Result<
    GameModel,
    MoveError,
> {
    if !(0 <= c < 7 && 0 <= f < 4) {
        Err(MoveError::IndexOutOfRange)
    } else if m.tableau[c].len() == 0 {
        Err(MoveError::EmptySource)
    } else if !foundation_accepts(m.tableau[c].last(), seq_top(m.foundations[f])) {
        Err(MoveError::IllegalFoundationPlacement)
    } else {
        let rest = m.tableau[c].drop_last();
        Ok(
            scored_if(
                scored(
                    GameModel {
                        tableau: m.tableau.update(c, flip_top_up(rest)),
                        foundations: m.foundations.update(
                            f,
                            m.foundations[f].push(m.tableau[c].last()),
                        ),
                        ..m
                    },
                    ScoreEvent::TableauToFoundation,
                ),
                top_is_face_down(rest),
            ),
        )
    }
}

/// The outcome of moving the top card of a foundation back onto a column.
pub open spec fn apply_foundation_to_tableau(m: GameModel, f: int, c: int) -> Result<
    GameModel,
    MoveError,
> {
    if !(0 <= f < 4 && 0 <= c < 7) {
        Err(MoveError::IndexOutOfRange)
    } else if m.foundations[f].len() == 0 {
        Err(MoveError::EmptySource)
    } else if !tableau_accepts(m.foundations[f].last(), seq_top(m.tableau[c])) {
        Err(MoveError::IllegalTableauPlacement)
    } else {
        Ok(
            scored(
                GameModel {
                    foundations: m.foundations.update(f, m.foundations[f].drop_last()),
                    tableau: m.tableau.update(c, m.tableau[c].push(m.foundations[f].last())),
                    ..m
                },
                ScoreEvent::FoundationToTableau,
            ),
        )
    }
}

/// The outcome of a move: the new position, or why it is illegal (in which case
/// the position is unchanged).
pub open spec fn apply_spec(m: GameModel, mv: Move) -> Result<GameModel, MoveError> {
    match mv {
        Move::Draw => apply_draw(m),
        Move::Recycle => apply_recycle(m),
        Move::WasteToFoundation { foundation } => apply_waste_to_foundation(m, foundation as int),
        Move::WasteToTableau { column } => apply_waste_to_tableau(m, column as int),
        Move::TableauToTableau { from, to, count } => apply_tableau_to_tableau(
            m,
            from as int,
            to as int,
            count as int,
        ),
        Move::TableauToFoundation { column, foundation } => apply_tableau_to_foundation(
            m,
            column as int,
            foundation as int,
        ),
        Move::FoundationToTableau { foundation, column } => apply_foundation_to_tableau(
            m,
            foundation as int,
            column as int,
        ),
    }
}

/// How many cards a legal move turns from the stock (zero for all but draws).
pub open spec fn drawn_by(m: GameModel, mv: Move) -> nat {
    match mv {
        Move::Draw => if m.stock.len() == 0 {
            0
        } else {
            draw_amount(m)
        },
        _ => 0,
    }
}

/// Whether a legal move exposes and flips a face-down tableau card.
pub open spec fn flipped_by(m: GameModel, mv: Move) -> bool {
    match mv {
        Move::TableauToTableau { from, to, count } => apply_tableau_to_tableau(
            m,
            from as int,
            to as int,
            count as int,
        ) is Ok && tableau_move_flips(m, from as int, count as int),
        Move::TableauToFoundation { column, foundation } => apply_tableau_to_foundation(
            m,
            column as int,
            foundation as int,
        ) is Ok && foundation_move_flips(m, column as int),
        _ => false,
    }
}

/// The points a move adds before any clamping (zero for illegal moves and for
/// moves that only cost points).
pub open spec fn points_gained(m: GameModel, mv: Move) -> int {
    if apply_spec(m, mv) is Err {
        0
    } else {
        match mv {
            Move::WasteToTableau { .. } => 5,
            Move::WasteToFoundation { .. } => 10,
            Move::TableauToTableau { .. } => if flipped_by(m, mv) {
                5
            } else {
                0
            },
            Move::TableauToFoundation { .. } => if flipped_by(m, mv) {
                15
            } else {
                10
            },
            _ => 0,
        }
    }
}

/// Applying `mv` in `m` stays within the machine counters: the score does not
/// pass `i64::MAX` and a recycle does not pass `u32::MAX` recycles.
pub open spec fn apply_fits(m: GameModel, mv: Move) -> bool {
    &&& m.points + points_gained(m, mv) <= i64::MAX
    &&& (mv == Move::Recycle && apply_recycle(m) is Ok) ==> m.recycles < u32::MAX
}

/// The position with column `from` flipped back down (when `flipped`), as the
/// first step of undoing a tableau-sourced move.
pub open spec fn unflipped(m: GameModel, col: int, flipped: bool) -> Seq<Seq<Card>> {
    if flipped {
        m.tableau.update(col, flip_top_down(m.tableau[col]))
    } else {
        m.tableau
    }
}

/// What undoing `mv` does to the position `m`, given the token's draw count,
/// flip flag, and the score and recycle count to restore.
pub open spec fn undo_spec(
    m: GameModel,
    mv: Move,
    drawn: nat,
    flipped: bool,
    points: int,
    recycles: u32,
) -> GameModel {
    let moved = match mv {
        Move::Draw => GameModel {
            waste: without_top(m.waste, drawn as int),
            stock: m.stock + all_face_down(top_cards(m.waste, drawn as int).reverse()),
            ..m
        },
        Move::Recycle => GameModel {
            waste: m.waste + all_face_up(m.stock.reverse()),
            stock: Seq::empty(),
            ..m
        },
        Move::WasteToFoundation { foundation } => GameModel {
            foundations: m.foundations.update(
                foundation as int,
                m.foundations[foundation as int].drop_last(),
            ),
            waste: m.waste.push(m.foundations[foundation as int].last()),
            ..m
        },
        Move::WasteToTableau { column } => GameModel {
            tableau: m.tableau.update(column as int, m.tableau[column as int].drop_last()),
            waste: m.waste.push(m.tableau[column as int].last()),
            ..m
        },
        Move::TableauToTableau { from, to, count } => {
            let t1 = unflipped(m, from as int, flipped);
            let run = top_cards(t1[to as int], count as int);
            let t2 = t1.update(to as int, without_top(t1[to as int], count as int));
            GameModel { tableau: t2.update(from as int, t2[from as int] + run), ..m }
        },
        Move::TableauToFoundation { column, foundation } => {
            let t1 = unflipped(m, column as int, flipped);
            GameModel {
                foundations: m.foundations.update(
                    foundation as int,
                    m.foundations[foundation as int].drop_last(),
                ),
                tableau: t1.update(
                    column as int,
                    t1[column as int].push(m.foundations[foundation as int].last()),
                ),
                ..m
            }
        },
        Move::FoundationToTableau { foundation, column } => GameModel {
            tableau: m.tableau.update(column as int, m.tableau[column as int].drop_last()),
            foundations: m.foundations.update(
                foundation as int,
                m.foundations[foundation as int].push(m.tableau[column as int].last()),
            ),
            ..m
        },
    };
    GameModel { points, recycles, ..moved }
}

/// Undoing `mv` in `m` with the given draw count and flip flag finds every card
/// it must move (so the undo cannot fail).
pub open spec fn undo_ok(m: GameModel, mv: Move, drawn: nat, flipped: bool) -> bool {
    &&& m.foundations.len() == 4
    &&& m.tableau.len() == 7
    &&& match mv {
        Move::Draw => drawn <= m.waste.len(),
        Move::Recycle => true,
        Move::WasteToFoundation { foundation } => foundation < 4 && m.foundations[foundation as int].len() > 0,
        Move::WasteToTableau { column } => column < 7 && m.tableau[column as int].len() > 0,
        Move::TableauToTableau { from, to, count } => {
            &&& from < 7
            &&& to < 7
            &&& 0 < count <= face_up_run(unflipped(m, from as int, flipped)[to as int]).len()
        },
        Move::TableauToFoundation { column, foundation } => column < 7 && foundation < 4
            && m.foundations[foundation as int].len() > 0,
        Move::FoundationToTableau { foundation, column } => foundation < 4 && column < 7
            && m.tableau[column as int].len() > 0,
    }
}

} // verus!

verus! {

/// The stock move available in `m`: a draw when the stock has cards, else a
/// recycle when the waste has cards and the redeal limit permits.
pub open spec fn stock_moves(m: GameModel) -> Seq<Move> {
    if m.stock.len() > 0 {
        seq![Move::Draw]
    } else if m.waste.len() > 0 && recycle_allowed(m) {
        seq![Move::Recycle]
    } else {
        Seq::empty()
    }
}

/// `seq![mv]` when `cond` holds, else empty.
pub open spec fn move_if(cond: bool, mv: Move) -> Seq<Move> {
    if cond {
        seq![mv]
    } else {
        Seq::empty()
    }
}

/// Legal waste-to-foundation moves to the foundations `0..n`, in order.
pub open spec fn waste_to_foundation_moves(m: GameModel, n: int) -> Seq<Move>
    decreases n,
{
    if n <= 0 {
        Seq::empty()
    } else {
        waste_to_foundation_moves(m, n - 1) + move_if(
            m.waste.len() > 0 && foundation_accepts(m.waste.last(), seq_top(m.foundations[n - 1])),
            Move::WasteToFoundation { foundation: (n - 1) as usize },
        )
    }
}

/// Legal waste-to-tableau moves to the columns `0..n`, in order.
pub open spec fn waste_to_tableau_moves(m: GameModel, n: int) -> Seq<Move>
    decreases n,
{
    if n <= 0 {
        Seq::empty()
    } else {
        waste_to_tableau_moves(m, n - 1) + move_if(
            m.waste.len() > 0 && tableau_accepts(m.waste.last(), seq_top(m.tableau[n - 1])),
            Move::WasteToTableau { column: (n - 1) as usize },
        )
    }
}

/// Legal moves of column `col`'s top card to the foundations `0..n`, in order.
pub open spec fn column_to_foundation_moves(m: GameModel, col: int, n: int) -> Seq<Move>
    decreases n,
{
    if n <= 0 {
        Seq::empty()
    } else {
        column_to_foundation_moves(m, col, n - 1) + move_if(
            m.tableau[col].len() > 0 && foundation_accepts(
                m.tableau[col].last(),
                seq_top(m.foundations[n - 1]),
            ),
            Move::TableauToFoundation { column: col as usize, foundation: (n - 1) as usize },
        )
    }
}

/// Legal tableau-to-foundation moves from the columns `0..n`, column by column.
pub open spec fn tableau_to_foundation_moves(m: GameModel, n: int) -> Seq<Move>
    decreases n,
{
    if n <= 0 {
        Seq::empty()
    } else {
        tableau_to_foundation_moves(m, n - 1) + column_to_foundation_moves(m, n - 1, 4)
    }
}

/// Whether moving the top `count` cards of `from` onto `to` is legal, given
/// that `count` is within the face-up run.
pub open spec fn run_move_ok(m: GameModel, from: int, count: int, to: int) -> bool {
    &&& to != from
    &&& valid_run(top_cards(m.tableau[from], count))
    &&& tableau_accepts(top_cards(m.tableau[from], count)[0], seq_top(m.tableau[to]))
}

/// Legal moves of the top `count` cards of `from` to the columns `0..n`.
pub open spec fn run_to_columns_moves(m: GameModel, from: int, count: int, n: int) -> Seq<Move>
    decreases n,
{
    if n <= 0 {
        Seq::empty()
    } else {
        run_to_columns_moves(m, from, count, n - 1) + move_if(
            run_move_ok(m, from, count, n - 1),
            Move::TableauToTableau {
                from: from as usize,
                to: (n - 1) as usize,
                count: count as usize,
            },
        )
    }
}

/// Legal run moves out of column `from` for the run lengths `1..=k`, by length.
pub open spec fn runs_from_column_moves(m: GameModel, from: int, k: int) -> Seq<Move>
    decreases k,
{
    if k <= 0 {
        Seq::empty()
    } else {
        runs_from_column_moves(m, from, k - 1) + run_to_columns_moves(m, from, k, 7)
    }
}

/// Legal tableau-to-tableau moves out of the columns `0..n`, column by column.
pub open spec fn tableau_to_tableau_moves(m: GameModel, n: int) -> Seq<Move>
    decreases n,
{
    if n <= 0 {
        Seq::empty()
    } else {
        tableau_to_tableau_moves(m, n - 1) + runs_from_column_moves(
            m,
            n - 1,
            face_up_run(m.tableau[n - 1]).len() as int,
        )
    }
}

/// Legal moves of foundation `f`'s top card to the columns `0..n`, in order.
pub open spec fn foundation_to_columns_moves(m: GameModel, f: int, n: int) -> Seq<Move>
    decreases n,
{
    if n <= 0 {
        Seq::empty()
    } else {
        foundation_to_columns_moves(m, f, n - 1) + move_if(
            m.foundations[f].len() > 0 && tableau_accepts(
                m.foundations[f].last(),
                seq_top(m.tableau[n - 1]),
            ),
            Move::FoundationToTableau { foundation: f as usize, column: (n - 1) as usize },
        )
    }
}

/// Legal foundation-to-tableau moves out of the foundations `0..n`.
pub open spec fn foundation_to_tableau_moves(m: GameModel, n: int) -> Seq<Move>
    decreases n,
{
    if n <= 0 {
        Seq::empty()
    } else {
        foundation_to_tableau_moves(m, n - 1) + foundation_to_columns_moves(m, n - 1, 7)
    }
}

/// Every legal move of `m`, in the enumeration order: the stock move, waste to
/// foundations, waste to columns, column tops to foundations, runs between
/// columns (by source, then run length, then destination), foundations to columns.
pub open spec fn legal_moves_spec(m: GameModel) -> Seq<Move> {
    stock_moves(m) + waste_to_foundation_moves(m, 4) + waste_to_tableau_moves(m, 7)
        + tableau_to_foundation_moves(m, 7) + tableau_to_tableau_moves(m, 7)
        + foundation_to_tableau_moves(m, 4)
}

} // verus!
