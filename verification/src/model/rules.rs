//! The classic-rules engine: placement rules, legal-move enumeration, and move
//! application (including auto-flip, stock draw/recycle, and scoring).
use vstd::prelude::*;

use crate::model::card::{Card, Rank};
use crate::model::moves::{Move, MoveError};
use crate::model::pile::{face_up_run, seq_top};
use crate::model::rules_spec::{
    apply_fits, apply_spec, column_to_foundation_moves, drawn_by, flipped_by, foundation_accepts,
    foundation_to_columns_moves, foundation_to_tableau_moves, legal_moves_spec, run_step_ok,
    run_to_columns_moves, runs_from_column_moves, stock_moves, tableau_accepts,
    tableau_to_foundation_moves, tableau_to_tableau_moves, top_cards, undo_ok, undo_spec, valid_run,
    waste_to_foundation_moves, waste_to_tableau_moves,
};
use crate::model::score::Score;
use crate::model::state::{DrawMode, GameModel, GameState};

verus! {

/// Whether `moving` may be stacked onto a tableau column whose top card is
/// `dest_top` (`None` for an empty column). An empty column accepts only a King;
/// otherwise the incoming card must be one rank lower and the opposite color.
pub fn can_stack_on_tableau(moving: Card, dest_top: Option<Card>) -> (b: bool)
    ensures
        b == tableau_accepts(moving, dest_top),
{
    match dest_top {
        None => moving.rank == Rank::King,
        Some(top) => top.face_up && moving.color() != top.color() && top.rank.value()
            == moving.rank.value() + 1,
    }
}

/// Whether `moving` may be placed onto a foundation whose top card is
/// `found_top` (`None` for an empty foundation). An empty foundation accepts
/// only an Ace; otherwise the incoming card must be the same suit and one rank
/// higher.
pub fn can_stack_on_foundation(moving: Card, found_top: Option<Card>) -> (b: bool)
    ensures
        b == foundation_accepts(moving, found_top),
{
    match found_top {
        None => moving.rank == Rank::Ace,
        Some(top) => moving.suit == top.suit && moving.rank.value() == top.rank.value() + 1,
    }
}

/// Whether `run` (ordered bottom-to-top) is a valid movable tableau sequence:
/// every card face-up, each successive card one rank lower and the opposite
/// color of the one beneath it.
pub fn is_valid_run(run: &[Card]) -> (b: bool)
    ensures
        b == valid_run(run@),
{
    let n = run.len();
    let mut i: usize = 0;
    while i < n
        invariant
            n == run@.len(),
            i <= n,
            forall|j: int| 0 <= j < i ==> (#[trigger] run@[j]).face_up,
            forall|j: int| 0 <= j < i && j < n - 1 ==> #[trigger] run_step_ok(run@, j),
        decreases n - i,
    {
        let c = run[i];
        if !c.face_up {
            return false;
        }
        if i + 1 < n {
            let upper = run[i + 1];
            if !(c.color() != upper.color() && c.rank.value() == upper.rank.value() + 1) {
                assert(!run_step_ok(run@, i as int));
                return false;
            }
            assert(run_step_ok(run@, i as int));
        }
        i = i + 1;
    }
    true
}

/// Append the stock move (draw, or recycle when permitted) to `moves`.
fn push_stock_moves(state: &GameState, moves: &mut Vec<Move>)
    ensures
        final(moves)@ == old(moves)@ + stock_moves(state@),
{
    if !state.stock_pile().is_empty() {
        moves.push(Move::Draw);
    } else if !state.waste_pile().is_empty() && state.recycle_allowed() {
        moves.push(Move::Recycle);
    }
}

/// Append the legal placements of the waste's top card to `moves`: first the
/// foundations in order, then the columns in order.
fn push_waste_moves(state: &GameState, moves: &mut Vec<Move>)
    ensures
        final(moves)@ == old(moves)@ + waste_to_foundation_moves(state@, 4)
            + waste_to_tableau_moves(state@, 7),
{
    proof {
        state.lemma_pile_counts();
    }
    let ghost m = state@;
    let ghost base = moves@;
    let top = state.waste_pile().top();
    let mut f: usize = 0;
    while f < 4
        invariant
            f <= 4,
            m == state@,
            top == seq_top(m.waste),
            m.foundations.len() == 4,
            moves@ == base + waste_to_foundation_moves(m, f as int),
        decreases 4 - f,
    {
        match top {
            Some(card) => {
                if can_stack_on_foundation(card, state.foundation(f).top()) {
                    moves.push(Move::WasteToFoundation { foundation: f });
                }
            },
            None => {},
        }
        f = f + 1;
        assert(moves@ =~= base + waste_to_foundation_moves(m, f as int));
    }
    let ghost base2 = moves@;
    let mut c: usize = 0;
    while c < 7
        invariant
            c <= 7,
            m == state@,
            top == seq_top(m.waste),
            m.tableau.len() == 7,
            moves@ == base2 + waste_to_tableau_moves(m, c as int),
        decreases 7 - c,
    {
        match top {
            Some(card) => {
                if can_stack_on_tableau(card, state.column(c).top()) {
                    moves.push(Move::WasteToTableau { column: c });
                }
            },
            None => {},
        }
        c = c + 1;
        assert(moves@ =~= base2 + waste_to_tableau_moves(m, c as int));
    }
    assert(moves@ =~= base + waste_to_foundation_moves(m, 4) + waste_to_tableau_moves(m, 7));
}

/// Append every legal move of a column's top card to a foundation, column by
/// column.
fn push_tableau_to_foundation_moves(state: &GameState, moves: &mut Vec<Move>)
    ensures
        final(moves)@ == old(moves)@ + tableau_to_foundation_moves(state@, 7),
{
    proof {
        state.lemma_pile_counts();
    }
    let ghost m = state@;
    let ghost base = moves@;
    let mut c: usize = 0;
    while c < 7
        invariant
            c <= 7,
            m == state@,
            m.foundations.len() == 4,
            m.tableau.len() == 7,
            moves@ == base + tableau_to_foundation_moves(m, c as int),
        decreases 7 - c,
    {
        let top = state.column(c).top();
        let ghost before = moves@;
        let mut f: usize = 0;
        while f < 4
            invariant
                c < 7,
                f <= 4,
                m == state@,
                top == seq_top(m.tableau[c as int]),
                m.foundations.len() == 4,
                moves@ == before + column_to_foundation_moves(m, c as int, f as int),
            decreases 4 - f,
        {
            match top {
                Some(card) => {
                    if can_stack_on_foundation(card, state.foundation(f).top()) {
                        moves.push(Move::TableauToFoundation { column: c, foundation: f });
                    }
                },
                None => {},
            }
            f = f + 1;
            assert(moves@ =~= before + column_to_foundation_moves(m, c as int, f as int));
        }
        c = c + 1;
        assert(moves@ =~= base + tableau_to_foundation_moves(m, c as int));
    }
}

/// Append every legal run move between columns: by source column, then run
/// length (shortest first), then destination column.
#[verifier::rlimit(30)]
fn push_tableau_to_tableau_moves(state: &GameState, moves: &mut Vec<Move>)
    ensures
        final(moves)@ == old(moves)@ + tableau_to_tableau_moves(state@, 7),
{
    proof {
        state.lemma_pile_counts();
    }
    let ghost m = state@;
    let ghost base = moves@;
    let mut from: usize = 0;
    while from < 7
        invariant
            from <= 7,
            m == state@,
            m.tableau.len() == 7,
            moves@ == base + tableau_to_tableau_moves(m, from as int),
        decreases 7 - from,
    {
        let run = state.column(from).face_up_run();
        let ghost before_from = moves@;
        let mut done: usize = 0;
        while done < run.len()
            invariant
                from < 7,
                done <= run@.len(),
                m == state@,
                m.tableau.len() == 7,
                run@ == face_up_run(m.tableau[from as int]),
                moves@ == before_from + runs_from_column_moves(m, from as int, done as int),
            decreases run@.len() - done,
        {
            let count = done + 1;
            proof {
                crate::model::pile::lemma_face_down_prefix(m.tableau[from as int]);
            }
            let moving = &run[run.len() - count..run.len()];
            assert(moving@ =~= top_cards(m.tableau[from as int], count as int));
            let bottom = run[run.len() - count];
            let valid = is_valid_run(moving);
            let ghost before_count = moves@;
            let mut to: usize = 0;
            while to < 7
                invariant
                    from < 7,
                    1 <= count <= run@.len(),
                    to <= 7,
                    m == state@,
                    m.tableau.len() == 7,
                    moving@ == top_cards(m.tableau[from as int], count as int),
                    bottom == moving@[0],
                    valid == valid_run(moving@),
                    moves@ == before_count + run_to_columns_moves(
                        m,
                        from as int,
                        count as int,
                        to as int,
                    ),
                decreases 7 - to,
            {
                if valid && to != from && can_stack_on_tableau(bottom, state.column(to).top()) {
                    moves.push(Move::TableauToTableau { from, to, count });
                }
                to = to + 1;
                assert(moves@ =~= before_count + run_to_columns_moves(
                    m,
                    from as int,
                    count as int,
                    to as int,
                ));
            }
            done = count;
            assert(moves@ =~= before_from + runs_from_column_moves(m, from as int, done as int));
        }
        from = from + 1;
        assert(moves@ =~= base + tableau_to_tableau_moves(m, from as int));
    }
}

/// Append every legal move of a foundation's top card to a column, foundation
/// by foundation.
fn push_foundation_to_tableau_moves(state: &GameState, moves: &mut Vec<Move>)
    ensures
        final(moves)@ == old(moves)@ + foundation_to_tableau_moves(state@, 4),
{
    proof {
        state.lemma_pile_counts();
    }
    let ghost m = state@;
    let ghost base = moves@;
    let mut f: usize = 0;
    while f < 4
        invariant
            f <= 4,
            m == state@,
            m.foundations.len() == 4,
            m.tableau.len() == 7,
            moves@ == base + foundation_to_tableau_moves(m, f as int),
        decreases 4 - f,
    {
        let top = state.foundation(f).top();
        let ghost before = moves@;
        let mut c: usize = 0;
        while c < 7
            invariant
                f < 4,
                c <= 7,
                m == state@,
                top == seq_top(m.foundations[f as int]),
                m.tableau.len() == 7,
                moves@ == before + foundation_to_columns_moves(m, f as int, c as int),
            decreases 7 - c,
        {
            match top {
                Some(card) => {
                    if can_stack_on_tableau(card, state.column(c).top()) {
                        moves.push(Move::FoundationToTableau { foundation: f, column: c });
                    }
                },
                None => {},
            }
            c = c + 1;
            assert(moves@ =~= before + foundation_to_columns_moves(m, f as int, c as int));
        }
        f = f + 1;
        assert(moves@ =~= base + foundation_to_tableau_moves(m, f as int));
    }
}

/// Enumerate every legal move for `state` under the classic ruleset, in a
/// fixed order (see [`legal_moves_spec`]).
pub fn legal_moves(state: &GameState) -> (moves: Vec<Move>)
    ensures
        moves@ == legal_moves_spec(state@),
        moves@.no_duplicates(),
{
    proof {
        state.lemma_has_all_piles();
        crate::model::enumeration::lemma_legal_moves_distinct(state@);
    }
    let mut moves: Vec<Move> = Vec::new();
    push_stock_moves(state, &mut moves);
    push_waste_moves(state, &mut moves);
    push_tableau_to_foundation_moves(state, &mut moves);
    push_tableau_to_tableau_moves(state, &mut moves);
    push_foundation_to_tableau_moves(state, &mut moves);
    assert(moves@ =~= legal_moves_spec(state@));
    moves
}

/// A token capturing what [`undo_move`] needs to reverse a move: how many cards
/// a draw turned, whether an auto-flip fired, and the score and recycle count to
/// restore. `Copy`, no heap.
#[derive(Debug, Clone, Copy)]
pub struct Undo {
    drawn: u8,
    flipped: bool,
    prev_score: Score,
    prev_recycles: u32,
}

impl Undo {
    /// How many cards the move turned from the stock.
    pub closed spec fn drawn_spec(&self) -> nat {
        self.drawn as nat
    }

    /// Whether the move flipped a tableau card.
    pub closed spec fn flipped_spec(&self) -> bool {
        self.flipped
    }

    /// The event points before the move.
    pub closed spec fn points_spec(&self) -> int {
        self.prev_score@
    }

    /// The recycle count before the move.
    pub closed spec fn recycles_spec(&self) -> u32 {
        self.prev_recycles
    }
}

/// Whether `u` is the token of applying `mv` to `before`.
pub open spec fn undo_token_of(u: Undo, before: GameModel, mv: Move) -> bool {
    &&& u.drawn_spec() == drawn_by(before, mv)
    &&& u.flipped_spec() == flipped_by(before, mv)
    &&& u.points_spec() == before.points
    &&& u.recycles_spec() == before.recycles
}

/// Apply `mv` to `state`, returning an [`Undo`] token that reverses it. Illegal
/// moves are rejected leaving the state unchanged (no token produced).
pub fn apply_undoable(state: &mut GameState, mv: Move) -> (r: Result<Undo, MoveError>)
    requires
        apply_fits(old(state)@, mv),
    ensures
        match r {
            Ok(u) => {
                &&& apply_spec(old(state)@, mv) == Ok::<GameModel, MoveError>(final(state)@)
                &&& undo_token_of(u, old(state)@, mv)
            },
            Err(e) => {
                &&& apply_spec(old(state)@, mv) == Err::<GameModel, MoveError>(e)
                &&& final(state)@ == old(state)@
            },
        },
{
    let prev_score = state.score();
    let prev_recycles = state.recycles_done();
    let step = match mv {
        Move::Draw => state.step_draw(),
        Move::Recycle => state.step_recycle(),
        Move::WasteToFoundation { foundation } => state.step_waste_to_foundation(foundation),
        Move::WasteToTableau { column } => state.step_waste_to_tableau(column),
        Move::TableauToTableau { from, to, count } => state.step_tableau_to_tableau(
            from,
            to,
            count,
        ),
        Move::TableauToFoundation { column, foundation } => state.step_tableau_to_foundation(
            column,
            foundation,
        ),
        Move::FoundationToTableau { foundation, column } => state.step_foundation_to_tableau(
            foundation,
            column,
        ),
    };
    match step {
        Ok((drawn, flipped)) => Ok(Undo { drawn, flipped, prev_score, prev_recycles }),
        Err(e) => Err(e),
    }
}

/// Apply `mv` to `state`. On success the state is mutated (and scored). On any
/// error the state is left exactly as it was.
pub fn apply_move(state: &mut GameState, mv: Move) -> (r: Result<(), MoveError>)
    requires
        apply_fits(old(state)@, mv),
    ensures
        match r {
            Ok(()) => apply_spec(old(state)@, mv) == Ok::<GameModel, MoveError>(final(state)@),
            Err(e) => {
                &&& apply_spec(old(state)@, mv) == Err::<GameModel, MoveError>(e)
                &&& final(state)@ == old(state)@
            },
        },
        mv == Move::Recycle && r is Ok ==> final(state)@.points == if old(state)@.config.draw_mode
            == DrawMode::Three {
            old(state)@.points
        } else if old(state)@.points >= 100 {
            old(state)@.points - 100
        } else {
            0
        },
{
    proof {
        crate::model::laws::lemma_recycle_scoring(old(state)@);
    }
    match apply_undoable(state, mv) {
        Ok(_) => Ok(()),
        Err(e) => Err(e),
    }
}

/// Reverse a move previously applied with [`apply_undoable`]: move the cards
/// back, undo an auto-flip, and restore the score and recycle count.
pub fn undo_move(state: &mut GameState, mv: Move, undo: Undo)
    requires
        undo_ok(old(state)@, mv, undo.drawn_spec(), undo.flipped_spec()),
    ensures
        final(state)@ == undo_spec(
            old(state)@,
            mv,
            undo.drawn_spec(),
            undo.flipped_spec(),
            undo.points_spec(),
            undo.recycles_spec(),
        ),
{
    state.undo_step(mv, undo.drawn, undo.flipped, undo.prev_score, undo.prev_recycles);
}

} // verus!
