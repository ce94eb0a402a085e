//! Move resolution for pointer input: what a click or drag selects, which
//! legal move a selection makes, and where a move's cards land. Hit-testing
//! pointer coordinates against the screen is drawing, done by the graphical
//! front-end.
use vstd::prelude::*;

use crate::model::moves::Move;
use crate::model::rules::legal_moves;
use crate::model::rules_spec::legal_moves_spec;
use crate::model::state::{GameModel, GameState};

verus! {

/// A destination pile a move can target (also used as a suppression key while a
/// card animates into or back out of a pile).
#[derive(Clone, Copy, PartialEq, Eq, Debug, Structural)]
pub enum Pile {
    Tableau(usize),
    Foundation(usize),
    Waste,
}

/// A selected move source.
#[derive(Clone, Copy, PartialEq, Eq, Debug, Structural)]
pub enum Source {
    Waste,
    Foundation(usize),
    /// A tableau column with the index of the clicked (bottom-of-run) card.
    TableauRun { col: usize, index: usize },
}

/// What the pointer is currently over.
#[derive(Clone, Copy, PartialEq, Eq, Debug, Structural)]
pub enum Hit {
    Stock,
    Waste,
    Foundation(usize),
    /// A specific card in a column.
    TableauCard { col: usize, index: usize },
    /// An empty tableau column.
    TableauEmpty(usize),
    /// Nothing that can be picked up or dropped on.
    Nowhere,
}

/// The source a hit selects in `m`: the waste or a foundation when it has a
/// card, a face-up tableau card; nothing else.
pub open spec fn source_spec(m: GameModel, hit: Hit) -> Option<Source> {
    match hit {
        Hit::Waste => if m.waste.len() > 0 {
            Some(Source::Waste)
        } else {
            None
        },
        Hit::Foundation(i) => if m.foundations[i as int].len() > 0 {
            Some(Source::Foundation(i))
        } else {
            None
        },
        Hit::TableauCard { col, index } => if index < m.tableau[col as int].len()
            && m.tableau[col as int][index as int].face_up {
            Some(Source::TableauRun { col, index })
        } else {
            None
        },
        _ => None,
    }
}

/// The source a hit selects, if it can be a move origin (face-up cards only).
pub fn source_of(state: &GameState, hit: Hit) -> (r: Option<Source>)
    requires
        hit matches Hit::Foundation(i) ==> i < 4,
        hit matches Hit::TableauCard { col, .. } ==> col < 7,
    ensures
        r == source_spec(state@, hit),
{
    match hit {
        Hit::Waste => {
            if state.waste_pile().top().is_some() {
                Some(Source::Waste)
            } else {
                None
            }
        },
        Hit::Foundation(i) => {
            if state.foundation(i).top().is_some() {
                Some(Source::Foundation(i))
            } else {
                None
            }
        },
        Hit::TableauCard { col, index } => {
            let cards = state.column(col).cards();
            if index < cards.len() && cards[index].face_up {
                Some(Source::TableauRun { col, index })
            } else {
                None
            }
        },
        _ => None,
    }
}

/// The destination pile and number of cards a move delivers.
pub open spec fn dest_spec(mv: Move) -> Option<(Pile, usize)> {
    match mv {
        Move::WasteToFoundation { foundation } => Some((Pile::Foundation(foundation), 1)),
        Move::TableauToFoundation { foundation, .. } => Some((Pile::Foundation(foundation), 1)),
        Move::WasteToTableau { column } => Some((Pile::Tableau(column), 1)),
        Move::FoundationToTableau { column, .. } => Some((Pile::Tableau(column), 1)),
        Move::TableauToTableau { to, count, .. } => Some((Pile::Tableau(to), count)),
        Move::Draw | Move::Recycle => None,
    }
}

/// The destination pile and number of cards a move delivers, for animating it
/// into place and hiding the resting cards until they land. `Draw`/`Recycle`
/// have no card destination and return `None`.
pub fn move_dest(mv: &Move) -> (r: Option<(Pile, usize)>)
    ensures
        r == dest_spec(*mv),
{
    match *mv {
        Move::WasteToFoundation { foundation } => Some((Pile::Foundation(foundation), 1)),
        Move::TableauToFoundation { foundation, .. } => Some((Pile::Foundation(foundation), 1)),
        Move::WasteToTableau { column } => Some((Pile::Tableau(column), 1)),
        Move::FoundationToTableau { column, .. } => Some((Pile::Tableau(column), 1)),
        Move::TableauToTableau { to, count, .. } => Some((Pile::Tableau(to), count)),
        Move::Draw | Move::Recycle => None,
    }
}

/// Whether `mv` is what selecting `source` then `dest` asks for in `m`: the
/// waste's card onto any foundation or onto column `k`, foundation `i`'s card
/// onto column `k`, the run from the clicked card onto column `k`, or a
/// column's single top card onto any foundation.
pub open spec fn resolves(m: GameModel, source: Source, dest: Pile, mv: Move) -> bool {
    match (source, dest) {
        (Source::Waste, Pile::Foundation(_)) => mv is WasteToFoundation,
        (Source::Waste, Pile::Tableau(k)) => mv == Move::WasteToTableau { column: k },
        (Source::Foundation(i), Pile::Tableau(k)) => mv == Move::FoundationToTableau {
            foundation: i,
            column: k,
        },
        (Source::TableauRun { col, index }, Pile::Tableau(k)) => mv == Move::TableauToTableau {
            from: col,
            to: k,
            count: (m.tableau[col as int].len() - index) as usize,
        },
        (Source::TableauRun { col, index }, Pile::Foundation(_)) => index + 1 == m.tableau[col as int].len()
            && (mv matches Move::TableauToFoundation { column, .. } && column == col),
        _ => false,
    }
}

/// The first of `s[i..]` that `source` then `dest` asks for.
pub open spec fn first_resolving(s: Seq<Move>, m: GameModel, source: Source, dest: Pile, i: int) -> Option<Move>
    decreases s.len() - i,
{
    if i < 0 || i >= s.len() {
        None
    } else if resolves(m, source, dest, s[i]) {
        Some(s[i])
    } else {
        first_resolving(s, m, source, dest, i + 1)
    }
}

/// A tableau source names a real column when a move onto a pile is asked
/// for, and, onto a column, a card index not past the column's end.
pub open spec fn selection_in_range(m: GameModel, source: Source, dest: Pile) -> bool {
    match (source, dest) {
        (Source::TableauRun { col, index }, Pile::Tableau(_)) => col < 7 && index <= m.tableau[col as int].len(),
        (Source::TableauRun { col, .. }, Pile::Foundation(_)) => col < 7,
        _ => true,
    }
}

/// What the scan of [`resolve`] compares against: the run length a tableau
/// source moves onto a column, and whether it is a column's single top card.
pub open spec fn run_fixed(m: GameModel, source: Source, dest: Pile, run: usize, top_only: bool) -> bool {
    match (source, dest) {
        (Source::TableauRun { col, index }, Pile::Tableau(_)) => run == m.tableau[col as int].len() - index,
        (Source::TableauRun { col, index }, Pile::Foundation(_)) => top_only == (index + 1
            == m.tableau[col as int].len()),
        _ => true,
    }
}

/// A tableau source on a real column names a card index not past its end.
pub open spec fn run_in_range(m: GameModel, source: Source) -> bool {
    match source {
        Source::TableauRun { col, index } => col < 7 ==> index <= m.tableau[col as int].len(),
        _ => true,
    }
}

/// Resolve a `source` → `dest` selection into a concrete legal move, if any:
/// the first legal move it asks for.
pub fn resolve(state: &GameState, source: Source, dest: Pile) -> (r: Option<Move>)
    requires
        selection_in_range(state@, source, dest),
    ensures
        r == first_resolving(legal_moves_spec(state@), state@, source, dest, 0),
{
    let legal = legal_moves(state);
    let ghost s = legal@;
    let ghost m = state@;
    proof {
        state.lemma_has_all_piles();
    }
    // The run length a tableau source moves, fixed before the scan.
    let run: usize = match (source, dest) {
        (Source::TableauRun { col, index }, Pile::Tableau(_)) => state.column(col).len() - index,
        _ => 0,
    };
    let top_only: bool = match (source, dest) {
        (Source::TableauRun { col, index }, Pile::Foundation(_)) => index < usize::MAX && index + 1
            == state.column(col).len(),
        _ => false,
    };
    assert(run_fixed(m, source, dest, run, top_only)) by {
        match (source, dest) {
            (Source::TableauRun { col, index }, Pile::Tableau(_)) => {
                assert(run == m.tableau[col as int].len() - index);
            },
            (Source::TableauRun { col, index }, Pile::Foundation(_)) => {
                assert(top_only == (index + 1 == m.tableau[col as int].len()));
            },
            _ => {},
        }
    }
    let mut i: usize = 0;
    while i < legal.len()
        invariant
            s == legal@,
            s == legal_moves_spec(m),
            m == state@,
            i <= s.len(),
            run_fixed(m, source, dest, run, top_only),
            first_resolving(s, m, source, dest, 0) == first_resolving(s, m, source, dest, i as int),
        decreases s.len() - i,
    {
        let mv = legal[i];
        let hit = match (source, dest) {
            (Source::Waste, Pile::Foundation(_)) => match mv {
                Move::WasteToFoundation { .. } => true,
                _ => false,
            },
            (Source::Waste, Pile::Tableau(k)) => match mv {
                Move::WasteToTableau { column } => column == k,
                _ => false,
            },
            (Source::Foundation(f), Pile::Tableau(k)) => match mv {
                Move::FoundationToTableau { foundation, column } => foundation == f && column == k,
                _ => false,
            },
            (Source::TableauRun { col, .. }, Pile::Tableau(k)) => match mv {
                Move::TableauToTableau { from, to, count } => from == col && to == k && count == run,
                _ => false,
            },
            (Source::TableauRun { col, .. }, Pile::Foundation(_)) => top_only && match mv {
                Move::TableauToFoundation { column, .. } => column == col,
                _ => false,
            },
            _ => false,
        };
        assert(hit == resolves(m, source, dest, s[i as int]));
        if hit {
            return Some(mv);
        }
        i = i + 1;
    }
    None
}

/// How strongly auto-assign prefers `mv` for `source` in `m` (lower is
/// better): a foundation first, then a tableau; `None` when `mv` does not
/// move the selected card.
pub open spec fn priority(m: GameModel, source: Source, mv: Move) -> Option<u8> {
    match (source, mv) {
        (Source::Waste, Move::WasteToFoundation { .. }) => Some(0),
        (Source::Waste, Move::WasteToTableau { .. }) => Some(1),
        (Source::Foundation(i), Move::FoundationToTableau { foundation, .. }) => if foundation == i {
            Some(2)
        } else {
            None
        },
        (Source::TableauRun { col, index }, Move::TableauToFoundation { column, .. }) => if column
            == col && index + 1 == m.tableau[col as int].len() {
            Some(0)
        } else {
            None
        },
        (Source::TableauRun { col, index }, Move::TableauToTableau { from, count, .. }) => if from
            == col && count == m.tableau[col as int].len() - index {
            Some(1)
        } else {
            None
        },
        _ => None,
    }
}

/// The best of `s[..n]` for `source` with its priority: the lowest priority,
/// the first among equals.
pub open spec fn best_before(s: Seq<Move>, m: GameModel, source: Source, n: int) -> Option<(u8, Move)>
    decreases n,
{
    if n <= 0 {
        None
    } else {
        let b = best_before(s, m, source, n - 1);
        match priority(m, source, s[n - 1]) {
            None => b,
            Some(p) => match b {
                None => Some((p, s[n - 1])),
                Some((q, _)) => if p < q {
                    Some((p, s[n - 1]))
                } else {
                    b
                },
            },
        }
    }
}

/// The move auto-assign picks for `source` in `m`.
pub open spec fn auto_spec(m: GameModel, source: Source) -> Option<Move> {
    let s = legal_moves_spec(m);
    match best_before(s, m, source, s.len() as int) {
        Some((_, mv)) => Some(mv),
        None => None,
    }
}

/// Once a move of priority 0 has been seen, the best is of priority 0.
proof fn lemma_best_before_zero(s: Seq<Move>, m: GameModel, source: Source, n: int, j: int)
    requires
        0 <= j < n <= s.len(),
        priority(m, source, s[j]) == Some(0u8),
    ensures
        best_before(s, m, source, n) matches Some((p, mv)) && p == 0 && priority(m, source, mv) == Some(
            0u8,
        ),
    decreases n,
{
    if j < n - 1 {
        lemma_best_before_zero(s, m, source, n - 1, j);
    } else {
        let b = best_before(s, m, source, n - 1);
        if b is Some {
            lemma_best_before_has_priority(s, m, source, n - 1);
        }
    }
}

/// The best of `s[..n]` carries the priority of its move.
proof fn lemma_best_before_has_priority(s: Seq<Move>, m: GameModel, source: Source, n: int)
    requires
        0 <= n <= s.len(),
    ensures
        best_before(s, m, source, n) matches Some((p, mv)) ==> priority(m, source, mv) == Some(p),
    decreases n,
{
    if n > 0 {
        lemma_best_before_has_priority(s, m, source, n - 1);
    }
}

/// Auto-move sends the selected card to a foundation when it can: whenever a
/// legal move takes the waste's top card to a foundation, the pick for the
/// waste is a waste-to-foundation move; and whenever one takes the top card of
/// column `col` to a foundation and that card is the one selected, the pick is
/// a move of it from column `col` to a foundation.
pub proof fn lemma_auto_prefers_foundation(m: GameModel, source: Source)
    ensures
        source == Source::Waste && (exists|f: usize|
            #[trigger] legal_moves_spec(m).contains(Move::WasteToFoundation { foundation: f }))
            ==> (auto_spec(m, source) matches Some(mv) && mv is WasteToFoundation),
        source is TableauRun && source->index + 1 == m.tableau[source->col as int].len() && (exists|
            f: usize,
        | #[trigger] legal_moves_spec(m).contains(
            Move::TableauToFoundation { column: source->col, foundation: f },
        )) ==> (auto_spec(m, source) matches Some(mv) && (mv matches Move::TableauToFoundation {
            column,
            ..
        } && column == source->col)),
{
    let s = legal_moves_spec(m);
    if source == Source::Waste && (exists|f: usize| #[trigger] s.contains(Move::WasteToFoundation { foundation: f })) {
        let f = choose|f: usize| #[trigger] s.contains(Move::WasteToFoundation { foundation: f });
        let j = choose|j: int| 0 <= j < s.len() && s[j] == Move::WasteToFoundation { foundation: f };
        lemma_best_before_zero(s, m, source, s.len() as int, j);
    }
    if source is TableauRun && source->index + 1 == m.tableau[source->col as int].len() && (exists|
        f: usize,
    | #[trigger] s.contains(Move::TableauToFoundation { column: source->col, foundation: f })) {
        let f = choose|f: usize| #[trigger] s.contains(Move::TableauToFoundation { column: source->col, foundation: f });
        let j = choose|j: int|
            0 <= j < s.len() && s[j] == Move::TableauToFoundation { column: source->col, foundation: f };
        lemma_best_before_zero(s, m, source, s.len() as int, j);
    }
}

/// The best legal move for `source`, preferring a foundation (auto-move).
pub fn auto_target(state: &GameState, source: Source) -> (r: Option<Move>)
    requires
        run_in_range(state@, source),
    ensures
        r == auto_spec(state@, source),
        source == Source::Waste && (exists|f: usize|
            #[trigger] legal_moves_spec(state@).contains(Move::WasteToFoundation { foundation: f }))
            ==> (r matches Some(mv) && mv is WasteToFoundation),
        source is TableauRun && source->index + 1 == state@.tableau[source->col as int].len() && (exists|
            f: usize,
        | #[trigger] legal_moves_spec(state@).contains(
            Move::TableauToFoundation { column: source->col, foundation: f },
        )) ==> (r matches Some(mv) && (mv matches Move::TableauToFoundation { column, .. } && column
            == source->col)),
{
    proof {
        lemma_auto_prefers_foundation(state@, source);
    }
    let legal = legal_moves(state);
    let ghost s = legal@;
    let ghost m = state@;
    proof {
        state.lemma_has_all_piles();
    }
    let mut best: Option<(u8, Move)> = None;
    let mut i: usize = 0;
    while i < legal.len()
        invariant
            s == legal@,
            s == legal_moves_spec(m),
            m == state@,
            m.tableau.len() == 7,
            crate::model::laws::has_all_piles(m),
            run_in_range(m, source),
            i <= s.len(),
            best == best_before(s, m, source, i as int),
        decreases s.len() - i,
    {
        let mv = legal[i];
        let p: Option<u8> = match (source, mv) {
            (Source::Waste, Move::WasteToFoundation { .. }) => Some(0),
            (Source::Waste, Move::WasteToTableau { .. }) => Some(1),
            (Source::Foundation(f), Move::FoundationToTableau { foundation, .. }) => {
                if foundation == f {
                    Some(2)
                } else {
                    None
                }
            },
            (Source::TableauRun { col, index }, Move::TableauToFoundation { column, .. }) => {
                if column == col && col < 7 && index < usize::MAX && index + 1 == state.column(col).len() {
                    Some(0)
                } else {
                    None
                }
            },
            (Source::TableauRun { col, index }, Move::TableauToTableau { from, count, .. }) => {
                if from == col && col < 7 && count == state.column(col).len() - index {
                    Some(1)
                } else {
                    None
                }
            },
            _ => None,
        };
        proof {
            // A legal move names real piles.
            assert(s.contains(mv)) by {
                assert(s[i as int] == mv);
            }
            crate::model::laws::lemma_legal_moves_are_exactly_applicable(m, mv);
        }
        assert(p == priority(m, source, mv));
        match p {
            Some(q) => {
                match best {
                    None => {
                        best = Some((q, mv));
                    },
                    Some((b, _)) => {
                        if q < b {
                            best = Some((q, mv));
                        }
                    },
                }
            },
            None => {},
        }
        i = i + 1;
    }
    match best {
        Some((_, mv)) => Some(mv),
        None => None,
    }
}

/// The pile a source occupies, and how many of its cards are in flight (for
/// hiding them while they snap back).
pub fn source_pile(source: Source, count: usize) -> (r: (Pile, usize))
    ensures
        r == match source {
            Source::TableauRun { col, .. } => (Pile::Tableau(col), count),
            Source::Waste => (Pile::Waste, 1usize),
            Source::Foundation(i) => (Pile::Foundation(i), 1usize),
        },
{
    match source {
        Source::TableauRun { col, .. } => (Pile::Tableau(col), count),
        Source::Waste => (Pile::Waste, 1),
        Source::Foundation(i) => (Pile::Foundation(i), 1),
    }
}

/// The cards a queued move picks up, as a source: the waste, a foundation, or
/// the run at the top of a tableau column (its last `count` cards, the whole
/// column when it holds fewer); `Draw` and `Recycle` pick up nothing.
pub open spec fn queued_source_spec(m: GameModel, mv: Move) -> Option<Source> {
    match mv {
        Move::WasteToFoundation { .. } | Move::WasteToTableau { .. } => Some(Source::Waste),
        Move::FoundationToTableau { foundation, .. } => Some(Source::Foundation(foundation)),
        Move::TableauToFoundation { column, .. } => Some(
            Source::TableauRun {
                col: column,
                index: if m.tableau[column as int].len() >= 1 {
                    (m.tableau[column as int].len() - 1) as usize
                } else {
                    0
                },
            },
        ),
        Move::TableauToTableau { from, count, .. } => Some(
            Source::TableauRun {
                col: from,
                index: if m.tableau[from as int].len() >= count {
                    (m.tableau[from as int].len() - count) as usize
                } else {
                    0
                },
            },
        ),
        Move::Draw | Move::Recycle => None,
    }
}

/// The source a queued (played-back) move picks its cards up from, for
/// animating them out of it.
pub fn queued_source(state: &GameState, mv: &Move) -> (r: Option<Source>)
    requires
        mv matches Move::TableauToFoundation { column, .. } ==> column < 7,
        mv matches Move::TableauToTableau { from, .. } ==> from < 7,
    ensures
        r == queued_source_spec(state@, *mv),
{
    match *mv {
        Move::WasteToFoundation { .. } | Move::WasteToTableau { .. } => Some(Source::Waste),
        Move::FoundationToTableau { foundation, .. } => Some(Source::Foundation(foundation)),
        Move::TableauToFoundation { column, .. } => Some(
            Source::TableauRun { col: column, index: state.column(column).len().saturating_sub(1) },
        ),
        Move::TableauToTableau { from, count, .. } => Some(
            Source::TableauRun { col: from, index: state.column(from).len().saturating_sub(count) },
        ),
        Move::Draw | Move::Recycle => None,
    }
}

} // verus!
