//! Search heuristics: forced foundation auto-moves of cards that count as
//! safe, move ordering, and empty-column symmetry pruning.
use vstd::prelude::*;

use crate::model::card::{card_color, rank_value, Card, Color, Suit};
use crate::model::moves::Move;
use crate::model::pile::{foundation_suit, seq_top};
use crate::model::rules_spec::move_in_range;
use crate::model::state::{GameModel, GameState};

verus! {

/// The top rank on the first foundation, from slot `i` on, that holds `suit`
/// (0 when no such foundation is found).
pub open spec fn suit_top_rank_from(fs: Seq<Seq<Card>>, suit: Suit, i: int) -> nat
    decreases fs.len() - i,
{
    if i >= fs.len() {
        0
    } else if foundation_suit(fs[i]) == Some(suit) {
        rank_value(fs[i].last().rank)
    } else {
        suit_top_rank_from(fs, suit, i + 1)
    }
}

/// The top rank on `suit`'s foundation, or 0 if no foundation holds the suit.
pub open spec fn foundation_top_rank(m: GameModel, suit: Suit) -> nat {
    suit_top_rank_from(m.foundations, suit, 0)
}

/// The top rank on `suit`'s foundation, or 0 if empty.
pub fn foundation_rank(state: &GameState, suit: Suit) -> (r: u8)
    ensures
        r == foundation_top_rank(state@, suit),
        r <= 13,
{
    proof {
        state.lemma_pile_counts();
    }
    let ghost fs = state@.foundations;
    let mut i: usize = 0;
    while i < 4
        invariant
            i <= 4,
            fs == state@.foundations,
            fs.len() == 4,
            suit_top_rank_from(fs, suit, 0) == suit_top_rank_from(fs, suit, i as int),
        decreases 4 - i,
    {
        let f = state.foundation(i);
        if f.suit() == Some(suit) {
            match f.top() {
                Some(c) => {
                    return c.rank.value();
                },
                None => {},
            }
        }
        i = i + 1;
    }
    0
}

/// The two suits of the color opposite to `c`.
pub open spec fn opposite_suits(c: Color) -> (Suit, Suit) {
    match c {
        Color::Red => (Suit::Clubs, Suit::Spades),
        Color::Black => (Suit::Hearts, Suit::Diamonds),
    }
}

/// Whether `card` counts as **safe** to send to its foundation: rank at most 2,
/// or both opposite-color foundations are at least at rank (card rank − 1).
/// Such a card hosts only cards already on their foundations; but those can
/// come back down, so forcing it up can lose a win that needs it as a host.
pub open spec fn safe_card(m: GameModel, card: Card) -> bool {
    let r = rank_value(card.rank);
    let (a, b) = opposite_suits(card_color(card));
    let ra = foundation_top_rank(m, a);
    let rb = foundation_top_rank(m, b);
    let lowest = if ra <= rb {
        ra
    } else {
        rb
    };
    r <= 2 || lowest + 1 >= r
}

/// The card a foundation move would play: the waste top for a waste move, the
/// column top for a tableau move; none for any other move.
pub open spec fn foundation_card_of(m: GameModel, mv: Move) -> Option<Card> {
    match mv {
        Move::WasteToFoundation { .. } => seq_top(m.waste),
        Move::TableauToFoundation { column, .. } => seq_top(m.tableau[column as int]),
        _ => None,
    }
}

/// Whether `mv` plays a safe card to a foundation.
pub open spec fn safe_move(m: GameModel, mv: Move) -> bool {
    match foundation_card_of(m, mv) {
        Some(c) => safe_card(m, c),
        None => false,
    }
}

/// Every move of `moves` names piles that exist.
pub open spec fn all_in_range(moves: Seq<Move>) -> bool {
    forall|i: int| 0 <= i < moves.len() ==> move_in_range(#[trigger] moves[i])
}

/// The two suits of the opposite color.
fn opposite_color_suits(color: Color) -> (r: (Suit, Suit))
    ensures
        r == opposite_suits(color),
{
    match color {
        Color::Red => (Suit::Clubs, Suit::Spades),
        Color::Black => (Suit::Hearts, Suit::Diamonds),
    }
}

/// Whether the card is safe to send to its foundation.
pub fn is_safe(state: &GameState, card: Card) -> (b: bool)
    ensures
        b == safe_card(state@, card),
{
    let r = card.rank.value();
    if r <= 2 {
        return true;
    }
    let (a, b) = opposite_color_suits(card.color());
    let ra = foundation_rank(state, a);
    let rb = foundation_rank(state, b);
    let lowest = if ra <= rb {
        ra
    } else {
        rb
    };
    lowest + 1 >= r
}

/// A safe foundation move among `moves` to force at this node, if any exists:
/// the first one in order. Takes the already-computed legal moves so the caller
/// needn't recompute them.
pub fn safe_move_in(state: &GameState, moves: &[Move]) -> (r: Option<Move>)
    requires
        forall|i: int|
            0 <= i < moves@.len() ==> (#[trigger] moves@[i] matches Move::TableauToFoundation { column, .. }
                ==> column < 7),
    ensures
        match r {
            Some(mv) => exists|i: int|
                0 <= i < moves@.len() && moves@[i] == mv && safe_move(state@, moves@[i]) && forall|
                    j: int,
                | 0 <= j < i ==> !safe_move(state@, #[trigger] moves@[j]),
            None => forall|i: int| 0 <= i < moves@.len() ==> !safe_move(state@, #[trigger] moves@[i]),
        },
{
    let mut i: usize = 0;
    while i < moves.len()
        invariant
            i <= moves@.len(),
            forall|j: int|
                0 <= j < moves@.len() ==> (#[trigger] moves@[j] matches Move::TableauToFoundation {
                    column,
                    ..
                } ==> column < 7),
            forall|j: int| 0 <= j < i ==> !safe_move(state@, #[trigger] moves@[j]),
        decreases moves@.len() - i,
    {
        let mv = moves[i];
        assert(moves@[i as int] matches Move::TableauToFoundation { column, .. } ==> column < 7);
        let card = match mv {
            Move::WasteToFoundation { .. } => state.waste_pile().top(),
            Move::TableauToFoundation { column, .. } => state.column(column).top(),
            _ => None,
        };
        let safe = match card {
            Some(c) => is_safe(state, c),
            None => false,
        };
        if safe {
            return Some(mv);
        }
        i = i + 1;
    }
    None
}

/// Whether taking `count` cards off `s` leaves a face-down card on top.
pub open spec fn reveals_under(s: Seq<Card>, count: int) -> bool {
    s.len() > count && !s[s.len() - count - 1].face_up
}

/// Whether `mv` exposes (reveals) a face-down tableau card.
pub open spec fn revealing(m: GameModel, mv: Move) -> bool {
    match mv {
        Move::TableauToTableau { from, count, .. } => reveals_under(
            m.tableau[from as int],
            count as int,
        ),
        Move::TableauToFoundation { column, .. } => reveals_under(m.tableau[column as int], 1),
        _ => false,
    }
}

/// The source tableau column length of a move (0 if not tableau-sourced),
/// capped at `i32::MAX`.
pub open spec fn source_len(m: GameModel, mv: Move) -> int {
    let n: int = match mv {
        Move::TableauToTableau { from, .. } => m.tableau[from as int].len() as int,
        Move::TableauToFoundation { column, .. } => m.tableau[column as int].len() as int,
        _ => 0,
    };
    if n > i32::MAX {
        i32::MAX as int
    } else {
        n
    }
}

/// The ordering key of a candidate move (lower sorts first): revealing moves
/// first (ties broken by source column height), then productive moves, then a
/// stock move (after another stock move it sorts later), and a
/// foundation-to-tableau move last.
pub open spec fn priority_spec(m: GameModel, mv: Move, prev: Option<Move>, dig_larger_first: bool) -> (
    u8,
    i32,
) {
    if revealing(m, mv) {
        let len = source_len(m, mv);
        (0, if dig_larger_first {
            (-len) as i32
        } else {
            len as i32
        })
    } else {
        match mv {
            Move::FoundationToTableau { .. } => (4, 0),
            Move::Draw | Move::Recycle => (
                if prev == Some(Move::Draw) || prev == Some(Move::Recycle) {
                    3
                } else {
                    2
                },
                0,
            ),
            _ => (1, 0),
        }
    }
}

/// Whether `mv` exposes (reveals) a face-down tableau card.
fn reveals_face_down(state: &GameState, mv: Move) -> (b: bool)
    requires
        mv matches Move::TableauToTableau { from, .. } ==> from < 7,
        mv matches Move::TableauToFoundation { column, .. } ==> column < 7,
    ensures
        b == revealing(state@, mv),
{
    let (col, count) = match mv {
        Move::TableauToTableau { from, count, .. } => (from, count),
        Move::TableauToFoundation { column, .. } => (column, 1),
        _ => {
            return false;
        },
    };
    let cards = state.column(col).cards();
    let n = cards.len();
    n > count && !cards[n - count - 1].face_up
}

/// The source tableau column length for a move (0 if not tableau-sourced),
/// capped at `i32::MAX`.
fn source_length(state: &GameState, mv: Move) -> (n: i32)
    requires
        mv matches Move::TableauToTableau { from, .. } ==> from < 7,
        mv matches Move::TableauToFoundation { column, .. } ==> column < 7,
    ensures
        n == source_len(state@, mv),
        n >= 0,
{
    let len: usize = match mv {
        Move::TableauToTableau { from, .. } => state.column(from).len(),
        Move::TableauToFoundation { column, .. } => state.column(column).len(),
        _ => 0,
    };
    if len > 0x7fff_ffff {
        0x7fff_ffff
    } else {
        len as i32
    }
}

/// The ordering key for a candidate move (lower sorts first). `prev` is the move
/// that produced the current state (for the consecutive-draw penalty).
pub fn move_priority(state: &GameState, mv: Move, prev: Option<Move>, dig_larger_first: bool) -> (r:
    (u8, i32))
    requires
        mv matches Move::TableauToTableau { from, .. } ==> from < 7,
        mv matches Move::TableauToFoundation { column, .. } ==> column < 7,
    ensures
        r == priority_spec(state@, mv, prev, dig_larger_first),
{
    if reveals_face_down(state, mv) {
        let len = source_length(state, mv);
        let tie = if dig_larger_first {
            -len
        } else {
            len
        };
        return (0, tie);
    }
    match mv {
        Move::FoundationToTableau { .. } => (4, 0),
        Move::Draw | Move::Recycle => {
            let prev_was_draw = match prev {
                Some(Move::Draw) | Some(Move::Recycle) => true,
                _ => false,
            };
            (
                if prev_was_draw {
                    3
                } else {
                    2
                },
                0,
            )
        },
        _ => (1, 0),
    }
}

/// The number of empty columns among the first `n`.
pub open spec fn empty_count(m: GameModel, n: int) -> nat
    decreases n,
{
    if n <= 0 {
        0
    } else {
        empty_count(m, n - 1) + if m.tableau[n - 1].len() == 0 {
            1nat
        } else {
            0nat
        }
    }
}

/// The first empty column from `c` on (7 when there is none).
pub open spec fn first_empty_from(m: GameModel, c: int) -> int
    decreases 7 - c,
{
    if c >= 7 {
        7
    } else if m.tableau[c].len() == 0 {
        c
    } else {
        first_empty_from(m, c + 1)
    }
}

/// The tableau column a move lands on, if it lands on one from the waste or
/// another column.
pub open spec fn build_target(mv: Move) -> Option<usize> {
    match mv {
        Move::WasteToTableau { column } => Some(column),
        Move::TableauToTableau { to, .. } => Some(to),
        _ => None,
    }
}

/// Whether `mv` targets an empty column other than `keep`.
pub open spec fn redundant_empty_target(m: GameModel, keep: int, mv: Move) -> bool {
    match build_target(mv) {
        Some(c) => m.tableau[c as int].len() == 0 && c != keep,
        None => false,
    }
}

/// The moves kept by empty-column symmetry: with at least two empty columns,
/// only moves that do not target an empty column other than the first.
pub open spec fn symmetric_moves(m: GameModel, moves: Seq<Move>) -> Seq<Move> {
    if empty_count(m, 7) < 2 {
        moves
    } else {
        moves.filter(|mv: Move| !redundant_empty_target(m, first_empty_from(m, 0), mv))
    }
}

/// Drop symmetric King-to-empty moves: when at least two columns are empty, keep
/// only the move targeting the first empty column (empty columns are
/// interchangeable).
pub fn apply_empty_column_symmetry(state: &GameState, moves: Vec<Move>) -> (r: Vec<Move>)
    requires
        forall|i: int|
            0 <= i < moves@.len() ==> (build_target(#[trigger] moves@[i]) matches Some(c) ==> c < 7),
    ensures
        r@ == symmetric_moves(state@, moves@),
{
    proof {
        state.lemma_pile_counts();
    }
    let mut count: usize = 0;
    let mut first: usize = 7;
    let mut c: usize = 7;
    while c > 0
        invariant
            c <= 7,
            state@.tableau.len() == 7,
            count + empty_count(state@, c as int) == empty_count(state@, 7),
            first == first_empty_from(state@, c as int),
            count <= 7 - c,
        decreases c,
    {
        c = c - 1;
        if state.column(c).is_empty() {
            count = count + 1;
            first = c;
        }
    }
    if count < 2 {
        return moves;
    }
    let keep = first;
    let ghost pred = |mv: Move| !redundant_empty_target(state@, keep as int, mv);
    let mut out: Vec<Move> = Vec::new();
    let mut i: usize = 0;
    while i < moves.len()
        invariant
            i <= moves@.len(),
            forall|j: int|
                0 <= j < moves@.len() ==> (build_target(#[trigger] moves@[j]) matches Some(c) ==> c < 7),
            state@.tableau.len() == 7,
            pred == (|mv: Move| !redundant_empty_target(state@, keep as int, mv)),
            out@ == moves@.subrange(0, i as int).filter(pred),
        decreases moves@.len() - i,
    {
        let mv = moves[i];
        assert(build_target(moves@[i as int]) matches Some(c) ==> c < 7);
        let dest = match mv {
            Move::WasteToTableau { column } => Some(column),
            Move::TableauToTableau { to, .. } => Some(to),
            _ => None,
        };
        let redundant = match dest {
            Some(c) => state.column(c).is_empty() && c != keep,
            None => false,
        };
        proof {
            reveal_with_fuel(Seq::filter, 1);
            assert(moves@.subrange(0, i + 1).drop_last() =~= moves@.subrange(0, i as int));
        }
        if !redundant {
            out.push(mv);
        }
        i = i + 1;
    }
    assert(moves@.subrange(0, moves@.len() as int) =~= moves@);
    out
}

} // verus!
