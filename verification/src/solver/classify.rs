//! Move classification: the no-op reduction and the optional, off-by-default
//! equivalence reduction.
use vstd::prelude::*;

use crate::model::card::{card_color, rank_value, Card, Color};
use crate::model::moves::Move;
use crate::model::pile::seq_top;
use crate::model::rules::legal_moves;
use crate::model::rules_spec::{legal_moves_spec, move_in_range};
use crate::model::state::{GameModel, GameState};
use crate::solver::heuristics::all_in_range;

verus! {

/// Whether two hosts are interchangeable: both absent (empty columns), or two
/// cards of the same rank and color.
pub open spec fn interchangeable(a: Option<Card>, b: Option<Card>) -> bool {
    match (a, b) {
        (None, None) => true,
        (Some(x), Some(y)) => x.rank == y.rank && card_color(x) == card_color(y),
        _ => false,
    }
}

/// The pre-move half of the no-op test: the source column of a
/// tableau-to-tableau move that reveals no face-down card and moves its run
/// from a host interchangeable with the destination's top; `None` otherwise.
pub open spec fn no_op_source(m: GameModel, mv: Move) -> Option<usize> {
    match mv {
        Move::TableauToTableau { from, to, count } => {
            let cards = m.tableau[from as int];
            let n = cards.len();
            let beneath: Option<Card> = if n > count {
                Some(cards[n - count - 1])
            } else {
                None
            };
            if beneath matches Some(c) && !c.face_up {
                None
            } else if interchangeable(beneath, seq_top(m.tableau[to as int])) {
                Some(from)
            } else {
                None
            }
        },
        _ => None,
    }
}

/// Whether a legal move starts from tableau column `col`.
pub open spec fn moves_from_column(mv: Move, col: int) -> bool {
    match mv {
        Move::TableauToFoundation { column, .. } => column == col,
        Move::TableauToTableau { from, .. } => from == col,
        _ => false,
    }
}

/// Whether any legal move in `m` originates from tableau column `col`.
pub open spec fn column_can_move(m: GameModel, col: int) -> bool {
    exists|i: int|
        0 <= i < legal_moves_spec(m).len() && moves_from_column(#[trigger] legal_moves_spec(m)[i], col)
}

/// Whether `mv` from `pre` to `child` is a no-op: a tableau-to-tableau move
/// that reveals nothing, lands on an interchangeable host, and leaves the
/// source column empty or unable to move.
pub open spec fn no_op_spec(pre: GameModel, mv: Move, child: GameModel) -> bool {
    match no_op_source(pre, mv) {
        Some(from) => child.tableau[from as int].len() == 0 || !column_can_move(child, from as int),
        None => false,
    }
}

/// Whether applying `mv` to `pre` (producing `child`) is a **no-op**: a
/// tableau→tableau move that reveals no face-down card, lands on an
/// interchangeable host, and leaves the exposed source card with no legal move.
/// Such a move only shuffles cards of one rank and color among their slots;
/// the search skips it.
///
/// Draws, recycles, foundation-touching moves, and card-revealing moves are
/// never no-ops.
pub fn is_no_op(pre: &GameState, mv: Move, child: &GameState) -> (b: bool)
    requires
        mv matches Move::TableauToTableau { from, to, .. } ==> from < 7 && to < 7,
    ensures
        b == no_op_spec(pre@, mv, child@),
{
    match no_op_structural(pre, mv) {
        Some(from) => child.column(from).is_empty() || !column_has_legal_move(child, from),
        None => false,
    }
}

/// The pre-move (structural) half of the no-op test, for make/unmake callers:
/// returns the source column to re-check *after* applying the move when `mv` is
/// a tableau→tableau move that reveals no face-down card and lands on an
/// interchangeable host; otherwise `None` (never a no-op). The caller completes
/// the test by confirming the exposed source card has no legal move.
pub fn no_op_structural(pre: &GameState, mv: Move) -> (r: Option<usize>)
    requires
        mv matches Move::TableauToTableau { from, to, .. } ==> from < 7 && to < 7,
    ensures
        r == no_op_source(pre@, mv),
        r matches Some(c) ==> c < 7,
{
    let (from, to, count) = match mv {
        Move::TableauToTableau { from, to, count } => (from, to, count),
        _ => {
            return None;
        },
    };
    let cards = pre.column(from).cards();
    let n = cards.len();
    let card_beneath = if n > count {
        Some(cards[n - count - 1])
    } else {
        None
    };
    if let Some(beneath) = card_beneath {
        if !beneath.face_up {
            return None;
        }
    }
    let host_to = pre.column(to).top();
    let same_host = match (card_beneath, host_to) {
        (None, None) => true,
        (Some(a), Some(c)) => a.rank == c.rank && a.color() == c.color(),
        _ => false,
    };
    if same_host {
        Some(from)
    } else {
        None
    }
}

/// Whether any legal move in `state` originates from tableau column `col`.
pub fn column_has_legal_move(state: &GameState, col: usize) -> (b: bool)
    ensures
        b == column_can_move(state@, col as int),
{
    let moves = legal_moves(state);
    let mut i: usize = 0;
    while i < moves.len()
        invariant
            i <= moves@.len(),
            moves@ == legal_moves_spec(state@),
            forall|j: int| 0 <= j < i ==> !moves_from_column(#[trigger] moves@[j], col as int),
        decreases moves@.len() - i,
    {
        let hit = match moves[i] {
            Move::TableauToFoundation { column, .. } => column == col,
            Move::TableauToTableau { from, .. } => from == col,
            _ => false,
        };
        if hit {
            assert(moves_from_column(legal_moves_spec(state@)[i as int], col as int));
            return true;
        }
        i = i + 1;
    }
    false
}

/// The host a waste-to-tableau move lands on, as its rank and color, when the
/// target column is not empty.
pub open spec fn host_key(m: GameModel, column: usize) -> Option<(u8, Color)> {
    match seq_top(m.tableau[column as int]) {
        Some(c) => Some((rank_value(c.rank) as u8, card_color(c))),
        None => None,
    }
}

/// For a waste-to-tableau move, the host it lands on (none for an empty
/// column); nothing for any other move.
pub open spec fn waste_build_host(m: GameModel, mv: Move) -> Option<Option<(u8, Color)>> {
    match mv {
        Move::WasteToTableau { column } => Some(host_key(m, column)),
        _ => None,
    }
}

/// Whether one of the first `i` moves is a waste-to-tableau move onto host `h`.
pub open spec fn host_seen(m: GameModel, moves: Seq<Move>, i: int, h: Option<(u8, Color)>) -> bool {
    exists|j: int| 0 <= j < i && #[trigger] waste_build_host(m, moves[j]) == Some(h)
}

/// Whether the `i`-th of `moves` survives equivalence pruning: every move but a
/// waste-to-tableau move does; a waste-to-tableau move does when no earlier
/// one landed on an equivalent host (another empty column, or a card of the
/// same rank and color).
pub open spec fn equivalence_keeps(m: GameModel, moves: Seq<Move>, i: int) -> bool {
    match waste_build_host(m, moves[i]) {
        Some(h) => !host_seen(m, moves, i, h),
        None => true,
    }
}

/// The first `n` moves after equivalence pruning, in order.
pub open spec fn equivalence_pruned(m: GameModel, moves: Seq<Move>, n: int) -> Seq<Move>
    decreases n,
{
    if n <= 0 {
        Seq::empty()
    } else if equivalence_keeps(m, moves, n - 1) {
        equivalence_pruned(m, moves, n - 1).push(moves[n - 1])
    } else {
        equivalence_pruned(m, moves, n - 1)
    }
}

/// The host key of the column, computed.
fn host_of(state: &GameState, column: usize) -> (k: Option<(u8, Color)>)
    requires
        column < 7,
    ensures
        k == host_key(state@, column),
{
    match state.column(column).top() {
        Some(c) => Some((c.rank.value(), c.color())),
        None => None,
    }
}

/// Whether `h` is among `hosts`.
fn contains_host(hosts: &Vec<(u8, Color)>, h: (u8, Color)) -> (b: bool)
    ensures
        b == exists|k: int| 0 <= k < hosts@.len() && #[trigger] hosts@[k] == h,
{
    let mut k: usize = 0;
    while k < hosts.len()
        invariant
            k <= hosts@.len(),
            forall|j: int| 0 <= j < k ==> #[trigger] hosts@[j] != h,
        decreases hosts@.len() - k,
    {
        if hosts[k].0 == h.0 && hosts[k].1 == h.1 {
            assert(hosts@[k as int] == h);
            return true;
        }
        k = k + 1;
    }
    false
}

/// **Experimental, off by default.** Collapse equivalent destinations for the
/// waste's top card: if it has several legal tableau destinations whose hosts
/// are interchangeable (multiple empty columns, or hosts of the same rank and
/// color), keep only the first. Soundness is unproven — validate before relying
/// on it.
pub fn apply_equivalence_pruning(state: &GameState, moves: Vec<Move>) -> (r: Vec<Move>)
    requires
        forall|i: int|
            0 <= i < moves@.len() ==> (#[trigger] moves@[i] matches Move::WasteToTableau { column } ==> column
                < 7),
    ensures
        r@ == equivalence_pruned(state@, moves@, moves@.len() as int),
{
    let ghost m = state@;
    let mut kept_empty = false;
    let mut kept_hosts: Vec<(u8, Color)> = Vec::new();
    let mut out: Vec<Move> = Vec::new();
    let mut i: usize = 0;
    while i < moves.len()
        invariant
            i <= moves@.len(),
            m == state@,
            forall|j: int|
                0 <= j < moves@.len() ==> (#[trigger] moves@[j] matches Move::WasteToTableau { column }
                    ==> column < 7),
            out@ == equivalence_pruned(m, moves@, i as int),
            kept_empty == host_seen(m, moves@, i as int, None),
            forall|h: (u8, Color)|
                (exists|k: int| 0 <= k < kept_hosts@.len() && #[trigger] kept_hosts@[k] == h)
                    <==> #[trigger] host_seen(m, moves@, i as int, Some(h)),
        decreases moves@.len() - i,
    {
        let mv = moves[i];
        assert(moves@[i as int] matches Move::WasteToTableau { column } ==> column < 7);
        let ghost old_hosts = kept_hosts@;
        let keep = match mv {
            Move::WasteToTableau { column } => match host_of(state, column) {
                None => {
                    if kept_empty {
                        false
                    } else {
                        kept_empty = true;
                        true
                    }
                },
                Some(h) => {
                    if contains_host(&kept_hosts, h) {
                        false
                    } else {
                        kept_hosts.push(h);
                        true
                    }
                },
            },
            _ => true,
        };
        proof {
            let n = i as int;
            assert(keep == equivalence_keeps(m, moves@, n));
            assert forall|h: Option<(u8, Color)>|
                #![trigger host_seen(m, moves@, n + 1, h)]
                host_seen(m, moves@, n + 1, h) == (host_seen(m, moves@, n, h) || waste_build_host(
                    m,
                    moves@[n],
                ) == Some(h)) by {
                if host_seen(m, moves@, n + 1, h) {
                    let j = choose|j: int|
                        0 <= j < n + 1 && #[trigger] waste_build_host(m, moves@[j]) == Some(h);
                    if j < n {
                        assert(host_seen(m, moves@, n, h));
                    }
                }
            }
            assert forall|h: (u8, Color)|
                (exists|k: int| 0 <= k < kept_hosts@.len() && #[trigger] kept_hosts@[k] == h)
                    <==> #[trigger] host_seen(m, moves@, n + 1, Some(h)) by {
                assert(host_seen(m, moves@, n + 1, Some(h)) == (host_seen(m, moves@, n, Some(h))
                    || waste_build_host(m, moves@[n]) == Some(Some(h))));
                assert((exists|k: int| 0 <= k < old_hosts.len() && #[trigger] old_hosts[k] == h)
                    <==> host_seen(m, moves@, n, Some(h)));
                if waste_build_host(m, moves@[n]) == Some(Some(h)) {
                    if kept_hosts@.len() > old_hosts.len() {
                        assert(kept_hosts@[old_hosts.len() as int] == h);
                    }
                }
                if exists|k: int| 0 <= k < old_hosts.len() && #[trigger] old_hosts[k] == h {
                    let k = choose|k: int| 0 <= k < old_hosts.len() && #[trigger] old_hosts[k] == h;
                    assert(kept_hosts@[k] == h);
                }
                if exists|k: int| 0 <= k < kept_hosts@.len() && #[trigger] kept_hosts@[k] == h {
                    let k = choose|k: int|
                        0 <= k < kept_hosts@.len() && #[trigger] kept_hosts@[k] == h;
                    if k < old_hosts.len() {
                        assert(old_hosts[k] == h);
                    }
                }
            }
            assert(host_seen(m, moves@, n + 1, None) == (host_seen(m, moves@, n, None)
                || waste_build_host(m, moves@[n]) == Some(None::<(u8, Color)>)));
        }
        if keep {
            out.push(mv);
        }
        i = i + 1;
    }
    out
}

} // verus!
