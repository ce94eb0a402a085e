//! Key → pile mapping and pure move-resolution helpers.
//!
//! Everything here is pure: it reads a `GameState` (via `legal_moves`) and
//! returns candidate `Move`s. The rules engine remains the single source of
//! truth for legality — these helpers only ever return moves drawn from
//! `legal_moves`.
use vstd::prelude::*;

use crate::cli::Pile;
use crate::model::moves::Move;
use crate::model::rules::legal_moves;
use crate::model::rules_spec::legal_moves_spec;
use crate::model::state::{GameModel, GameState};

verus! {

/// The pile a key addresses: `1`–`7` the tableau columns 0–6; `8 9 0 -` the
/// foundations 0–3; space the stock/waste corner.
pub open spec fn pile_of_key(c: char) -> Option<Pile> {
    if '1' <= c <= '7' {
        Some(Pile::Tableau(((c as u32) - ('1' as u32)) as usize))
    } else if c == '8' {
        Some(Pile::Foundation(0))
    } else if c == '9' {
        Some(Pile::Foundation(1))
    } else if c == '0' {
        Some(Pile::Foundation(2))
    } else if c == '-' {
        Some(Pile::Foundation(3))
    } else if c == ' ' {
        Some(Pile::StockWaste)
    } else {
        None
    }
}

/// Map a character to the pile it addresses, if any.
///
/// `1`–`7` → tableau columns 0–6; `8 9 0 -` → foundations 0–3; space → the
/// stock/waste corner.
pub fn key_to_pile(c: char) -> (p: Option<Pile>)
    ensures
        p == pile_of_key(c),
{
    if '1' <= c && c <= '7' {
        Some(Pile::Tableau((c as u32 - '1' as u32) as usize))
    } else if c == '8' {
        Some(Pile::Foundation(0))
    } else if c == '9' {
        Some(Pile::Foundation(1))
    } else if c == '0' {
        Some(Pile::Foundation(2))
    } else if c == '-' {
        Some(Pile::Foundation(3))
    } else if c == ' ' {
        Some(Pile::StockWaste)
    } else {
        None
    }
}

/// Whether `mv` is the move a single-card selection from `source` to `target`
/// asks for (any foundation key routes to the card's foundation).
pub open spec fn selects(source: Pile, target: Pile, mv: Move) -> bool {
    match (source, target) {
        (Pile::StockWaste, Pile::Foundation(_)) => mv is WasteToFoundation,
        (Pile::StockWaste, Pile::Tableau(k)) => mv == Move::WasteToTableau { column: k },
        (Pile::Tableau(i), Pile::Foundation(_)) => mv matches Move::TableauToFoundation {
            column,
            ..
        } && column == i,
        (Pile::Foundation(i), Pile::Tableau(k)) => mv == Move::FoundationToTableau {
            foundation: i,
            column: k,
        },
        _ => false,
    }
}

/// The first move of `s` from position `i` on that a selection from `source`
/// to `target` asks for.
pub open spec fn first_selected(s: Seq<Move>, source: Pile, target: Pile, i: int) -> Option<Move>
    decreases s.len() - i,
{
    if i >= s.len() {
        None
    } else if selects(source, target, s[i]) {
        Some(s[i])
    } else {
        first_selected(s, source, target, i + 1)
    }
}

/// The run lengths of the first `n` moves of `s` that move a run from column
/// `from` to column `to`, in order.
pub open spec fn run_counts(s: Seq<Move>, from: usize, to: usize, n: int) -> Seq<usize>
    decreases n,
{
    if n <= 0 {
        Seq::empty()
    } else {
        let rest = run_counts(s, from, to, n - 1);
        match s[n - 1] {
            Move::TableauToTableau { from: f, to: t, count } => if f == from && t == to {
                rest.push(count)
            } else {
                rest
            },
            _ => rest,
        }
    }
}

/// `r` is `src` rearranged by `perm` into ascending order (ties in their
/// original order), so it holds the same values, sorted.
pub open spec fn ascending_rearrangement(src: Seq<usize>, perm: Seq<int>, r: Seq<usize>) -> bool {
    &&& perm.len() == src.len()
    &&& r.len() == src.len()
    &&& forall|k: int|
        0 <= k < r.len() ==> 0 <= #[trigger] perm[k] < src.len() && r[k] == src[perm[k]]
    &&& forall|k: int, l: int|
        0 <= k < l < r.len() ==> src[#[trigger] perm[k]] < src[#[trigger] perm[l]] || (src[perm[k]]
            == src[perm[l]] && perm[k] < perm[l])
}

/// More than one run length is legal for a tableau→tableau move; the caller
/// should prompt the player to pick a `count`.
#[derive(Debug, Clone, PartialEq, Eq)]
pub struct RunAmbiguity {
    pub from: usize,
    pub to: usize,
    pub counts: Vec<usize>,
}

/// The values of `v` in ascending order.
fn sort_counts(v: Vec<usize>) -> (r: Vec<usize>)
    ensures
        exists|perm: Seq<int>| ascending_rearrangement(v@, perm, r@),
{
    let n = v.len();
    let mut ranked: Vec<(usize, usize)> = Vec::new();
    let mut i: usize = 0;
    while i < n
        invariant
            n == v@.len(),
            i <= n,
            ranked@.len() == i,
            forall|k: int|
                0 <= k < ranked@.len() ==> (#[trigger] ranked@[k]).1 < i && ranked@[k].0 == v@[ranked@[k].1 as int],
            forall|k: int, l: int|
                0 <= k < l < ranked@.len() ==> (#[trigger] ranked@[k]).0 < (#[trigger] ranked@[l]).0
                    || (ranked@[k].0 == ranked@[l].0 && ranked@[k].1 < ranked@[l].1),
        decreases n - i,
    {
        let x = v[i];
        let mut p: usize = 0;
        while p < ranked.len() && ranked[p].0 <= x
            invariant
                p <= ranked@.len(),
                forall|k: int| 0 <= k < p ==> (#[trigger] ranked@[k]).0 <= x,
            decreases ranked@.len() - p,
        {
            p = p + 1;
        }
        let ghost old_ranked = ranked@;
        proof {
            assert forall|k: int| p <= k < old_ranked.len() implies (#[trigger] old_ranked[k]).0 > x by {
                if k > p {
                    assert(old_ranked[p as int].0 <= old_ranked[k].0);
                }
            }
        }
        ranked.insert(p, (x, i));
        proof {
            assert forall|k: int| 0 <= k < ranked@.len() implies (#[trigger] ranked@[k]).1 < i + 1
                && ranked@[k].0 == v@[ranked@[k].1 as int] by {
                if k < p {
                    assert(ranked@[k] == old_ranked[k]);
                } else if k > p {
                    assert(ranked@[k] == old_ranked[k - 1]);
                }
            }
            assert forall|k: int, l: int| 0 <= k < l < ranked@.len() implies (
            #[trigger] ranked@[k]).0 < (#[trigger] ranked@[l]).0 || (ranked@[k].0 == ranked@[l].0
                && ranked@[k].1 < ranked@[l].1) by {
                if l < p {
                    assert(ranked@[k] == old_ranked[k] && ranked@[l] == old_ranked[l]);
                } else if l == p {
                    assert(ranked@[k] == old_ranked[k]);
                } else if k > p {
                    assert(ranked@[k] == old_ranked[k - 1] && ranked@[l] == old_ranked[l - 1]);
                } else if k == p {
                    assert(ranked@[l] == old_ranked[l - 1]);
                } else {
                    assert(ranked@[k] == old_ranked[k] && ranked@[l] == old_ranked[l - 1]);
                }
            }
        }
        i = i + 1;
    }
    let mut out: Vec<usize> = Vec::new();
    let mut k: usize = 0;
    while k < n
        invariant
            n == v@.len(),
            ranked@.len() == n,
            k <= n,
            out@.len() == k,
            forall|j: int|
                0 <= j < ranked@.len() ==> (#[trigger] ranked@[j]).1 < n && ranked@[j].0 == v@[ranked@[j].1 as int],
            forall|j: int| 0 <= j < k ==> out@[j] == (#[trigger] ranked@[j]).0,
        decreases n - k,
    {
        out.push(ranked[k].0);
        k = k + 1;
    }
    let ghost perm = ranked@.map_values(|x: (usize, usize)| x.1 as int);
    proof {
        assert(ascending_rearrangement(v@, perm, out@)) by {
            assert forall|a: int, b: int| 0 <= a < b < out@.len() implies v@[#[trigger] perm[a]]
                < v@[#[trigger] perm[b]] || (v@[perm[a]] == v@[perm[b]] && perm[a] < perm[b]) by {
                assert(ranked@[a].0 < ranked@[b].0 || (ranked@[a].0 == ranked@[b].0 && ranked@[a].1
                    < ranked@[b].1));
            }
        }
    }
    out
}

/// Resolve a source→target selection into a concrete legal move, if one exists.
///
/// Handles forgiving foundation targeting (any foundation key routes to the
/// suit's foundation) by matching against `legal_moves`. For tableau→tableau it
/// returns the move only when exactly one run length is legal; when several are
/// legal it returns `Err(RunAmbiguity)` carrying the choices so the caller can
/// prompt.
pub fn resolve_move(state: &GameState, source: Pile, target: Pile) -> (r: Result<
    Option<Move>,
    RunAmbiguity,
>)
    ensures
        match (source, target) {
            (Pile::Tableau(i), Pile::Tableau(k)) => {
                let cs = run_counts(legal_moves_spec(state@), i, k, legal_moves_spec(state@).len() as int);
                match r {
                    Ok(None) => cs.len() == 0,
                    Ok(Some(mv)) => cs.len() == 1 && mv == Move::TableauToTableau {
                        from: i,
                        to: k,
                        count: cs[0],
                    },
                    Err(amb) => cs.len() > 1 && amb.from == i && amb.to == k && exists|perm: Seq<int>|
                        ascending_rearrangement(cs, perm, amb.counts@),
                }
            },
            _ => r == Ok::<Option<Move>, RunAmbiguity>(
                first_selected(legal_moves_spec(state@), source, target, 0),
            ),
        },
{
    let legal = legal_moves(state);
    let ghost s = legal@;
    assert(s == legal_moves_spec(state@));
    match (source, target) {
        (Pile::Tableau(i), Pile::Tableau(k)) => {
            let mut counts: Vec<usize> = Vec::new();
            let mut j: usize = 0;
            while j < legal.len()
                invariant
                    s == legal@,
                    j <= s.len(),
                    counts@ == run_counts(s, i, k, j as int),
                decreases s.len() - j,
            {
                match legal[j] {
                    Move::TableauToTableau { from, to, count } => {
                        if from == i && to == k {
                            counts.push(count);
                        }
                    },
                    _ => {},
                }
                j = j + 1;
            }
            let ghost cs = counts@;
            assert(cs == run_counts(legal_moves_spec(state@), i, k, legal_moves_spec(state@).len() as int));
            let counts = sort_counts(counts);
            let ghost perm = choose|perm: Seq<int>| ascending_rearrangement(cs, perm, counts@);
            assert(ascending_rearrangement(cs, perm, counts@));
            if counts.len() == 0 {
                Ok(None)
            } else if counts.len() == 1 {
                proof {
                    let perm = choose|perm: Seq<int>|
                        ascending_rearrangement(run_counts(s, i, k, s.len() as int), perm, counts@);
                    assert(perm[0] == 0);
                }
                Ok(Some(Move::TableauToTableau { from: i, to: k, count: counts[0] }))
            } else {
                let amb = RunAmbiguity { from: i, to: k, counts };
                assert(ascending_rearrangement(
                    run_counts(legal_moves_spec(state@), i, k, legal_moves_spec(state@).len() as int),
                    perm,
                    amb.counts@,
                ));
                Err(amb)
            }
        },
        _ => {
            let mut j: usize = 0;
            while j < legal.len()
                invariant
                    s == legal@,
                    s == legal_moves_spec(state@),
                    j <= s.len(),
                    first_selected(s, source, target, 0) == first_selected(s, source, target, j as int),
                    !(source matches Pile::Tableau(_) && target matches Pile::Tableau(_)),
                decreases s.len() - j,
            {
                let mv = legal[j];
                let hit = match (source, target) {
                    (Pile::StockWaste, Pile::Foundation(_)) => match mv {
                        Move::WasteToFoundation { .. } => true,
                        _ => false,
                    },
                    (Pile::StockWaste, Pile::Tableau(k)) => match mv {
                        Move::WasteToTableau { column } => column == k,
                        _ => false,
                    },
                    (Pile::Tableau(i), Pile::Foundation(_)) => match mv {
                        Move::TableauToFoundation { column, .. } => column == i,
                        _ => false,
                    },
                    (Pile::Foundation(i), Pile::Tableau(k)) => match mv {
                        Move::FoundationToTableau { foundation, column } => foundation == i
                            && column == k,
                        _ => false,
                    },
                    _ => false,
                };
                assert(hit == selects(source, target, s[j as int]));
                if hit {
                    return Ok(Some(mv));
                }
                j = j + 1;
            }
            assert(first_selected(s, source, target, j as int) == None::<Move>);
            Ok(None)
        },
    }
}

/// Whether `m` originates from `source`.
pub open spec fn from_source(source: Pile, m: Move) -> bool {
    match (source, m) {
        (Pile::StockWaste, Move::WasteToFoundation { .. }) => true,
        (Pile::StockWaste, Move::WasteToTableau { .. }) => true,
        (Pile::Tableau(i), Move::TableauToFoundation { column, .. }) => column == i,
        (Pile::Tableau(i), Move::TableauToTableau { from, .. }) => from == i,
        (Pile::Foundation(i), Move::FoundationToTableau { foundation, .. }) => foundation == i,
        _ => false,
    }
}

/// How many cards a move relocates (tableau runs move `count`; all else move 1).
pub open spec fn cards_moved_spec(m: Move) -> usize {
    match m {
        Move::TableauToTableau { count, .. } => count,
        _ => 1,
    }
}

/// Whether a move lands on a foundation.
pub open spec fn lands_on_foundation(m: Move) -> bool {
    m is WasteToFoundation || m is TableauToFoundation
}

/// The auto-assign preference: more cards first, then a foundation landing.
pub open spec fn prefers(a: Move, b: Move) -> bool {
    cards_moved_spec(a) > cards_moved_spec(b) || (cards_moved_spec(a) == cards_moved_spec(b)
        && lands_on_foundation(a) && !lands_on_foundation(b))
}

/// Whether `m` originates from `source`.
fn move_matches_source(source: Pile, m: Move) -> (b: bool)
    ensures
        b == from_source(source, m),
{
    match (source, m) {
        (Pile::StockWaste, Move::WasteToFoundation { .. }) => true,
        (Pile::StockWaste, Move::WasteToTableau { .. }) => true,
        (Pile::Tableau(i), Move::TableauToFoundation { column, .. }) => column == i,
        (Pile::Tableau(i), Move::TableauToTableau { from, .. }) => from == i,
        (Pile::Foundation(i), Move::FoundationToTableau { foundation, .. }) => foundation == i,
        _ => false,
    }
}

/// How many cards a move relocates (tableau runs move `count`; all else move 1).
pub fn cards_moved(m: Move) -> (n: usize)
    ensures
        n == cards_moved_spec(m),
{
    match m {
        Move::TableauToTableau { count, .. } => count,
        _ => 1,
    }
}

/// Whether a move lands on a foundation (used as the auto-assign tiebreaker).
pub fn to_foundation(m: Move) -> (b: bool)
    ensures
        b == lands_on_foundation(m),
{
    match m {
        Move::WasteToFoundation { .. } | Move::TableauToFoundation { .. } => true,
        _ => false,
    }
}

/// What auto-assign may pick for `source` in `m`: a legal move from it that no
/// other legal move from it is preferred to, and preferred to every later one;
/// none only when nothing is legal from it.
pub open spec fn auto_pick(m: GameModel, source: Pile, r: Option<Move>) -> bool {
    match r {
        Some(mv) => exists|i: int|
            #![trigger legal_moves_spec(m)[i]]
            0 <= i < legal_moves_spec(m).len() && legal_moves_spec(m)[i] == mv
                && from_source(source, mv) && (forall|j: int|
                0 <= j < legal_moves_spec(m).len() && from_source(
                    source,
                    #[trigger] legal_moves_spec(m)[j],
                ) ==> !prefers(legal_moves_spec(m)[j], mv)) && (forall|j: int|
                i < j < legal_moves_spec(m).len() && from_source(
                    source,
                    #[trigger] legal_moves_spec(m)[j],
                ) ==> prefers(mv, legal_moves_spec(m)[j])),
        None => forall|j: int|
            0 <= j < legal_moves_spec(m).len() ==> !from_source(
                source,
                #[trigger] legal_moves_spec(m)[j],
            ),
    }
}

/// Auto-assign sends a card to a foundation when it can: whenever a legal
/// move takes the waste's top card to a foundation, the pick for the waste is
/// a waste-to-foundation move; and whenever one takes column `c`'s top card to
/// a foundation, the pick for column `c` is a move from column `c` to a
/// foundation, or a move of a run of two or more of its cards onto another
/// column (one that relocates more cards). And it relocates the most cards it
/// can: when a run of `k` cards of column `c` can move onto another column,
/// the pick for `c` moves a run of at least `k` of them, or (for a single
/// card) sends it to a foundation.
pub proof fn lemma_auto_pick_prefers_foundation(m: GameModel, source: Pile, r: Option<Move>)
    requires
        auto_pick(m, source, r),
    ensures
        source == Pile::StockWaste && (exists|f: usize|
            #[trigger] legal_moves_spec(m).contains(Move::WasteToFoundation { foundation: f }))
            ==> (r matches Some(mv) && mv is WasteToFoundation),
        forall|c: usize, f: usize|
            source == Pile::Tableau(c) && #[trigger] legal_moves_spec(m).contains(
                Move::TableauToFoundation { column: c, foundation: f },
            ) ==> (r matches Some(mv) && ((mv matches Move::TableauToFoundation { column, .. }
                && column == c) || (mv matches Move::TableauToTableau { from, count, .. } && from
                == c && count >= 2))),
        forall|c: usize, to: usize, k: usize|
            source == Pile::Tableau(c) && #[trigger] legal_moves_spec(m).contains(
                Move::TableauToTableau { from: c, to, count: k },
            ) ==> (r matches Some(mv) && ((mv matches Move::TableauToTableau { from, count, .. }
                && from == c && count >= k) || (mv matches Move::TableauToFoundation { column, .. }
                && column == c && k <= 1))),
{
    let s = legal_moves_spec(m);
    if source == Pile::StockWaste && (exists|f: usize| #[trigger] s.contains(Move::WasteToFoundation { foundation: f })) {
        let f = choose|f: usize| #[trigger] s.contains(Move::WasteToFoundation { foundation: f });
        let j = choose|j: int| 0 <= j < s.len() && s[j] == Move::WasteToFoundation { foundation: f };
        assert(from_source(source, s[j]));
        if r is Some {
            let mv = r->Some_0;
            assert(!prefers(s[j], mv));
        }
    }
    assert forall|c: usize, f: usize|
        source == Pile::Tableau(c) && #[trigger] s.contains(Move::TableauToFoundation { column: c, foundation: f })
        implies (r matches Some(mv) && ((mv matches Move::TableauToFoundation { column, .. } && column == c)
            || (mv matches Move::TableauToTableau { from, count, .. } && from == c && count >= 2))) by {
        let j = choose|j: int| 0 <= j < s.len() && s[j] == Move::TableauToFoundation { column: c, foundation: f };
        assert(from_source(source, s[j]));
        if r is Some {
            let mv = r->Some_0;
            assert(!prefers(s[j], mv));
        }
    }
    assert forall|c: usize, to: usize, k: usize|
        source == Pile::Tableau(c) && #[trigger] s.contains(Move::TableauToTableau { from: c, to, count: k })
        implies (r matches Some(mv) && ((mv matches Move::TableauToTableau { from, count, .. } && from == c
            && count >= k) || (mv matches Move::TableauToFoundation { column, .. } && column == c && k
            <= 1))) by {
        let j = choose|j: int| 0 <= j < s.len() && s[j] == Move::TableauToTableau { from: c, to, count: k };
        assert(from_source(source, s[j]));
        if r is Some {
            let mv = r->Some_0;
            assert(!prefers(s[j], mv));
        }
    }
}

/// Choose the best legal move for `source`, greedily favoring the move that
/// relocates the most cards (largest tableau run first, down to the least);
/// ties are broken by preferring a foundation, and among equals the last listed
/// wins. Returns `None` if nothing is legal. `source` of `StockWaste` acts on the
/// waste's top card.
pub fn auto_target(state: &GameState, source: Pile) -> (r: Option<Move>)
    ensures
        auto_pick(state@, source, r),
        source == Pile::StockWaste && (exists|f: usize|
            #[trigger] legal_moves_spec(state@).contains(Move::WasteToFoundation { foundation: f }))
            ==> (r matches Some(mv) && mv is WasteToFoundation),
        forall|c: usize, f: usize|
            source == Pile::Tableau(c) && #[trigger] legal_moves_spec(state@).contains(
                Move::TableauToFoundation { column: c, foundation: f },
            ) ==> (r matches Some(mv) && ((mv matches Move::TableauToFoundation { column, .. }
                && column == c) || (mv matches Move::TableauToTableau { from, count, .. } && from
                == c && count >= 2))),
        forall|c: usize, to: usize, k: usize|
            source == Pile::Tableau(c) && #[trigger] legal_moves_spec(state@).contains(
                Move::TableauToTableau { from: c, to, count: k },
            ) ==> (r matches Some(mv) && ((mv matches Move::TableauToTableau { from, count, .. }
                && from == c && count >= k) || (mv matches Move::TableauToFoundation { column, .. }
                && column == c && k <= 1))),
{
    let legal = legal_moves(state);
    let ghost s = legal@;
    let mut best: Option<Move> = None;
    let mut best_at: usize = 0;
    let mut j: usize = 0;
    while j < legal.len()
        invariant
            s == legal@,
            s == legal_moves_spec(state@),
            j <= s.len(),
            match best {
                Some(mv) => {
                    &&& best_at < j
                    &&& s[best_at as int] == mv
                    &&& from_source(source, mv)
                    &&& forall|k: int| 0 <= k < j && from_source(source, #[trigger] s[k]) ==> !prefers(s[k], mv)
                    &&& forall|k: int| best_at < k < j && from_source(source, #[trigger] s[k]) ==> prefers(mv, s[k])
                },
                None => forall|k: int| 0 <= k < j ==> !from_source(source, #[trigger] s[k]),
            },
        decreases s.len() - j,
    {
        let mv = legal[j];
        if move_matches_source(source, mv) {
            let take = match best {
                None => true,
                Some(b) => {
                    let (n1, n2) = (cards_moved(mv), cards_moved(b));
                    n1 > n2 || (n1 == n2 && (to_foundation(mv) || !to_foundation(b)))
                },
            };
            if take {
                best = Some(mv);
                best_at = j;
            }
        }
        j = j + 1;
    }
    proof {
        assert(auto_pick(state@, source, best));
        lemma_auto_pick_prefers_foundation(state@, source, best);
    }
    best
}

} // verus!
