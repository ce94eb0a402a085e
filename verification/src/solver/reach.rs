//! What the search's unwinnable verdict covers. Two positions that differ only
//! in their score, clock and recycle count (as far as the redeal limit cares),
//! and in which foundation slot holds which suit, play alike: every move of one
//! has a move of the other leading again to alike positions, and one is won
//! exactly when the other is. Positions with the same exact key are alike, so a
//! winning line that comes back to a key can be cut short, and the lines the
//! search walks are all the lines there are.
use vstd::prelude::*;

use crate::model::card::{lemma_rank_value_inverse, rank_of_value, rank_value, suit_index, Card, Rank, Suit};
use crate::model::invariants::{
    all_cards, all_up, lemma_apply_keeps_cards, lemma_apply_keeps_well_laid, pile_ids, piles_ids, well_laid,
};
use crate::model::moves::Move;
use crate::model::pile::foundation_suit;
use crate::model::rules_spec::{apply_spec, move_in_range};
use crate::model::state::{model_is_won, GameModel};
use crate::model::suited::{foundations_ok, lemma_apply_keeps_foundations_ok, unique_cards};
use crate::solver::encode::{encode_spec, foundation_bytes, recycle_bytes, recycles_left_byte, PositionKey};
use crate::solver::heuristics::{build_target, first_empty_from, foundation_top_rank, suit_top_rank_from};
use crate::solver::laws::{lemma_exact_keys_collision_free, piles_small};
use crate::solver::search::{
    closed_under_play, covered, fresh_win, move_covered, replay, searched_out, twin_covered, winnable,
    wins_from,
};
use crate::solver::symmetry::{lemma_retarget, lemma_swap_wins, retarget, swap_line};

verus! {

/// The foundation holding `suit`: the first of `fs[i..]` that does, or
/// nothing.
pub open spec fn suit_pile_from(fs: Seq<Seq<Card>>, suit: Suit, i: int) -> Seq<Card>
    decreases fs.len() - i,
{
    if i < 0 || i >= fs.len() {
        Seq::empty()
    } else if foundation_suit(fs[i]) == Some(suit) {
        fs[i]
    } else {
        suit_pile_from(fs, suit, i + 1)
    }
}

/// The foundation holding `suit` in `m`, or nothing.
pub open spec fn suit_pile(m: GameModel, suit: Suit) -> Seq<Card> {
    suit_pile_from(m.foundations, suit, 0)
}

/// Whether slot `i` holds `suit`.
pub open spec fn holds_suit(fs: Seq<Seq<Card>>, i: int, suit: Suit) -> bool {
    fs[i].len() > 0 && fs[i][0].suit == suit
}

/// The recycle counts allow the same recycles now and later.
pub open spec fn recycles_alike(a: GameModel, b: GameModel) -> bool {
    match a.config.redeal_limit {
        None => true,
        Some(l) => a.recycles == b.recycles || (a.recycles >= l && b.recycles >= l),
    }
}

/// Two positions that play alike: the same columns, stock, waste and
/// configuration, recycle counts that allow the same recycles, foundations
/// that lie right with each suit's foundation the same, and no card twice.
pub open spec fn alike(a: GameModel, b: GameModel) -> bool {
    &&& a.tableau == b.tableau
    &&& a.tableau.len() == 7
    &&& a.stock == b.stock
    &&& a.waste == b.waste
    &&& a.config == b.config
    &&& recycles_alike(a, b)
    &&& foundations_ok(a)
    &&& foundations_ok(b)
    &&& unique_cards(a)
    &&& unique_cards(b)
    &&& forall|s: Suit| #[trigger] suit_pile(a, s) == suit_pile(b, s)
}

/// With foundations that lie right, a suit's foundation is the slot holding
/// it, or nothing when no slot does.
proof fn lemma_suit_pile(m: GameModel, s: Suit)
    requires
        foundations_ok(m),
    ensures
        forall|i: int| 0 <= i < 4 && holds_suit(m.foundations, i, s) ==> suit_pile(m, s) == m.foundations[i],
        (forall|i: int| 0 <= i < 4 ==> !holds_suit(m.foundations, i, s)) ==> suit_pile(m, s).len() == 0,
{
    let fs = m.foundations;
    reveal_with_fuel(suit_pile_from, 5);
    if forall|i: int| 0 <= i < 4 ==> !holds_suit(fs, i, s) {
        assert(!holds_suit(fs, 0, s));
        assert(!holds_suit(fs, 1, s));
        assert(!holds_suit(fs, 2, s));
        assert(!holds_suit(fs, 3, s));
    }
    assert forall|i: int| 0 <= i < 4 && holds_suit(fs, i, s) implies suit_pile(m, s) == fs[i] by {
        assert forall|j: int| 0 <= j < 4 && j != i implies !holds_suit(fs, j, s) by {
            assert(fs[i].len() > 0 && fs[j].len() > 0 ==> fs[i][0].suit != fs[j][0].suit);
        }
    }
}

/// Four slots holding pairwise distinct suits hold every suit.
proof fn lemma_four_suits(fs: Seq<Seq<Card>>, t: Suit)
    requires
        fs.len() == 4,
        forall|i: int| 0 <= i < 4 ==> (#[trigger] fs[i]).len() > 0,
        forall|i: int, j: int|
            0 <= i < 4 && 0 <= j < 4 && i != j ==> (#[trigger] fs[i])[0].suit != (#[trigger] fs[j])[0].suit,
    ensures
        exists|i: int| 0 <= i < 4 && holds_suit(fs, i, t),
{
    let a = suit_index(fs[0][0].suit);
    let b = suit_index(fs[1][0].suit);
    let c = suit_index(fs[2][0].suit);
    let d = suit_index(fs[3][0].suit);
    assert(fs[0][0].suit != fs[1][0].suit);
    assert(fs[0][0].suit != fs[2][0].suit);
    assert(fs[0][0].suit != fs[3][0].suit);
    assert(fs[1][0].suit != fs[2][0].suit);
    assert(fs[1][0].suit != fs[3][0].suit);
    assert(fs[2][0].suit != fs[3][0].suit);
    assert(a != b && a != c && a != d && b != c && b != d && c != d);
    let x = suit_index(t);
    assert(x == a || x == b || x == c || x == d);
    if x == a {
        assert(holds_suit(fs, 0, t));
    } else if x == b {
        assert(holds_suit(fs, 1, t));
    } else if x == c {
        assert(holds_suit(fs, 2, t));
    } else {
        assert(holds_suit(fs, 3, t));
    }
}

/// A slot holding a suit no slot of `m` holds is empty somewhere: a position
/// whose foundations lie right and miss a suit has an empty slot.
proof fn lemma_empty_slot(m: GameModel, s: Suit) -> (g: int)
    requires
        foundations_ok(m),
        forall|i: int| 0 <= i < 4 ==> !holds_suit(m.foundations, i, s),
    ensures
        0 <= g < 4,
        m.foundations[g].len() == 0,
{
    let fs = m.foundations;
    if fs[0].len() == 0 {
        0
    } else if fs[1].len() == 0 {
        1
    } else if fs[2].len() == 0 {
        2
    } else if fs[3].len() == 0 {
        3
    } else {
        lemma_four_suits(fs, s);
        let i = choose|i: int| 0 <= i < 4 && holds_suit(fs, i, s);
        assert(false);
        0
    }
}

/// Slot `g` holds `suit` in `m` when its foundation is not empty.
proof fn lemma_slot_of(m: GameModel, s: Suit) -> (g: int)
    requires
        foundations_ok(m),
        suit_pile(m, s).len() > 0,
    ensures
        0 <= g < 4,
        holds_suit(m.foundations, g, s),
        suit_pile(m, s) == m.foundations[g],
{
    lemma_suit_pile(m, s);
    if holds_suit(m.foundations, 0, s) {
        0
    } else if holds_suit(m.foundations, 1, s) {
        1
    } else if holds_suit(m.foundations, 2, s) {
        2
    } else {
        3
    }
}

/// After replacing slot `f` (which held `s` or nothing) by `x` (holding `s` or
/// nothing), with the foundations lying right before and after, `s`'s
/// foundation is `x` and every other suit's is unchanged.
proof fn lemma_replace_slot(m: GameModel, r: GameModel, f: int, s: Suit, x: Seq<Card>)
    requires
        foundations_ok(m),
        foundations_ok(r),
        0 <= f < 4,
        r.foundations == m.foundations.update(f, x),
        m.foundations[f].len() == 0 || m.foundations[f][0].suit == s,
        x.len() == 0 || x[0].suit == s,
        x.len() == 0 ==> forall|i: int| 0 <= i < 4 && i != f ==> !holds_suit(m.foundations, i, s),
    ensures
        suit_pile(r, s) == x,
        forall|t: Suit| t != s ==> #[trigger] suit_pile(r, t) == suit_pile(m, t),
{
    lemma_suit_pile(r, s);
    if x.len() > 0 {
        assert(holds_suit(r.foundations, f, s));
    } else {
        assert forall|i: int| 0 <= i < 4 implies !holds_suit(r.foundations, i, s) by {
            if i != f {
                assert(r.foundations[i] == m.foundations[i]);
                assert(!holds_suit(m.foundations, i, s));
            } else {
                assert(r.foundations[i] == x);
            }
        }
    }
    assert forall|t: Suit| t != s implies #[trigger] suit_pile(r, t) == suit_pile(m, t) by {
        lemma_suit_pile(r, t);
        lemma_suit_pile(m, t);
        assert forall|i: int| 0 <= i < 4 implies holds_suit(r.foundations, i, t) == holds_suit(
            m.foundations,
            i,
            t,
        ) by {
            if i != f {
                assert(r.foundations[i] == m.foundations[i]);
            }
        }
        if exists|i: int| 0 <= i < 4 && holds_suit(m.foundations, i, t) {
            let i = choose|i: int| 0 <= i < 4 && holds_suit(m.foundations, i, t);
            assert(i != f);
            assert(r.foundations[i] == m.foundations[i]);
        }
    }
}

/// Alike positions are won together.
pub proof fn lemma_alike_won(a: GameModel, b: GameModel)
    requires
        alike(a, b),
    ensures
        model_is_won(a) == model_is_won(b),
{
    if model_is_won(a) {
        lemma_alike_won_one_way(a, b);
    }
    if model_is_won(b) {
        lemma_alike_won_one_way(b, a);
    }
}

/// Alike positions are alike the other way round.
proof fn lemma_alike_symmetric(a: GameModel, b: GameModel)
    requires
        alike(a, b),
    ensures
        alike(b, a),
{
    assert forall|s: Suit| #[trigger] suit_pile(b, s) == suit_pile(a, s) by {
        assert(suit_pile(a, s) == suit_pile(b, s));
    }
}

proof fn lemma_alike_won_one_way(a: GameModel, b: GameModel)
    requires
        alike(a, b) || alike(b, a),
        model_is_won(a),
    ensures
        model_is_won(b),
{
    if alike(b, a) {
        lemma_alike_symmetric(b, a);
    }
    let fa = a.foundations;
    let fb = b.foundations;
    assert(forall|i: int| 0 <= i < 4 ==> (#[trigger] fa[i]).len() == 13);
    assert forall|i: int, j: int| 0 <= i < 4 && 0 <= j < 4 && i != j implies (#[trigger] fa[i])[0].suit
        != (#[trigger] fa[j])[0].suit by {
        assert(fa[i].len() > 0 && fa[j].len() > 0);
    }
    // Every suit sits on a full foundation of `a`, hence of `b`.
    assert forall|t: Suit| #[trigger] suit_pile(b, t).len() == 13 by {
        lemma_four_suits(fa, t);
        let i = choose|i: int| 0 <= i < 4 && holds_suit(fa, i, t);
        lemma_suit_pile(a, t);
        assert(suit_pile(a, t) == suit_pile(b, t));
    }
    let g0 = lemma_slot_of(b, Suit::Clubs);
    let g1 = lemma_slot_of(b, Suit::Diamonds);
    let g2 = lemma_slot_of(b, Suit::Hearts);
    let g3 = lemma_slot_of(b, Suit::Spades);
    assert(g0 != g1 && g0 != g2 && g0 != g3 && g1 != g2 && g1 != g3 && g2 != g3);
    assert forall|f: int| 0 <= f < 4 implies (#[trigger] fb[f]).len() == 13 by {
        assert(f == g0 || f == g1 || f == g2 || f == g3);
    }
}


/// Every move of `a` has a move of `b` (the same one, with a foundation slot
/// taken by its suit) leading again to alike positions.
pub proof fn lemma_alike_step(a: GameModel, b: GameModel, mv: Move) -> (mv2: Move)
    requires
        alike(a, b),
        move_in_range(mv),
        apply_spec(a, mv) is Ok,
    ensures
        move_in_range(mv2),
        apply_spec(b, mv2) is Ok,
        alike(apply_spec(a, mv)->Ok_0, apply_spec(b, mv2)->Ok_0),
        build_target(mv) is Some ==> mv2 == mv,
        build_target(mv2) == build_target(mv),
{
    let ra = apply_spec(a, mv)->Ok_0;
    lemma_apply_keeps_foundations_ok(a, mv);
    match mv {
        Move::WasteToFoundation { foundation } => {
            let f = foundation as int;
            let x = a.waste.last();
            let fa = a.foundations[f];
            if fa.len() > 0 {
                let s = fa[0].suit;
                assert(fa[fa.len() - 1].suit == s);
                assert(holds_suit(a.foundations, f, s));
                lemma_suit_pile(a, s);
                let g = lemma_slot_of(b, s);
                let mv2 = Move::WasteToFoundation { foundation: g as usize };
                lemma_apply_keeps_foundations_ok(b, mv2);
                let rb = apply_spec(b, mv2)->Ok_0;
                lemma_replace_slot(a, ra, f, s, fa.push(x));
                lemma_replace_slot(b, rb, g, s, b.foundations[g].push(x));
                assert forall|t: Suit| #[trigger] suit_pile(ra, t) == suit_pile(rb, t) by {
                    if t != s {
                        assert(suit_pile(a, t) == suit_pile(b, t));
                    }
                }
                mv2
            } else {
                let s = x.suit;
                assert(ra.foundations[f] == seq![x]);
                assert forall|i: int| 0 <= i < 4 && i != f implies !holds_suit(a.foundations, i, s) by {
                    assert(ra.foundations[i] == a.foundations[i]);
                    assert(ra.foundations[f].len() > 0 && ra.foundations[i].len() > 0 ==> ra.foundations[f][0].suit
                        != ra.foundations[i][0].suit);
                }
                assert(!holds_suit(a.foundations, f, s));
                lemma_suit_pile(a, s);
                lemma_suit_pile(b, s);
                assert(suit_pile(a, s) == suit_pile(b, s));
                let g = lemma_empty_slot(b, s);
                let mv2 = Move::WasteToFoundation { foundation: g as usize };
                lemma_apply_keeps_foundations_ok(b, mv2);
                let rb = apply_spec(b, mv2)->Ok_0;
                lemma_replace_slot(a, ra, f, s, fa.push(x));
                lemma_replace_slot(b, rb, g, s, b.foundations[g].push(x));
                assert forall|t: Suit| #[trigger] suit_pile(ra, t) == suit_pile(rb, t) by {
                    if t != s {
                        assert(suit_pile(a, t) == suit_pile(b, t));
                    }
                }
                mv2
            }
        },
        Move::TableauToFoundation { column, foundation } => {
            let f = foundation as int;
            let c = column as int;
            let x = a.tableau[c].last();
            let fa = a.foundations[f];
            if fa.len() > 0 {
                let s = fa[0].suit;
                assert(fa[fa.len() - 1].suit == s);
                assert(holds_suit(a.foundations, f, s));
                lemma_suit_pile(a, s);
                let g = lemma_slot_of(b, s);
                let mv2 = Move::TableauToFoundation { column, foundation: g as usize };
                lemma_apply_keeps_foundations_ok(b, mv2);
                let rb = apply_spec(b, mv2)->Ok_0;
                lemma_replace_slot(a, ra, f, s, fa.push(x));
                lemma_replace_slot(b, rb, g, s, b.foundations[g].push(x));
                assert forall|t: Suit| #[trigger] suit_pile(ra, t) == suit_pile(rb, t) by {
                    if t != s {
                        assert(suit_pile(a, t) == suit_pile(b, t));
                    }
                }
                mv2
            } else {
                let s = x.suit;
                assert(ra.foundations[f] == seq![x]);
                assert forall|i: int| 0 <= i < 4 && i != f implies !holds_suit(a.foundations, i, s) by {
                    assert(ra.foundations[i] == a.foundations[i]);
                    assert(ra.foundations[f].len() > 0 && ra.foundations[i].len() > 0 ==> ra.foundations[f][0].suit
                        != ra.foundations[i][0].suit);
                }
                assert(!holds_suit(a.foundations, f, s));
                lemma_suit_pile(a, s);
                lemma_suit_pile(b, s);
                assert(suit_pile(a, s) == suit_pile(b, s));
                let g = lemma_empty_slot(b, s);
                let mv2 = Move::TableauToFoundation { column, foundation: g as usize };
                lemma_apply_keeps_foundations_ok(b, mv2);
                let rb = apply_spec(b, mv2)->Ok_0;
                lemma_replace_slot(a, ra, f, s, fa.push(x));
                lemma_replace_slot(b, rb, g, s, b.foundations[g].push(x));
                assert forall|t: Suit| #[trigger] suit_pile(ra, t) == suit_pile(rb, t) by {
                    if t != s {
                        assert(suit_pile(a, t) == suit_pile(b, t));
                    }
                }
                mv2
            }
        },
        Move::FoundationToTableau { foundation, column } => {
            let f = foundation as int;
            let fa = a.foundations[f];
            let s = fa[0].suit;
            assert(holds_suit(a.foundations, f, s));
            lemma_suit_pile(a, s);
            let g = lemma_slot_of(b, s);
            let mv2 = Move::FoundationToTableau { foundation: g as usize, column };
            lemma_apply_keeps_foundations_ok(b, mv2);
            let rb = apply_spec(b, mv2)->Ok_0;
            assert forall|i: int| 0 <= i < 4 && i != f implies !holds_suit(a.foundations, i, s) by {
                assert(a.foundations[f].len() > 0 && a.foundations[i].len() > 0 ==> a.foundations[f][0].suit
                    != a.foundations[i][0].suit);
            }
            assert forall|i: int| 0 <= i < 4 && i != g implies !holds_suit(b.foundations, i, s) by {
                assert(b.foundations[g].len() > 0 && b.foundations[i].len() > 0 ==> b.foundations[g][0].suit
                    != b.foundations[i][0].suit);
            }
            assert(fa.drop_last().len() > 0 ==> fa.drop_last()[0] == fa[0]);
            lemma_replace_slot(a, ra, f, s, fa.drop_last());
            lemma_replace_slot(b, rb, g, s, b.foundations[g].drop_last());
            assert forall|t: Suit| #[trigger] suit_pile(ra, t) == suit_pile(rb, t) by {
                if t != s {
                    assert(suit_pile(a, t) == suit_pile(b, t));
                }
            }
            mv2
        },
        _ => {
            lemma_apply_keeps_foundations_ok(b, mv);
            let rb = apply_spec(b, mv)->Ok_0;
            assert(ra.foundations == a.foundations);
            assert(rb.foundations == b.foundations);
            assert forall|t: Suit| #[trigger] suit_pile(ra, t) == suit_pile(rb, t) by {
                assert(suit_pile(a, t) == suit_pile(b, t));
            }
            mv
        },
    }
}


/// The run of `suit` from the Ace up to the `n`-th rank, face-up.
pub open spec fn canonical_run(suit: Suit, n: nat) -> Seq<Card> {
    Seq::new(n, |k: int| Card { rank: rank_of_value(k + 1), suit, face_up: true })
}

/// With foundations that lie right and face up, a suit's foundation is its
/// run up to the top rank the key records.
proof fn lemma_suit_pile_canonical(m: GameModel, s: Suit)
    requires
        foundations_ok(m),
        forall|i: int| 0 <= i < 4 ==> all_up(#[trigger] m.foundations[i]),
    ensures
        suit_pile(m, s) == canonical_run(s, foundation_top_rank(m, s)),
        foundation_top_rank(m, s) <= 13,
{
    let fs = m.foundations;
    lemma_suit_pile(m, s);
    reveal_with_fuel(suit_top_rank_from, 5);
    if exists|i: int| 0 <= i < 4 && holds_suit(fs, i, s) {
        let i = choose|i: int| 0 <= i < 4 && holds_suit(fs, i, s);
        assert forall|j: int| 0 <= j < 4 && j != i implies !holds_suit(fs, j, s) by {
            assert(fs[i].len() > 0 && fs[j].len() > 0 ==> fs[i][0].suit != fs[j][0].suit);
        }
        let f = fs[i];
        assert(rank_value(f[f.len() - 1].rank) == f.len());
        assert(foundation_top_rank(m, s) == f.len()) by {
            if i == 0 {
            } else if i == 1 {
                assert(!holds_suit(fs, 0, s));
            } else if i == 2 {
                assert(!holds_suit(fs, 0, s));
                assert(!holds_suit(fs, 1, s));
            } else {
                assert(!holds_suit(fs, 0, s));
                assert(!holds_suit(fs, 1, s));
                assert(!holds_suit(fs, 2, s));
            }
        }
        assert forall|k: int| 0 <= k < f.len() implies f[k] == canonical_run(s, f.len())[k] by {
            lemma_rank_value_inverse(f[k].rank);
            assert(all_up(fs[i]));
        }
        assert(f =~= canonical_run(s, f.len()));
    } else {
        assert(!holds_suit(fs, 0, s));
        assert(!holds_suit(fs, 1, s));
        assert(!holds_suit(fs, 2, s));
        assert(!holds_suit(fs, 3, s));
        assert(foundation_top_rank(m, s) == 0);
        assert(suit_pile(m, s) =~= canonical_run(s, 0));
    }
}

/// The redeal limit, when there is one, is small enough for the key to count
/// the recycles left.
pub open spec fn limit_fits_key(m: GameModel) -> bool {
    match m.config.redeal_limit {
        Some(l) => l <= 255,
        None => true,
    }
}

/// Two positions of one game with the same exact key play alike.
proof fn lemma_same_key_alike(a: GameModel, b: GameModel)
    requires
        piles_small(a),
        piles_small(b),
        encode_spec(a) == encode_spec(b),
        a.config == b.config,
        limit_fits_key(a),
        well_laid(a),
        well_laid(b),
        foundations_ok(a),
        foundations_ok(b),
        unique_cards(a),
        unique_cards(b),
    ensures
        alike(a, b),
{
    lemma_exact_keys_collision_free(a, b);
    match a.config.redeal_limit {
        Some(l) => {
            assert(recycle_bytes(a)[0] == recycle_bytes(b)[0]);
            assert(recycles_left_byte(l, a.recycles) == recycles_left_byte(l, b.recycles));
        },
        None => {},
    }
    assert forall|s: Suit| #[trigger] suit_pile(a, s) == suit_pile(b, s) by {
        lemma_suit_pile_canonical(a, s);
        lemma_suit_pile_canonical(b, s);
        let i = suit_index(s) as int;
        assert(foundation_bytes(a)[i] == foundation_bytes(b)[i]);
        assert(foundation_top_rank(a, s) == foundation_top_rank(b, s));
    }
}

/// The position after the first `i` moves of `l` from `m`.
pub open spec fn at(m: GameModel, l: Seq<Move>, i: int) -> GameModel {
    replay(m, l.take(i))->Ok_0
}

/// Playing two lines one after the other.
proof fn lemma_replay_append(m: GameModel, a: Seq<Move>, b: Seq<Move>)
    ensures
        replay(m, a + b) == match replay(m, a) {
            Ok(p) => replay(p, b),
            Err(e) => Err(e),
        },
    decreases b.len(),
{
    if b.len() == 0 {
        assert(a + b =~= a);
    } else {
        lemma_replay_append(m, a, b.drop_last());
        assert((a + b).drop_last() =~= a + b.drop_last());
        assert((a + b).last() == b.last());
    }
}

/// Playing a single move.
proof fn lemma_replay_one(m: GameModel, mv: Move)
    ensures
        replay(m, seq![mv]) == apply_spec(m, mv),
{
    assert(seq![mv].drop_last() =~= Seq::<Move>::empty());
    assert(replay(m, Seq::<Move>::empty()) == Ok::<GameModel, crate::model::moves::MoveError>(m));
}

/// A move that applies names piles that exist.
proof fn lemma_apply_in_range(m: GameModel, mv: Move)
    requires
        apply_spec(m, mv) is Ok,
    ensures
        move_in_range(mv),
{
}

/// Along a line that plays through, every prefix plays, and each next move
/// leads from one prefix's position to the next's.
proof fn lemma_prefix(m: GameModel, l: Seq<Move>, i: int)
    requires
        replay(m, l) is Ok,
        0 <= i <= l.len(),
    ensures
        replay(m, l.take(i)) is Ok,
        i < l.len() ==> apply_spec(at(m, l, i), l[i]) == replay(m, l.take(i + 1)),
        i < l.len() ==> replay(m, l.take(i + 1)) is Ok,
{
    assert(l =~= l.take(i) + l.skip(i));
    lemma_replay_append(m, l.take(i), l.skip(i));
    if i < l.len() {
        assert(l =~= l.take(i + 1) + l.skip(i + 1));
        lemma_replay_append(m, l.take(i + 1), l.skip(i + 1));
        assert(l.take(i + 1).drop_last() =~= l.take(i));
    }
}

/// A position that lies right, with foundations of one suit each, no card
/// twice, fewer than 256 cards and a redeal limit the key can count.
pub open spec fn line_ok(m: GameModel) -> bool {
    &&& well_laid(m)
    &&& foundations_ok(m)
    &&& unique_cards(m)
    &&& all_cards(m).len() < 256
    &&& limit_fits_key(m)
}

/// Every move keeps a position as [`line_ok`] says, and its configuration.
pub proof fn lemma_line_ok_step(m: GameModel, mv: Move)
    requires
        line_ok(m),
        apply_spec(m, mv) is Ok,
    ensures
        line_ok(apply_spec(m, mv)->Ok_0),
        (apply_spec(m, mv)->Ok_0).config == m.config,
{
    lemma_apply_keeps_well_laid(m, mv);
    lemma_apply_keeps_foundations_ok(m, mv);
    lemma_apply_keeps_cards(m, mv);
}

/// A pile's cards count as many as the pile holds.
proof fn lemma_pile_ids_len(s: Seq<Card>)
    ensures
        pile_ids(s).len() == s.len(),
{
    broadcast use vstd::seq_lib::to_multiset_len;

    assert(s.map_values(|c: Card| card_id_of(c)).len() == s.len());
}

/// The identity of a card (a copy usable in a closure).
spec fn card_id_of(c: Card) -> (Rank, Suit) {
    crate::model::invariants::card_id(c)
}

/// The first `n` piles hold at least as many cards as any of them.
proof fn lemma_piles_len(ps: Seq<Seq<Card>>, n: int, g: int)
    requires
        0 <= g < n <= ps.len(),
    ensures
        piles_ids(ps, n).len() >= ps[g].len(),
    decreases n,
{
    broadcast use vstd::multiset::group_multiset_axioms;

    lemma_pile_ids_len(ps[n - 1]);
    if g < n - 1 {
        lemma_piles_len(ps, n - 1, g);
    }
}

/// Fewer than 256 cards in all means fewer than 256 in each pile.
proof fn lemma_line_ok_small(m: GameModel)
    requires
        line_ok(m),
    ensures
        piles_small(m),
{
    broadcast use vstd::multiset::group_multiset_axioms;

    lemma_pile_ids_len(m.stock);
    lemma_pile_ids_len(m.waste);
    assert forall|c: int| 0 <= c < 7 implies (#[trigger] m.tableau[c]).len() < 256 by {
        lemma_piles_len(m.tableau, 7, c);
    }
}

/// Every position along a line from a position that is [`line_ok`] is too,
/// in the same configuration.
proof fn lemma_line_ok_at(m: GameModel, l: Seq<Move>, i: int)
    requires
        line_ok(m),
        replay(m, l) is Ok,
        0 <= i <= l.len(),
    ensures
        line_ok(at(m, l, i)),
        at(m, l, i).config == m.config,
    decreases i,
{
    if i == 0 {
        assert(l.take(0) =~= Seq::<Move>::empty());
    } else {
        lemma_line_ok_at(m, l, i - 1);
        lemma_prefix(m, l, i - 1);
        lemma_line_ok_step(at(m, l, i - 1), l[i - 1]);
    }
}

/// Alike positions win alike: a winning line of one has a winning line of
/// the other, of the same length.
proof fn lemma_mimic(a: GameModel, b: GameModel, l: Seq<Move>) -> (l2: Seq<Move>)
    requires
        alike(a, b),
        wins_from(a, l),
    ensures
        l2.len() == l.len(),
        wins_from(b, l2),
    decreases l.len(),
{
    if l.len() == 0 {
        lemma_alike_won(a, b);
        l
    } else {
        let mv = l[0];
        let rest = l.drop_first();
        assert(l =~= seq![mv] + rest);
        lemma_replay_append(a, seq![mv], rest);
        lemma_replay_one(a, mv);
        lemma_apply_in_range(a, mv);
        let mv2 = lemma_alike_step(a, b, mv);
        let a2 = apply_spec(a, mv)->Ok_0;
        let b2 = apply_spec(b, mv2)->Ok_0;
        let r2 = lemma_mimic(a2, b2, rest);
        let l2 = seq![mv2] + r2;
        lemma_replay_append(b, seq![mv2], r2);
        lemma_replay_one(b, mv2);
        l2
    }
}

/// The keys met before the `i`-th position of a line.
pub open spec fn seen_upto(m: GameModel, l: Seq<Move>, i: int) -> Set<Seq<u8>>
    decreases i,
{
    if i <= 0 {
        Set::empty()
    } else {
        seen_upto(m, l, i - 1).insert(encode_spec(at(m, l, i - 1)))
    }
}

/// A key was met before the `i`-th position exactly when some earlier
/// position has it.
proof fn lemma_seen_upto(m: GameModel, l: Seq<Move>, i: int, v: Seq<u8>)
    requires
        0 <= i,
    ensures
        seen_upto(m, l, i).contains(v) <==> exists|j: int| 0 <= j < i && v == encode_spec(#[trigger] at(m, l, j)),
    decreases i,
{
    if i > 0 {
        lemma_seen_upto(m, l, i - 1, v);
        if v == encode_spec(at(m, l, i - 1)) {
            assert(exists|j: int| 0 <= j < i && v == encode_spec(#[trigger] at(m, l, j)));
        }
    }
}

/// A line whose positions before its first won one have pairwise distinct
/// keys is walked by the search: from the `i`-th position on, with the keys
/// met before it seen.
proof fn lemma_distinct_is_fresh(m: GameModel, l: Seq<Move>, k: int, i: int)
    requires
        replay(m, l) is Ok,
        0 <= i <= k <= l.len(),
        model_is_won(at(m, l, k)),
        forall|j: int| 0 <= j < k ==> !model_is_won(#[trigger] at(m, l, j)),
        forall|j1: int, j2: int|
            0 <= j1 < j2 < k ==> encode_spec(#[trigger] at(m, l, j1)) != encode_spec(#[trigger] at(m, l, j2)),
    ensures
        fresh_win::<PositionKey>(at(m, l, i), l.skip(i), seen_upto(m, l, i)),
    decreases k - i,
{
    if i < k {
        lemma_distinct_is_fresh(m, l, k, i + 1);
        lemma_prefix(m, l, i);
        let p = at(m, l, i);
        assert(!model_is_won(p));
        lemma_seen_upto(m, l, i, encode_spec(p));
        assert(l.skip(i)[0] == l[i]);
        assert(l.skip(i).drop_first() =~= l.skip(i + 1));
        lemma_apply_in_range(p, l[i]);
        assert(apply_spec(p, l[i]) == Ok::<GameModel, crate::model::moves::MoveError>(at(m, l, i + 1)));
    }
}

/// A line that plays through has a first won position once it has a won one.
proof fn lemma_first_won(m: GameModel, l: Seq<Move>, t: int) -> (k: int)
    requires
        replay(m, l) is Ok,
        0 <= t <= l.len(),
        model_is_won(at(m, l, t)),
    ensures
        0 <= k <= t,
        model_is_won(at(m, l, k)),
        forall|j: int| 0 <= j < k ==> !model_is_won(#[trigger] at(m, l, j)),
    decreases t,
{
    if exists|j: int| 0 <= j < t && model_is_won(#[trigger] at(m, l, j)) {
        let j = choose|j: int| 0 <= j < t && model_is_won(#[trigger] at(m, l, j));
        lemma_first_won(m, l, j)
    } else {
        t
    }
}

/// Every winning line of a position that is [`line_ok`] can be cut down to one
/// the search walks: a position that can be won has a line that wins without
/// coming back to an exact key.
pub proof fn lemma_winnable_has_fresh_line(m: GameModel, l: Seq<Move>)
    requires
        line_ok(m),
        wins_from(m, l),
    ensures
        exists|l2: Seq<Move>| fresh_win::<PositionKey>(m, l2, Set::empty()),
    decreases l.len(),
{
    let n = l.len() as int;
    assert(l.take(n) =~= l);
    let k = lemma_first_won(m, l, n);
    if forall|j1: int, j2: int|
        0 <= j1 < j2 < k ==> encode_spec(#[trigger] at(m, l, j1)) != encode_spec(#[trigger] at(m, l, j2)) {
        lemma_distinct_is_fresh(m, l, k, 0);
        assert(l.take(0) =~= Seq::<Move>::empty());
        assert(l.skip(0) =~= l);
        assert(fresh_win::<PositionKey>(m, l, Set::empty()));
    } else {
        let (j1, j2) = choose|j1: int, j2: int|
            0 <= j1 < j2 < k && encode_spec(#[trigger] at(m, l, j1)) == encode_spec(#[trigger] at(m, l, j2));
        let l2 = lemma_cut_line(m, l, j1, j2);
        lemma_winnable_has_fresh_line(m, l2);
    }
}

/// A winning line that comes back at its `j2`-th position to the key of its
/// `j1`-th can be cut short: play up to the `j1`-th position, then what the
/// line plays after the `j2`-th, mimicked.
proof fn lemma_cut_line(m: GameModel, l: Seq<Move>, j1: int, j2: int) -> (l2: Seq<Move>)
    requires
        line_ok(m),
        wins_from(m, l),
        0 <= j1 < j2 <= l.len(),
        encode_spec(at(m, l, j1)) == encode_spec(at(m, l, j2)),
    ensures
        wins_from(m, l2),
        l2.len() < l.len(),
{
    let p1 = at(m, l, j1);
    let p2 = at(m, l, j2);
    lemma_line_ok_at(m, l, j1);
    lemma_line_ok_at(m, l, j2);
    lemma_line_ok_small(p1);
    lemma_line_ok_small(p2);
    lemma_same_key_alike(p2, p1);
    // The rest of the line from the later position wins.
    assert(l =~= l.take(j2) + l.skip(j2));
    lemma_replay_append(m, l.take(j2), l.skip(j2));
    lemma_prefix(m, l, j2);
    let l3 = lemma_mimic(p2, p1, l.skip(j2));
    let l2 = l.take(j1) + l3;
    lemma_prefix(m, l, j1);
    lemma_replay_append(m, l.take(j1), l3);
    l2
}

/// A position that is [`line_ok`] and has no line the search walks with
/// exact keys cannot be won.
pub proof fn lemma_no_fresh_line_unwinnable(m: GameModel)
    requires
        line_ok(m),
        forall|l: Seq<Move>| !#[trigger] fresh_win::<PositionKey>(m, l, Set::empty()),
    ensures
        !winnable(m),
{
    if winnable(m) {
        let l = choose|l: Seq<Move>| wins_from(m, l);
        lemma_winnable_has_fresh_line(m, l);
    }
}

/// Alike is transitive.
proof fn lemma_alike_trans(a: GameModel, b: GameModel, c: GameModel)
    requires
        alike(a, b),
        alike(b, c),
    ensures
        alike(a, c),
{
    assert forall|s: Suit| #[trigger] suit_pile(a, s) == suit_pile(c, s) by {
        assert(suit_pile(a, s) == suit_pile(b, s));
        assert(suit_pile(b, s) == suit_pile(c, s));
    }
}

/// No line wins from a position that [`line_ok`] holds of and that is alike a
/// position of a set closed under play.
proof fn lemma_closed_no_win(root: GameModel, em: Set<GameModel>, x: GameModel, p: GameModel, l: Seq<Move>)
    requires
        closed_under_play::<PositionKey>(root, em),
        em.contains(p),
        alike(x, p),
        line_ok(x),
    ensures
        !wins_from(x, l),
    decreases l.len(), 2int,
{
    lemma_closed_member(root, em, p);
    if l.len() == 0 {
        lemma_alike_won(x, p);
        assert(replay(x, l) == Ok::<GameModel, crate::model::moves::MoveError>(x));
    } else {
        let mv = l[0];
        let rest = l.drop_first();
        assert(l =~= seq![mv] + rest);
        lemma_replay_append(x, seq![mv], rest);
        lemma_replay_one(x, mv);
        if apply_spec(x, mv) is Ok {
            lemma_apply_in_range(x, mv);
            let mv2 = lemma_alike_step(x, p, mv);
            assert(move_covered::<PositionKey>(em, Set::empty(), p, mv2));
            if covered::<PositionKey>(em, Set::empty(), apply_spec(p, mv2)->Ok_0) {
                lemma_closed_step(root, em, x, p, mv, mv2, rest);
            } else {
                lemma_twin_facts(em, p, mv2);
                assert(mv2 == mv);
                lemma_closed_twin(root, em, x, p, mv, rest);
            }
        }
    }
}

/// Each position of a set closed under play was searched out.
proof fn lemma_closed_member(root: GameModel, em: Set<GameModel>, q: GameModel)
    requires
        closed_under_play::<PositionKey>(root, em),
        em.contains(q),
    ensures
        searched_out::<PositionKey>(q, root.config, em, Set::empty()),
{
    reveal(closed_under_play);
}

/// What a move covered by its twin is: it lands on empty column `a`, and the
/// same move onto the first empty column `b` leads to a covered position.
proof fn lemma_twin_facts(em: Set<GameModel>, p: GameModel, mv: Move) -> (ab: (int, int))
    requires
        twin_covered::<PositionKey>(em, Set::empty(), p, mv),
    ensures
        build_target(mv) is Some,
        ab.0 == build_target(mv)->Some_0 as int,
        0 <= ab.0 < 7 ==> p.tableau[ab.0].len() == 0,
        ab.1 == first_empty_from(p, 0),
        0 <= ab.1 < 7,
        ab.1 != ab.0,
        apply_spec(p, retarget(mv, ab.1 as usize)) is Ok,
        covered::<PositionKey>(em, Set::empty(), apply_spec(p, retarget(mv, ab.1 as usize))->Ok_0),
{
    reveal(twin_covered);
    (build_target(mv)->Some_0 as int, first_empty_from(p, 0))
}

/// A move onto an empty column other than the first, from a position alike a
/// position of a set closed under play, leads to no win: the same line with
/// the two columns exchanged, after the move onto the first, would win too.
proof fn lemma_closed_twin(root: GameModel, em: Set<GameModel>, x: GameModel, p: GameModel, mv: Move, rest: Seq<Move>)
    requires
        closed_under_play::<PositionKey>(root, em),
        em.contains(p),
        alike(x, p),
        line_ok(x),
        line_ok(p),
        p.config == root.config,
        apply_spec(x, mv) is Ok,
        twin_covered::<PositionKey>(em, Set::empty(), p, mv),
    ensures
        !wins_from(apply_spec(x, mv)->Ok_0, rest),
    decreases rest.len() + 1, 1int,
{
    lemma_apply_in_range(x, mv);
    let (a, b) = lemma_twin_facts(em, p, mv);
    assert(0 <= a < 7) by {
        match mv {
            Move::WasteToTableau { column } => {},
            Move::TableauToTableau { from, to, count } => {},
            _ => {},
        }
    }
    let r = retarget(mv, b as usize);
    let x1 = apply_spec(x, mv)->Ok_0;
    if wins_from(x1, rest) {
        lemma_line_ok_step(x, mv);
        lemma_retarget(x, mv, b as usize);
        lemma_swap_wins(x1, rest, a, b);
        lemma_apply_in_range(x, r);
        let r2 = lemma_alike_step(x, p, r);
        lemma_closed_step(root, em, x, p, r, r2, swap_line(rest, a, b));
    }
}

/// After a move from a position alike a position of a set closed under play,
/// to a position alike a covered one, no line wins.
proof fn lemma_closed_step(
    root: GameModel,
    em: Set<GameModel>,
    x: GameModel,
    p: GameModel,
    mv: Move,
    mv2: Move,
    rest: Seq<Move>,
)
    requires
        closed_under_play::<PositionKey>(root, em),
        em.contains(p),
        line_ok(x),
        line_ok(p),
        p.config == root.config,
        apply_spec(x, mv) is Ok,
        apply_spec(p, mv2) is Ok,
        alike(apply_spec(x, mv)->Ok_0, apply_spec(p, mv2)->Ok_0),
        covered::<PositionKey>(em, Set::empty(), apply_spec(p, mv2)->Ok_0),
    ensures
        !wins_from(apply_spec(x, mv)->Ok_0, rest),
    decreases rest.len() + 1, 0int,
{
    let x2 = apply_spec(x, mv)->Ok_0;
    let p2 = apply_spec(p, mv2)->Ok_0;
    let q = choose|q: GameModel| #[trigger] em.contains(q) && encode_spec(q) == encode_spec(p2);
    lemma_closed_member(root, em, q);
    lemma_line_ok_step(p, mv2);
    lemma_line_ok_step(x, mv);
    lemma_line_ok_small(p2);
    lemma_line_ok_small(q);
    lemma_same_key_alike(p2, q);
    lemma_alike_trans(x2, p2, q);
    lemma_closed_no_win(root, em, x2, q, rest);
}

/// A position that [`line_ok`] holds of and from which a set of positions is
/// closed under play cannot be won.
pub proof fn lemma_closed_unwinnable(root: GameModel, em: Set<GameModel>)
    requires
        line_ok(root),
        closed_under_play::<PositionKey>(root, em),
    ensures
        !winnable(root),
{
    assert(crate::solver::search::recorded::<PositionKey>(em, encode_spec(root))) by {
        reveal(closed_under_play);
    }
    let p = choose|q: GameModel| #[trigger] em.contains(q) && encode_spec(q) == encode_spec(root);
    lemma_closed_member(root, em, p);
    lemma_line_ok_small(root);
    lemma_line_ok_small(p);
    lemma_same_key_alike(root, p);
    if winnable(root) {
        let l = choose|l: Seq<Move>| wins_from(root, l);
        lemma_closed_no_win(root, em, root, p, l);
    }
}

} // verus!
