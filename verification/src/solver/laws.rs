//! Laws of the position keys: both keys see only the position (not the score,
//! the time or the seed), and see the foundations only as the top rank of each
//! suit, so foundation slots are interchangeable; and the exact keys tell
//! apart every two positions that differ in anything else.
use vstd::prelude::*;

use crate::model::card::{rank_value, suit_index, Card, Suit};
use crate::model::pile::foundation_suit;
use crate::model::state::GameModel;
use crate::solver::encode::{
    card_byte, encode_spec, foundation_bytes, pile_bytes, recycle_bytes, tableau_bytes,
};
use crate::solver::heuristics::{foundation_top_rank, suit_top_rank_from};
use crate::solver::zobrist::zobrist_spec;

verus! {

/// Two positions with the same piles, redeal limit and recycle count: they may
/// differ in score, elapsed time, seed, draw mode and timing.
pub open spec fn same_position(a: GameModel, b: GameModel) -> bool {
    &&& a.stock == b.stock
    &&& a.waste == b.waste
    &&& a.foundations == b.foundations
    &&& a.tableau == b.tableau
    &&& a.config.redeal_limit == b.config.redeal_limit
    &&& a.recycles == b.recycles
}

/// Both keys are positional only: the score, the elapsed time, the seed, the
/// draw mode and timing do not enter them.
pub proof fn lemma_keys_positional(a: GameModel, b: GameModel)
    requires
        same_position(a, b),
    ensures
        encode_spec(a) == encode_spec(b),
        zobrist_spec(a) == zobrist_spec(b),
{
    assert(foundation_top_rank(a, Suit::Clubs) == foundation_top_rank(b, Suit::Clubs));
}

/// No two foundations hold the same suit.
pub open spec fn suits_distinct(fs: Seq<Seq<Card>>) -> bool {
    forall|i: int, j: int|
        0 <= i < j < fs.len() && #[trigger] foundation_suit(fs[i]) is Some ==> foundation_suit(fs[i])
            != #[trigger] foundation_suit(fs[j])
}

/// With distinct suits, the top rank of a suit is that of the one foundation
/// holding it, or 0 when none does.
proof fn lemma_top_rank_at(fs: Seq<Seq<Card>>, suit: Suit, k: int)
    requires
        suits_distinct(fs),
        0 <= k <= fs.len(),
    ensures
        (exists|j: int| k <= j < fs.len() && foundation_suit(#[trigger] fs[j]) == Some(suit)) ==> {
            let j = choose|j: int| k <= j < fs.len() && foundation_suit(#[trigger] fs[j]) == Some(suit);
            suit_top_rank_from(fs, suit, k) == crate::model::card::rank_value(fs[j].last().rank)
        },
        !(exists|j: int| k <= j < fs.len() && foundation_suit(#[trigger] fs[j]) == Some(suit)) ==> suit_top_rank_from(fs, suit, k) == 0,
    decreases fs.len() - k,
{
    if k < fs.len() {
        lemma_top_rank_at(fs, suit, k + 1);
        if foundation_suit(fs[k]) == Some(suit) {
            let j = choose|j: int| k <= j < fs.len() && foundation_suit(#[trigger] fs[j]) == Some(suit);
            if j != k {
                assert(foundation_suit(fs[k]) != foundation_suit(fs[j]));
            }
        } else {
            if exists|j: int| k <= j < fs.len() && foundation_suit(#[trigger] fs[j]) == Some(suit) {
                let j = choose|j: int| k <= j < fs.len() && foundation_suit(#[trigger] fs[j]) == Some(suit);
                assert(k + 1 <= j);
                assert(exists|j2: int| k + 1 <= j2 < fs.len() && foundation_suit(#[trigger] fs[j2]) == Some(suit));
                let j2 = choose|j2: int| k + 1 <= j2 < fs.len() && foundation_suit(#[trigger] fs[j2]) == Some(suit);
                if j2 != j {
                    if j < j2 {
                        assert(foundation_suit(fs[j]) != foundation_suit(fs[j2]));
                    } else {
                        assert(foundation_suit(fs[j2]) != foundation_suit(fs[j]));
                    }
                }
            } else {
                assert(!(exists|j2: int| k + 1 <= j2 < fs.len() && foundation_suit(#[trigger] fs[j2]) == Some(suit)));
            }
        }
    }
}

/// Whether `b` holds `a`'s foundations in the slots `perm` names: slot `i` of
/// `b` is slot `perm[i]` of `a`, each slot of `a` used once.
pub open spec fn slots_permuted(a: Seq<Seq<Card>>, b: Seq<Seq<Card>>, perm: Seq<int>) -> bool {
    &&& a.len() == b.len()
    &&& perm.len() == b.len()
    &&& forall|i: int| 0 <= i < b.len() ==> 0 <= #[trigger] perm[i] < a.len() && b[i] == a[perm[i]]
    &&& forall|i: int, j: int| 0 <= i < j < b.len() ==> #[trigger] perm[i] != #[trigger] perm[j]
}

/// Foundation slots are interchangeable: moving the foundations between slots
/// (no two holding the same suit) changes neither key.
pub proof fn lemma_keys_ignore_foundation_slots(a: GameModel, b: GameModel, perm: Seq<int>)
    requires
        a.stock == b.stock,
        a.waste == b.waste,
        a.tableau == b.tableau,
        a.config.redeal_limit == b.config.redeal_limit,
        a.recycles == b.recycles,
        suits_distinct(a.foundations),
        slots_permuted(a.foundations, b.foundations, perm),
    ensures
        encode_spec(a) == encode_spec(b),
        zobrist_spec(a) == zobrist_spec(b),
{
    let fa = a.foundations;
    let fb = b.foundations;
    assert(suits_distinct(fb)) by {
        assert forall|i: int, j: int|
            0 <= i < j < fb.len() && #[trigger] foundation_suit(fb[i]) is Some implies foundation_suit(fb[i])
                != #[trigger] foundation_suit(fb[j]) by {
            let (p, q) = (perm[i], perm[j]);
            assert(fb[i] == fa[p] && fb[j] == fa[q]);
            if p < q {
                assert(foundation_suit(fa[p]) != foundation_suit(fa[q]));
            } else if foundation_suit(fa[q]) is Some {
                assert(foundation_suit(fa[q]) != foundation_suit(fa[p]));
            }
        }
    }
    assert forall|s: Suit| foundation_top_rank(a, s) == foundation_top_rank(b, s) by {
        lemma_top_rank_at(fa, s, 0);
        lemma_top_rank_at(fb, s, 0);
        if exists|j: int| 0 <= j < fa.len() && foundation_suit(#[trigger] fa[j]) == Some(s) {
            let j = choose|j: int| 0 <= j < fa.len() && foundation_suit(#[trigger] fa[j]) == Some(s);
            // Every slot of `a` appears in `b`: a permutation of a finite range is onto.
            lemma_onto(perm, fa.len() as int, j);
            let i = choose|i: int| 0 <= i < fb.len() && #[trigger] perm[i] == j;
            assert(fb[i] == fa[j]);
            assert(exists|i2: int| 0 <= i2 < fb.len() && foundation_suit(#[trigger] fb[i2]) == Some(s));
            let i2 = choose|i2: int| 0 <= i2 < fb.len() && foundation_suit(#[trigger] fb[i2]) == Some(s);
            if i2 != i {
                if i < i2 {
                    assert(foundation_suit(fb[i]) != foundation_suit(fb[i2]));
                } else {
                    assert(foundation_suit(fb[i2]) != foundation_suit(fb[i]));
                }
            }
        } else {
            if exists|i: int| 0 <= i < fb.len() && foundation_suit(#[trigger] fb[i]) == Some(s) {
                let i = choose|i: int| 0 <= i < fb.len() && foundation_suit(#[trigger] fb[i]) == Some(s);
                assert(fb[i] == fa[perm[i]]);
                assert(foundation_suit(fa[perm[i]]) == Some(s));
            }
        }
    }
    assert(foundation_top_rank(a, Suit::Clubs) == foundation_top_rank(b, Suit::Clubs));
    assert(foundation_top_rank(a, Suit::Diamonds) == foundation_top_rank(b, Suit::Diamonds));
    assert(foundation_top_rank(a, Suit::Hearts) == foundation_top_rank(b, Suit::Hearts));
    assert(foundation_top_rank(a, Suit::Spades) == foundation_top_rank(b, Suit::Spades));
}

/// An injective map from `0..n` into `0..n` reaches every value.
proof fn lemma_onto(perm: Seq<int>, n: int, j: int)
    requires
        perm.len() == n,
        forall|i: int| 0 <= i < n ==> 0 <= #[trigger] perm[i] < n,
        forall|i: int, k: int| 0 <= i < k < n ==> #[trigger] perm[i] != #[trigger] perm[k],
        0 <= j < n,
    ensures
        exists|i: int| 0 <= i < n && #[trigger] perm[i] == j,
{
    if !(exists|i: int| 0 <= i < n && #[trigger] perm[i] == j) {
        // The n values all avoid j, so they fit in n - 1 slots: impossible.
        let vals = perm.to_set();
        let range = vstd::set_lib::set_int_range(0, n);
        assert(perm.no_duplicates()) by {
            assert forall|a: int, b: int| 0 <= a < perm.len() && 0 <= b < perm.len() && a != b implies perm[a] != perm[b] by {
                if a < b {
                    assert(perm[a] != perm[b]);
                } else {
                    assert(perm[b] != perm[a]);
                }
            }
        }
        perm.unique_seq_to_set();
        vstd::set_lib::lemma_int_range(0, n);
        assert(vals.subset_of(range.remove(j)));
        vstd::set_lib::lemma_len_subset(vals, range.remove(j));
    }
}


/// Two cards with the same byte are the same card.
proof fn lemma_card_byte_injective(c: Card, d: Card)
    requires
        card_byte(c) == card_byte(d),
    ensures
        c == d,
{
    let fc: nat = if c.face_up { 64 } else { 0 };
    let fd: nat = if d.face_up { 64 } else { 0 };
    assert(1 <= rank_value(c.rank) <= 13 && 1 <= rank_value(d.rank) <= 13);
    assert(suit_index(c.suit) <= 3 && suit_index(d.suit) <= 3);
    let x = rank_value(c.rank) + 16 * suit_index(c.suit) + fc;
    let y = rank_value(d.rank) + 16 * suit_index(d.suit) + fd;
    assert(x < 256 && y < 256);
    assert(x == y);
    assert(c.face_up == d.face_up);
    assert(suit_index(c.suit) == suit_index(d.suit));
    assert(rank_value(c.rank) == rank_value(d.rank));
}

/// Two piles of fewer than 256 cards, each followed by some bytes, give the
/// same bytes only when the piles and what follows are the same.
proof fn lemma_pile_prefix(s: Seq<Card>, t: Seq<Card>, x: Seq<u8>, y: Seq<u8>)
    requires
        s.len() < 256,
        t.len() < 256,
        pile_bytes(s) + x == pile_bytes(t) + y,
    ensures
        s == t,
        x == y,
{
    let ps = pile_bytes(s) + x;
    let pt = pile_bytes(t) + y;
    assert(ps[0] == (s.len() % 256) as u8);
    assert(pt[0] == (t.len() % 256) as u8);
    assert(s.len() == t.len());
    let n = s.len() as int;
    assert forall|i: int| 0 <= i < n implies s[i] == t[i] by {
        assert(ps[1 + i] == card_byte(s[i]));
        assert(pt[1 + i] == card_byte(t[i]));
        lemma_card_byte_injective(s[i], t[i]);
    }
    assert(s =~= t);
    assert(x =~= ps.subrange(1 + n, ps.len() as int));
    assert(y =~= pt.subrange(1 + n, pt.len() as int));
}

/// The columns' bytes start with the first column's.
proof fn lemma_tableau_bytes_front(t: Seq<Seq<Card>>, n: int)
    requires
        1 <= n <= t.len(),
    ensures
        tableau_bytes(t, n) == pile_bytes(t[0]) + tableau_bytes(t.subrange(1, t.len() as int), n - 1),
    decreases n,
{
    let rest = t.subrange(1, t.len() as int);
    if n == 1 {
        assert(tableau_bytes(t, 0) =~= Seq::<u8>::empty());
        assert(tableau_bytes(rest, 0) =~= Seq::<u8>::empty());
        assert(tableau_bytes(t, 1) =~= pile_bytes(t[0]));
        assert(pile_bytes(t[0]) + tableau_bytes(rest, 0) =~= pile_bytes(t[0]));
    } else {
        lemma_tableau_bytes_front(t, n - 1);
        assert(rest[n - 2] == t[n - 1]);
        assert(tableau_bytes(t, n) == tableau_bytes(t, n - 1) + pile_bytes(t[n - 1]));
        assert(tableau_bytes(rest, n - 1) == tableau_bytes(rest, n - 2) + pile_bytes(rest[n - 2]));
        assert(tableau_bytes(t, n) =~= pile_bytes(t[0]) + tableau_bytes(rest, n - 1));
    }
}

/// The first `n` columns (each of fewer than 256 cards), each followed by some
/// bytes, give the same bytes only when the columns and what follows are the
/// same.
proof fn lemma_tableau_prefix(ta: Seq<Seq<Card>>, tb: Seq<Seq<Card>>, n: int, x: Seq<u8>, y: Seq<u8>)
    requires
        0 <= n <= ta.len(),
        n <= tb.len(),
        forall|c: int| 0 <= c < n ==> (#[trigger] ta[c]).len() < 256,
        forall|c: int| 0 <= c < n ==> (#[trigger] tb[c]).len() < 256,
        tableau_bytes(ta, n) + x == tableau_bytes(tb, n) + y,
    ensures
        ta.subrange(0, n) == tb.subrange(0, n),
        x == y,
    decreases n,
{
    if n == 0 {
        assert(tableau_bytes(ta, 0) + x =~= x);
        assert(tableau_bytes(tb, 0) + y =~= y);
        assert(ta.subrange(0, 0) =~= tb.subrange(0, 0));
    } else {
        let ra = ta.subrange(1, ta.len() as int);
        let rb = tb.subrange(1, tb.len() as int);
        lemma_tableau_bytes_front(ta, n);
        lemma_tableau_bytes_front(tb, n);
        assert(pile_bytes(ta[0]) + (tableau_bytes(ra, n - 1) + x) =~= tableau_bytes(ta, n) + x);
        assert(pile_bytes(tb[0]) + (tableau_bytes(rb, n - 1) + y) =~= tableau_bytes(tb, n) + y);
        lemma_pile_prefix(ta[0], tb[0], tableau_bytes(ra, n - 1) + x, tableau_bytes(rb, n - 1) + y);
        assert forall|c: int| 0 <= c < n - 1 implies (#[trigger] ra[c]).len() < 256 by {
            assert(ra[c] == ta[c + 1]);
        }
        assert forall|c: int| 0 <= c < n - 1 implies (#[trigger] rb[c]).len() < 256 by {
            assert(rb[c] == tb[c + 1]);
        }
        lemma_tableau_prefix(ra, rb, n - 1, x, y);
        assert forall|c: int| 0 <= c < n implies ta[c] == tb[c] by {
            if c > 0 {
                assert(ra.subrange(0, n - 1)[c - 1] == rb.subrange(0, n - 1)[c - 1]);
            }
        }
        assert(ta.subrange(0, n) =~= tb.subrange(0, n));
    }
}

/// Every pile of a position holds fewer than 256 cards (a 52-card game's
/// always do).
pub open spec fn piles_small(m: GameModel) -> bool {
    &&& m.tableau.len() == 7
    &&& forall|c: int| 0 <= c < 7 ==> (#[trigger] m.tableau[c]).len() < 256
    &&& m.stock.len() < 256
    &&& m.waste.len() < 256
}

/// Exact keys are collision-free: two positions whose piles hold fewer than
/// 256 cards each and whose exact keys agree have the same columns, stock
/// and waste, the same top rank on each suit's foundation, and the same
/// recycles left.
pub proof fn lemma_exact_keys_collision_free(a: GameModel, b: GameModel)
    requires
        piles_small(a),
        piles_small(b),
        encode_spec(a) == encode_spec(b),
    ensures
        a.tableau == b.tableau,
        a.stock == b.stock,
        a.waste == b.waste,
        foundation_bytes(a) == foundation_bytes(b),
        recycle_bytes(a) == recycle_bytes(b),
{
    let xa = pile_bytes(a.stock) + pile_bytes(a.waste) + foundation_bytes(a) + recycle_bytes(a);
    let xb = pile_bytes(b.stock) + pile_bytes(b.waste) + foundation_bytes(b) + recycle_bytes(b);
    assert(encode_spec(a) =~= tableau_bytes(a.tableau, 7) + xa);
    assert(encode_spec(b) =~= tableau_bytes(b.tableau, 7) + xb);
    lemma_tableau_prefix(a.tableau, b.tableau, 7, xa, xb);
    assert(a.tableau =~= a.tableau.subrange(0, 7));
    assert(b.tableau =~= b.tableau.subrange(0, 7));
    let wa = pile_bytes(a.waste) + foundation_bytes(a) + recycle_bytes(a);
    let wb = pile_bytes(b.waste) + foundation_bytes(b) + recycle_bytes(b);
    assert(xa =~= pile_bytes(a.stock) + wa);
    assert(xb =~= pile_bytes(b.stock) + wb);
    lemma_pile_prefix(a.stock, b.stock, wa, wb);
    let fa = foundation_bytes(a) + recycle_bytes(a);
    let fb = foundation_bytes(b) + recycle_bytes(b);
    assert(wa =~= pile_bytes(a.waste) + fa);
    assert(wb =~= pile_bytes(b.waste) + fb);
    lemma_pile_prefix(a.waste, b.waste, fa, fb);
    assert(foundation_bytes(a) =~= fa.subrange(0, 4));
    assert(foundation_bytes(b) =~= fb.subrange(0, 4));
    assert(recycle_bytes(a) =~= fa.subrange(4, fa.len() as int));
    assert(recycle_bytes(b) =~= fb.subrange(4, fb.len() as int));
}

/// The number of cards in the first `n` columns of `t`.
pub open spec fn column_cards(t: Seq<Seq<Card>>, n: int) -> int
    decreases n,
{
    if n <= 0 {
        0
    } else {
        column_cards(t, n - 1) + t[n - 1].len()
    }
}

proof fn lemma_tableau_bytes_len(t: Seq<Seq<Card>>, n: int)
    requires
        n >= 0,
    ensures
        tableau_bytes(t, n).len() == n + column_cards(t, n),
    decreases n,
{
    if n > 0 {
        lemma_tableau_bytes_len(t, n - 1);
    }
}

/// An exact key holds a length byte and a byte per card for each column, the
/// stock and the waste, four foundation bytes, and one byte more exactly when
/// the redeal limit is bounded.
pub proof fn lemma_exact_key_len(m: GameModel)
    ensures
        encode_spec(m).len() == 7 + column_cards(m.tableau, 7) + 1 + m.stock.len() + 1
            + m.waste.len() + 4 + if m.config.redeal_limit is Some {
            1int
        } else {
            0int
        },
{
    lemma_tableau_bytes_len(m.tableau, 7);
}

} // verus!
