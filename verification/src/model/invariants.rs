//! What every move keeps: the way a position's cards lie (stock face-down,
//! waste and foundations face-up, each column a face-down prefix under a
//! face-up run with its top card showing), and the cards themselves (no card
//! appears or disappears).
use vstd::multiset::Multiset;
use vstd::prelude::*;

use crate::model::card::{Card, Rank, Suit};
use crate::model::laws::stock_and_waste_settled;
use crate::model::moves::Move;
use crate::model::pile::{
    face_down_prefix, face_down_prefix_ok, face_up_run, flip_top_up, lemma_face_down_prefix,
};
use crate::model::rules_spec::{
    all_face_down, all_face_up, apply_spec, draw_amount, moved_run, top_cards, without_top,
};
use crate::model::deal::{dealt_card, dealt_column};
use crate::model::state::{new_game_model, GameConfig, GameModel};

verus! {

/// A column lies right: no face-down card above a face-up one, and its top card
/// (if any) face-up.
pub open spec fn column_well_laid(s: Seq<Card>) -> bool {
    face_down_prefix_ok(s) && (s.len() > 0 ==> s.last().face_up)
}

/// Every card of `s` is face-up.
pub open spec fn all_up(s: Seq<Card>) -> bool {
    forall|i: int| 0 <= i < s.len() ==> (#[trigger] s[i]).face_up
}

/// A position lies right: four foundations and seven columns, the stock
/// face-down, the waste and the foundations face-up, every column well laid.
pub open spec fn well_laid(m: GameModel) -> bool {
    &&& m.foundations.len() == 4
    &&& m.tableau.len() == 7
    &&& stock_and_waste_settled(m)
    &&& forall|f: int| 0 <= f < 4 ==> all_up(#[trigger] m.foundations[f])
    &&& forall|c: int| 0 <= c < 7 ==> column_well_laid(#[trigger] m.tableau[c])
}

/// The top `count` cards of a well-laid column's face-up run are face-up.
proof fn lemma_run_face_up(s: Seq<Card>, count: int)
    requires
        face_down_prefix_ok(s),
        0 <= count <= face_up_run(s).len(),
    ensures
        all_up(top_cards(s, count)),
{
    lemma_face_down_prefix(s);
    let p = face_down_prefix(s) as int;
    assert forall|i: int| 0 <= i < count implies (#[trigger] top_cards(s, count)[i]).face_up by {
        let k = s.len() - count + i;
        assert(top_cards(s, count)[i] == s[k]);
        assert(k >= p);
        if k > p {
            assert(s[p].face_up);
        }
    }
}

/// A well-laid prefix of a well-laid column, with its top turned up, is well laid.
proof fn lemma_rest_flipped_well_laid(s: Seq<Card>, k: int)
    requires
        face_down_prefix_ok(s),
        0 <= k <= s.len(),
    ensures
        column_well_laid(flip_top_up(s.take(k))),
{
    let r = s.take(k);
    let f = flip_top_up(r);
    assert forall|i: int, j: int| 0 <= i < j < f.len() && #[trigger] f[i].face_up implies #[trigger] f[j].face_up by {
        if j < r.len() - 1 {
            assert(f[i] == s[i] && f[j] == s[j]);
        }
    }
}

/// Putting face-up cards on a well-laid column keeps it well laid.
proof fn lemma_append_up_well_laid(a: Seq<Card>, b: Seq<Card>)
    requires
        column_well_laid(a),
        all_up(b),
    ensures
        face_down_prefix_ok(a + b),
        b.len() > 0 ==> column_well_laid(a + b),
        b.len() == 0 ==> column_well_laid(a + b),
{
    let s = a + b;
    assert forall|i: int, j: int| 0 <= i < j < s.len() && #[trigger] s[i].face_up implies #[trigger] s[j].face_up by {
        if j >= a.len() {
            assert(s[j] == b[j - a.len()]);
        } else {
            assert(s[i] == a[i] && s[j] == a[j]);
        }
    }
    if b.len() == 0 {
        assert(s =~= a);
    } else {
        assert(s.last() == b[b.len() - 1]);
    }
}

/// Every legal move keeps a well-laid position well laid.
pub proof fn lemma_apply_keeps_well_laid(m: GameModel, mv: Move)
    requires
        well_laid(m),
        apply_spec(m, mv) is Ok,
    ensures
        well_laid(apply_spec(m, mv)->Ok_0),
{
    let r = apply_spec(m, mv)->Ok_0;
    match mv {
        Move::Draw => {
            let n = draw_amount(m) as int;
            assert forall|i: int| 0 <= i < r.stock.len() implies !(#[trigger] r.stock[i]).face_up by {
                assert(r.stock[i] == m.stock[i]);
            }
            assert forall|i: int| 0 <= i < r.waste.len() implies (#[trigger] r.waste[i]).face_up by {
                if i >= m.waste.len() {
                    assert(r.waste[i] == all_face_up(top_cards(m.stock, n).reverse())[i
                        - m.waste.len()]);
                } else {
                    assert(r.waste[i] == m.waste[i]);
                }
            }
        },
        Move::Recycle => {
            assert forall|i: int| 0 <= i < r.stock.len() implies !(#[trigger] r.stock[i]).face_up by {
                assert(r.stock[i] == all_face_down(m.waste.reverse())[i]);
            }
        },
        Move::WasteToFoundation { foundation } => {
            let fi = foundation as int;
            assert forall|i: int| 0 <= i < r.waste.len() implies (#[trigger] r.waste[i]).face_up by {
                assert(r.waste[i] == m.waste[i]);
            }
            assert(m.waste[m.waste.len() - 1].face_up);
            assert forall|f: int| 0 <= f < 4 implies all_up(#[trigger] r.foundations[f]) by {
                if f == fi {
                    assert forall|i: int| 0 <= i < r.foundations[f].len() implies (
                    #[trigger] r.foundations[f][i]).face_up by {
                        if i < m.foundations[f].len() {
                            assert(all_up(m.foundations[f]));
                            assert(r.foundations[f][i] == m.foundations[f][i]);
                        }
                    }
                }
            }
        },
        Move::WasteToTableau { column } => {
            let ci = column as int;
            assert forall|i: int| 0 <= i < r.waste.len() implies (#[trigger] r.waste[i]).face_up by {
                assert(r.waste[i] == m.waste[i]);
            }
            assert(m.waste[m.waste.len() - 1].face_up);
            assert forall|c: int| 0 <= c < 7 implies column_well_laid(#[trigger] r.tableau[c]) by {
                if c == ci {
                    assert(column_well_laid(m.tableau[c]));
                    assert(all_up(seq![m.waste.last()]));
                    lemma_append_up_well_laid(m.tableau[c], seq![m.waste.last()]);
                    assert(m.tableau[c].push(m.waste.last()) =~= m.tableau[c] + seq![m.waste.last()]);
                }
            }
        },
        Move::TableauToTableau { from, to, count } => {
            let fr = from as int;
            let t = to as int;
            let c = count as int;
            let src = m.tableau[fr];
            assert(column_well_laid(src));
            lemma_face_down_prefix(src);
            lemma_run_face_up(src, c);
            let run = moved_run(m, fr, c);
            assert(column_well_laid(m.tableau[t]));
            lemma_append_up_well_laid(m.tableau[t], run);
            assert(without_top(src, c) =~= src.take(src.len() - c));
            lemma_rest_flipped_well_laid(src, src.len() - c);
            assert forall|k: int| 0 <= k < 7 implies column_well_laid(#[trigger] r.tableau[k]) by {
                if k != fr && k != t {
                    assert(r.tableau[k] == m.tableau[k]);
                }
            }
        },
        Move::TableauToFoundation { column, foundation } => {
            let ci = column as int;
            let fi = foundation as int;
            let src = m.tableau[ci];
            assert(column_well_laid(src));
            assert(src.drop_last() =~= src.take(src.len() - 1));
            lemma_rest_flipped_well_laid(src, src.len() - 1);
            assert forall|k: int| 0 <= k < 7 implies column_well_laid(#[trigger] r.tableau[k]) by {
                if k != ci {
                    assert(r.tableau[k] == m.tableau[k]);
                }
            }
            assert forall|f: int| 0 <= f < 4 implies all_up(#[trigger] r.foundations[f]) by {
                if f == fi {
                    assert forall|i: int| 0 <= i < r.foundations[f].len() implies (
                    #[trigger] r.foundations[f][i]).face_up by {
                        if i < m.foundations[f].len() {
                            assert(all_up(m.foundations[f]));
                            assert(r.foundations[f][i] == m.foundations[f][i]);
                        }
                    }
                }
            }
        },
        Move::FoundationToTableau { foundation, column } => {
            let ci = column as int;
            let fi = foundation as int;
            assert(all_up(m.foundations[fi]));
            let card = m.foundations[fi].last();
            assert(card.face_up);
            assert forall|f: int| 0 <= f < 4 implies all_up(#[trigger] r.foundations[f]) by {
                if f == fi {
                    assert forall|i: int| 0 <= i < r.foundations[f].len() implies (
                    #[trigger] r.foundations[f][i]).face_up by {
                        assert(r.foundations[f][i] == m.foundations[f][i]);
                    }
                } else {
                    assert(r.foundations[f] == m.foundations[f]);
                }
            }
            assert forall|c: int| 0 <= c < 7 implies column_well_laid(#[trigger] r.tableau[c]) by {
                if c == ci {
                    assert(column_well_laid(m.tableau[c]));
                    assert(all_up(seq![card]));
                    lemma_append_up_well_laid(m.tableau[c], seq![card]);
                    assert(m.tableau[c].push(card) =~= m.tableau[c] + seq![card]);
                } else {
                    assert(r.tableau[c] == m.tableau[c]);
                }
            }
        },
    }
}

/// A new game lies right: the deal puts a face-down stock, an empty waste,
/// empty foundations, and columns of face-down cards under one face-up card.
pub proof fn lemma_new_game_well_laid(seed: u64, config: GameConfig)
    ensures
        well_laid(new_game_model(seed, config)),
{
    let m = new_game_model(seed, config);
    assert forall|c: int| 0 <= c < 7 implies column_well_laid(#[trigger] m.tableau[c]) by {
        let col = dealt_column(seed, c);
        assert(m.tableau[c] == col);
        assert forall|i: int, j: int| 0 <= i < j < col.len() && #[trigger] col[i].face_up implies #[trigger] col[j].face_up by {
            assert(col[i] == dealt_card(seed, i, c));
        }
        assert(col.last() == dealt_card(seed, c, c));
    }
    assert forall|f: int| 0 <= f < 4 implies all_up(#[trigger] m.foundations[f]) by {
        assert(m.foundations[f].len() == 0);
    }
}

/// The identity of a card, whichever way it faces.
pub open spec fn card_id(c: Card) -> (Rank, Suit) {
    (c.rank, c.suit)
}

/// The identities of the cards of a pile.
pub open spec fn pile_ids(s: Seq<Card>) -> Multiset<(Rank, Suit)> {
    s.map_values(|c: Card| card_id(c)).to_multiset()
}

/// The identities of the cards of the first `n` piles.
pub open spec fn piles_ids(ps: Seq<Seq<Card>>, n: int) -> Multiset<(Rank, Suit)>
    decreases n,
{
    if n <= 0 {
        Multiset::empty()
    } else {
        piles_ids(ps, n - 1).add(pile_ids(ps[n - 1]))
    }
}

/// The identities of every card of a position: stock, waste, foundations, tableau.
pub open spec fn all_cards(m: GameModel) -> Multiset<(Rank, Suit)> {
    pile_ids(m.stock).add(pile_ids(m.waste)).add(piles_ids(m.foundations, 4)).add(
        piles_ids(m.tableau, 7),
    )
}

/// The cards of two piles laid end to end are the cards of each.
proof fn lemma_ids_concat(a: Seq<Card>, b: Seq<Card>)
    ensures
        forall|v: (Rank, Suit)| #[trigger] pile_ids(a + b).count(v) == pile_ids(a).count(v) + pile_ids(b).count(v),
{
    broadcast use vstd::multiset::group_multiset_axioms;

    let f = |c: Card| card_id(c);
    assert((a + b).map_values(f) =~= a.map_values(f) + b.map_values(f));
    vstd::seq_lib::lemma_multiset_commutative(a.map_values(f), b.map_values(f));
}

/// Piles holding the same cards position by position, whatever their faces,
/// hold the same identities.
proof fn lemma_ids_same_cards(s: Seq<Card>, t: Seq<Card>)
    requires
        s.len() == t.len(),
        forall|i: int| 0 <= i < s.len() ==> card_id(#[trigger] s[i]) == card_id(t[i]),
    ensures
        pile_ids(s) == pile_ids(t),
{
    let f = |c: Card| card_id(c);
    assert(s.map_values(f) =~= t.map_values(f));
}

/// Reversing a pile keeps its cards.
proof fn lemma_ids_reverse(s: Seq<Card>)
    ensures
        pile_ids(s.reverse()) == pile_ids(s),
{
    let f = |c: Card| card_id(c);
    assert(s.reverse().map_values(f) =~= s.map_values(f).reverse());
    s.map_values(f).lemma_reverse_to_multiset();
}

/// A pile's cards are those of its bottom `k` and of the rest.
proof fn lemma_ids_split(s: Seq<Card>, k: int)
    requires
        0 <= k <= s.len(),
    ensures
        forall|v: (Rank, Suit)| #[trigger] pile_ids(s).count(v) == pile_ids(s.take(k)).count(v) + pile_ids(s.skip(k)).count(v),
{
    assert(s =~= s.take(k) + s.skip(k));
    lemma_ids_concat(s.take(k), s.skip(k));
}

/// An empty pile holds no cards.
proof fn lemma_ids_empty(s: Seq<Card>)
    requires
        s.len() == 0,
    ensures
        forall|v: (Rank, Suit)| #[trigger] pile_ids(s).count(v) == 0,
{
    broadcast use vstd::seq_lib::group_to_multiset_ensures;

    let t = s.map_values(|c: Card| card_id(c));
    assert forall|v: (Rank, Suit)| #[trigger] pile_ids(s).count(v) == 0 by {
        assert(!t.contains(v));
    }
}

/// Replacing pile `c` exchanges its cards for the new pile's.
proof fn lemma_piles_update(ps: Seq<Seq<Card>>, n: int, c: int, x: Seq<Card>)
    requires
        0 <= c < n <= ps.len(),
    ensures
        forall|v: (Rank, Suit)| #[trigger] piles_ids(ps.update(c, x), n).count(v) + pile_ids(ps[c]).count(v)
            == piles_ids(ps, n).count(v) + pile_ids(x).count(v),
    decreases n,
{
    broadcast use vstd::multiset::group_multiset_axioms;

    let qs = ps.update(c, x);
    if n - 1 == c {
        lemma_piles_prefix_same(ps, qs, n - 1);
    } else {
        lemma_piles_update(ps, n - 1, c, x);
        assert(qs[n - 1] == ps[n - 1]);
        assert forall|v: (Rank, Suit)| #[trigger] piles_ids(qs, n).count(v) + pile_ids(ps[c]).count(v)
            == piles_ids(ps, n).count(v) + pile_ids(x).count(v) by {
            assert(piles_ids(qs, n - 1).count(v) + pile_ids(ps[c]).count(v) == piles_ids(ps, n - 1).count(v) + pile_ids(x).count(v));
        }
    }
}

/// Two pile sequences that agree on their first `n` piles hold the same cards there.
proof fn lemma_piles_prefix_same(ps: Seq<Seq<Card>>, qs: Seq<Seq<Card>>, n: int)
    requires
        n <= ps.len(),
        n <= qs.len(),
        forall|i: int| 0 <= i < n ==> ps[i] == qs[i],
    ensures
        piles_ids(ps, n) == piles_ids(qs, n),
    decreases n,
{
    if n > 0 {
        lemma_piles_prefix_same(ps, qs, n - 1);
    }
}

/// Pushing one card adds it; taking off the top card removes it.
proof fn lemma_ids_push(s: Seq<Card>, x: Card)
    ensures
        forall|v: (Rank, Suit)| #[trigger] pile_ids(s.push(x)).count(v) == pile_ids(s).count(v) + pile_ids(seq![x]).count(v),
        s.len() > 0 ==> forall|v: (Rank, Suit)| #[trigger] pile_ids(s).count(v) == pile_ids(s.drop_last()).count(v) + pile_ids(seq![s.last()]).count(v),
{
    assert(s.push(x) =~= s + seq![x]);
    lemma_ids_concat(s, seq![x]);
    if s.len() > 0 {
        assert(s =~= s.drop_last() + seq![s.last()]);
        lemma_ids_concat(s.drop_last(), seq![s.last()]);
    }
}

/// Turning a pile's top card up keeps its cards.
proof fn lemma_ids_flip_top(s: Seq<Card>)
    ensures
        pile_ids(flip_top_up(s)) == pile_ids(s),
{
    lemma_ids_same_cards(flip_top_up(s), s);
}

/// Every legal move keeps the cards of a position: none appears or disappears.
pub proof fn lemma_apply_keeps_cards(m: GameModel, mv: Move)
    requires
        m.foundations.len() == 4,
        m.tableau.len() == 7,
        apply_spec(m, mv) is Ok,
    ensures
        all_cards(apply_spec(m, mv)->Ok_0) == all_cards(m),
{
    broadcast use vstd::multiset::group_multiset_axioms;

    let r = apply_spec(m, mv)->Ok_0;
    match mv {
        Move::Draw => {
            let n = draw_amount(m) as int;
            let top = top_cards(m.stock, n);
            lemma_ids_split(m.stock, m.stock.len() - n);
            assert(m.stock.take(m.stock.len() - n) =~= without_top(m.stock, n));
            assert(m.stock.skip(m.stock.len() - n) =~= top);
            lemma_ids_concat(m.waste, all_face_up(top.reverse()));
            lemma_ids_same_cards(all_face_up(top.reverse()), top.reverse());
            lemma_ids_reverse(top);
            assert(all_cards(r) =~= all_cards(m));
        },
        Move::Recycle => {
            lemma_ids_same_cards(all_face_down(m.waste.reverse()), m.waste.reverse());
            lemma_ids_reverse(m.waste);
            lemma_ids_empty(m.stock);
            lemma_ids_empty(r.waste);
            assert(all_cards(r) =~= all_cards(m));
        },
        Move::WasteToFoundation { foundation } => {
            let fi = foundation as int;
            let x = m.waste.last();
            lemma_ids_push(m.waste, x);
            lemma_ids_push(m.foundations[fi], x);
            lemma_piles_update(m.foundations, 4, fi, m.foundations[fi].push(x));
            assert(all_cards(r) =~= all_cards(m));
        },
        Move::WasteToTableau { column } => {
            let ci = column as int;
            let x = m.waste.last();
            lemma_ids_push(m.waste, x);
            lemma_ids_push(m.tableau[ci], x);
            lemma_piles_update(m.tableau, 7, ci, m.tableau[ci].push(x));
            assert(all_cards(r) =~= all_cards(m));
        },
        Move::TableauToTableau { from, to, count } => {
            let fr = from as int;
            let t = to as int;
            let c = count as int;
            let src = m.tableau[fr];
            lemma_face_down_prefix(src);
            let run = moved_run(m, fr, c);
            let rest = without_top(src, c);
            let t1 = m.tableau.update(t, m.tableau[t] + run);
            lemma_piles_update(m.tableau, 7, t, m.tableau[t] + run);
            lemma_ids_concat(m.tableau[t], run);
            assert(t1[fr] == src);
            lemma_piles_update(t1, 7, fr, flip_top_up(rest));
            lemma_ids_flip_top(rest);
            lemma_ids_split(src, src.len() - c);
            assert(src.take(src.len() - c) =~= rest);
            assert(src.skip(src.len() - c) =~= run);
            assert(piles_ids(r.tableau, 7) =~= piles_ids(m.tableau, 7));
            assert(all_cards(r) =~= all_cards(m));
        },
        Move::TableauToFoundation { column, foundation } => {
            let ci = column as int;
            let fi = foundation as int;
            let src = m.tableau[ci];
            let x = src.last();
            lemma_ids_push(src, x);
            lemma_ids_flip_top(src.drop_last());
            lemma_piles_update(m.tableau, 7, ci, flip_top_up(src.drop_last()));
            lemma_ids_push(m.foundations[fi], x);
            lemma_piles_update(m.foundations, 4, fi, m.foundations[fi].push(x));
            assert(all_cards(r) =~= all_cards(m));
        },
        Move::FoundationToTableau { foundation, column } => {
            let ci = column as int;
            let fi = foundation as int;
            let x = m.foundations[fi].last();
            lemma_ids_push(m.foundations[fi], x);
            lemma_piles_update(m.foundations, 4, fi, m.foundations[fi].drop_last());
            lemma_ids_push(m.tableau[ci], x);
            lemma_piles_update(m.tableau, 7, ci, m.tableau[ci].push(x));
            assert(all_cards(r) =~= all_cards(m));
        },
    }
}

} // verus!
