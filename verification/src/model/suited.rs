//! The foundations of a position lie right: each holds a run of one suit
//! from the Ace up, and no two hold the same suit. Every move keeps this, as
//! long as no card of the position appears twice.
use vstd::prelude::*;

use crate::model::card::{rank_value, Card, Rank, Suit};
use crate::model::invariants::{
    all_cards, card_id, lemma_apply_keeps_cards, lemma_apply_keeps_well_laid, pile_ids, piles_ids,
    well_laid,
};
use crate::model::moves::Move;
use crate::model::pile::seq_top;
use crate::model::rules_spec::{apply_spec, foundation_accepts};
use crate::model::census::lemma_new_game_cards;
use crate::model::invariants::lemma_new_game_well_laid;
use crate::model::state::{new_game_model, GameConfig, GameModel};

verus! {

/// A run of one suit from the Ace up.
pub open spec fn suited_run(f: Seq<Card>) -> bool {
    forall|k: int| 0 <= k < f.len() ==> rank_value((#[trigger] f[k]).rank) == k + 1 && f[k].suit == f[0].suit
}

/// Four foundations, each a run of one suit from the Ace up, no two of one
/// suit.
pub open spec fn foundations_ok(m: GameModel) -> bool {
    &&& m.foundations.len() == 4
    &&& forall|i: int| 0 <= i < 4 ==> suited_run(#[trigger] m.foundations[i])
    &&& forall|i: int, j: int|
        0 <= i < 4 && 0 <= j < 4 && i != j && (#[trigger] m.foundations[i]).len() > 0 && (
        #[trigger] m.foundations[j]).len() > 0 ==> m.foundations[i][0].suit != m.foundations[j][0].suit
}

/// No card of the position appears twice.
pub open spec fn unique_cards(m: GameModel) -> bool {
    forall|v: (Rank, Suit)| #[trigger] all_cards(m).count(v) <= 1
}

/// A pile holds each of its cards.
proof fn lemma_pile_has(s: Seq<Card>, i: int)
    requires
        0 <= i < s.len(),
    ensures
        pile_ids(s).count(card_id(s[i])) >= 1,
{
    broadcast use vstd::seq_lib::group_to_multiset_ensures;

    let t = s.map_values(|c: Card| card_id(c));
    assert(t[i] == card_id(s[i]));
    assert(t.contains(card_id(s[i])));
}

/// The first `n` piles hold at least the cards of each of them.
proof fn lemma_piles_have(ps: Seq<Seq<Card>>, n: int, g: int, v: (Rank, Suit))
    requires
        0 <= g < n <= ps.len(),
    ensures
        piles_ids(ps, n).count(v) >= pile_ids(ps[g]).count(v),
    decreases n,
{
    broadcast use vstd::multiset::group_multiset_axioms;

    if g < n - 1 {
        lemma_piles_have(ps, n - 1, g, v);
    }
}

/// The Ace of a suit, pushed onto an empty foundation, is not already the
/// bottom card of another foundation: the card would appear twice.
proof fn lemma_lone_ace(m: GameModel, x: Card, from_waste: bool, c: int, g: int)
    requires
        foundations_ok(m),
        unique_cards(m),
        m.tableau.len() == 7,
        from_waste ==> m.waste.len() > 0 && x == m.waste.last(),
        !from_waste ==> 0 <= c < 7 && m.tableau[c].len() > 0 && x == m.tableau[c].last(),
        x.rank == Rank::Ace,
        0 <= g < 4,
        m.foundations[g].len() > 0,
    ensures
        m.foundations[g][0].suit != x.suit,
{
    broadcast use vstd::multiset::group_multiset_axioms;

    if m.foundations[g][0].suit == x.suit {
        let f = m.foundations[g];
        assert(rank_value(f[0].rank) == 1);
        assert(f[0].rank == Rank::Ace);
        let v = card_id(x);
        assert(card_id(f[0]) == v);
        lemma_pile_has(f, 0);
        lemma_piles_have(m.foundations, 4, g, v);
        if from_waste {
            lemma_pile_has(m.waste, m.waste.len() - 1);
        } else {
            lemma_pile_has(m.tableau[c], m.tableau[c].len() - 1);
            lemma_piles_have(m.tableau, 7, c, v);
        }
        assert(all_cards(m).count(v) >= 2);
    }
}

/// Pushing a card the foundation accepts keeps it a suited run, with its
/// bottom card unchanged when it was not empty.
proof fn lemma_push_suited(f: Seq<Card>, x: Card)
    requires
        suited_run(f),
        foundation_accepts(x, seq_top(f)),
    ensures
        suited_run(f.push(x)),
        f.len() > 0 ==> f.push(x)[0] == f[0],
        f.len() == 0 ==> f.push(x)[0] == x,
{
    let g = f.push(x);
    assert forall|k: int| 0 <= k < g.len() implies rank_value((#[trigger] g[k]).rank) == k + 1 && g[k].suit
        == g[0].suit by {
        if k < f.len() {
            assert(g[k] == f[k]);
        } else if f.len() > 0 {
            assert(f[f.len() - 1].suit == f[0].suit);
        }
    }
}

/// Every move keeps the foundations suited and of distinct suits, and keeps
/// each card appearing once.
pub proof fn lemma_apply_keeps_foundations_ok(m: GameModel, mv: Move)
    requires
        foundations_ok(m),
        unique_cards(m),
        m.tableau.len() == 7,
        apply_spec(m, mv) is Ok,
    ensures
        foundations_ok(apply_spec(m, mv)->Ok_0),
        unique_cards(apply_spec(m, mv)->Ok_0),
{
    let r = apply_spec(m, mv)->Ok_0;
    lemma_apply_keeps_cards(m, mv);
    assert(all_cards(r) == all_cards(m));
    match mv {
        Move::WasteToFoundation { foundation } => {
            let f = foundation as int;
            let x = m.waste.last();
            lemma_push_suited(m.foundations[f], x);
            if m.foundations[f].len() == 0 {
                assert forall|g: int| 0 <= g < 4 && g != f && m.foundations[g].len() > 0 implies m.foundations[g][0].suit
                    != x.suit by {
                    lemma_lone_ace(m, x, true, 0, g);
                }
            }
            assert(foundations_ok(r));
        },
        Move::TableauToFoundation { column, foundation } => {
            let f = foundation as int;
            let c = column as int;
            let x = m.tableau[c].last();
            lemma_push_suited(m.foundations[f], x);
            if m.foundations[f].len() == 0 {
                assert forall|g: int| 0 <= g < 4 && g != f && m.foundations[g].len() > 0 implies m.foundations[g][0].suit
                    != x.suit by {
                    lemma_lone_ace(m, x, false, c, g);
                }
            }
            assert(foundations_ok(r));
        },
        Move::FoundationToTableau { foundation, column } => {
            let f = foundation as int;
            let d = m.foundations[f].drop_last();
            assert(forall|k: int| 0 <= k < d.len() ==> d[k] == m.foundations[f][k]);
            assert(foundations_ok(r));
        },
        _ => {
            assert(r.foundations == m.foundations);
        },
    }
}

/// A position that can arise in play: laid right, with suited foundations of
/// distinct suits, the 52 cards each once, and a score that is not negative.
pub open spec fn in_play(m: GameModel) -> bool {
    &&& well_laid(m)
    &&& foundations_ok(m)
    &&& unique_cards(m)
    &&& all_cards(m).len() == 52
    &&& m.points >= 0
}

/// The position a move leaves: the rules' outcome when they accept it, else
/// the position unchanged.
pub open spec fn after_move(m: GameModel, mv: Move) -> GameModel {
    match apply_spec(m, mv) {
        Ok(r) => r,
        Err(_) => m,
    }
}

/// Every move, accepted or refused, keeps a position in play.
pub proof fn lemma_moves_keep_in_play(m: GameModel, mv: Move)
    requires
        in_play(m),
    ensures
        in_play(after_move(m, mv)),
{
    if apply_spec(m, mv) is Ok {
        lemma_apply_keeps_well_laid(m, mv);
        lemma_apply_keeps_foundations_ok(m, mv);
        lemma_apply_keeps_cards(m, mv);
    }
}

/// A fresh deal is in play.
pub proof fn lemma_new_game_in_play(seed: u64, config: GameConfig)
    ensures
        in_play(new_game_model(seed, config)),
{
    lemma_new_game_well_laid(seed, config);
    lemma_new_game_cards(seed, config);
    let m = new_game_model(seed, config);
    assert forall|f: int| 0 <= f < 4 implies (#[trigger] m.foundations[f]).len() == 0 by {}
}

} // verus!
