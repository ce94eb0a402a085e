//! The cards of a fresh deal: the 52 cards of the standard deck, each once.
use vstd::multiset::Multiset;
use vstd::prelude::*;

use crate::model::card::{rank_of_value, rank_value, suit_at, suit_index, Card, Rank, Suit};
use crate::model::deal::{deal_index, dealt_card, dealt_column, dealt_deck, dealt_stock, row_start};
use crate::model::deck::{lemma_fisher_yates_permutes, shuffled, standard_card, standard_cards};
use crate::model::invariants::{all_cards, card_id, pile_ids, piles_ids};
use crate::model::rules_spec::all_face_down;
use crate::model::state::{new_game_model, GameConfig};
use crate::model::suited::unique_cards;

verus! {

/// The identities of the cards of a sequence, in order.
pub open spec fn ids(s: Seq<Card>) -> Seq<(Rank, Suit)> {
    s.map_values(|c: Card| card_id(c))
}

/// The cards of the standard deck are 52 distinct identities.
proof fn lemma_standard_distinct()
    ensures
        ids(standard_cards()).no_duplicates(),
{
    let s = ids(standard_cards());
    assert forall|i: int, j: int| 0 <= i < 52 && 0 <= j < 52 && i != j implies s[i] != s[j] by {
        let a = standard_card(i);
        let b = standard_card(j);
        if card_id(a) == card_id(b) {
            let ri = i % 13 + 1;
            let rj = j % 13 + 1;
            assert(rank_value(rank_of_value(ri)) == ri);
            assert(rank_value(rank_of_value(rj)) == rj);
            assert(suit_index(suit_at(i / 13)) == i / 13);
            assert(suit_index(suit_at(j / 13)) == j / 13);
            assert(i == 13 * (i / 13) + i % 13);
            assert(j == 13 * (j / 13) + j % 13);
        }
    }
}

/// The shuffled deck holds the standard deck's cards, each once, face-down.
proof fn lemma_deck_distinct(seed: u64)
    ensures
        dealt_deck(seed).len() == 52,
        ids(dealt_deck(seed)).no_duplicates(),
{
    broadcast use vstd::seq_lib::group_to_multiset_ensures;

    let st = standard_cards();
    let d = dealt_deck(seed);
    lemma_fisher_yates_permutes(st, seed, 51);
    assert(d == crate::model::deck::fisher_yates(st, seed, 51).0);
    lemma_standard_distinct();
    // Every card of the shuffled deck is a standard card.
    assert forall|i: int| 0 <= i < 52 implies exists|k: int| 0 <= k < 52 && #[trigger] d[i] == st[k] by {
        assert(d.to_multiset().contains(d[i]));
        assert(st.to_multiset().contains(d[i]));
        assert(st.contains(d[i]));
    }
    // No standard card appears twice among them.
    assert(st.no_duplicates()) by {
        assert forall|i: int, j: int| 0 <= i < 52 && 0 <= j < 52 && i != j implies st[i] != st[j] by {
            assert(ids(st)[i] != ids(st)[j]);
        }
    }
    st.lemma_multiset_has_no_duplicates();
    assert forall|x: Card| d.to_multiset().contains(x) implies d.to_multiset().count(x) == 1 by {
        assert(st.to_multiset().contains(x));
    }
    d.lemma_multiset_has_no_duplicates_conv();
    let di = ids(d);
    assert forall|i: int, j: int| 0 <= i < 52 && 0 <= j < 52 && i != j implies di[i] != di[j] by {
        let ki = choose|k: int| 0 <= k < 52 && d[i] == st[k];
        let kj = choose|k: int| 0 <= k < 52 && d[j] == st[k];
        assert(d[i] != d[j]);
        assert(ki != kj);
        assert(ids(st)[ki] != ids(st)[kj]);
    }
}

/// Distinct dealing positions come from distinct places in the deck.
proof fn lemma_deal_index_distinct(r1: int, c1: int, r2: int, c2: int)
    requires
        0 <= r1 <= c1 < 7,
        0 <= r2 <= c2 < 7,
        r1 != r2 || c1 != c2,
    ensures
        deal_index(r1, c1) != deal_index(r2, c2),
{
}

/// Every dealing position comes from the 28 cards at the top of the deck.
proof fn lemma_deal_index_range(r: int, c: int)
    requires
        0 <= r <= c < 7,
    ensures
        0 <= deal_index(r, c) < 28,
{
}

/// The identity of the deck card dealt to row `r` of column `c`.
pub open spec fn deck_id(seed: u64, r: int, c: int) -> (Rank, Suit) {
    card_id(dealt_deck(seed)[51 - deal_index(r, c)])
}

/// An empty sequence of identities, or pile, holds no card.
proof fn lemma_empty_ids(s: Seq<(Rank, Suit)>)
    requires
        s.len() == 0,
    ensures
        s.to_multiset() =~= Multiset::empty(),
{
    broadcast use vstd::seq_lib::to_multiset_len;
    broadcast use vstd::multiset::lemma_multiset_empty_len;

    assert(s.to_multiset().len() == 0);
}

/// The identities of the first `n` columns of the deal, laid end to end.
pub open spec fn dealt_ids(seed: u64, n: int) -> Seq<(Rank, Suit)>
    decreases n,
{
    if n <= 0 {
        Seq::empty()
    } else {
        dealt_ids(seed, n - 1) + ids(dealt_column(seed, n - 1))
    }
}

/// The first `n` columns hold `n * (n + 1) / 2` cards.
proof fn lemma_dealt_ids_len(seed: u64, n: int)
    requires
        0 <= n <= 7,
    ensures
        dealt_ids(seed, n).len() == n * (n + 1) / 2,
    decreases n,
{
    if n > 0 {
        lemma_dealt_ids_len(seed, n - 1);
        assert((n - 1) * (n - 1 + 1) / 2 + n == n * (n + 1) / 2) by (nonlinear_arith);
    } else {
        assert(n * (n + 1) / 2 == 0) by (nonlinear_arith)
            requires
                n == 0,
        ;
    }
}

/// The `k`-th identity of the first `n` columns is that of the deck card
/// dealt to row `rc.0` of column `rc.1`.
proof fn lemma_dealt_id_at(seed: u64, n: int, k: int) -> (rc: (int, int))
    requires
        0 <= n <= 7,
        0 <= k < dealt_ids(seed, n).len(),
    ensures
        0 <= rc.0 <= rc.1 < n,
        dealt_ids(seed, n)[k] == deck_id(seed, rc.0, rc.1),
    decreases n,
{
    let prev = dealt_ids(seed, n - 1);
    let col = ids(dealt_column(seed, n - 1));
    assert(dealt_ids(seed, n) == prev + col);
    if k < prev.len() {
        lemma_dealt_id_at(seed, n - 1, k)
    } else {
        let r = k - prev.len();
        assert(dealt_ids(seed, n)[k] == col[r]);
        (r, n - 1)
    }
}

/// The identities of the first `n` columns are distinct.
proof fn lemma_dealt_ids_distinct(seed: u64, n: int)
    requires
        0 <= n <= 7,
    ensures
        dealt_ids(seed, n).no_duplicates(),
    decreases n,
{
    lemma_deck_distinct(seed);
    let g = ids(dealt_deck(seed));
    if n > 0 {
        lemma_dealt_ids_distinct(seed, n - 1);
        let prev = dealt_ids(seed, n - 1);
        let col = ids(dealt_column(seed, n - 1));
        assert forall|i: int, j: int| 0 <= i < col.len() && 0 <= j < col.len() && i != j implies col[i] != col[j] by {
            lemma_deal_index_distinct(i, n - 1, j, n - 1);
            lemma_deal_index_range(i, n - 1);
            lemma_deal_index_range(j, n - 1);
            assert(col[i] == g[51 - deal_index(i, n - 1)]);
            assert(col[j] == g[51 - deal_index(j, n - 1)]);
        }
        assert forall|i: int, j: int| 0 <= i < prev.len() && 0 <= j < col.len() implies prev[i] != col[j] by {
            let (r, c) = lemma_dealt_id_at(seed, n - 1, i);
            lemma_deal_index_distinct(r, c, j, n - 1);
            lemma_deal_index_range(r, c);
            lemma_deal_index_range(j, n - 1);
            assert(col[j] == g[51 - deal_index(j, n - 1)]);
            assert(prev[i] == g[51 - deal_index(r, c)]);
        }
        vstd::seq_lib::lemma_no_dup_in_concat(prev, col);
    }
}

/// The cards of the first `n` columns are those of their identities laid end
/// to end.
proof fn lemma_piles_ids_dealt(seed: u64, config: GameConfig, n: int)
    requires
        0 <= n <= 7,
    ensures
        piles_ids(new_game_model(seed, config).tableau, n) == dealt_ids(seed, n).to_multiset(),
    decreases n,
{
    if n > 0 {
        lemma_piles_ids_dealt(seed, config, n - 1);
        assert(new_game_model(seed, config).tableau[n - 1] == dealt_column(seed, n - 1));
        assert(pile_ids(dealt_column(seed, n - 1)) == ids(dealt_column(seed, n - 1)).to_multiset());
        vstd::seq_lib::lemma_multiset_commutative(dealt_ids(seed, n - 1), ids(dealt_column(seed, n - 1)));
    } else {
        lemma_empty_ids(dealt_ids(seed, 0));
    }
}


/// A fresh deal holds the 52 cards of the standard deck, each once.
pub proof fn lemma_new_game_cards(seed: u64, config: GameConfig)
    ensures
        unique_cards(new_game_model(seed, config)),
        all_cards(new_game_model(seed, config)).len() == 52,
{
    broadcast use vstd::multiset::group_multiset_axioms;
    broadcast use vstd::seq_lib::to_multiset_len;

    let m = new_game_model(seed, config);
    let d = dealt_deck(seed);
    let g = ids(d);
    lemma_deck_distinct(seed);
    lemma_dealt_ids_len(seed, 7);
    lemma_dealt_ids_distinct(seed, 7);
    let st = ids(m.stock);
    let tab = dealt_ids(seed, 7);
    assert(st.len() == 24);
    assert forall|i: int| 0 <= i < 24 implies st[i] == g[i] by {
        assert(m.stock[i].rank == d[i].rank && m.stock[i].suit == d[i].suit);
    }
    assert(st.no_duplicates()) by {
        assert forall|i: int, j: int| 0 <= i < 24 && 0 <= j < 24 && i != j implies st[i] != st[j] by {
            assert(st[i] == g[i] && st[j] == g[j]);
        }
    }
    assert forall|i: int, j: int| 0 <= i < st.len() && 0 <= j < tab.len() implies st[i] != tab[j] by {
        let (r, c) = lemma_dealt_id_at(seed, 7, j);
        lemma_deal_index_range(r, c);
        assert(tab[j] == g[51 - deal_index(r, c)]);
        assert(st[i] == g[i]);
    }
    vstd::seq_lib::lemma_no_dup_in_concat(st, tab);
    let flat = st + tab;
    vstd::seq_lib::lemma_multiset_commutative(st, tab);
    lemma_piles_ids_dealt(seed, config, 7);
    assert(pile_ids(m.stock) == st.to_multiset());
    lemma_empty_ids(m.waste.map_values(|c: Card| card_id(c)));
    assert(piles_ids(m.foundations, 4) =~= Multiset::empty()) by {
        reveal_with_fuel(piles_ids, 5);
        assert forall|f: int| 0 <= f < 4 implies pile_ids(#[trigger] m.foundations[f]) =~= Multiset::empty() by {
            lemma_empty_ids(m.foundations[f].map_values(|c: Card| card_id(c)));
        }
        assert(pile_ids(m.foundations[0]) =~= Multiset::empty());
        assert(pile_ids(m.foundations[1]) =~= Multiset::empty());
        assert(pile_ids(m.foundations[2]) =~= Multiset::empty());
        assert(pile_ids(m.foundations[3]) =~= Multiset::empty());
    }
    assert(all_cards(m) =~= flat.to_multiset());
    flat.lemma_multiset_has_no_duplicates();
    assert forall|v: (Rank, Suit)| #[trigger] all_cards(m).count(v) <= 1 by {
        if !flat.to_multiset().contains(v) {
        }
    }
    assert(flat.len() == 52);
}

} // verus!
