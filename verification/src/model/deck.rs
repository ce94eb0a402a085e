//! The standard 52-card deck and deterministic shuffling.
use vstd::prelude::*;

use crate::model::card::{rank_of_value, suit_at, Card, Rank, Suit};
use crate::model::rng::{splitmix_below, SplitMix64};

verus! {

/// The card at position `i` of the ordered standard deck: suits in the order
/// Clubs, Diamonds, Hearts, Spades, and within a suit ranks Ace..King, face-down.
pub open spec fn standard_card(i: int) -> Card {
    Card { rank: rank_of_value(i % 13 + 1), suit: suit_at(i / 13), face_up: false }
}

/// The ordered standard deck: every (rank, suit) combination exactly once.
pub open spec fn standard_cards() -> Seq<Card> {
    Seq::new(52, |i: int| standard_card(i))
}

/// `s` with the elements at `i` and `j` exchanged.
pub open spec fn seq_swap(s: Seq<Card>, i: int, j: int) -> Seq<Card> {
    s.update(i, s[j]).update(j, s[i])
}

/// Fisher–Yates from position `i` down to 1: swap `i` with a uniform `j` in
/// `0..=i` drawn from the generator, then continue with `i - 1`. Returns the
/// shuffled cards and the final generator state.
pub open spec fn fisher_yates(cards: Seq<Card>, state: u64, i: int) -> (Seq<Card>, u64)
    decreases i,
{
    if i <= 0 {
        (cards, state)
    } else {
        let (j, next) = splitmix_below(state, (i + 1) as u64);
        fisher_yates(seq_swap(cards, i, j as int), next, i - 1)
    }
}

/// The shuffle of `cards` driven by a generator in state `state`.
pub open spec fn shuffled(cards: Seq<Card>, state: u64) -> (Seq<Card>, u64) {
    if cards.len() <= 1 {
        (cards, state)
    } else {
        fisher_yates(cards, state, cards.len() - 1)
    }
}

/// Swapping two positions permutes a sequence: its multiset is unchanged.
pub proof fn lemma_swap_preserves_multiset(s: Seq<Card>, i: int, j: int)
    requires
        0 <= i < s.len(),
        0 <= j < s.len(),
    ensures
        seq_swap(s, i, j).to_multiset() == s.to_multiset(),
        seq_swap(s, i, j).len() == s.len(),
{
    broadcast use {
        vstd::seq_lib::to_multiset_update,
        vstd::multiset::group_multiset_properties,
        vstd::multiset::group_multiset_axioms,
    };

    let s1 = s.update(i, s[j]);
    assert(s1.to_multiset() == s.to_multiset().insert(s[j]).remove(s[i]));
    assert(seq_swap(s, i, j).to_multiset() == s1.to_multiset().insert(s[i]).remove(s1[j]));
    assert(s1[j] == s[j]);
    let m = s.to_multiset();
    assert(s.contains(s[i]));
    vstd::seq_lib::to_multiset_contains(s, s[i]);
    assert(m.count(s[i]) > 0);
    assert forall|x: Card|
        #[trigger] seq_swap(s, i, j).to_multiset().count(x) == m.count(x) by {
        if x == s[i] && x == s[j] {
        } else if x == s[i] {
        } else if x == s[j] {
        }
    }
    assert(seq_swap(s, i, j).to_multiset() =~= s.to_multiset());
}

/// Fisher–Yates only permutes the cards.
pub proof fn lemma_fisher_yates_permutes(cards: Seq<Card>, state: u64, i: int)
    requires
        i < cards.len(),
        i < 0xFFFF_FFFF_FFFF_FFFF,
    ensures
        fisher_yates(cards, state, i).0.to_multiset() == cards.to_multiset(),
        fisher_yates(cards, state, i).0.len() == cards.len(),
    decreases i,
{
    if i > 0 {
        let r = splitmix_below(state, (i + 1) as u64);
        let next = crate::model::rng::splitmix_advance(state);
        crate::model::rng::lemma_lemire_retry_below(
            next,
            crate::model::rng::splitmix_mix(next),
            (i + 1) as u64,
            crate::model::rng::redraw_limit(),
        );
        lemma_swap_preserves_multiset(cards, i, r.0 as int);
        lemma_fisher_yates_permutes(seq_swap(cards, i, r.0 as int), r.1, i - 1);
    }
}

/// A deck of cards. Order is significant; index 0 is the "bottom".
#[derive(Debug, Clone, PartialEq, Eq)]
pub struct Deck {
    pub cards: Vec<Card>,
}

impl Deck {
    /// Construct a standard, ordered 52-card deck: every (rank, suit)
    /// combination exactly once, all face-down. No jokers.
    pub fn standard() -> (d: Deck)
        ensures
            d.cards@ == standard_cards(),
    {
        let mut cards: Vec<Card> = Vec::with_capacity(52);
        let mut s: usize = 0;
        while s < 4
            invariant
                s <= 4,
                cards@ == standard_cards().take(13 * s as int),
            decreases 4 - s,
        {
            let suit = Suit::at(s);
            let mut r: u8 = 1;
            while r <= 13
                invariant
                    s < 4,
                    1 <= r <= 14,
                    suit == suit_at(s as int),
                    cards@ == standard_cards().take(13 * s as int + r - 1),
                decreases 14 - r,
            {
                let rank = match Rank::from_value(r) {
                    Some(rank) => rank,
                    None => Rank::King,
                };
                proof {
                    let k = 13 * s as int + r - 1;
                    assert(k % 13 == r - 1 && k / 13 == s) by (nonlinear_arith)
                        requires
                            k == 13 * s as int + r - 1,
                            1 <= r <= 13,
                    ;
                }
                cards.push(Card::new(rank, suit));
                assert(cards@ =~= standard_cards().take(13 * s as int + r));
                r = r + 1;
            }
            s = s + 1;
        }
        assert(cards@ =~= standard_cards());
        Deck { cards }
    }

    /// Number of cards in the deck.
    pub fn len(&self) -> (n: usize)
        ensures
            n == self.cards@.len(),
    {
        self.cards.len()
    }

    /// Whether the deck is empty.
    pub fn is_empty(&self) -> (b: bool)
        ensures
            b == (self.cards@.len() == 0),
    {
        self.cards.len() == 0
    }

    /// Shuffle the deck in place using an unbiased Fisher–Yates driven by the
    /// given deterministic PRNG: for `i` from the top index down to 1, swap `i`
    /// with a uniform `j` in `0..=i`. The same generator state yields the same order.
    pub fn shuffle(&mut self, rng: &mut SplitMix64)
        ensures
            (final(self).cards@, final(rng)@) == shuffled(old(self).cards@, old(rng)@),
            final(self).cards@.to_multiset() == old(self).cards@.to_multiset(),
            final(self).cards@.len() == old(self).cards@.len(),
    {
        let n = self.cards.len();
        if n <= 1 {
            return;
        }
        let ghost target = fisher_yates(self.cards@, rng@, n - 1);
        proof {
            lemma_fisher_yates_permutes(self.cards@, rng@, n - 1);
        }
        let mut i: usize = n - 1;
        while i >= 1
            invariant
                i < n,
                self.cards@.len() == n,
                fisher_yates(self.cards@, rng@, i as int) == target,
            decreases i,
        {
            let ghost before = self.cards@;
            let j = rng.next_below((i + 1) as u64) as usize;
            let a = self.cards[i];
            let b = self.cards[j];
            self.cards.set(i, b);
            self.cards.set(j, a);
            assert(self.cards@ =~= seq_swap(before, i as int, j as int));
            i = i - 1;
        }
    }
}

} // verus!
