//! Compact, canonical byte encoding of a game position — the cycle-detection key.
//!
//! Layout (all lengths fit in a byte for a 52-card game):
//! - 7 tableau columns, each `[len, card…]` in column order (face-up flag kept);
//! - stock `[len, card…]`, waste `[len, card…]`;
//! - 4 foundation bytes: the top rank present per suit in Clubs, Diamonds,
//!   Hearts, Spades order (0 = empty) — canonical, so foundation-slot
//!   permutations encode identically;
//! - one trailing byte with recycles remaining, **only** when the redeal limit
//!   is bounded (it never changes legality under unlimited redeals).
use vstd::prelude::*;

use crate::model::card::{rank_value, suit_index, Card, Suit};
use crate::model::state::{GameModel, GameState};
use crate::solver::heuristics::{foundation_rank, foundation_top_rank};

verus! {

/// One card as a byte: rank in bits 0-3, suit in bits 4-5, face-up in bit 6.
pub open spec fn card_byte(c: Card) -> u8 {
    (rank_value(c.rank) + 16 * suit_index(c.suit) + if c.face_up {
        64nat
    } else {
        0nat
    }) as u8
}

/// A pile as its length byte (modulo 256) followed by its card bytes.
pub open spec fn pile_bytes(s: Seq<Card>) -> Seq<u8> {
    seq![(s.len() % 256) as u8] + s.map_values(|c: Card| card_byte(c))
}

/// The first `n` tableau columns, each as [`pile_bytes`], in column order.
pub open spec fn tableau_bytes(t: Seq<Seq<Card>>, n: int) -> Seq<u8>
    decreases n,
{
    if n <= 0 {
        Seq::empty()
    } else {
        tableau_bytes(t, n - 1) + pile_bytes(t[n - 1])
    }
}

/// The four foundation bytes: the top rank of each suit's foundation.
pub open spec fn foundation_bytes(m: GameModel) -> Seq<u8> {
    seq![
        foundation_top_rank(m, Suit::Clubs) as u8,
        foundation_top_rank(m, Suit::Diamonds) as u8,
        foundation_top_rank(m, Suit::Hearts) as u8,
        foundation_top_rank(m, Suit::Spades) as u8,
    ]
}

/// The recycles still allowed by a bounded redeal limit, capped at 255.
pub open spec fn recycles_left_byte(limit: u32, done: u32) -> u8 {
    let left: int = if done >= limit {
        0
    } else {
        limit - done
    };
    if left > 255 {
        255
    } else {
        left as u8
    }
}

/// The trailing byte: recycles remaining under a bounded redeal, nothing otherwise.
pub open spec fn recycle_bytes(m: GameModel) -> Seq<u8> {
    match m.config.redeal_limit {
        Some(limit) => seq![recycles_left_byte(limit, m.recycles)],
        None => Seq::empty(),
    }
}

/// The canonical encoding of a position: tableau, stock, waste, foundations,
/// and (when bounded) the recycles remaining. Score and time are not part of it.
pub open spec fn encode_spec(m: GameModel) -> Seq<u8> {
    tableau_bytes(m.tableau, 7) + pile_bytes(m.stock) + pile_bytes(m.waste) + foundation_bytes(m)
        + recycle_bytes(m)
}

/// A compact, hashable encoding of a position. Cheap to clone and compare.
#[derive(Debug, Clone, PartialEq, Eq, Hash)]
pub struct PositionKey(Vec<u8>);

impl View for PositionKey {
    type V = Seq<u8>;

    closed spec fn view(&self) -> Seq<u8> {
        self.0@
    }
}

impl PositionKey {
    /// Number of bytes in the encoding.
    pub fn len(&self) -> (n: usize)
        ensures
            n == self@.len(),
    {
        self.0.len()
    }

    /// Whether the encoding has no bytes.
    pub fn is_empty(&self) -> (b: bool)
        ensures
            b == (self@.len() == 0),
    {
        self.0.len() == 0
    }

    /// Whether two keys hold the same bytes.
    pub fn same(&self, other: &PositionKey) -> (b: bool)
        ensures
            b == (self@ == other@),
    {
        let n = self.0.len();
        if n != other.0.len() {
            return false;
        }
        let mut i: usize = 0;
        while i < n
            invariant
                n == self@.len(),
                n == other@.len(),
                i <= n,
                forall|j: int| 0 <= j < i ==> self@[j] == other@[j],
            decreases n - i,
        {
            if self.0[i] != other.0[i] {
                return false;
            }
            i = i + 1;
        }
        assert(self@ =~= other@);
        true
    }

    /// An independent copy of this key.
    pub fn duplicate(&self) -> (k: PositionKey)
        ensures
            k@ == self@,
    {
        let mut v: Vec<u8> = Vec::new();
        let mut i: usize = 0;
        while i < self.0.len()
            invariant
                i <= self@.len(),
                v@ == self@.subrange(0, i as int),
            decreases self@.len() - i,
        {
            v.push(self.0[i]);
            i = i + 1;
            assert(v@ =~= self@.subrange(0, i as int));
        }
        assert(v@ =~= self@);
        PositionKey(v)
    }

    /// The bytes of the key, in order.
    pub fn bytes(&self) -> (b: &[u8])
        ensures
            b@ == self@,
    {
        self.0.as_slice()
    }
}

/// Encode a single card into one byte.
fn encode_card(card: Card) -> (b: u8)
    ensures
        b == card_byte(card),
{
    let face: u8 = if card.face_up {
        64
    } else {
        0
    };
    card.rank.value() + 16 * card.suit.index() + face
}

/// Append a pile's length byte and card bytes.
fn push_pile(bytes: &mut Vec<u8>, cards: &[Card])
    ensures
        final(bytes)@ == old(bytes)@ + pile_bytes(cards@),
{
    let n = cards.len();
    bytes.push((n % 256) as u8);
    let ghost start = bytes@;
    let mut i: usize = 0;
    while i < n
        invariant
            n == cards@.len(),
            i <= n,
            bytes@ == start + cards@.subrange(0, i as int).map_values(|c: Card| card_byte(c)),
        decreases n - i,
    {
        bytes.push(encode_card(cards[i]));
        proof {
            assert(cards@.subrange(0, i + 1).map_values(|c: Card| card_byte(c)) =~= cards@.subrange(
                0,
                i as int,
            ).map_values(|c: Card| card_byte(c)).push(card_byte(cards@[i as int])));
        }
        i = i + 1;
    }
    assert(cards@.subrange(0, n as int) =~= cards@);
    assert(bytes@ =~= old(bytes)@ + pile_bytes(cards@));
}

/// Encode a full position into a canonical [`PositionKey`].
pub fn encode(state: &GameState) -> (k: PositionKey)
    ensures
        k@ == encode_spec(state@),
{
    proof {
        state.lemma_pile_counts();
    }
    let mut bytes: Vec<u8> = Vec::new();
    let mut c: usize = 0;
    while c < 7
        invariant
            c <= 7,
            state@.tableau.len() == 7,
            bytes@ == tableau_bytes(state@.tableau, c as int),
        decreases 7 - c,
    {
        push_pile(&mut bytes, state.column(c).cards());
        c = c + 1;
    }
    push_pile(&mut bytes, state.stock_pile().cards());
    push_pile(&mut bytes, state.waste_pile().cards());
    bytes.push(foundation_rank(state, Suit::Clubs));
    bytes.push(foundation_rank(state, Suit::Diamonds));
    bytes.push(foundation_rank(state, Suit::Hearts));
    bytes.push(foundation_rank(state, Suit::Spades));
    let ghost before = bytes@;
    match state.config().redeal_limit {
        Some(limit) => {
            let done = state.recycles_done();
            let left: u32 = if done >= limit {
                0
            } else {
                limit - done
            };
            let b: u8 = if left > 255 {
                255
            } else {
                left as u8
            };
            bytes.push(b);
        },
        None => {},
    }
    assert(bytes@ =~= encode_spec(state@));
    PositionKey(bytes)
}

} // verus!
