//! 128-bit Zobrist position hashing.
//!
//! A fixed pseudo-random value is assigned to each position *feature*; a
//! position's hash is the XOR of its features. The canonicalization matches the
//! byte encoding ([`super::encode`]): positional-only (no score/time),
//! foundations keyed by suit (slots interchangeable), and recycles-remaining
//! included only when the redeal is bounded. The feature values are the outputs
//! of the in-crate SplitMix64 generator from a fixed seed, two 64-bit draws per
//! feature, so hashing is deterministic.
use vstd::prelude::*;

use crate::model::card::{rank_value, suit_index, Card, Suit};
use crate::model::rng::{splitmix_advance, splitmix_mix, SplitMix64, GOLDEN_GAMMA};
use crate::model::state::{GameModel, GameState};
use crate::solver::heuristics::{foundation_rank, foundation_top_rank};

verus! {

/// The fixed seed from which all feature values are drawn.
pub const ZOBRIST_SEED: u64 = 0x5A0B_1257_ABCD_1234;

/// Tableau columns, stock and waste: the piles whose cards are hashed by position.
pub const NUM_PILES: u64 = 9;

/// The pile number of the stock among the hashed piles.
pub const STOCK_PILE: u64 = 7;

/// The pile number of the waste among the hashed piles.
pub const WASTE_PILE: u64 = 8;

/// Depths at or beyond this one share the deepest feature.
pub const MAX_DEPTH: u64 = 32;

/// Number of card features: 52 cards × 9 piles × 32 depths × 2 faces.
pub const NUM_CARD_FEATURES: u64 = 29952;

/// Recycle counts at or beyond this one share the last recycle feature.
pub const MAX_RECYCLES: u64 = 64;

/// The generator state from which feature `k` is drawn: the state after `2k`
/// draws from [`ZOBRIST_SEED`].
pub open spec fn feature_state(k: int) -> u64 {
    vstd::wrapping::u64_specs::wrapping_add(
        ZOBRIST_SEED,
        vstd::wrapping::u64_specs::wrapping_mul((2 * k) as u64, GOLDEN_GAMMA),
    )
}

/// Feature `k`: the next two generator outputs from [`feature_state`], the
/// first as the low 64 bits and the second as the high 64 bits.
pub open spec fn feature_value(k: int) -> u128 {
    let s1 = splitmix_advance(feature_state(k));
    let s2 = splitmix_advance(s1);
    ((splitmix_mix(s2) as u128) << 64u128) | (splitmix_mix(s1) as u128)
}

/// The feature number of `card` at `depth` (capped at 31) in hashed pile `pile`.
pub open spec fn card_feature(card: Card, pile: int, depth: int) -> int {
    let cid = suit_index(card.suit) * 13 + rank_value(card.rank) - 1;
    let d = if depth < 31 {
        depth
    } else {
        31
    };
    ((cid * 9 + pile) * 32 + d) * 2 + if card.face_up {
        1int
    } else {
        0int
    }
}

/// The feature number of `suit`'s foundation topped by `rank`.
pub open spec fn foundation_feature(suit: Suit, rank: int) -> int {
    29952 + suit_index(suit) * 14 + rank
}

/// The feature number of `remaining` recycles left (capped at 63).
pub open spec fn recycle_feature(remaining: int) -> int {
    29952 + 56 + if remaining < 63 {
        remaining
    } else {
        63
    }
}

/// XOR of the features of the first `n` cards of pile `s`, hashed as pile `pile`.
pub open spec fn pile_hash(s: Seq<Card>, pile: int, n: int) -> u128
    decreases n,
{
    if n <= 0 {
        0
    } else {
        pile_hash(s, pile, n - 1) ^ feature_value(card_feature(s[n - 1], pile, n - 1))
    }
}

/// XOR of the card features of the first `n` tableau columns.
pub open spec fn tableau_hash(t: Seq<Seq<Card>>, n: int) -> u128
    decreases n,
{
    if n <= 0 {
        0
    } else {
        tableau_hash(t, n - 1) ^ pile_hash(t[n - 1], n - 1, t[n - 1].len() as int)
    }
}

/// The feature of `suit`'s foundation, or 0 when it is empty.
pub open spec fn suit_hash(m: GameModel, suit: Suit) -> u128 {
    let r = foundation_top_rank(m, suit);
    if r > 0 {
        feature_value(foundation_feature(suit, r as int))
    } else {
        0
    }
}

/// The recycles-remaining feature under a bounded redeal, 0 otherwise.
pub open spec fn recycle_hash(m: GameModel) -> u128 {
    match m.config.redeal_limit {
        Some(limit) => feature_value(
            recycle_feature(
                if m.recycles >= limit {
                    0
                } else {
                    limit - m.recycles
                },
            ),
        ),
        None => 0,
    }
}

/// The Zobrist hash of a position: tableau, stock and waste card features,
/// then the four per-suit foundation features, then the recycle feature.
pub open spec fn zobrist_spec(m: GameModel) -> u128 {
    tableau_hash(m.tableau, 7) ^ pile_hash(m.stock, 7, m.stock.len() as int) ^ pile_hash(
        m.waste,
        8,
        m.waste.len() as int,
    ) ^ suit_hash(m, Suit::Clubs) ^ suit_hash(m, Suit::Diamonds) ^ suit_hash(m, Suit::Hearts)
        ^ suit_hash(m, Suit::Spades) ^ recycle_hash(m)
}

/// The value of feature `k`.
fn feature(k: u64) -> (f: u128)
    requires
        k < 0x1000_0000,
    ensures
        f == feature_value(k as int),
{
    let mut rng = SplitMix64::new(ZOBRIST_SEED.wrapping_add((2 * k).wrapping_mul(GOLDEN_GAMMA)));
    let lo = rng.next_u64() as u128;
    let hi = rng.next_u64() as u128;
    (hi << 64u128) | lo
}

/// The feature of `card` at `depth` in pile `pile`.
fn card_value(card: Card, pile: u64, depth: usize) -> (f: u128)
    requires
        pile < NUM_PILES,
    ensures
        f == feature_value(card_feature(card, pile as int, depth as int)),
{
    let cid: u64 = card.suit.index() as u64 * 13 + card.rank.value() as u64 - 1;
    let d: u64 = if depth < 31 {
        depth as u64
    } else {
        31
    };
    let face: u64 = if card.face_up {
        1
    } else {
        0
    };
    feature(((cid * NUM_PILES + pile) * MAX_DEPTH + d) * 2 + face)
}

/// XOR the features of every card of a pile into `h`.
fn hash_pile(h: u128, cards: &[Card], pile: u64) -> (r: u128)
    requires
        pile < NUM_PILES,
    ensures
        r == h ^ pile_hash(cards@, pile as int, cards@.len() as int),
{
    let n = cards.len();
    let mut acc: u128 = 0;
    let mut i: usize = 0;
    while i < n
        invariant
            n == cards@.len(),
            i <= n,
            pile < NUM_PILES,
            acc == pile_hash(cards@, pile as int, i as int),
        decreases n - i,
    {
        acc = acc ^ card_value(cards[i], pile, i);
        i = i + 1;
    }
    h ^ acc
}

/// The feature of `suit`'s foundation (0 when empty).
fn suit_value(state: &GameState, suit: Suit) -> (f: u128)
    ensures
        f == suit_hash(state@, suit),
{
    let rank = foundation_rank(state, suit);
    if rank > 0 {
        feature(NUM_CARD_FEATURES + suit.index() as u64 * 14 + rank as u64)
    } else {
        0
    }
}

/// The 128-bit Zobrist hash of `state`'s position.
pub fn zobrist(state: &GameState) -> (h: u128)
    ensures
        h == zobrist_spec(state@),
{
    proof {
        state.lemma_pile_counts();
    }
    let mut t: u128 = 0;
    let mut c: usize = 0;
    while c < 7
        invariant
            c <= 7,
            state@.tableau.len() == 7,
            t == tableau_hash(state@.tableau, c as int),
        decreases 7 - c,
    {
        t = hash_pile(t, state.column(c).cards(), c as u64);
        c = c + 1;
    }
    let mut h = hash_pile(t, state.stock_pile().cards(), STOCK_PILE);
    h = hash_pile(h, state.waste_pile().cards(), WASTE_PILE);
    h = h ^ suit_value(state, Suit::Clubs);
    h = h ^ suit_value(state, Suit::Diamonds);
    h = h ^ suit_value(state, Suit::Hearts);
    h = h ^ suit_value(state, Suit::Spades);
    let r: u128 = match state.config().redeal_limit {
        Some(limit) => {
            let done = state.recycles_done();
            let left: u64 = if done >= limit {
                0
            } else {
                (limit - done) as u64
            };
            let capped: u64 = if left < 63 {
                left
            } else {
                63
            };
            feature(NUM_CARD_FEATURES + 56 + capped)
        },
        None => 0,
    };
    h ^ r
}

} // verus!
