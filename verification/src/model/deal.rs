//! Dealing a fresh Klondike layout from a seed.
//!
//! The deal is the classic row-by-row method and is fully determined by the
//! seed: shuffle a standard deck with the in-crate PRNG, then deal cards across
//! the seven columns so that column `c` (0-based) receives `c + 1` cards with
//! only its top card face-up. The remaining 24 cards form the face-down stock.
use vstd::prelude::*;

use crate::model::card::Card;
use crate::model::deck::{shuffled, standard_cards, Deck};
use crate::model::pile::{Foundation, Stock, TableauColumn, Waste};
use crate::model::rng::SplitMix64;
use crate::model::rules_spec::all_face_down;

verus! {

/// The standard deck shuffled by a generator seeded with `seed`.
pub open spec fn dealt_deck(seed: u64) -> Seq<Card> {
    shuffled(standard_cards(), seed).0
}

/// How many cards have been dealt before row `r` starts (row `r` gives one
/// card to each of the columns `r..7`).
pub open spec fn row_start(r: int) -> int {
    if r <= 0 {
        0
    } else if r == 1 {
        7
    } else if r == 2 {
        13
    } else if r == 3 {
        18
    } else if r == 4 {
        22
    } else if r == 5 {
        25
    } else if r == 6 {
        27
    } else {
        28
    }
}

/// The position in dealing order of the card that row `r` gives to column `c`.
pub open spec fn deal_index(r: int, c: int) -> int {
    row_start(r) + (c - r)
}

/// The card at row `r` of column `c`: drawn from the top of the shuffled deck
/// in dealing order, face-up only on the column's last row.
pub open spec fn dealt_card(seed: u64, r: int, c: int) -> Card {
    Card { face_up: r == c, ..dealt_deck(seed)[51 - deal_index(r, c)] }
}

/// The first `len` cards of column `c`, bottom-to-top.
pub open spec fn dealt_prefix(seed: u64, c: int, len: int) -> Seq<Card> {
    Seq::new(len as nat, |r: int| dealt_card(seed, r, c))
}

/// Column `c` of the deal from `seed`: `c + 1` cards, only the top one face-up.
pub open spec fn dealt_column(seed: u64, c: int) -> Seq<Card> {
    dealt_prefix(seed, c, c + 1)
}

/// The stock of the deal from `seed`: the 24 undealt cards, all face-down.
pub open spec fn dealt_stock(seed: u64) -> Seq<Card> {
    all_face_down(dealt_deck(seed).take(24))
}

/// The length column `c2` has reached while row `r` is being dealt, before
/// column `c` receives its card.
pub open spec fn dealing_len(r: int, c: int, c2: int) -> int {
    if c2 < r {
        c2 + 1
    } else if c2 < c {
        r + 1
    } else {
        r
    }
}

/// The piles produced by a deal, before assembly into a `GameState`.
pub struct Dealt {
    pub stock: Stock,
    pub waste: Waste,
    pub foundations: [Foundation; 4],
    pub tableau: [TableauColumn; 7],
}

/// Deal a fresh layout deterministically from `seed`.
pub fn deal(seed: u64) -> (d: Dealt)
    ensures
        d.stock@ == dealt_stock(seed),
        d.waste@ == Seq::<Card>::empty(),
        forall|f: int| 0 <= f < 4 ==> (#[trigger] d.foundations@[f])@ == Seq::<Card>::empty(),
        forall|c: int| 0 <= c < 7 ==> (#[trigger] d.tableau@[c])@ == dealt_column(seed, c),
{
    let mut deck = Deck::standard();
    let mut rng = SplitMix64::new(seed);
    deck.shuffle(&mut rng);
    let ghost shuffled_cards = deck.cards@;
    assert(shuffled_cards == dealt_deck(seed));
    let mut tableau: [TableauColumn; 7] = [
        TableauColumn::empty(),
        TableauColumn::empty(),
        TableauColumn::empty(),
        TableauColumn::empty(),
        TableauColumn::empty(),
        TableauColumn::empty(),
        TableauColumn::empty(),
    ];
    assert forall|c2: int| 0 <= c2 < 7 implies (#[trigger] tableau@[c2])@ =~= dealt_prefix(
        seed,
        c2,
        dealing_len(0, 0, c2),
    ) by {}
    // Row-by-row: on row r, place a card on every column c >= r. The card on
    // row c (the last one a column receives) is face-up; the rest are face-down.
    let mut r: usize = 0;
    while r < 7
        invariant
            r <= 7,
            shuffled_cards == dealt_deck(seed),
            shuffled_cards.len() == 52,
            deck.cards@ == shuffled_cards.take(52 - row_start(r as int)),
            forall|c2: int|
                0 <= c2 < 7 ==> (#[trigger] tableau@[c2])@ == dealt_prefix(
                    seed,
                    c2,
                    dealing_len(r as int, r as int, c2),
                ),
        decreases 7 - r,
    {
        let mut c: usize = r;
        while c < 7
            invariant
                r < 7,
                r <= c <= 7,
                shuffled_cards == dealt_deck(seed),
                shuffled_cards.len() == 52,
                deck.cards@ == shuffled_cards.take(52 - deal_index(r as int, c as int)),
                forall|c2: int|
                    0 <= c2 < 7 ==> (#[trigger] tableau@[c2])@ == dealt_prefix(
                        seed,
                        c2,
                        dealing_len(r as int, c as int, c2),
                    ),
            decreases 7 - c,
        {
            let ghost before = tableau@;
            let popped = deck.cards.pop();
            let mut card = match popped {
                Some(card) => card,
                None => Card::new(crate::model::card::Rank::Ace, crate::model::card::Suit::Clubs),
            };
            card.face_up = c == r;
            tableau[c].push(card);
            assert(tableau@[c as int]@ =~= dealt_prefix(
                seed,
                c as int,
                dealing_len(r as int, c as int + 1, c as int),
            ));
            assert forall|c2: int| 0 <= c2 < 7 implies (#[trigger] tableau@[c2])@
                == dealt_prefix(seed, c2, dealing_len(r as int, c as int + 1, c2)) by {
                if c2 != c {
                    assert(tableau@[c2] == before[c2]);
                }
            }
            assert(deck.cards@ =~= shuffled_cards.take(52 - deal_index(r as int, c as int + 1)));
            c = c + 1;
        }
        assert forall|c2: int| 0 <= c2 < 7 implies (#[trigger] tableau@[c2])@ == dealt_prefix(
            seed,
            c2,
            dealing_len(r as int + 1, r as int + 1, c2),
        ) by {
            assert(dealing_len(r as int, 7, c2) == dealing_len(r as int + 1, r as int + 1, c2));
        }
        r = r + 1;
    }
    // The remaining 24 cards form the stock, all face-down.
    let mut stock_cards: Vec<Card> = Vec::with_capacity(24);
    let mut i: usize = 0;
    while i < deck.cards.len()
        invariant
            deck.cards@ == shuffled_cards.take(24),
            i <= deck.cards@.len(),
            stock_cards@ == all_face_down(deck.cards@.take(i as int)),
        decreases deck.cards@.len() - i,
    {
        let mut card = deck.cards[i];
        card.face_up = false;
        stock_cards.push(card);
        i = i + 1;
        assert(stock_cards@ =~= all_face_down(deck.cards@.take(i as int)));
    }
    assert(deck.cards@.take(i as int) =~= deck.cards@);
    let d = Dealt {
        stock: Stock::new(stock_cards),
        waste: Waste::empty(),
        foundations: [Foundation::new(), Foundation::new(), Foundation::new(), Foundation::new()],
        tableau,
    };
    assert forall|c: int| 0 <= c < 7 implies (#[trigger] d.tableau@[c])@ == dealt_column(seed, c) by {
        assert(dealing_len(7, 7, c) == c + 1);
    }
    d
}

} // verus!
