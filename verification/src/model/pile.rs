//! The game's piles: stock, waste, foundations, and tableau columns.
//!
//! Ordering convention: for every pile the **last** element of the backing
//! `Vec` is the top of the pile — the actionable card.
use vstd::prelude::*;

use crate::model::card::{Card, Suit};

verus! {

/// The top (last) card of a pile, if any.
pub open spec fn seq_top(s: Seq<Card>) -> Option<Card> {
    if s.len() == 0 {
        None
    } else {
        Some(s.last())
    }
}

/// `s` without its top card (unchanged when empty).
pub open spec fn seq_pop(s: Seq<Card>) -> Seq<Card> {
    if s.len() == 0 {
        s
    } else {
        s.drop_last()
    }
}

/// The length of the face-down prefix of a column: the index of its first
/// face-up card, or its length when no card is face-up.
pub open spec fn face_down_prefix(s: Seq<Card>) -> nat
    decreases s.len(),
{
    if s.len() == 0 {
        0
    } else if s[0].face_up {
        0
    } else {
        1 + face_down_prefix(s.drop_first())
    }
}

/// The face-up run at the top of a column, bottom-to-top.
pub open spec fn face_up_run(s: Seq<Card>) -> Seq<Card> {
    s.subrange(face_down_prefix(s) as int, s.len() as int)
}

/// The tableau invariant: no face-down card sits above a face-up card.
pub open spec fn face_down_prefix_ok(s: Seq<Card>) -> bool {
    forall|i: int, j: int| 0 <= i < j < s.len() && #[trigger] s[i].face_up ==> #[trigger] s[j].face_up
}

/// `s` with its top card turned face-up when it is face-down.
pub open spec fn flip_top_up(s: Seq<Card>) -> Seq<Card> {
    if s.len() > 0 && !s.last().face_up {
        s.update(s.len() - 1, Card { face_up: true, ..s.last() })
    } else {
        s
    }
}

/// Whether turning the top card face-up changes `s` (its top card is face-down).
pub open spec fn top_is_face_down(s: Seq<Card>) -> bool {
    s.len() > 0 && !s.last().face_up
}

/// `s` with its top card turned face-down (unchanged when empty).
pub open spec fn flip_top_down(s: Seq<Card>) -> Seq<Card> {
    if s.len() > 0 {
        s.update(s.len() - 1, Card { face_up: false, ..s.last() })
    } else {
        s
    }
}

/// The face-down prefix is the index of the first face-up card.
pub proof fn lemma_face_down_prefix(s: Seq<Card>)
    ensures
        face_down_prefix(s) <= s.len(),
        forall|j: int| 0 <= j < face_down_prefix(s) ==> !(#[trigger] s[j]).face_up,
        face_down_prefix(s) < s.len() ==> s[face_down_prefix(s) as int].face_up,
    decreases s.len(),
{
    if s.len() > 0 && !s[0].face_up {
        lemma_face_down_prefix(s.drop_first());
        assert forall|j: int| 0 <= j < face_down_prefix(s) implies !(#[trigger] s[j]).face_up by {
            if j > 0 {
                assert(s[j] == s.drop_first()[j - 1]);
            }
        }
    }
}

/// The face-down prefix is the only index with those properties.
pub proof fn lemma_face_down_prefix_unique(s: Seq<Card>, r: int)
    requires
        0 <= r <= s.len(),
        forall|j: int| 0 <= j < r ==> !(#[trigger] s[j]).face_up,
        r < s.len() ==> s[r].face_up,
    ensures
        face_down_prefix(s) == r,
{
    lemma_face_down_prefix(s);
    let p = face_down_prefix(s) as int;
    if p < r {
        assert(!s[p].face_up);
    } else if r < p {
        assert(!s[r].face_up);
    }
}

/// The face-down stock.
#[derive(Debug, Clone, Default, PartialEq, Eq)]
pub struct Stock {
    cards: Vec<Card>,
}

impl View for Stock {
    type V = Seq<Card>;

    /// The cards, bottom-to-top.
    closed spec fn view(&self) -> Seq<Card> {
        self.cards@
    }
}

impl Stock {
    /// An independent copy of this pile.
    pub fn copied(&self) -> (r: Stock)
        ensures
            r@ == self@,
    {
        Stock { cards: copy_cards(&self.cards) }
    }

    /// Create a stock from cards (which should be face-down).
    pub fn new(cards: Vec<Card>) -> (s: Stock)
        ensures
            s@ == cards@,
    {
        Stock { cards }
    }

    /// An empty stock.
    pub fn empty() -> (s: Stock)
        ensures
            s@ == Seq::<Card>::empty(),
    {
        Stock { cards: Vec::new() }
    }

    /// Number of cards.
    pub fn len(&self) -> (n: usize)
        ensures
            n == self@.len(),
    {
        self.cards.len()
    }

    /// Whether the stock is empty.
    pub fn is_empty(&self) -> (b: bool)
        ensures
            b == (self@.len() == 0),
    {
        self.cards.len() == 0
    }

    /// The cards, bottom-to-top (top is last).
    pub fn cards(&self) -> (r: &[Card])
        ensures
            r@ == self@,
    {
        self.cards.as_slice()
    }

    /// Draw the top card off the stock, if any.
    pub fn draw(&mut self) -> (c: Option<Card>)
        ensures
            c == seq_top(old(self)@),
            final(self)@ == seq_pop(old(self)@),
    {
        self.cards.pop()
    }

    /// Push a card onto the top of the stock.
    pub fn push(&mut self, card: Card)
        ensures
            final(self)@ == old(self)@.push(card),
    {
        self.cards.push(card);
    }

    /// Drain all cards, top-first (used to reverse a recycle during undo).
    pub fn drain_top_first(&mut self) -> (out: Vec<Card>)
        ensures
            out@ == old(self)@.reverse(),
            final(self)@ == Seq::<Card>::empty(),
    {
        drain_reversed(&mut self.cards)
    }
}

/// Empties `v` into a new vector in reverse order (top-first).
fn drain_reversed(v: &mut Vec<Card>) -> (out: Vec<Card>)
    ensures
        out@ == old(v)@.reverse(),
        final(v)@ == Seq::<Card>::empty(),
{
    let ghost orig = v@;
    let mut out: Vec<Card> = Vec::new();
    while v.len() > 0
        invariant
            orig.len() == v@.len() + out@.len(),
            v@ == orig.take(v@.len() as int),
            out@ == orig.skip(v@.len() as int).reverse(),
        decreases v@.len(),
    {
        let ghost k = v@.len();
        let c = v.pop().unwrap();
        out.push(c);
        assert(out@ =~= orig.skip(k - 1).reverse());
        assert(v@ =~= orig.take(k - 1));
    }
    assert(orig.skip(0) =~= orig);
    out
}

/// An element-by-element copy of a card vector.
fn copy_cards(v: &Vec<Card>) -> (r: Vec<Card>)
    ensures
        r@ == v@,
{
    let mut r: Vec<Card> = Vec::with_capacity(v.len());
    let mut i: usize = 0;
    while i < v.len()
        invariant
            i <= v@.len(),
            r@ == v@.take(i as int),
        decreases v@.len() - i,
    {
        r.push(v[i]);
        i = i + 1;
        assert(r@ =~= v@.take(i as int));
    }
    assert(v@.take(i as int) =~= v@);
    r
}

/// The face-up pile that cards are drawn onto (also called the talon).
#[derive(Debug, Clone, Default, PartialEq, Eq)]
pub struct Waste {
    cards: Vec<Card>,
}

impl View for Waste {
    type V = Seq<Card>;

    /// The cards, bottom-to-top.
    closed spec fn view(&self) -> Seq<Card> {
        self.cards@
    }
}

impl Waste {
    /// An independent copy of this pile.
    pub fn copied(&self) -> (r: Waste)
        ensures
            r@ == self@,
    {
        Waste { cards: copy_cards(&self.cards) }
    }

    /// Create a waste pile from cards.
    pub fn new(cards: Vec<Card>) -> (w: Waste)
        ensures
            w@ == cards@,
    {
        Waste { cards }
    }

    /// An empty waste pile.
    pub fn empty() -> (w: Waste)
        ensures
            w@ == Seq::<Card>::empty(),
    {
        Waste { cards: Vec::new() }
    }

    /// Number of cards.
    pub fn len(&self) -> (n: usize)
        ensures
            n == self@.len(),
    {
        self.cards.len()
    }

    /// Whether the waste is empty.
    pub fn is_empty(&self) -> (b: bool)
        ensures
            b == (self@.len() == 0),
    {
        self.cards.len() == 0
    }

    /// The cards, bottom-to-top (top is last).
    pub fn cards(&self) -> (r: &[Card])
        ensures
            r@ == self@,
    {
        self.cards.as_slice()
    }

    /// The top (most recently drawn) card, if any.
    pub fn top(&self) -> (c: Option<Card>)
        ensures
            c == seq_top(self@),
    {
        if self.cards.len() == 0 {
            None
        } else {
            Some(self.cards[self.cards.len() - 1])
        }
    }

    /// Push a card onto the top of the waste.
    pub fn push(&mut self, card: Card)
        ensures
            final(self)@ == old(self)@.push(card),
    {
        self.cards.push(card);
    }

    /// Remove and return the top card, if any.
    pub fn take_top(&mut self) -> (c: Option<Card>)
        ensures
            c == seq_top(old(self)@),
            final(self)@ == seq_pop(old(self)@),
    {
        self.cards.pop()
    }

    /// Drain all cards, top-first (for recycling back into the stock).
    pub fn drain_top_first(&mut self) -> (out: Vec<Card>)
        ensures
            out@ == old(self)@.reverse(),
            final(self)@ == Seq::<Card>::empty(),
    {
        drain_reversed(&mut self.cards)
    }
}

/// A foundation pile, built up by suit from Ace to King. The suit is implied by
/// its cards; an empty foundation has no fixed suit yet.
#[derive(Debug, Clone, Default, PartialEq, Eq)]
pub struct Foundation {
    cards: Vec<Card>,
}

impl View for Foundation {
    type V = Seq<Card>;

    /// The cards, bottom-to-top.
    closed spec fn view(&self) -> Seq<Card> {
        self.cards@
    }
}

/// The suit a foundation is building: that of its bottom card, if any.
pub open spec fn foundation_suit(s: Seq<Card>) -> Option<Suit> {
    if s.len() == 0 {
        None
    } else {
        Some(s[0].suit)
    }
}

impl Foundation {
    /// An independent copy of this pile.
    pub fn copied(&self) -> (r: Foundation)
        ensures
            r@ == self@,
    {
        Foundation { cards: copy_cards(&self.cards) }
    }

    /// An empty foundation.
    pub fn new() -> (f: Foundation)
        ensures
            f@ == Seq::<Card>::empty(),
    {
        Foundation { cards: Vec::new() }
    }

    /// Number of cards.
    pub fn len(&self) -> (n: usize)
        ensures
            n == self@.len(),
    {
        self.cards.len()
    }

    /// Whether the foundation is empty.
    pub fn is_empty(&self) -> (b: bool)
        ensures
            b == (self@.len() == 0),
    {
        self.cards.len() == 0
    }

    /// The cards, bottom-to-top.
    pub fn cards(&self) -> (r: &[Card])
        ensures
            r@ == self@,
    {
        self.cards.as_slice()
    }

    /// The top card of the foundation, if any.
    pub fn top(&self) -> (c: Option<Card>)
        ensures
            c == seq_top(self@),
    {
        if self.cards.len() == 0 {
            None
        } else {
            Some(self.cards[self.cards.len() - 1])
        }
    }

    /// The suit this foundation is building, if it holds any cards.
    pub fn suit(&self) -> (s: Option<Suit>)
        ensures
            s == foundation_suit(self@),
    {
        if self.cards.len() == 0 {
            None
        } else {
            Some(self.cards[0].suit)
        }
    }

    /// Push a card onto the foundation. Callers must validate legality first.
    pub fn push(&mut self, card: Card)
        ensures
            final(self)@ == old(self)@.push(card),
    {
        self.cards.push(card);
    }

    /// Remove and return the top card, if any.
    pub fn take_top(&mut self) -> (c: Option<Card>)
        ensures
            c == seq_top(old(self)@),
            final(self)@ == seq_pop(old(self)@),
    {
        self.cards.pop()
    }

    /// Whether the foundation is complete (Ace through King, 13 cards).
    pub fn is_complete(&self) -> (b: bool)
        ensures
            b == (self@.len() == 13),
    {
        self.cards.len() == 13
    }
}

/// A tableau column. Its invariant (see [`TableauColumn::invariant_holds`]):
/// any face-down cards form a contiguous prefix at the bottom, and all face-up
/// cards sit above them.
#[derive(Debug, Clone, Default, PartialEq, Eq)]
pub struct TableauColumn {
    cards: Vec<Card>,
}

impl View for TableauColumn {
    type V = Seq<Card>;

    /// The cards, bottom-to-top.
    closed spec fn view(&self) -> Seq<Card> {
        self.cards@
    }
}

impl TableauColumn {
    /// A column holds no more cards than a `usize` can count.
    pub proof fn lemma_len_fits(&self)
        ensures
            self@.len() <= usize::MAX,
    {
        assert(self.cards.len() == self.cards@.len()) by {
            broadcast use vstd::std_specs::vec::axiom_spec_len;
        }
    }

    /// An independent copy of this pile.
    pub fn copied(&self) -> (r: TableauColumn)
        ensures
            r@ == self@,
    {
        TableauColumn { cards: copy_cards(&self.cards) }
    }

    /// Create a column from cards, bottom-to-top.
    pub fn new(cards: Vec<Card>) -> (c: TableauColumn)
        ensures
            c@ == cards@,
    {
        TableauColumn { cards }
    }

    /// An empty column.
    pub fn empty() -> (c: TableauColumn)
        ensures
            c@ == Seq::<Card>::empty(),
    {
        TableauColumn { cards: Vec::new() }
    }

    /// Number of cards.
    pub fn len(&self) -> (n: usize)
        ensures
            n == self@.len(),
    {
        self.cards.len()
    }

    /// Whether the column is empty.
    pub fn is_empty(&self) -> (b: bool)
        ensures
            b == (self@.len() == 0),
    {
        self.cards.len() == 0
    }

    /// The cards, bottom-to-top.
    pub fn cards(&self) -> (r: &[Card])
        ensures
            r@ == self@,
    {
        self.cards.as_slice()
    }

    /// The top (last) card of the column, if any.
    pub fn top(&self) -> (c: Option<Card>)
        ensures
            c == seq_top(self@),
    {
        if self.cards.len() == 0 {
            None
        } else {
            Some(self.cards[self.cards.len() - 1])
        }
    }

    /// Index of the first face-up card, i.e. the length of the face-down prefix.
    /// Equals `len()` when there are no face-up cards.
    pub fn first_face_up_index(&self) -> (i: usize)
        ensures
            i == face_down_prefix(self@),
    {
        let n = self.cards.len();
        let mut i: usize = 0;
        while i < n && !self.cards[i].face_up
            invariant
                n == self@.len(),
                i <= n,
                forall|j: int| 0 <= j < i ==> !(#[trigger] self@[j]).face_up,
            decreases n - i,
        {
            i = i + 1;
        }
        proof {
            lemma_face_down_prefix_unique(self@, i as int);
        }
        i
    }

    /// The contiguous face-up run at the top of the column, bottom-to-top.
    pub fn face_up_run(&self) -> (r: &[Card])
        ensures
            r@ == face_up_run(self@),
    {
        let i = self.first_face_up_index();
        proof {
            lemma_face_down_prefix(self@);
        }
        let s = self.cards.as_slice();
        &s[i..s.len()]
    }

    /// Push a card onto the top of the column.
    pub fn push(&mut self, card: Card)
        ensures
            final(self)@ == old(self)@.push(card),
    {
        self.cards.push(card);
    }

    /// Remove and return the top card, if any.
    pub fn take_top(&mut self) -> (c: Option<Card>)
        ensures
            c == seq_top(old(self)@),
            final(self)@ == seq_pop(old(self)@),
    {
        self.cards.pop()
    }

    /// Split off the top `count` cards as an ordered run (bottom-to-top),
    /// leaving the rest in the column. Returns `None` (leaving the column
    /// unchanged) if `count` is zero or exceeds the number of face-up cards.
    pub fn take_run(&mut self, count: usize) -> (r: Option<Vec<Card>>)
        ensures
            count == 0 || count > face_up_run(old(self)@).len() ==> {
                &&& r is None
                &&& final(self)@ == old(self)@
            },
            !(count == 0 || count > face_up_run(old(self)@).len()) ==> {
                &&& r is Some
                &&& r->0@ == old(self)@.subrange(old(self)@.len() - count, old(self)@.len() as int)
                &&& final(self)@ == old(self)@.subrange(0, old(self)@.len() - count)
            },
    {
        let first = self.first_face_up_index();
        proof {
            lemma_face_down_prefix(self@);
        }
        let run_len = self.len() - first;
        if count == 0 || count > run_len {
            return None;
        }
        let at = self.cards.len() - count;
        let run = self.cards.split_off(at);
        Some(run)
    }

    /// Append an ordered run (bottom-to-top) onto the top of the column.
    pub fn push_run(&mut self, run: Vec<Card>)
        ensures
            final(self)@ == old(self)@ + run@,
    {
        let mut run = run;
        self.cards.append(&mut run);
    }

    /// Turn the top card face-down (used to reverse an auto-flip during undo).
    pub fn flip_top_down(&mut self)
        ensures
            final(self)@ == flip_top_down(old(self)@),
    {
        let n = self.cards.len();
        if n > 0 {
            let mut last = self.cards[n - 1];
            last.face_up = false;
            self.cards.set(n - 1, last);
        }
    }

    /// If the top card is face-down, turn it face-up and report whether a flip
    /// happened. Used by the auto-flip rule after a move exposes a card.
    pub fn flip_top_if_face_down(&mut self) -> (flipped: bool)
        ensures
            flipped == top_is_face_down(old(self)@),
            final(self)@ == flip_top_up(old(self)@),
    {
        let n = self.cards.len();
        if n > 0 {
            let mut last = self.cards[n - 1];
            if !last.face_up {
                last.face_up = true;
                self.cards.set(n - 1, last);
                return true;
            }
        }
        false
    }

    /// Check the face-up-prefix invariant: no face-down card sits above a
    /// face-up card.
    pub fn invariant_holds(&self) -> (b: bool)
        ensures
            b == face_down_prefix_ok(self@),
    {
        let n = self.cards.len();
        let mut seen_face_up = false;
        let mut first_up: usize = 0;
        let mut i: usize = 0;
        while i < n
            invariant
                n == self@.len(),
                i <= n,
                first_up <= i,
                seen_face_up ==> first_up < i && self@[first_up as int].face_up,
                !seen_face_up ==> forall|j: int| 0 <= j < i ==> !(#[trigger] self@[j]).face_up,
                seen_face_up ==> forall|j: int| first_up <= j < i ==> (#[trigger] self@[j]).face_up,
                face_down_prefix_ok(self@.take(i as int)),
            decreases n - i,
        {
            let c = self.cards[i];
            if c.face_up {
                if !seen_face_up {
                    first_up = i;
                }
                seen_face_up = true;
            } else if seen_face_up {
                assert(self@[first_up as int].face_up && !self@[i as int].face_up);
                return false;
            }
            i = i + 1;
            assert forall|a: int, b: int|
                0 <= a < b < self@.take(i as int).len()
                    && #[trigger] self@.take(i as int)[a].face_up implies #[trigger] self@.take(
                i as int,
            )[b].face_up by {
                if b < i - 1 {
                    assert(self@.take(i - 1)[a] == self@[a]);
                    assert(self@.take(i - 1)[b] == self@[b]);
                }
            }
        }
        assert(self@.take(n as int) =~= self@);
        true
    }
}

} // verus!
