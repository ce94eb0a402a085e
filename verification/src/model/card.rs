//! Cards: suits, ranks, colors, and the `Card` value type.
use vstd::prelude::*;

use crate::model::text::push_char;

verus! {

/// The color of a card, derived from its suit.
#[derive(Debug, Clone, Copy, PartialEq, Eq, Hash, Structural)]
pub enum Color {
    Red,
    Black,
}

/// The four suits of a standard deck.
#[derive(Debug, Clone, Copy, PartialEq, Eq, Hash, Structural)]
pub enum Suit {
    Clubs,
    Diamonds,
    Hearts,
    Spades,
}

/// The color of a suit: Hearts and Diamonds are red; Clubs and Spades are black.
pub open spec fn suit_color(s: Suit) -> Color {
    match s {
        Suit::Hearts | Suit::Diamonds => Color::Red,
        Suit::Clubs | Suit::Spades => Color::Black,
    }
}

/// The position of a suit in the stable order Clubs, Diamonds, Hearts, Spades.
pub open spec fn suit_index(s: Suit) -> nat {
    match s {
        Suit::Clubs => 0,
        Suit::Diamonds => 1,
        Suit::Hearts => 2,
        Suit::Spades => 3,
    }
}

/// The suit at a position of the stable order (out-of-range positions give Spades).
pub open spec fn suit_at(i: int) -> Suit {
    if i == 0 {
        Suit::Clubs
    } else if i == 1 {
        Suit::Diamonds
    } else if i == 2 {
        Suit::Hearts
    } else {
        Suit::Spades
    }
}

/// The display symbol of a suit.
pub open spec fn suit_symbol(s: Suit) -> char {
    match s {
        Suit::Clubs => '♣',
        Suit::Diamonds => '♦',
        Suit::Hearts => '♥',
        Suit::Spades => '♠',
    }
}

impl Suit {
    /// All four suits in a stable order.
    pub const ALL: [Suit; 4] = [Suit::Clubs, Suit::Diamonds, Suit::Hearts, Suit::Spades];

    /// The color of this suit.
    pub fn color(self) -> (c: Color)
        ensures
            c == suit_color(self),
    {
        match self {
            Suit::Hearts | Suit::Diamonds => Color::Red,
            Suit::Clubs | Suit::Spades => Color::Black,
        }
    }

    /// The position of this suit in the stable order (Clubs = 0 … Spades = 3).
    pub fn index(self) -> (i: u8)
        ensures
            i == suit_index(self),
    {
        match self {
            Suit::Clubs => 0,
            Suit::Diamonds => 1,
            Suit::Hearts => 2,
            Suit::Spades => 3,
        }
    }

    /// The suit at position `i` of the stable order Clubs, Diamonds, Hearts, Spades.
    pub fn at(i: usize) -> (s: Suit)
        requires
            i < 4,
        ensures
            s == suit_at(i as int),
            suit_index(s) == i,
    {
        if i == 0 {
            Suit::Clubs
        } else if i == 1 {
            Suit::Diamonds
        } else if i == 2 {
            Suit::Hearts
        } else {
            Suit::Spades
        }
    }

    /// A single-character symbol for display (♣ ♦ ♥ ♠).
    pub fn symbol(self) -> (c: char)
        ensures
            c == suit_symbol(self),
    {
        match self {
            Suit::Clubs => '♣',
            Suit::Diamonds => '♦',
            Suit::Hearts => '♥',
            Suit::Spades => '♠',
        }
    }
}

/// The thirteen ranks, Ace (1) through King (13).
#[derive(Debug, Clone, Copy, PartialEq, Eq, Hash, PartialOrd, Ord, Structural)]
pub enum Rank {
    Ace,
    Two,
    Three,
    Four,
    Five,
    Six,
    Seven,
    Eight,
    Nine,
    Ten,
    Jack,
    Queen,
    King,
}

/// The integer value of a rank: Ace = 1 … King = 13.
pub open spec fn rank_value(r: Rank) -> nat {
    match r {
        Rank::Ace => 1,
        Rank::Two => 2,
        Rank::Three => 3,
        Rank::Four => 4,
        Rank::Five => 5,
        Rank::Six => 6,
        Rank::Seven => 7,
        Rank::Eight => 8,
        Rank::Nine => 9,
        Rank::Ten => 10,
        Rank::Jack => 11,
        Rank::Queen => 12,
        Rank::King => 13,
    }
}

/// The rank with value `v` (values outside 1..=13 give King).
pub open spec fn rank_of_value(v: int) -> Rank {
    if v == 1 {
        Rank::Ace
    } else if v == 2 {
        Rank::Two
    } else if v == 3 {
        Rank::Three
    } else if v == 4 {
        Rank::Four
    } else if v == 5 {
        Rank::Five
    } else if v == 6 {
        Rank::Six
    } else if v == 7 {
        Rank::Seven
    } else if v == 8 {
        Rank::Eight
    } else if v == 9 {
        Rank::Nine
    } else if v == 10 {
        Rank::Ten
    } else if v == 11 {
        Rank::Jack
    } else if v == 12 {
        Rank::Queen
    } else {
        Rank::King
    }
}

/// The rank one higher than `r`, if any.
pub open spec fn rank_succ(r: Rank) -> Option<Rank> {
    if rank_value(r) == 13 {
        None
    } else {
        Some(rank_of_value(rank_value(r) + 1int))
    }
}

/// The display label of a rank: A, 2 … 10, J, Q, K.
pub open spec fn rank_label(r: Rank) -> Seq<char> {
    match r {
        Rank::Ace => seq!['A'],
        Rank::Two => seq!['2'],
        Rank::Three => seq!['3'],
        Rank::Four => seq!['4'],
        Rank::Five => seq!['5'],
        Rank::Six => seq!['6'],
        Rank::Seven => seq!['7'],
        Rank::Eight => seq!['8'],
        Rank::Nine => seq!['9'],
        Rank::Ten => seq!['1', '0'],
        Rank::Jack => seq!['J'],
        Rank::Queen => seq!['Q'],
        Rank::King => seq!['K'],
    }
}

/// Rank values identify ranks: a rank is the rank of its value.
pub proof fn lemma_rank_value_inverse(r: Rank)
    ensures
        rank_of_value(rank_value(r) as int) == r,
        1 <= rank_value(r) <= 13,
{
}

impl Rank {
    /// All ranks in ascending order.
    pub const ALL: [Rank; 13] = [
        Rank::Ace,
        Rank::Two,
        Rank::Three,
        Rank::Four,
        Rank::Five,
        Rank::Six,
        Rank::Seven,
        Rank::Eight,
        Rank::Nine,
        Rank::Ten,
        Rank::Jack,
        Rank::Queen,
        Rank::King,
    ];

    /// The integer value of this rank (Ace = 1 … King = 13).
    pub fn value(self) -> (v: u8)
        ensures
            v == rank_value(self),
            1 <= v <= 13,
    {
        match self {
            Rank::Ace => 1,
            Rank::Two => 2,
            Rank::Three => 3,
            Rank::Four => 4,
            Rank::Five => 5,
            Rank::Six => 6,
            Rank::Seven => 7,
            Rank::Eight => 8,
            Rank::Nine => 9,
            Rank::Ten => 10,
            Rank::Jack => 11,
            Rank::Queen => 12,
            Rank::King => 13,
        }
    }

    /// The rank whose value is `v`, or `None` when `v` is outside 1..=13.
    pub fn from_value(v: u8) -> (r: Option<Rank>)
        ensures
            1 <= v <= 13 ==> r == Some(rank_of_value(v as int)),
            !(1 <= v <= 13) ==> r is None,
    {
        match v {
            1 => Some(Rank::Ace),
            2 => Some(Rank::Two),
            3 => Some(Rank::Three),
            4 => Some(Rank::Four),
            5 => Some(Rank::Five),
            6 => Some(Rank::Six),
            7 => Some(Rank::Seven),
            8 => Some(Rank::Eight),
            9 => Some(Rank::Nine),
            10 => Some(Rank::Ten),
            11 => Some(Rank::Jack),
            12 => Some(Rank::Queen),
            13 => Some(Rank::King),
            _ => None,
        }
    }

    /// The rank exactly one higher, or `None` for King.
    pub fn succ(self) -> (r: Option<Rank>)
        ensures
            r == rank_succ(self),
    {
        Rank::from_value(self.value() + 1)
    }

    /// A short label for display (A, 2..10, J, Q, K).
    pub fn label(self) -> (l: &'static str)
        ensures
            l@ == rank_label(self),
    {
        match self {
            Rank::Ace => {
                proof {
                    reveal_strlit("A");
                }
                "A"
            },
            Rank::Two => {
                proof {
                    reveal_strlit("2");
                }
                "2"
            },
            Rank::Three => {
                proof {
                    reveal_strlit("3");
                }
                "3"
            },
            Rank::Four => {
                proof {
                    reveal_strlit("4");
                }
                "4"
            },
            Rank::Five => {
                proof {
                    reveal_strlit("5");
                }
                "5"
            },
            Rank::Six => {
                proof {
                    reveal_strlit("6");
                }
                "6"
            },
            Rank::Seven => {
                proof {
                    reveal_strlit("7");
                }
                "7"
            },
            Rank::Eight => {
                proof {
                    reveal_strlit("8");
                }
                "8"
            },
            Rank::Nine => {
                proof {
                    reveal_strlit("9");
                }
                "9"
            },
            Rank::Ten => {
                proof {
                    reveal_strlit("10");
                }
                "10"
            },
            Rank::Jack => {
                proof {
                    reveal_strlit("J");
                }
                "J"
            },
            Rank::Queen => {
                proof {
                    reveal_strlit("Q");
                }
                "Q"
            },
            Rank::King => {
                proof {
                    reveal_strlit("K");
                }
                "K"
            },
        }
    }
}

/// A single playing card. Small and `Copy` so pile manipulation is cheap.
#[derive(Debug, Clone, Copy, PartialEq, Eq, Hash, Structural)]
pub struct Card {
    pub rank: Rank,
    pub suit: Suit,
    /// Whether the card is currently face-up (visible) to the player.
    pub face_up: bool,
}

/// The color of a card.
pub open spec fn card_color(c: Card) -> Color {
    suit_color(c.suit)
}

/// How a card is shown: rank label and suit symbol when face-up, `[]` when face-down.
pub open spec fn card_text(c: Card) -> Seq<char> {
    if c.face_up {
        rank_label(c.rank).push(suit_symbol(c.suit))
    } else {
        seq!['[', ']']
    }
}

impl Card {
    /// Create a face-down card of the given rank and suit.
    pub fn new(rank: Rank, suit: Suit) -> (c: Card)
        ensures
            c == (Card { rank, suit, face_up: false }),
    {
        Card { rank, suit, face_up: false }
    }

    /// The color of this card, derived from its suit.
    pub fn color(self) -> (c: Color)
        ensures
            c == card_color(self),
    {
        self.suit.color()
    }

    /// Return a copy of this card turned face-up.
    pub fn face_up(self) -> (c: Card)
        ensures
            c == (Card { face_up: true, ..self }),
    {
        Card { face_up: true, ..self }
    }

    /// Return a copy of this card turned face-down.
    pub fn face_down(self) -> (c: Card)
        ensures
            c == (Card { face_up: false, ..self }),
    {
        Card { face_up: false, ..self }
    }

    /// Turn this card face-up in place.
    pub fn flip_up(&mut self)
        ensures
            *final(self) == (Card { face_up: true, ..*old(self) }),
    {
        self.face_up = true;
    }

    /// Turn this card face-down in place.
    pub fn flip_down(&mut self)
        ensures
            *final(self) == (Card { face_up: false, ..*old(self) }),
    {
        self.face_up = false;
    }

    /// The card as shown to a player: e.g. `10♥` face-up, `[]` face-down.
    pub fn to_string(&self) -> (s: String)
        ensures
            s@ == card_text(*self),
    {
        let mut s = String::new();
        if self.face_up {
            let label = self.rank.label();
            s.append(label);
            push_char(&mut s, self.suit.symbol());
        } else {
            push_char(&mut s, '[');
            push_char(&mut s, ']');
        }
        s
    }
}

} // verus!
