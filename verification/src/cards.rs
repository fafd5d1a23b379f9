//! Playing-card values: suits, ranks, and the numeric value each rank carries.

use vstd::prelude::*;

verus! {

#[derive(Debug, Clone, Copy, PartialEq, Eq, Structural)]
pub enum Suit {
    Spades,
    Hearts,
    Diamonds,
    Clubs,
}

#[derive(Debug, Clone, Copy, PartialEq, Eq, Structural)]
pub enum Rank {
    Two,
    Three,
    Four,
    Five,
    Six,
    Seven,
    Eight,
    Nine,
    Ten,
    Jack,
    Queen,
    King,
    Ace,
}

#[derive(Debug, Clone, Copy, PartialEq, Eq, Structural)]
pub struct Card {
    pub suit: Suit,
    pub rank: Rank,
}

/// The face value a rank contributes to a hand: pip cards count as printed,
/// face cards count ten, and an ace counts eleven before any adjustment.
pub open spec fn rank_value(rank: Rank) -> int {
    match rank {
        Rank::Two => 2,
        Rank::Three => 3,
        Rank::Four => 4,
        Rank::Five => 5,
        Rank::Six => 6,
        Rank::Seven => 7,
        Rank::Eight => 8,
        Rank::Nine => 9,
        Rank::Ten => 10,
        Rank::Jack => 10,
        Rank::Queen => 10,
        Rank::King => 10,
        Rank::Ace => 11,
    }
}

/// The rank a residue in 0..13 stands for, in the order used to lay out a deck.
pub open spec fn rank_of_int(a: int) -> Rank {
    if a == 0 {
        Rank::Two
    } else if a == 1 {
        Rank::Three
    } else if a == 2 {
        Rank::Four
    } else if a == 3 {
        Rank::Five
    } else if a == 4 {
        Rank::Six
    } else if a == 5 {
        Rank::Seven
    } else if a == 6 {
        Rank::Eight
    } else if a == 7 {
        Rank::Nine
    } else if a == 8 {
        Rank::Ten
    } else if a == 9 {
        Rank::Jack
    } else if a == 10 {
        Rank::Queen
    } else if a == 11 {
        Rank::King
    } else {
        Rank::Ace
    }
}

/// The suit a residue in 0..4 stands for, in the order used to lay out a deck.
pub open spec fn suit_of_int(a: int) -> Suit {
    if a == 0 {
        Suit::Spades
    } else if a == 1 {
        Suit::Hearts
    } else if a == 2 {
        Suit::Diamonds
    } else {
        Suit::Clubs
    }
}

/// The position of a rank in the order used to lay out a deck.
pub open spec fn rank_index(rank: Rank) -> int {
    match rank {
        Rank::Two => 0,
        Rank::Three => 1,
        Rank::Four => 2,
        Rank::Five => 3,
        Rank::Six => 4,
        Rank::Seven => 5,
        Rank::Eight => 6,
        Rank::Nine => 7,
        Rank::Ten => 8,
        Rank::Jack => 9,
        Rank::Queen => 10,
        Rank::King => 11,
        Rank::Ace => 12,
    }
}

/// The position of a suit in the order used to lay out a deck.
pub open spec fn suit_index(suit: Suit) -> int {
    match suit {
        Suit::Spades => 0,
        Suit::Hearts => 1,
        Suit::Diamonds => 2,
        Suit::Clubs => 3,
    }
}

/// `rank_of_int` and `rank_index` invert each other on 0..13.
pub proof fn lemma_rank_index_of_int(i: int)
    requires
        0 <= i < 13,
    ensures
        rank_index(rank_of_int(i)) == i,
{
}

/// `suit_of_int` and `suit_index` invert each other on 0..4.
pub proof fn lemma_suit_index_of_int(i: int)
    requires
        0 <= i < 4,
    ensures
        suit_index(suit_of_int(i)) == i,
{
}

pub fn rank_from_int(a: u32) -> (r: Rank)
    ensures
        r == rank_of_int(a as int % 13),
{
    match a % 13 {
        0 => Rank::Two,
        1 => Rank::Three,
        2 => Rank::Four,
        3 => Rank::Five,
        4 => Rank::Six,
        5 => Rank::Seven,
        6 => Rank::Eight,
        7 => Rank::Nine,
        8 => Rank::Ten,
        9 => Rank::Jack,
        10 => Rank::Queen,
        11 => Rank::King,
        _ => Rank::Ace,
    }
}

pub fn get_rank_value(rank: Rank) -> (r: u32)
    ensures
        r as int == rank_value(rank),
{
    match rank {
        Rank::Two => 2,
        Rank::Three => 3,
        Rank::Four => 4,
        Rank::Five => 5,
        Rank::Six => 6,
        Rank::Seven => 7,
        Rank::Eight => 8,
        Rank::Nine => 9,
        Rank::Ten => 10,
        Rank::Jack => 10,
        Rank::Queen => 10,
        Rank::King => 10,
        // The ace's value needs to be read in the context of a whole hand.
        Rank::Ace => 11,
    }
}

pub fn suit_from_int(a: u32) -> (r: Suit)
    ensures
        r == suit_of_int(a as int % 4),
{
    match a % 4 {
        0 => Suit::Spades,
        1 => Suit::Hearts,
        2 => Suit::Diamonds,
        _ => Suit::Clubs,
    }
}

/// The one-character symbol a rank is printed as.
pub open spec fn rank_symbol(rank: Rank) -> Seq<char> {
    match rank {
        Rank::Two => seq!['2'],
        Rank::Three => seq!['3'],
        Rank::Four => seq!['4'],
        Rank::Five => seq!['5'],
        Rank::Six => seq!['6'],
        Rank::Seven => seq!['7'],
        Rank::Eight => seq!['8'],
        Rank::Nine => seq!['9'],
        Rank::Ten => seq!['T'],
        Rank::Jack => seq!['J'],
        Rank::Queen => seq!['Q'],
        Rank::King => seq!['K'],
        Rank::Ace => seq!['A'],
    }
}

/// The one-character symbol a suit is printed as.
pub open spec fn suit_symbol(suit: Suit) -> Seq<char> {
    match suit {
        Suit::Spades => seq!['\u{2660}'],
        Suit::Hearts => seq!['\u{2665}'],
        Suit::Diamonds => seq!['\u{2666}'],
        Suit::Clubs => seq!['\u{2663}'],
    }
}

impl Suit {
    pub fn from_int(a: u32) -> (r: Suit)
        ensures
            r == suit_of_int(a as int % 4),
    {
        suit_from_int(a)
    }

    /// The symbol this suit is printed as.
    pub fn symbol(&self) -> (r: String)
        ensures
            r@ == suit_symbol(*self),
    {
        match self {
            Suit::Spades => {
                proof {
                    reveal_strlit("\u{2660}");
                }
                "\u{2660}".to_owned()
            },
            Suit::Hearts => {
                proof {
                    reveal_strlit("\u{2665}");
                }
                "\u{2665}".to_owned()
            },
            Suit::Diamonds => {
                proof {
                    reveal_strlit("\u{2666}");
                }
                "\u{2666}".to_owned()
            },
            Suit::Clubs => {
                proof {
                    reveal_strlit("\u{2663}");
                }
                "\u{2663}".to_owned()
            },
        }
    }
}

impl Rank {
    pub fn from_int(a: u32) -> (r: Rank)
        ensures
            r == rank_of_int(a as int % 13),
    {
        rank_from_int(a)
    }

    pub fn get_value(&self) -> (r: u32)
        ensures
            r as int == rank_value(*self),
    {
        get_rank_value(*self)
    }

    /// The symbol this rank is printed as.
    pub fn symbol(&self) -> (r: String)
        ensures
            r@ == rank_symbol(*self),
    {
        match self {
            Rank::Two => {
                proof {
                    reveal_strlit("2");
                }
                "2".to_owned()
            },
            Rank::Three => {
                proof {
                    reveal_strlit("3");
                }
                "3".to_owned()
            },
            Rank::Four => {
                proof {
                    reveal_strlit("4");
                }
                "4".to_owned()
            },
            Rank::Five => {
                proof {
                    reveal_strlit("5");
                }
                "5".to_owned()
            },
            Rank::Six => {
                proof {
                    reveal_strlit("6");
                }
                "6".to_owned()
            },
            Rank::Seven => {
                proof {
                    reveal_strlit("7");
                }
                "7".to_owned()
            },
            Rank::Eight => {
                proof {
                    reveal_strlit("8");
                }
                "8".to_owned()
            },
            Rank::Nine => {
                proof {
                    reveal_strlit("9");
                }
                "9".to_owned()
            },
            Rank::Ten => {
                proof {
                    reveal_strlit("T");
                }
                "T".to_owned()
            },
            Rank::Jack => {
                proof {
                    reveal_strlit("J");
                }
                "J".to_owned()
            },
            Rank::Queen => {
                proof {
                    reveal_strlit("Q");
                }
                "Q".to_owned()
            },
            Rank::King => {
                proof {
                    reveal_strlit("K");
                }
                "K".to_owned()
            },
            Rank::Ace => {
                proof {
                    reveal_strlit("A");
                }
                "A".to_owned()
            },
        }
    }
}

} // verus!
