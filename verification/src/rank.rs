//! The thirteen ranks and their mapping to the integers `1..=13`.
use vstd::prelude::*;
use vstd::std_specs::convert::TryFromSpecImpl;

verus! {

/// Error of converting an integer outside `1..=13` to a [`Rank`].
#[derive(Debug, Clone, Copy, PartialEq, Eq, Structural)]
pub struct InvalidIntToRank;

impl InvalidIntToRank {
    /// The message shown for this error.
    pub fn to_string(&self) -> (text: String)
        ensures
            text@ == "invalid integer; does not map to rank"@,
    {
        String::from_str("invalid integer; does not map to rank")
    }
}

/// A card's rank. The declaration order is the game order, Ace low; the
/// integer of a rank is given by [`Rank::to_u32`], not by a cast.
#[derive(Debug, Clone, Copy, PartialEq, Eq, Structural)]
pub enum Rank {
    Ace,
    Two,
    Three,
    Four,
    Five,
    Six,
    Seven,
    Eight,
    Nine,
    Ten,
    Jack,
    Queen,
    King,
}

impl Rank {
    /// The rank's ordinal, in `1..=13`.
    pub open spec fn ordinal(self) -> int {
        match self {
            Rank::Ace => 1,
            Rank::Two => 2,
            Rank::Three => 3,
            Rank::Four => 4,
            Rank::Five => 5,
            Rank::Six => 6,
            Rank::Seven => 7,
            Rank::Eight => 8,
            Rank::Nine => 9,
            Rank::Ten => 10,
            Rank::Jack => 11,
            Rank::Queen => 12,
            Rank::King => 13,
        }
    }

    /// The rank with ordinal `n`, if `n` is in `1..=13`.
    pub open spec fn from_ordinal(n: int) -> Option<Rank> {
        if n == 1 {
            Some(Rank::Ace)
        } else if n == 2 {
            Some(Rank::Two)
        } else if n == 3 {
            Some(Rank::Three)
        } else if n == 4 {
            Some(Rank::Four)
        } else if n == 5 {
            Some(Rank::Five)
        } else if n == 6 {
            Some(Rank::Six)
        } else if n == 7 {
            Some(Rank::Seven)
        } else if n == 8 {
            Some(Rank::Eight)
        } else if n == 9 {
            Some(Rank::Nine)
        } else if n == 10 {
            Some(Rank::Ten)
        } else if n == 11 {
            Some(Rank::Jack)
        } else if n == 12 {
            Some(Rank::Queen)
        } else if n == 13 {
            Some(Rank::King)
        } else {
            None
        }
    }

    /// The points a card of this rank is worth on its own: 10 for the three
    /// face ranks, the ordinal otherwise (so an Ace is worth 1).
    pub open spec fn points(self) -> int {
        if self.ordinal() > 10 {
            10
        } else {
            self.ordinal()
        }
    }

    /// The rank's display name.
    pub open spec fn name(self) -> Seq<char> {
        match self {
            Rank::Ace => "Ace"@,
            Rank::Two => "2"@,
            Rank::Three => "3"@,
            Rank::Four => "4"@,
            Rank::Five => "5"@,
            Rank::Six => "6"@,
            Rank::Seven => "7"@,
            Rank::Eight => "8"@,
            Rank::Nine => "9"@,
            Rank::Ten => "10"@,
            Rank::Jack => "Jack"@,
            Rank::Queen => "Queen"@,
            Rank::King => "King"@,
        }
    }

    /// The rank's integer, in `1..=13`.
    pub fn to_u32(self) -> (n: u32)
        ensures
            n == self.ordinal(),
    {
        match self {
            Rank::Ace => 1,
            Rank::Two => 2,
            Rank::Three => 3,
            Rank::Four => 4,
            Rank::Five => 5,
            Rank::Six => 6,
            Rank::Seven => 7,
            Rank::Eight => 8,
            Rank::Nine => 9,
            Rank::Ten => 10,
            Rank::Jack => 11,
            Rank::Queen => 12,
            Rank::King => 13,
        }
    }

    /// Renders the rank's display name.
    pub fn to_string(&self) -> (text: String)
        ensures
            text@ == self.name(),
    {
        match self {
            Rank::Ace => String::from_str("Ace"),
            Rank::Two => String::from_str("2"),
            Rank::Three => String::from_str("3"),
            Rank::Four => String::from_str("4"),
            Rank::Five => String::from_str("5"),
            Rank::Six => String::from_str("6"),
            Rank::Seven => String::from_str("7"),
            Rank::Eight => String::from_str("8"),
            Rank::Nine => String::from_str("9"),
            Rank::Ten => String::from_str("10"),
            Rank::Jack => String::from_str("Jack"),
            Rank::Queen => String::from_str("Queen"),
            Rank::King => String::from_str("King"),
        }
    }
}

impl TryFrom<u32> for Rank {
    type Error = InvalidIntToRank;

    fn try_from(value: u32) -> (converted: Result<Rank, InvalidIntToRank>)
    {
        if value == 1 {
            Ok(Rank::Ace)
        } else if value == 2 {
            Ok(Rank::Two)
        } else if value == 3 {
            Ok(Rank::Three)
        } else if value == 4 {
            Ok(Rank::Four)
        } else if value == 5 {
            Ok(Rank::Five)
        } else if value == 6 {
            Ok(Rank::Six)
        } else if value == 7 {
            Ok(Rank::Seven)
        } else if value == 8 {
            Ok(Rank::Eight)
        } else if value == 9 {
            Ok(Rank::Nine)
        } else if value == 10 {
            Ok(Rank::Ten)
        } else if value == 11 {
            Ok(Rank::Jack)
        } else if value == 12 {
            Ok(Rank::Queen)
        } else if value == 13 {
            Ok(Rank::King)
        } else {
            Err(InvalidIntToRank)
        }
    }
}

impl TryFromSpecImpl<u32> for Rank {
    open spec fn obeys_try_from_spec() -> bool {
        true
    }

    open spec fn try_from_spec(value: u32) -> Result<Rank, InvalidIntToRank> {
        match Rank::from_ordinal(value as int) {
            Some(rank) => Ok(rank),
            None => Err(InvalidIntToRank),
        }
    }
}

/// Converting a rank to its integer and back gives the rank again, and the
/// integer always lies in `1..=13`.
pub proof fn lemma_rank_ordinal_round_trip(rank: Rank)
    ensures
        1 <= rank.ordinal() <= 13,
        Rank::from_ordinal(rank.ordinal()) == Some(rank),
{
}

/// An integer converts to a rank exactly when it lies in `1..=13`, and the rank
/// it converts to has that integer as its ordinal.
pub proof fn lemma_rank_from_ordinal(n: int)
    ensures
        Rank::from_ordinal(n) is Some <==> 1 <= n <= 13,
        Rank::from_ordinal(n) matches Some(rank) ==> rank.ordinal() == n,
{
}

/// The three face ranks are worth 10, an Ace 1, and Two to Ten their number.
pub proof fn lemma_rank_points(rank: Rank)
    ensures
        1 <= rank.points() <= 10,
        rank == Rank::Jack || rank == Rank::Queen || rank == Rank::King ==> rank.points() == 10,
        rank == Rank::Ace ==> rank.points() == 1,
        2 <= rank.ordinal() <= 10 ==> rank.points() == rank.ordinal(),
{
}

} // verus!

