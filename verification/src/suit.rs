//! The four suits and their mapping to the integers `0..=3`.
use vstd::prelude::*;
use vstd::std_specs::convert::TryFromSpecImpl;

verus! {

/// Error of converting an integer outside `0..=3` to a [`Suit`].
#[derive(Debug, Clone, Copy, PartialEq, Eq, Structural)]
pub struct InvalidIntToSuit;

impl InvalidIntToSuit {
    /// The message shown for this error.
    pub fn to_string(&self) -> (text: String)
        ensures
            text@ == "invalid integer; does not map to suit"@,
    {
        String::from_str("invalid integer; does not map to suit")
    }
}

#[derive(Debug, Clone, Copy, PartialEq, Eq, Structural)]
pub enum Suit {
    Diamonds,
    Clubs,
    Hearts,
    Spades,
}

impl Suit {
    /// The suit's ordinal, in `0..=3`.
    pub open spec fn ordinal(self) -> int {
        match self {
            Suit::Diamonds => 0,
            Suit::Clubs => 1,
            Suit::Hearts => 2,
            Suit::Spades => 3,
        }
    }

    /// The suit with ordinal `n`, if `n` is in `0..=3`.
    pub open spec fn from_ordinal(n: int) -> Option<Suit> {
        if n == 0 {
            Some(Suit::Diamonds)
        } else if n == 1 {
            Some(Suit::Clubs)
        } else if n == 2 {
            Some(Suit::Hearts)
        } else if n == 3 {
            Some(Suit::Spades)
        } else {
            None
        }
    }

    /// The suit's display name.
    pub open spec fn name(self) -> Seq<char> {
        match self {
            Suit::Diamonds => "Diamonds"@,
            Suit::Clubs => "Clubs"@,
            Suit::Hearts => "Hearts"@,
            Suit::Spades => "Spades"@,
        }
    }

    /// The suit's integer, in `0..=3`.
    pub fn to_u32(self) -> (n: u32)
        ensures
            n == self.ordinal(),
    {
        match self {
            Suit::Diamonds => 0,
            Suit::Clubs => 1,
            Suit::Hearts => 2,
            Suit::Spades => 3,
        }
    }

    /// Renders the suit's display name.
    pub fn to_string(&self) -> (text: String)
        ensures
            text@ == self.name(),
    {
        match self {
            Suit::Diamonds => String::from_str("Diamonds"),
            Suit::Clubs => String::from_str("Clubs"),
            Suit::Hearts => String::from_str("Hearts"),
            Suit::Spades => String::from_str("Spades"),
        }
    }
}

impl TryFrom<u32> for Suit {
    type Error = InvalidIntToSuit;

    fn try_from(value: u32) -> (converted: Result<Suit, InvalidIntToSuit>)
    {
        if value == 0 {
            Ok(Suit::Diamonds)
        } else if value == 1 {
            Ok(Suit::Clubs)
        } else if value == 2 {
            Ok(Suit::Hearts)
        } else if value == 3 {
            Ok(Suit::Spades)
        } else {
            Err(InvalidIntToSuit)
        }
    }
}

impl TryFromSpecImpl<u32> for Suit {
    open spec fn obeys_try_from_spec() -> bool {
        true
    }

    open spec fn try_from_spec(value: u32) -> Result<Suit, InvalidIntToSuit> {
        match Suit::from_ordinal(value as int) {
            Some(suit) => Ok(suit),
            None => Err(InvalidIntToSuit),
        }
    }
}

/// Converting a suit to its integer and back gives the suit again, and the
/// integer always lies in `0..=3`.
pub proof fn lemma_suit_ordinal_round_trip(suit: Suit)
    ensures
        0 <= suit.ordinal() <= 3,
        Suit::from_ordinal(suit.ordinal()) == Some(suit),
{
}

/// An integer converts to a suit exactly when it lies in `0..=3`, and the suit
/// it converts to has that integer as its ordinal.
pub proof fn lemma_suit_from_ordinal(n: int)
    ensures
        Suit::from_ordinal(n) is Some <==> 0 <= n <= 3,
        Suit::from_ordinal(n) matches Some(suit) ==> suit.ordinal() == n,
{
}

} // verus!
