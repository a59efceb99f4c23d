//! A playing card: a rank and a suit.
use vstd::prelude::*;
use crate::rank::Rank;
use crate::suit::Suit;

verus! {

/// A card is created once, when the deck is built, and then only moves
/// between the deck and the hands: it is neither `Clone` nor `Copy`.
#[derive(Debug, PartialEq, Eq, Structural)]
pub struct Card {
    pub rank: Rank,
    pub suit: Suit,
}

impl Card {
    /// The card's text, `"<rank> of <suit>"`.
    pub open spec fn text(self) -> Seq<char> {
        self.rank.name() + " of "@ + self.suit.name()
    }

    /// The points the card is worth on its own; an Ace counts 1 here, and a
    /// hand may raise it to 11.
    pub fn get_point_value(&self) -> (points: u32)
        ensures
            points == self.rank.points(),
    {
        match self.rank {
            Rank::Jack => 10,
            Rank::Queen => 10,
            Rank::King => 10,
            _ => self.rank.to_u32(),
        }
    }

    /// Renders the card as `"<rank> of <suit>"`.
    pub fn to_string(&self) -> (text: String)
        ensures
            text@ == self.text(),
    {
        let mut text = self.rank.to_string();
        text.append(" of ");
        let suit = self.suit.to_string();
        text.append(suit.as_str());
        text
    }
}

/// The text of `cards` as a list: the cards' texts in order, with `", "`
/// between neighbours.
pub open spec fn listing(cards: Seq<Card>) -> Seq<char>
    decreases cards.len(),
{
    if cards.len() == 0 {
        Seq::empty()
    } else {
        listing(cards.drop_last()) + separator(cards.len() - 1) + cards.last().text()
    }
}

/// What stands before the card at `index` of a list: nothing before the
/// first, `", "` before every other.
pub open spec fn separator(index: int) -> Seq<char> {
    if index == 0 {
        Seq::empty()
    } else {
        ", "@
    }
}

/// The text of a pile of cards: `"[ "`, the list, `" ]"`. An empty pile reads
/// `"[  ]"`.
pub open spec fn pile_text(cards: Seq<Card>) -> Seq<char> {
    "[ "@ + listing(cards) + " ]"@
}

/// Appends to `text` the card that stands at `index` of a list, after its
/// separator.
pub fn append_listed(text: &mut String, index: usize, card: &Card)
    ensures
        final(text)@ == old(text)@ + separator(index as int) + card.text(),
{
    if index != 0 {
        text.append(", ");
    }
    let item = card.to_string();
    text.append(item.as_str());
    proof {
        assert(final(text)@ =~= old(text)@ + separator(index as int) + card.text());
    }
}

} // verus!
