//! A participant's hand and its score.
use vstd::prelude::*;
use crate::card::Card;
use crate::card::append_listed;
use crate::card::listing;
use crate::card::pile_text;
use crate::rank::Rank;

verus! {

/// The cards' points added up, every Ace counted as 1.
pub open spec fn hard_total(cards: Seq<Card>) -> int
    decreases cards.len(),
{
    if cards.len() == 0 {
        0
    } else {
        hard_total(cards.drop_last()) + cards.last().rank.points()
    }
}

/// The number of Aces among `cards`.
pub open spec fn ace_count(cards: Seq<Card>) -> int
    decreases cards.len(),
{
    if cards.len() == 0 {
        0
    } else {
        ace_count(cards.drop_last()) + if cards.last().rank == Rank::Ace {
            1int
        } else {
            0int
        }
    }
}

/// The cards' points added up, every Ace counted as 11.
pub open spec fn soft_total(cards: Seq<Card>) -> int {
    hard_total(cards) + 10 * ace_count(cards)
}

/// The Blackjack value of `cards`: the hard total, raised by 10 when an Ace is
/// held and the raise does not take the hand over 21.
pub open spec fn hand_value(cards: Seq<Card>) -> int {
    if ace_count(cards) > 0 && hard_total(cards) + 10 <= 21 {
        hard_total(cards) + 10
    } else {
        hard_total(cards)
    }
}

/// A two-card hand worth 21.
pub open spec fn is_natural(cards: Seq<Card>) -> bool {
    hand_value(cards) == 21 && cards.len() == 2
}

/// Every card is worth between 1 and 10 points and an Ace is worth 1, so the
/// totals of a hand are bounded by its length.
pub proof fn lemma_total_bounds(cards: Seq<Card>)
    ensures
        0 <= ace_count(cards) <= cards.len(),
        ace_count(cards) <= hard_total(cards),
        cards.len() <= hard_total(cards) <= 10 * cards.len(),
        hard_total(cards) <= hand_value(cards) <= soft_total(cards) <= 11 * cards.len(),
    decreases cards.len(),
{
    if cards.len() > 0 {
        lemma_total_bounds(cards.drop_last());
    }
}

/// The totals of a hand that received one more card.
pub proof fn lemma_totals_push(cards: Seq<Card>, card: Card)
    ensures
        hard_total(cards.push(card)) == hard_total(cards) + card.rank.points(),
        ace_count(cards.push(card)) == ace_count(cards) + if card.rank == Rank::Ace {
            1int
        } else {
            0int
        },
{
    assert(cards.push(card).drop_last() =~= cards);
}

/// The value of a hand is the highest total of at most 21 that can be had by
/// counting any number of its Aces as 11 in place of 1; where there is none,
/// it is the hard total.
pub proof fn lemma_hand_value_is_best(cards: Seq<Card>, raised: int)
    requires
        0 <= raised <= ace_count(cards),
    ensures
        hard_total(cards) + 10 * raised <= 21 ==> hard_total(cards) + 10 * raised <= hand_value(
            cards,
        ),
        hand_value(cards) > 21 ==> hand_value(cards) == hard_total(cards),
{
    lemma_total_bounds(cards);
}

/// A natural is an Ace with a card worth 10, and nothing else: two cards
/// worth 21 are a natural, and a hand of three cards or more is none,
/// whatever it is worth.
pub proof fn lemma_natural(cards: Seq<Card>)
    ensures
        cards.len() == 2 && hand_value(cards) == 21 ==> is_natural(cards),
        cards.len() != 2 ==> !is_natural(cards),
        is_natural(cards) <==> cards.len() == 2 && ((cards[0].rank == Rank::Ace
            && cards[1].rank.points() == 10) || (cards[1].rank == Rank::Ace
            && cards[0].rank.points() == 10)),
{
    if cards.len() == 2 {
        let none = Seq::<Card>::empty();
        assert(cards =~= none.push(cards[0]).push(cards[1]));
        lemma_totals_push(none, cards[0]);
        lemma_totals_push(none.push(cards[0]), cards[1]);
    }
}

/// The cards a participant holds, in the order received.
#[derive(Debug)]
pub struct Hand(Vec<Card>);

impl View for Hand {
    type V = Seq<Card>;

    closed spec fn view(&self) -> Seq<Card> {
        self.0@
    }
}

impl Hand {
    /// An empty hand.
    pub fn new() -> (hand: Hand)
        ensures
            hand@ == Seq::<Card>::empty(),
    {
        Hand(Vec::new())
    }

    /// The cards held, first received first.
    pub fn cards(&self) -> (cards: &Vec<Card>)
        ensures
            cards@ == self@,
    {
        &self.0
    }

    /// The hand's Blackjack value. Every Ace is first counted as 11; then,
    /// while the total is over 21 and an Ace still counts 11, one Ace is
    /// taken back to 1.
    pub fn get_point_value(&self) -> (points: u32)
        requires
            soft_total(self@) <= u32::MAX,
        ensures
            points == hand_value(self@),
    {
        let mut points: u32 = 0;
        let mut aces: u32 = 0;
        let mut i: usize = 0;
        proof {
            lemma_total_bounds(self@);
        }
        while i < self.0.len()
            invariant
                i <= self.0.len(),
                points == hard_total(self@.take(i as int)),
                aces == ace_count(self@.take(i as int)),
                soft_total(self@) <= u32::MAX,
                hard_total(self@) <= soft_total(self@),
                self@ == self.0@,
            decreases self.0.len() - i,
        {
            proof {
                let held = self@.take(i as int);
                let next = self@[i as int];
                lemma_totals_push(held, next);
                assert(held.push(next) =~= self@.take(i + 1));
                lemma_totals_rest(self@, i + 1);
            }
            points += self.0[i].get_point_value();
            if self.0[i].rank == Rank::Ace {
                aces += 1;
            }
            i += 1;
        }
        proof {
            assert(self@.take(i as int) =~= self@);
        }
        let ghost held_aces: int = aces as int;
        points += aces * 10;
        while points > 21 && aces > 0
            invariant
                0 <= aces <= held_aces,
                held_aces == ace_count(self@),
                points == hard_total(self@) + 10 * aces,
                aces < held_aces ==> hard_total(self@) + 10 * (aces + 1) > 21,
            decreases aces,
        {
            points -= 10;
            aces -= 1;
        }
        points
    }

    /// The number of cards held.
    pub fn get_num_cards(&self) -> (count: u32)
        requires
            self@.len() <= u32::MAX,
        ensures
            count == self@.len(),
    {
        self.0.len() as u32
    }

    /// Puts `card` behind the cards already held.
    pub fn add_card_to_hand(&mut self, card: Card)
        ensures
            final(self)@ == old(self)@.push(card),
    {
        self.0.push(card);
    }

    /// Hands out every card held, in order, and leaves the hand empty.
    pub fn discard_hand(&mut self) -> (discarded: Vec<Card>)
        ensures
            discarded@ == old(self)@,
            final(self)@ == Seq::<Card>::empty(),
    {
        let mut discarded: Vec<Card> = Vec::new();
        std::mem::swap(&mut self.0, &mut discarded);
        discarded
    }

    /// Renders the hand as `"[ <card>, <card> ]"`; an empty hand as `"[  ]"`.
    pub fn to_string(&self) -> (text: String)
        ensures
            text@ == pile_text(self@),
    {
        let mut text = String::from_str("[ ");
        let mut i: usize = 0;
        while i < self.0.len()
            invariant
                i <= self.0.len(),
                text@ == "[ "@ + listing(self@.take(i as int)),
                self@ == self.0@,
            decreases self.0.len() - i,
        {
            proof {
                assert(self@.take(i + 1).drop_last() =~= self@.take(i as int));
            }
            append_listed(&mut text, i, &self.0[i]);
            i += 1;
            proof {
                assert(text@ =~= "[ "@ + listing(self@.take(i as int)));
            }
        }
        proof {
            assert(self@.take(i as int) =~= self@);
        }
        text.append(" ]");
        text
    }
}

/// The totals of the first `n` cards are no more than those of all of them.
proof fn lemma_totals_rest(cards: Seq<Card>, n: int)
    requires
        0 <= n <= cards.len(),
    ensures
        hard_total(cards.take(n)) <= hard_total(cards),
        ace_count(cards.take(n)) <= ace_count(cards),
        soft_total(cards.take(n)) <= soft_total(cards),
    decreases cards.len() - n,
{
    if n < cards.len() {
        lemma_totals_rest(cards, n + 1);
        lemma_totals_push(cards.take(n), cards[n]);
        assert(cards.take(n).push(cards[n]) =~= cards.take(n + 1));
    } else {
        assert(cards.take(n) =~= cards);
    }
}

} // verus!
