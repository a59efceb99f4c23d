//! The deck: an ordered pile of cards, dealt from the front and refilled at
//! the back.
use std::collections::VecDeque;
use rand::rngs::ThreadRng;
use rand::seq::SliceRandom;
use vstd::prelude::*;
use vstd::seq_lib::lemma_multiset_commutative;
use vstd::seq_lib::to_multiset_build;
use vstd::seq_lib::to_multiset_len;
use crate::card::Card;
use crate::card::append_listed;
use crate::card::listing;
use crate::card::pile_text;
use crate::rank::Rank;
use crate::suit::Suit;

verus! {

/// The number of cards of a full deck.
pub const DECK_SIZE: usize = 52;

/// The card at `position` of a fresh deck: the suits follow each other in
/// their order, and within a suit the ranks rise from Ace to King.
pub open spec fn fresh_card(position: int) -> Card {
    Card {
        rank: Rank::from_ordinal(position % 13 + 1)->0,
        suit: Suit::from_ordinal(position / 13)->0,
    }
}

/// The 52 cards of a fresh deck, front first.
pub open spec fn fresh_deck() -> Seq<Card> {
    Seq::new(DECK_SIZE as nat, |position: int| fresh_card(position))
}

/// `cards` are the 52 cards of a deck, each once, in any order.
pub open spec fn is_full_deck(cards: Seq<Card>) -> bool {
    cards.to_multiset() == fresh_deck().to_multiset()
}

/// `rand::rngs::ThreadRng`, the handle to a thread's random number
/// generator. It is carried from `rand::thread_rng` to the shuffle and is
/// not looked into.
#[verifier::external_type_specification]
#[verifier::external_body]
pub struct ExThreadRng(ThreadRng);

/// `rand::thread_rng`: a handle to the calling thread's generator. Nothing is
/// claimed of the handle. The call panics where the operating system gives
/// the generator no seed.
pub assume_specification[ rand::thread_rng ]() -> (rng: ThreadRng);

/// `rand::seq::SliceRandom::shuffle` on the deque's cards, laid out as one
/// slice by `VecDeque::make_contiguous`. The shuffle only swaps elements of
/// the slice, so the cards after it are those before it in some order; which
/// order is left open.
#[verifier::external_body]
fn shuffle_cards(cards: &mut VecDeque<Card>, rng: &mut ThreadRng)
    ensures
        final(cards)@.to_multiset() == old(cards)@.to_multiset(),
        final(cards)@.len() == old(cards)@.len(),
{
    cards.make_contiguous().shuffle(rng);
}

/// The cards that wait to be dealt; the front is dealt next.
#[derive(Debug)]
pub struct Deck(VecDeque<Card>);

impl View for Deck {
    type V = Seq<Card>;

    closed spec fn view(&self) -> Seq<Card> {
        self.0@
    }
}

impl Deck {
    /// A fresh deck: all 52 cards in their canonical order, unshuffled.
    pub fn new() -> (deck: Deck)
        ensures
            deck@ == fresh_deck(),
    {
        let mut cards: VecDeque<Card> = VecDeque::new();
        let mut s: u32 = 0;
        while s <= 3
            invariant
                s <= 4,
                cards@ == fresh_deck().take(13 * s),
            decreases 4 - s,
        {
            let mut r: u32 = 1;
            while r <= 13
                invariant
                    1 <= r <= 14,
                    s <= 3,
                    cards@ == fresh_deck().take(13 * s + r - 1),
                decreases 14 - r,
            {
                let new_suit = Suit::try_from(s);
                let new_rank = Rank::try_from(r);
                match (new_rank, new_suit) {
                    (Ok(rr), Ok(ss)) => {
                        cards.push_back(Card { rank: rr, suit: ss });
                    },
                    _ => {},
                }
                proof {
                    assert(cards@ =~= fresh_deck().take(13 * s + r));
                }
                r += 1;
            }
            s += 1;
        }
        proof {
            assert(cards@ =~= fresh_deck());
        }
        Deck(cards)
    }

    /// The number of cards in the deck.
    pub fn len(&self) -> (count: usize)
        ensures
            count == self@.len(),
    {
        self.0.len()
    }

    /// The card at `index`, counted from the front, if the deck has one there.
    pub fn get(&self, index: usize) -> (card: Option<&Card>)
        ensures
            index < self@.len() ==> card == Some(&self@[index as int]),
            index >= self@.len() ==> card is None,
    {
        if index < self.0.len() {
            Some(&self.0[index])
        } else {
            None
        }
    }

    /// Shuffles the deck in place, four times over. The deck holds the same
    /// cards afterwards; their order is whatever the generator chose.
    pub fn shuffle(&mut self)
        ensures
            final(self)@.to_multiset() == old(self)@.to_multiset(),
            final(self)@.len() == old(self)@.len(),
    {
        let mut rng = rand::thread_rng();
        let mut pass: u32 = 1;
        while pass < 5
            invariant
                1 <= pass <= 5,
                self@.to_multiset() == old(self)@.to_multiset(),
                self@.len() == old(self)@.len(),
            decreases 5 - pass,
        {
            shuffle_cards(&mut self.0, &mut rng);
            pass += 1;
        }
    }

    /// Puts the played cards behind the cards of the deck, in their order.
    /// Where they came from is not examined.
    pub fn collect_played_cards(&mut self, played_cards: Vec<Card>)
        ensures
            final(self)@ == old(self)@ + played_cards@,
    {
        let ghost played = played_cards@;
        for card in it: played_cards
            invariant
                it.seq() == played,
                self@ == old(self)@ + played.take(it.index()),
        {
            self.0.push_back(card);
            proof {
                assert(self@ =~= old(self)@ + played.take(it.index() + 1));
            }
        }
        proof {
            assert(played.take(played.len() as int) =~= played);
        }
    }

    /// Takes the front card off the deck.
    pub fn deal_card(&mut self) -> (card: Card)
        requires
            old(self)@.len() > 0,
        ensures
            card == old(self)@[0],
            final(self)@ == old(self)@.drop_first(),
    {
        let card = self.0.pop_front().unwrap();
        proof {
            assert(self@ =~= old(self)@.drop_first());
        }
        card
    }

    /// Renders the deck as `"[ <card>, <card> ]"`, front first.
    pub fn to_string(&self) -> (text: String)
        ensures
            text@ == pile_text(self@),
    {
        let mut text = String::from_str("[ ");
        let mut i: usize = 0;
        while i < self.0.len()
            invariant
                i <= self.0.len(),
                text@ == "[ "@ + listing(self@.take(i as int)),
                self@ == self.0@,
            decreases self.0.len() - i,
        {
            proof {
                assert(self@.take(i + 1).drop_last() =~= self@.take(i as int));
            }
            append_listed(&mut text, i, &self.0[i]);
            i += 1;
            proof {
                assert(text@ =~= "[ "@ + listing(self@.take(i as int)));
            }
        }
        proof {
            assert(self@.take(i as int) =~= self@);
        }
        text.append(" ]");
        text
    }
}

/// The cards of a pile are its front card and the cards behind it.
pub proof fn lemma_front_card(pile: Seq<Card>)
    requires
        pile.len() > 0,
    ensures
        pile.to_multiset() == pile.drop_first().to_multiset().insert(pile[0]),
{
    pile.to_multiset_ensures();
    assert(pile.drop_first() =~= pile.remove(0));
    assert(pile.contains(pile[0]));
    assert(pile.to_multiset() =~= pile.drop_first().to_multiset().insert(pile[0]));
}

/// Dealing moves a card and neither makes nor loses one: the deck after a
/// deal, together with the hand that took the card, holds the cards that the
/// deck and the hand held before.
pub proof fn lemma_deal_conserves(deck: Seq<Card>, hand: Seq<Card>)
    requires
        deck.len() > 0,
    ensures
        (deck.drop_first() + hand.push(deck[0])).to_multiset() == (deck + hand).to_multiset(),
        (deck.drop_first() + hand.push(deck[0])).len() == (deck + hand).len(),
{
    lemma_front_card(deck);
    lemma_multiset_commutative(deck, hand);
    lemma_multiset_commutative(deck.drop_first(), hand.push(deck[0]));
    to_multiset_build(hand, deck[0]);
    assert((deck.drop_first() + hand.push(deck[0])).to_multiset() =~= (deck + hand).to_multiset());
}

/// Collecting a pile that holds the cards dealt, in any order, restores the
/// cards of the deck: after `n` deals and the collection of `pile`, the deck
/// holds what it held at the start, and as many.
pub proof fn lemma_deal_then_collect(deck: Seq<Card>, n: int, pile: Seq<Card>)
    requires
        0 <= n <= deck.len(),
        pile.to_multiset() == deck.take(n).to_multiset(),
    ensures
        (deck.skip(n) + pile).to_multiset() == deck.to_multiset(),
        (deck.skip(n) + pile).len() == deck.len(),
{
    assert(deck =~= deck.take(n) + deck.skip(n));
    lemma_multiset_commutative(deck.take(n), deck.skip(n));
    lemma_multiset_commutative(deck.skip(n), pile);
    to_multiset_len(pile);
    to_multiset_len(deck.take(n));
    assert((deck.skip(n) + pile).to_multiset() =~= deck.to_multiset());
}

/// A fresh deck that is dealt out to the last card and then gets all 52
/// cards back, in any order, is a full deck of 52 again.
pub proof fn lemma_full_round_trip(pile: Seq<Card>)
    requires
        is_full_deck(pile),
    ensures
        fresh_deck().skip(DECK_SIZE as int) == Seq::<Card>::empty(),
        is_full_deck(fresh_deck().skip(DECK_SIZE as int) + pile),
        (fresh_deck().skip(DECK_SIZE as int) + pile).len() == DECK_SIZE,
{
    assert(fresh_deck().take(DECK_SIZE as int) =~= fresh_deck());
    assert(fresh_deck().skip(DECK_SIZE as int) =~= Seq::<Card>::empty());
    lemma_deal_then_collect(fresh_deck(), DECK_SIZE as int, pile);
}

/// The cards of a full deck in another order, as after a shuffle or after a
/// round, are a full deck.
pub proof fn lemma_same_cards_full_deck(before: Seq<Card>, after: Seq<Card>)
    requires
        is_full_deck(before),
        after.to_multiset() == before.to_multiset(),
    ensures
        is_full_deck(after),
        after.len() == DECK_SIZE,
{
    lemma_full_deck_len(after);
}

/// A full deck has 52 cards.
pub proof fn lemma_full_deck_len(cards: Seq<Card>)
    requires
        is_full_deck(cards),
    ensures
        cards.len() == DECK_SIZE,
{
    to_multiset_len(cards);
    to_multiset_len(fresh_deck());
}

} // verus!
