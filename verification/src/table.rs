//! The conservation of cards, stated for every course of play.
//!
//! A [`Table`] is what lies on the table at one moment: the deck, the hands,
//! and the piles that were discarded and not yet collected. A [`Move`] is one
//! of the three things that happen to cards: a deal, a discard, a collection.
//! Their effect here is that of `Deck::deal_card` followed by
//! `Hand::add_card_to_hand`, of `Hand::discard_hand`, and of
//! `Deck::collect_played_cards`, as the contracts of those functions give it.
use vstd::multiset::Multiset;
use vstd::prelude::*;
use vstd::seq_lib::lemma_multiset_commutative;
use vstd::seq_lib::to_multiset_build;
use crate::card::Card;
use crate::deck::DECK_SIZE;
use crate::deck::is_full_deck;
use crate::deck::lemma_front_card;
use crate::deck::lemma_full_deck_len;

verus! {

/// The cards on the table, pile by pile.
pub struct Table {
    /// The deck, front first.
    pub deck: Seq<Card>,
    /// The participants' hands.
    pub hands: Seq<Seq<Card>>,
    /// The discarded hands that the deck has not collected yet.
    pub piles: Seq<Seq<Card>>,
}

/// What can happen to the cards on a table.
pub enum Move {
    /// The front card of the deck goes to the end of a hand.
    Deal { hand: int },
    /// A hand is given up whole, and lies as a pile.
    Discard { hand: int },
    /// A pile goes behind the cards of the deck.
    Collect { pile: int },
}

/// The number of cards in `piles`.
pub open spec fn count_in(piles: Seq<Seq<Card>>) -> nat
    decreases piles.len(),
{
    if piles.len() == 0 {
        0
    } else {
        count_in(piles.drop_last()) + piles.last().len()
    }
}

/// The cards in `piles`, each as often as it lies there.
pub open spec fn cards_in(piles: Seq<Seq<Card>>) -> Multiset<Card>
    decreases piles.len(),
{
    if piles.len() == 0 {
        Multiset::empty()
    } else {
        cards_in(piles.drop_last()).add(piles.last().to_multiset())
    }
}

impl Table {
    /// The number of cards on the table.
    pub open spec fn count(self) -> nat {
        self.deck.len() + count_in(self.hands) + count_in(self.piles)
    }

    /// The cards on the table, each as often as it lies there.
    pub open spec fn cards(self) -> Multiset<Card> {
        self.deck.to_multiset().add(cards_in(self.hands)).add(cards_in(self.piles))
    }

    /// The move can be made: a deal needs a card in the deck and a hand to
    /// take it, a discard a hand, a collection a pile.
    pub open spec fn allows(self, step: Move) -> bool {
        match step {
            Move::Deal { hand } => self.deck.len() > 0 && 0 <= hand < self.hands.len(),
            Move::Discard { hand } => 0 <= hand < self.hands.len(),
            Move::Collect { pile } => 0 <= pile < self.piles.len(),
        }
    }

    /// The table after a move. A move that cannot be made leaves the table
    /// as it is.
    pub open spec fn after(self, step: Move) -> Table {
        if !self.allows(step) {
            self
        } else {
            match step {
                Move::Deal { hand } => Table {
                    deck: self.deck.drop_first(),
                    hands: self.hands.update(hand, self.hands[hand].push(self.deck[0])),
                    piles: self.piles,
                },
                Move::Discard { hand } => Table {
                    deck: self.deck,
                    hands: self.hands.update(hand, Seq::empty()),
                    piles: self.piles.push(self.hands[hand]),
                },
                Move::Collect { pile } => Table {
                    deck: self.deck + self.piles[pile],
                    hands: self.hands,
                    piles: self.piles.remove(pile),
                },
            }
        }
    }

    /// The table after a course of moves, made in their order.
    pub open spec fn after_all(self, steps: Seq<Move>) -> Table
        decreases steps.len(),
    {
        if steps.len() == 0 {
            self
        } else {
            self.after_all(steps.drop_last()).after(steps.last())
        }
    }
}

/// Replacing one pile changes the count by the difference of the two.
proof fn lemma_count_update(piles: Seq<Seq<Card>>, at: int, pile: Seq<Card>)
    requires
        0 <= at < piles.len(),
    ensures
        count_in(piles.update(at, pile)) + piles[at].len() == count_in(piles) + pile.len(),
        cards_in(piles.update(at, pile)).add(piles[at].to_multiset()) == cards_in(piles).add(
            pile.to_multiset(),
        ),
    decreases piles.len(),
{
    broadcast use vstd::multiset::group_multiset_axioms;

    let changed = piles.update(at, pile);
    let before = piles.drop_last();
    if at == piles.len() - 1 {
        assert(changed.drop_last() =~= before);
        assert(changed.last() == pile);
    } else {
        assert(changed.drop_last() =~= before.update(at, pile));
        assert(changed.last() == piles.last());
        assert(before[at] == piles[at]);
        lemma_count_update(before, at, pile);
    }
    assert forall|card: Card|
        cards_in(changed).add(piles[at].to_multiset()).count(card) == cards_in(piles).add(
            pile.to_multiset(),
        ).count(card) by {
        if at < piles.len() - 1 {
            assert(cards_in(before.update(at, pile)).add(piles[at].to_multiset()).count(card)
                == cards_in(before).add(pile.to_multiset()).count(card));
        }
    }
    assert(cards_in(changed).add(piles[at].to_multiset()) =~= cards_in(piles).add(
        pile.to_multiset(),
    ));
}

/// One more pile adds its cards.
proof fn lemma_count_push(piles: Seq<Seq<Card>>, pile: Seq<Card>)
    ensures
        count_in(piles.push(pile)) == count_in(piles) + pile.len(),
        cards_in(piles.push(pile)) == cards_in(piles).add(pile.to_multiset()),
{
    assert(piles.push(pile).drop_last() =~= piles);
}

/// A pile taken away takes its cards along.
proof fn lemma_count_remove(piles: Seq<Seq<Card>>, at: int)
    requires
        0 <= at < piles.len(),
    ensures
        count_in(piles.remove(at)) + piles[at].len() == count_in(piles),
        cards_in(piles.remove(at)).add(piles[at].to_multiset()) == cards_in(piles),
    decreases piles.len(),
{
    broadcast use vstd::multiset::group_multiset_axioms;

    let rest = piles.remove(at);
    if at == piles.len() - 1 {
        assert(rest =~= piles.drop_last());
    } else {
        assert(rest.drop_last() =~= piles.drop_last().remove(at));
        assert(rest.last() == piles.last());
        assert(piles.drop_last()[at] == piles[at]);
        lemma_count_remove(piles.drop_last(), at);
    }
    assert(cards_in(rest).add(piles[at].to_multiset()) =~= cards_in(piles));
}

/// No move makes or loses a card: the table holds the same cards after it,
/// and as many.
pub proof fn lemma_move_conserves(table: Table, step: Move)
    ensures
        table.after(step).count() == table.count(),
        table.after(step).cards() == table.cards(),
{
    broadcast use vstd::multiset::group_multiset_axioms;

    if table.allows(step) {
        let next = table.after(step);
        match step {
            Move::Deal { hand } => {
                let card = table.deck[0];
                let held = table.hands[hand];
                lemma_front_card(table.deck);
                to_multiset_build(held, card);
                lemma_count_update(table.hands, hand, held.push(card));
                assert forall|any: Card| next.cards().count(any) == table.cards().count(any) by {
                    assert(cards_in(next.hands).add(held.to_multiset()).count(any) == cards_in(
                        table.hands,
                    ).add(held.push(card).to_multiset()).count(any));
                }
            },
            Move::Discard { hand } => {
                let held = table.hands[hand];
                lemma_count_update(table.hands, hand, Seq::empty());
                lemma_count_push(table.piles, held);
                Seq::<Card>::empty().to_multiset_ensures();
                assert(Seq::<Card>::empty().to_multiset() =~= Multiset::<Card>::empty());
                assert forall|any: Card| next.cards().count(any) == table.cards().count(any) by {
                    assert(cards_in(next.hands).add(held.to_multiset()).count(any) == cards_in(
                        table.hands,
                    ).add(Seq::<Card>::empty().to_multiset()).count(any));
                }
            },
            Move::Collect { pile } => {
                let taken = table.piles[pile];
                lemma_multiset_commutative(table.deck, taken);
                lemma_count_remove(table.piles, pile);
                assert forall|any: Card| next.cards().count(any) == table.cards().count(any) by {
                    assert(cards_in(next.piles).add(taken.to_multiset()).count(any) == cards_in(
                        table.piles,
                    ).count(any));
                }
            },
        }
        assert(table.after(step).cards() =~= table.cards());
    }
}

/// Conservation: whatever is dealt, discarded and collected, and in whatever
/// order, the deck, the hands and the piles in flight hold between them the
/// cards they held at the start, and as many.
pub proof fn lemma_conservation(table: Table, steps: Seq<Move>)
    ensures
        table.after_all(steps).count() == table.count(),
        table.after_all(steps).cards() == table.cards(),
    decreases steps.len(),
{
    if steps.len() > 0 {
        lemma_conservation(table, steps.drop_last());
        lemma_move_conserves(table.after_all(steps.drop_last()), steps.last());
    }
}

/// A game that starts with a full deck and empty hands has 52 cards on the
/// table at every moment: those of the deck, each once.
pub proof fn lemma_always_52(deck: Seq<Card>, participants: nat, steps: Seq<Move>)
    requires
        is_full_deck(deck),
    ensures
        ({
            let start = Table {
                deck: deck,
                hands: Seq::new(participants, |i: int| Seq::<Card>::empty()),
                piles: Seq::empty(),
            };
            &&& start.after_all(steps).count() == DECK_SIZE
            &&& start.after_all(steps).cards() == deck.to_multiset()
        }),
{
    let start = Table {
        deck: deck,
        hands: Seq::new(participants, |i: int| Seq::<Card>::empty()),
        piles: Seq::empty(),
    };
    lemma_full_deck_len(deck);
    lemma_empty_hands(start.hands);
    lemma_conservation(start, steps);
    assert(start.cards() =~= deck.to_multiset());
}

/// Empty hands hold no card.
proof fn lemma_empty_hands(hands: Seq<Seq<Card>>)
    requires
        forall|i: int| 0 <= i < hands.len() ==> hands[i].len() == 0,
    ensures
        count_in(hands) == 0,
        cards_in(hands) == Multiset::<Card>::empty(),
    decreases hands.len(),
{
    if hands.len() > 0 {
        lemma_empty_hands(hands.drop_last());
        hands.last().to_multiset_ensures();
        assert(hands.last().to_multiset() =~= Multiset::<Card>::empty());
        assert(cards_in(hands) =~= Multiset::<Card>::empty());
    }
}

} // verus!
