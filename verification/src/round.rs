//! One round of the game as a state machine: the deal, the player's turn, the
//! dealer's turn and the settlement.
//!
//! The round owns the deck and both hands. It is told what the player
//! decides, and plays the dealer by itself. No step makes or loses a card.
use vstd::prelude::*;
use vstd::seq_lib::lemma_multiset_commutative;
use vstd::seq_lib::to_multiset_build;
use crate::card::Card;
use crate::deck::DECK_SIZE;
use crate::deck::Deck;
use crate::deck::lemma_deal_conserves;
use crate::deck::lemma_front_card;
use crate::hand::hand_value;
use crate::hand::is_natural;
use crate::hand::lemma_total_bounds;
use crate::hand::soft_total;
use crate::player::BlackjackAction;
use crate::player::BlackjackPlayer;
use crate::player::Dealer;
use crate::player::HumanPlayer;
use crate::player::dealer_strategy;

verus! {

/// Who takes a round.
#[derive(Debug, Clone, Copy, PartialEq, Eq, Structural)]
pub enum Winner {
    Player,
    Dealer,
}

/// How a round ends.
#[derive(Debug, Clone, Copy, PartialEq, Eq, Structural)]
pub enum Outcome {
    /// The player went over 21: the dealer wins without playing.
    PlayerBust,
    /// The player holds a natural and the dealer does not.
    PlayerBlackjack,
    /// The dealer holds a natural and the player does not.
    DealerBlackjack,
    /// Both hold a natural: nobody wins.
    BlackjackPush,
    /// The dealer went over 21: the player wins.
    DealerBust,
    /// Both stayed and the player's hand is worth more.
    PlayerWins,
    /// Both stayed and the dealer's hand is worth more.
    DealerWins,
    /// Both stayed on the same value: nobody wins.
    Push,
}

impl Outcome {
    /// The winner, if the round has one.
    pub open spec fn winner_of(self) -> Option<Winner> {
        match self {
            Outcome::PlayerBlackjack | Outcome::DealerBust | Outcome::PlayerWins => Some(
                Winner::Player,
            ),
            Outcome::PlayerBust | Outcome::DealerBlackjack | Outcome::DealerWins => Some(
                Winner::Dealer,
            ),
            Outcome::BlackjackPush | Outcome::Push => None,
        }
    }

    pub fn winner(&self) -> (winner: Option<Winner>)
        ensures
            winner == self.winner_of(),
    {
        match self {
            Outcome::PlayerBlackjack | Outcome::DealerBust | Outcome::PlayerWins => Some(
                Winner::Player,
            ),
            Outcome::PlayerBust | Outcome::DealerBlackjack | Outcome::DealerWins => Some(
                Winner::Dealer,
            ),
            Outcome::BlackjackPush | Outcome::Push => None,
        }
    }
}

/// Where a round stands.
#[derive(Debug, Clone, Copy, PartialEq, Eq, Structural)]
pub enum Phase {
    /// The player is to say whether to hit or to stay.
    PlayerTurn,
    /// The player stayed; the dealer is to play.
    DealerTurn,
    /// The round has ended.
    Over(Outcome),
}

/// What is found at the top of the player's turn, before the player is
/// asked: an end of the round, or nothing, and then the player is asked.
pub open spec fn player_turn(player: Seq<Card>, dealer: Seq<Card>) -> Option<Outcome> {
    if hand_value(player) > 21 {
        Some(Outcome::PlayerBust)
    } else if is_natural(player) {
        if is_natural(dealer) {
            Some(Outcome::BlackjackPush)
        } else {
            Some(Outcome::PlayerBlackjack)
        }
    } else if is_natural(dealer) {
        Some(Outcome::DealerBlackjack)
    } else {
        None
    }
}

/// The comparison that ends a round in which both stayed.
pub open spec fn showdown(player_value: int, dealer_value: int) -> Outcome {
    if dealer_value > player_value {
        Outcome::DealerWins
    } else if dealer_value < player_value {
        Outcome::PlayerWins
    } else {
        Outcome::Push
    }
}

/// What is found at the top of the dealer's turn: an end of the round, or
/// nothing, and then the dealer draws a card.
pub open spec fn dealer_turn(player: Seq<Card>, dealer: Seq<Card>) -> Option<Outcome> {
    if hand_value(dealer) > 21 {
        Some(Outcome::DealerBust)
    } else if is_natural(dealer) {
        Some(Outcome::DealerBlackjack)
    } else {
        match dealer_strategy(hand_value(dealer)) {
            BlackjackAction::Hit => None,
            BlackjackAction::Stay => Some(showdown(hand_value(player), hand_value(dealer))),
        }
    }
}

/// The phase that follows a look at the top of the player's turn.
pub open spec fn phase_after(found: Option<Outcome>) -> Phase {
    match found {
        Some(outcome) => Phase::Over(outcome),
        None => Phase::PlayerTurn,
    }
}

/// The dealer's turn takes exactly `drawn` cards off `deck`: the dealer draws
/// after each of the first `drawn` looks at the hand, and the look after the
/// last card ends the round.
pub open spec fn dealer_draws(
    deck: Seq<Card>,
    player: Seq<Card>,
    dealer: Seq<Card>,
    drawn: int,
) -> bool {
    &&& 0 <= drawn <= deck.len()
    &&& forall|n: int| 0 <= n < drawn ==> dealer_turn(player, dealer + #[trigger] deck.take(n)) is None
    &&& dealer_turn(player, dealer + deck.take(drawn)) is Some
}

/// Looks at the hands as the top of the player's turn does.
pub fn check_player_turn(player: &HumanPlayer, dealer: &Dealer) -> (found: Option<Outcome>)
    requires
        soft_total(player.held()) <= u32::MAX,
        soft_total(dealer.held()) <= u32::MAX,
    ensures
        found == player_turn(player.held(), dealer.held()),
{
    if player.hand_under_21() {
        if player.blackjack_hand() {
            if dealer.blackjack_hand() {
                Some(Outcome::BlackjackPush)
            } else {
                Some(Outcome::PlayerBlackjack)
            }
        } else if dealer.blackjack_hand() {
            Some(Outcome::DealerBlackjack)
        } else {
            None
        }
    } else {
        Some(Outcome::PlayerBust)
    }
}

/// Looks at the hands as the top of the dealer's turn does.
pub fn check_dealer_turn(player: &HumanPlayer, dealer: &Dealer) -> (found: Option<Outcome>)
    requires
        soft_total(player.held()) <= u32::MAX,
        soft_total(dealer.held()) <= u32::MAX,
    ensures
        found == dealer_turn(player.held(), dealer.held()),
{
    if dealer.hand_under_21() {
        if dealer.blackjack_hand() {
            Some(Outcome::DealerBlackjack)
        } else {
            match dealer.hit_or_stay() {
                BlackjackAction::Hit => None,
                BlackjackAction::Stay => {
                    let dealer_value = dealer.get_point_value();
                    let player_value = player.get_point_value();
                    if dealer_value > player_value {
                        Some(Outcome::DealerWins)
                    } else if dealer_value < player_value {
                        Some(Outcome::PlayerWins)
                    } else {
                        Some(Outcome::Push)
                    }
                },
            }
        }
    } else {
        Some(Outcome::DealerBust)
    }
}

/// A round in progress: the deck, the two participants and the phase.
pub struct Round {
    deck: Deck,
    player: HumanPlayer,
    dealer: Dealer,
    phase: Phase,
}

impl Round {
    /// The cards left in the deck, front first.
    pub closed spec fn deck_cards(&self) -> Seq<Card> {
        self.deck@
    }

    /// The player's hand.
    pub closed spec fn player_cards(&self) -> Seq<Card> {
        self.player.held()
    }

    /// The dealer's hand.
    pub closed spec fn dealer_cards(&self) -> Seq<Card> {
        self.dealer.held()
    }

    pub closed spec fn player_name(&self) -> Seq<char> {
        self.player.name_text()
    }

    pub closed spec fn dealer_name(&self) -> Seq<char> {
        self.dealer.name_text()
    }

    pub closed spec fn spec_phase(&self) -> Phase {
        self.phase
    }

    /// Every card of the round: the deck's, the player's and the dealer's.
    pub open spec fn cards(&self) -> Seq<Card> {
        self.deck_cards() + self.player_cards() + self.dealer_cards()
    }

    /// What holds of a round at every moment. The deck and the two hands
    /// hold 52 cards between them. While the player is asked, the dealer
    /// holds the two cards of the deal, the player is not bust, and neither
    /// holds a natural. When the turn has passed to the dealer, the same
    /// holds still.
    pub open spec fn wf(&self) -> bool {
        &&& self.cards().len() == DECK_SIZE
        &&& match self.spec_phase() {
            Phase::PlayerTurn => {
                &&& self.dealer_cards().len() == 2
                &&& player_turn(self.player_cards(), self.dealer_cards()) is None
            },
            Phase::DealerTurn => {
                &&& self.dealer_cards().len() == 2
                &&& hand_value(self.player_cards()) <= 21
                &&& !is_natural(self.dealer_cards())
            },
            Phase::Over(_) => true,
        }
    }

    /// Opens a round on a deck of 52 cards: the player, the dealer, the
    /// player and the dealer again each get the front card. The round then
    /// waits for the player, unless a natural has ended it already.
    pub fn deal(deck: Deck, player_name: &'static str) -> (round: Round)
        requires
            deck@.len() == DECK_SIZE,
        ensures
            round.wf(),
            round.player_name() == player_name@,
            round.dealer_name() == "Dealer"@,
            round.player_cards() == seq![deck@[0], deck@[2]],
            round.dealer_cards() == seq![deck@[1], deck@[3]],
            round.deck_cards() == deck@.skip(4),
            round.spec_phase() == phase_after(
                player_turn(round.player_cards(), round.dealer_cards()),
            ),
            round.cards().to_multiset() == deck@.to_multiset(),
    {
        let ghost start = deck@;
        let mut deck = deck;
        let mut dealer: Dealer = Dealer::new("Dealer");
        let mut player: HumanPlayer = HumanPlayer::new(player_name);
        proof {
            assert(deck@ + player.held() + dealer.held() =~= start);
            lemma_player_draws(deck@, player.held(), dealer.held());
        }
        player.add_card_to_hand(deck.deal_card());
        proof {
            lemma_dealer_draws(deck@, player.held(), dealer.held());
        }
        dealer.add_card_to_hand(deck.deal_card());
        proof {
            lemma_player_draws(deck@, player.held(), dealer.held());
        }
        player.add_card_to_hand(deck.deal_card());
        proof {
            lemma_dealer_draws(deck@, player.held(), dealer.held());
        }
        dealer.add_card_to_hand(deck.deal_card());
        proof {
            assert(player.held() =~= seq![start[0], start[2]]);
            assert(dealer.held() =~= seq![start[1], start[3]]);
            assert(deck@ =~= start.skip(4));
            lemma_total_bounds(player.held());
            lemma_total_bounds(dealer.held());
        }
        let phase = match check_player_turn(&player, &dealer) {
            Some(outcome) => Phase::Over(outcome),
            None => Phase::PlayerTurn,
        };
        Round { deck: deck, player: player, dealer: dealer, phase: phase }
    }

    #[verifier::when_used_as_spec(spec_phase)]
    pub fn phase(&self) -> (phase: Phase)
        ensures
            phase == self.spec_phase(),
    {
        self.phase
    }

    /// The player, for the name and the hand.
    pub fn player(&self) -> (player: &HumanPlayer)
        ensures
            player.held() == self.player_cards(),
            player.name_text() == self.player_name(),
    {
        &self.player
    }

    /// The dealer, for the name and the hand.
    pub fn dealer(&self) -> (dealer: &Dealer)
        ensures
            dealer.held() == self.dealer_cards(),
            dealer.name_text() == self.dealer_name(),
    {
        &self.dealer
    }

    /// The deck, as the round has left it.
    pub fn deck(&self) -> (deck: &Deck)
        ensures
            deck@ == self.deck_cards(),
    {
        &self.deck
    }

    /// Takes the player's decision. On a hit the player gets the front card
    /// of the deck, and the round ends if that takes the hand over 21; else
    /// the player is asked again. On a stay the turn passes to the dealer.
    /// The dealer's hand is not touched.
    pub fn player_decides(&mut self, action: BlackjackAction)
        requires
            old(self).wf(),
            old(self).spec_phase() == Phase::PlayerTurn,
        ensures
            final(self).wf(),
            final(self).player_name() == old(self).player_name(),
            final(self).dealer_name() == old(self).dealer_name(),
            final(self).dealer_cards() == old(self).dealer_cards(),
            action == BlackjackAction::Hit ==> {
                &&& final(self).deck_cards() == old(self).deck_cards().drop_first()
                &&& final(self).player_cards() == old(self).player_cards().push(
                    old(self).deck_cards()[0],
                )
                &&& final(self).spec_phase() == phase_after(
                    player_turn(final(self).player_cards(), final(self).dealer_cards()),
                )
            },
            action == BlackjackAction::Stay ==> {
                &&& final(self).deck_cards() == old(self).deck_cards()
                &&& final(self).player_cards() == old(self).player_cards()
                &&& final(self).spec_phase() == Phase::DealerTurn
            },
            final(self).cards().to_multiset() == old(self).cards().to_multiset(),
    {
        match action {
            BlackjackAction::Hit => {
                proof {
                    lemma_total_bounds(self.player.held());
                    lemma_player_draws(self.deck@, self.player.held(), self.dealer.held());
                }
                let card = self.deck.deal_card();
                self.player.add_card_to_hand(card);
                proof {
                    lemma_total_bounds(self.player.held());
                    lemma_total_bounds(self.dealer.held());
                }
                self.phase = match check_player_turn(&self.player, &self.dealer) {
                    Some(outcome) => Phase::Over(outcome),
                    None => Phase::PlayerTurn,
                };
            },
            BlackjackAction::Stay => {
                self.phase = Phase::DealerTurn;
            },
        }
    }

    /// Plays the dealer's turn to its end: the dealer draws the front card
    /// of the deck as long as the hand is worth less than 17, and the round
    /// ends when the dealer goes over 21 or stays. On a stay the hand worth
    /// more wins, and equal values are a push. The player's hand is not
    /// touched, and the turn never ends on a dealer's natural.
    pub fn dealer_plays(&mut self)
        requires
            old(self).wf(),
            old(self).spec_phase() == Phase::DealerTurn,
        ensures
            final(self).wf(),
            final(self).player_name() == old(self).player_name(),
            final(self).dealer_name() == old(self).dealer_name(),
            final(self).player_cards() == old(self).player_cards(),
            dealer_draws(
                old(self).deck_cards(),
                old(self).player_cards(),
                old(self).dealer_cards(),
                final(self).dealer_cards().len() - old(self).dealer_cards().len(),
            ),
            final(self).dealer_cards() == old(self).dealer_cards() + old(self).deck_cards().take(
                final(self).dealer_cards().len() - old(self).dealer_cards().len(),
            ),
            final(self).deck_cards() == old(self).deck_cards().skip(
                final(self).dealer_cards().len() - old(self).dealer_cards().len(),
            ),
            dealer_turn(final(self).player_cards(), final(self).dealer_cards()) matches Some(
                outcome,
            ) && final(self).spec_phase() == Phase::Over(outcome),
            final(self).spec_phase() != Phase::Over(Outcome::DealerBlackjack),
            final(self).cards().to_multiset() == old(self).cards().to_multiset(),
    {
        let ghost deck = self.deck@;
        let ghost player = self.player.held();
        let ghost dealer = self.dealer.held();
        let ghost mut drawn: int = 0;
        proof {
            lemma_total_bounds(player);
            lemma_total_bounds(dealer);
            assert(dealer + deck.take(0) =~= dealer);
            assert(deck.skip(0) =~= deck);
        }
        let mut found = check_dealer_turn(&self.player, &self.dealer);
        while found.is_none()
            invariant
                0 <= drawn <= deck.len(),
                self.deck@ == deck.skip(drawn),
                self.player.held() == player,
                self.player.name_text() == old(self).player_name(),
                self.dealer.name_text() == old(self).dealer_name(),
                self.dealer.held() == dealer + deck.take(drawn),
                forall|n: int|
                    0 <= n < drawn ==> dealer_turn(player, dealer + #[trigger] deck.take(n))
                        is None,
                found == dealer_turn(player, self.dealer.held()),
                (deck + player + dealer).len() == DECK_SIZE,
                hand_value(player) <= 21,
                player.len() <= 21,
                soft_total(player) <= u32::MAX,
                !is_natural(dealer),
                dealer.len() == 2,
                dealer.len() + drawn == self.dealer.held().len(),
                (self.deck@ + player + self.dealer.held()).to_multiset() == (deck + player
                    + dealer).to_multiset(),
            decreases deck.len() - drawn,
        {
            proof {
                lemma_total_bounds(self.dealer.held());
                lemma_dealer_draws(self.deck@, player, self.dealer.held());
            }
            let card = self.deck.deal_card();
            self.dealer.add_card_to_hand(card);
            proof {
                assert(deck.take(drawn).push(deck[drawn]) =~= deck.take(drawn + 1));
                assert(self.dealer.held() =~= dealer + deck.take(drawn + 1));
                assert(self.deck@ =~= deck.skip(drawn + 1));
                drawn = drawn + 1;
                lemma_total_bounds(self.dealer.held());
            }
            found = check_dealer_turn(&self.player, &self.dealer);
        }
        self.phase = Phase::Over(found.unwrap());
    }

    /// Ends the round: the player's hand, then the dealer's, go behind the
    /// cards of the deck, and the deck is handed back.
    pub fn settle(self) -> (deck: Deck)
        ensures
            deck@ == self.deck_cards() + self.player_cards() + self.dealer_cards(),
    {
        let mut round = self;
        let played = round.player.discard_hand();
        round.deck.collect_played_cards(played);
        let played = round.dealer.discard_hand();
        round.deck.collect_played_cards(played);
        round.deck
    }
}

/// The round keeps its cards when the player draws.
proof fn lemma_player_draws(deck: Seq<Card>, player: Seq<Card>, dealer: Seq<Card>)
    requires
        deck.len() > 0,
    ensures
        (deck.drop_first() + player.push(deck[0]) + dealer).to_multiset() == (deck + player
            + dealer).to_multiset(),
        (deck.drop_first() + player.push(deck[0]) + dealer).len() == (deck + player
            + dealer).len(),
{
    lemma_deal_conserves(deck, player);
    lemma_multiset_commutative(deck.drop_first() + player.push(deck[0]), dealer);
    lemma_multiset_commutative(deck + player, dealer);
}

/// The round keeps its cards when the dealer draws.
proof fn lemma_dealer_draws(deck: Seq<Card>, player: Seq<Card>, dealer: Seq<Card>)
    requires
        deck.len() > 0,
    ensures
        (deck.drop_first() + player + dealer.push(deck[0])).to_multiset() == (deck + player
            + dealer).to_multiset(),
        (deck.drop_first() + player + dealer.push(deck[0])).len() == (deck + player
            + dealer).len(),
{
    lemma_front_card(deck);
    to_multiset_build(dealer, deck[0]);
    lemma_multiset_commutative(deck.drop_first() + player, dealer.push(deck[0]));
    lemma_multiset_commutative(deck.drop_first(), player);
    lemma_multiset_commutative(deck + player, dealer);
    lemma_multiset_commutative(deck, player);
    assert((deck.drop_first() + player + dealer.push(deck[0])).to_multiset() =~= (deck + player
        + dealer).to_multiset());
}

} // verus!
