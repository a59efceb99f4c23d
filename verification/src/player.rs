//! The two participants of a round: the player and the dealer.
use vstd::prelude::*;
use crate::card::Card;
use crate::hand::Hand;
use crate::hand::hand_value;
use crate::hand::is_natural;
use crate::hand::lemma_total_bounds;
use crate::hand::soft_total;
use crate::prompt::PromptKind;
use crate::prompt::ask;
use crate::prompt::settled_on;
use crate::prompt::transcript;

verus! {

/// What a participant does on their turn.
#[derive(Debug, Clone, Copy, PartialEq, Eq, Structural)]
pub enum BlackjackAction {
    Hit,
    Stay,
}

impl BlackjackAction {
    /// The action that an answer to the question for a card stands for.
    pub open spec fn of_answer(go_on: bool) -> BlackjackAction {
        if go_on {
            BlackjackAction::Hit
        } else {
            BlackjackAction::Stay
        }
    }

    /// Turns an answer to the question for a card into the action: to go on
    /// is to hit, to stop is to stay.
    pub fn from_answer(go_on: bool) -> (action: BlackjackAction)
        ensures
            action == BlackjackAction::of_answer(go_on),
    {
        if go_on {
            BlackjackAction::Hit
        } else {
            BlackjackAction::Stay
        }
    }
}

/// The value from which the dealer stays.
pub const DEALER_STAYS_AT: u32 = 17;

/// The dealer's fixed strategy: stay on 17 or more, hit below.
pub open spec fn dealer_strategy(value: int) -> BlackjackAction {
    if value >= DEALER_STAYS_AT {
        BlackjackAction::Stay
    } else {
        BlackjackAction::Hit
    }
}

/// The dealer's move depends on the value of the hand alone: a hit on every
/// value below 17, a stay on every value from 17 on.
pub proof fn lemma_dealer_strategy(value: int)
    ensures
        value < 17 ==> dealer_strategy(value) == BlackjackAction::Hit,
        value >= 17 ==> dealer_strategy(value) == BlackjackAction::Stay,
{
}

/// What both participants can do: carry a name, and hold, score and give up
/// a hand.
pub trait BlackjackPlayer: Sized {
    /// The participant's name.
    spec fn name_text(&self) -> Seq<char>;

    /// The cards the participant holds, in the order received.
    spec fn held(&self) -> Seq<Card>;

    /// A participant with an empty hand.
    fn new(name: &'static str) -> (player: Self)
        ensures
            player.held() == Seq::<Card>::empty(),
    ;

    fn name(&self) -> (name: &'static str)
        ensures
            name@ == self.name_text(),
    ;

    /// Puts `card` behind the cards already held.
    fn add_card_to_hand(&mut self, card: Card)
        ensures
            final(self).held() == old(self).held().push(card),
            final(self).name_text() == old(self).name_text(),
    ;

    /// Hands out every card held, in order, and leaves the hand empty.
    fn discard_hand(&mut self) -> (discarded: Vec<Card>)
        ensures
            discarded@ == old(self).held(),
            final(self).held() == Seq::<Card>::empty(),
            final(self).name_text() == old(self).name_text(),
    ;

    /// The Blackjack value of the hand.
    fn get_point_value(&self) -> (points: u32)
        requires
            soft_total(self.held()) <= u32::MAX,
        ensures
            points == hand_value(self.held()),
    ;

    /// The number of cards held.
    fn get_num_cards(&self) -> (count: u32)
        requires
            self.held().len() <= u32::MAX,
        ensures
            count == self.held().len(),
    ;

    /// Whether the hand is worth 21 or less, that is, not bust.
    fn hand_under_21(&self) -> (under: bool)
        requires
            soft_total(self.held()) <= u32::MAX,
        ensures
            under == (hand_value(self.held()) <= 21),
    {
        self.get_point_value() <= 21
    }

    /// Whether the hand is a natural: two cards worth 21. A hand that
    /// reached 21 with a third card is none.
    fn blackjack_hand(&self) -> (natural: bool)
        requires
            soft_total(self.held()) <= u32::MAX,
        ensures
            natural == is_natural(self.held()),
    {
        proof {
            lemma_total_bounds(self.held());
        }
        self.get_point_value() == 21 && self.get_num_cards() == 2
    }
}

/// The participant whose decisions come from outside.
pub struct HumanPlayer {
    name: &'static str,
    pub hand: Hand,
}

impl HumanPlayer {
    /// Asks the player whether to hit or to stay, of an input that was read
    /// beforehand, line by line. Returns the action and everything written.
    /// Up to three lines are read; where none of them says `hit` or `stay`,
    /// the player stays.
    pub fn hit_or_stay_strategy(&self, lines: &Vec<String>) -> (end: (BlackjackAction, String))
        ensures
            end.0 == BlackjackAction::of_answer(
                settled_on(PromptKind::HitOrStay, lines.deep_view()),
            ),
            end.1@ == transcript(PromptKind::HitOrStay, lines.deep_view()),
    {
        let (go_on, written) = ask(PromptKind::HitOrStay, lines);
        (BlackjackAction::from_answer(go_on), written)
    }
}

impl BlackjackPlayer for HumanPlayer {
    closed spec fn name_text(&self) -> Seq<char> {
        self.name@
    }

    closed spec fn held(&self) -> Seq<Card> {
        self.hand@
    }

    /// A player called `name`.
    fn new(name: &'static str) -> (player: HumanPlayer)
        ensures
            player.name_text() == name@,
    {
        HumanPlayer { name: name, hand: Hand::new() }
    }

    fn name(&self) -> (name: &'static str) {
        self.name
    }

    fn add_card_to_hand(&mut self, card: Card) {
        self.hand.add_card_to_hand(card);
    }

    fn discard_hand(&mut self) -> (discarded: Vec<Card>) {
        self.hand.discard_hand()
    }

    fn get_point_value(&self) -> (points: u32) {
        self.hand.get_point_value()
    }

    fn get_num_cards(&self) -> (count: u32) {
        self.hand.get_num_cards()
    }
}

/// The participant who plays by a fixed rule.
pub struct Dealer {
    name: &'static str,
    pub hand: Hand,
}

impl Dealer {
    /// The dealer's move: stay on a hand worth 17 or more, hit otherwise.
    pub fn hit_or_stay(&self) -> (action: BlackjackAction)
        requires
            soft_total(self.held()) <= u32::MAX,
        ensures
            action == dealer_strategy(hand_value(self.held())),
    {
        if self.hand.get_point_value() >= DEALER_STAYS_AT {
            BlackjackAction::Stay
        } else {
            BlackjackAction::Hit
        }
    }
}

impl BlackjackPlayer for Dealer {
    closed spec fn name_text(&self) -> Seq<char> {
        self.name@
    }

    closed spec fn held(&self) -> Seq<Card> {
        self.hand@
    }

    /// The dealer. The name asked for is not used: a dealer is always called
    /// `"Dealer"`.
    fn new(_name: &'static str) -> (dealer: Dealer)
        ensures
            dealer.name_text() == "Dealer"@,
    {
        Dealer { name: "Dealer", hand: Hand::new() }
    }

    fn name(&self) -> (name: &'static str) {
        self.name
    }

    fn add_card_to_hand(&mut self, card: Card) {
        self.hand.add_card_to_hand(card);
    }

    fn discard_hand(&mut self) -> (discarded: Vec<Card>) {
        self.hand.discard_hand()
    }

    fn get_point_value(&self) -> (points: u32) {
        self.hand.get_point_value()
    }

    fn get_num_cards(&self) -> (count: u32) {
        self.hand.get_num_cards()
    }
}

} // verus!
