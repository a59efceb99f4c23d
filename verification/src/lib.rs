//! A single-player Blackjack engine: cards, deck, hands, the two participants,
//! the bounded-retry prompts and the round state machine.
//!
//! Every executable function carries a contract over the mathematical view of
//! its data (`Seq<Card>` for decks and hands, `Seq<char>` for text).
pub mod suit;
pub mod rank;
pub mod card;
pub mod hand;
pub mod deck;
pub mod prompt;
pub mod player;
pub mod round;
pub mod table;
