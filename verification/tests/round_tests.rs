use blackjack::card::Card;
use blackjack::deck::Deck;
use blackjack::player::BlackjackAction;
use blackjack::player::BlackjackPlayer;
use blackjack::player::Dealer;
use blackjack::player::HumanPlayer;
use blackjack::rank::Rank;
use blackjack::round::check_dealer_turn;
use blackjack::round::check_player_turn;
use blackjack::round::Outcome;
use blackjack::round::Phase;
use blackjack::round::Round;
use blackjack::round::Winner;
use blackjack::suit::Suit;

/// A full deck whose front cards are `front`, in that order; the other cards
/// follow in canonical order.
fn stacked_deck(front: &[(Rank, Suit)]) -> Deck {
    let mut deck = Deck::new();
    let mut rest: Vec<Card> = Vec::new();
    while deck.len() > 0 {
        rest.push(deck.deal_card());
    }
    let mut cards: Vec<Card> = Vec::new();
    for (rank, suit) in front {
        let wanted = Card { rank: *rank, suit: *suit };
        let position = rest.iter().position(|card| *card == wanted).unwrap();
        cards.push(rest.remove(position));
    }
    cards.append(&mut rest);
    deck.collect_played_cards(cards);
    assert_eq!(deck.len(), 52);
    deck
}

fn sorted_keys(deck: &Deck) -> Vec<(u32, u32)> {
    let mut keys: Vec<(u32, u32)> = Vec::new();
    for index in 0..deck.len() {
        let card = deck.get(index).unwrap();
        keys.push((card.suit.to_u32(), card.rank.to_u32()));
    }
    keys.sort();
    keys
}

fn count_of(round: &Round) -> usize {
    round.deck().len()
        + round.player().hand.cards().len()
        + round.dealer().hand.cards().len()
}

#[test]
fn the_deal_alternates_between_player_and_dealer() {
    let round = Round::deal(Deck::new(), "Player 1");
    assert_eq!(round.player().name(), "Player 1");
    assert_eq!(round.dealer().name(), "Dealer");
    assert_eq!(round.player().hand.to_string(), "[ Ace of Diamonds, 3 of Diamonds ]");
    assert_eq!(round.dealer().hand.to_string(), "[ 2 of Diamonds, 4 of Diamonds ]");
    assert_eq!(round.deck().len(), 48);
    assert_eq!(round.deck().get(0), Some(&Card { rank: Rank::Five, suit: Suit::Diamonds }));
    assert_eq!(round.phase(), Phase::PlayerTurn);
    assert_eq!(count_of(&round), 52);
}

#[test]
fn a_player_who_goes_over_21_loses_without_the_dealer_playing() {
    let deck = stacked_deck(&[
        (Rank::Ace, Suit::Spades),
        (Rank::Jack, Suit::Clubs),
        (Rank::Two, Suit::Diamonds),
        (Rank::Queen, Suit::Hearts),
        (Rank::King, Suit::Diamonds),
        (Rank::Nine, Suit::Clubs),
    ]);
    let mut round = Round::deal(deck, "Player 1");
    assert_eq!(round.player().hand.to_string(), "[ Ace of Spades, 2 of Diamonds ]");
    assert_eq!(round.dealer().hand.to_string(), "[ Jack of Clubs, Queen of Hearts ]");
    assert_eq!(round.player().get_point_value(), 13);
    assert_eq!(round.dealer().get_point_value(), 20);
    assert_eq!(round.phase(), Phase::PlayerTurn);

    round.player_decides(BlackjackAction::Hit);
    assert_eq!(round.player().get_point_value(), 13);
    assert_eq!(round.phase(), Phase::PlayerTurn);
    assert_eq!(count_of(&round), 52);

    round.player_decides(BlackjackAction::Hit);
    assert_eq!(round.player().get_point_value(), 22);
    assert!(!round.player().hand_under_21());
    assert_eq!(round.phase(), Phase::Over(Outcome::PlayerBust));
    assert_eq!(Outcome::PlayerBust.winner(), Some(Winner::Dealer));
    assert_eq!(round.dealer().get_num_cards(), 2);
    assert_eq!(round.dealer().hand.to_string(), "[ Jack of Clubs, Queen of Hearts ]");
    assert_eq!(count_of(&round), 52);

    let deck = round.settle();
    assert_eq!(deck.len(), 52);
    assert_eq!(sorted_keys(&deck), sorted_keys(&Deck::new()));
}

#[test]
fn two_naturals_are_a_push() {
    let deck = stacked_deck(&[
        (Rank::Ace, Suit::Spades),
        (Rank::Ace, Suit::Hearts),
        (Rank::King, Suit::Spades),
        (Rank::Ten, Suit::Hearts),
    ]);
    let round = Round::deal(deck, "Player 1");
    assert_eq!(round.phase(), Phase::Over(Outcome::BlackjackPush));
    assert_eq!(Outcome::BlackjackPush.winner(), None);
    assert_eq!(round.deck().len(), 48);
}

#[test]
fn a_natural_of_the_player_wins_at_once() {
    let deck = stacked_deck(&[
        (Rank::Ace, Suit::Spades),
        (Rank::Nine, Suit::Hearts),
        (Rank::King, Suit::Spades),
        (Rank::Ten, Suit::Hearts),
    ]);
    let round = Round::deal(deck, "Player 1");
    assert_eq!(round.phase(), Phase::Over(Outcome::PlayerBlackjack));
    assert_eq!(Outcome::PlayerBlackjack.winner(), Some(Winner::Player));
    assert_eq!(round.dealer().get_num_cards(), 2);
}

#[test]
fn a_natural_of_the_dealer_wins_at_once() {
    let deck = stacked_deck(&[
        (Rank::Nine, Suit::Spades),
        (Rank::Ace, Suit::Hearts),
        (Rank::King, Suit::Spades),
        (Rank::Ten, Suit::Hearts),
    ]);
    let round = Round::deal(deck, "Player 1");
    assert_eq!(round.phase(), Phase::Over(Outcome::DealerBlackjack));
    assert_eq!(Outcome::DealerBlackjack.winner(), Some(Winner::Dealer));
    assert_eq!(round.player().get_num_cards(), 2);
}

#[test]
fn the_dealer_draws_up_to_17_and_the_higher_hand_wins() {
    let deck = stacked_deck(&[
        (Rank::Ten, Suit::Spades),
        (Rank::Five, Suit::Hearts),
        (Rank::Nine, Suit::Spades),
        (Rank::Six, Suit::Hearts),
        (Rank::Three, Suit::Clubs),
        (Rank::Four, Suit::Clubs),
        (Rank::Two, Suit::Clubs),
    ]);
    let mut round = Round::deal(deck, "Player 1");
    assert_eq!(round.phase(), Phase::PlayerTurn);
    round.player_decides(BlackjackAction::Stay);
    assert_eq!(round.phase(), Phase::DealerTurn);
    assert_eq!(round.player().get_point_value(), 19);
    assert_eq!(round.dealer().get_point_value(), 11);
    assert_eq!(round.deck().len(), 48);

    round.dealer_plays();
    assert_eq!(
        round.dealer().hand.to_string(),
        "[ 5 of Hearts, 6 of Hearts, 3 of Clubs, 4 of Clubs ]"
    );
    assert_eq!(round.dealer().get_point_value(), 18);
    assert_eq!(round.phase(), Phase::Over(Outcome::PlayerWins));
    assert_eq!(Outcome::PlayerWins.winner(), Some(Winner::Player));
    assert_eq!(round.deck().len(), 46);
    assert_eq!(round.deck().get(0), Some(&Card { rank: Rank::Two, suit: Suit::Clubs }));
    assert_eq!(count_of(&round), 52);
}

#[test]
fn a_dealer_who_holds_more_wins() {
    let deck = stacked_deck(&[
        (Rank::Ten, Suit::Spades),
        (Rank::Ten, Suit::Hearts),
        (Rank::Eight, Suit::Spades),
        (Rank::Nine, Suit::Hearts),
    ]);
    let mut round = Round::deal(deck, "Player 1");
    round.player_decides(BlackjackAction::Stay);
    round.dealer_plays();
    assert_eq!(round.dealer().get_num_cards(), 2);
    assert_eq!(round.phase(), Phase::Over(Outcome::DealerWins));
    assert_eq!(Outcome::DealerWins.winner(), Some(Winner::Dealer));
}

#[test]
fn equal_values_are_a_push() {
    let deck = stacked_deck(&[
        (Rank::Ten, Suit::Spades),
        (Rank::Ten, Suit::Hearts),
        (Rank::Eight, Suit::Spades),
        (Rank::Eight, Suit::Hearts),
    ]);
    let mut round = Round::deal(deck, "Player 1");
    round.player_decides(BlackjackAction::Stay);
    round.dealer_plays();
    assert_eq!(round.phase(), Phase::Over(Outcome::Push));
    assert_eq!(Outcome::Push.winner(), None);
}

#[test]
fn a_dealer_who_goes_over_21_loses() {
    let deck = stacked_deck(&[
        (Rank::Ten, Suit::Spades),
        (Rank::Ten, Suit::Hearts),
        (Rank::Two, Suit::Spades),
        (Rank::Six, Suit::Hearts),
        (Rank::King, Suit::Clubs),
    ]);
    let mut round = Round::deal(deck, "Player 1");
    round.player_decides(BlackjackAction::Stay);
    round.dealer_plays();
    assert_eq!(round.dealer().get_point_value(), 26);
    assert_eq!(round.phase(), Phase::Over(Outcome::DealerBust));
    assert_eq!(Outcome::DealerBust.winner(), Some(Winner::Player));
}

#[test]
fn a_player_on_21_after_a_hit_holds_no_natural() {
    let deck = stacked_deck(&[
        (Rank::Five, Suit::Spades),
        (Rank::Ten, Suit::Hearts),
        (Rank::Six, Suit::Spades),
        (Rank::Seven, Suit::Hearts),
        (Rank::Ten, Suit::Clubs),
        (Rank::Four, Suit::Clubs),
    ]);
    let mut round = Round::deal(deck, "Player 1");
    round.player_decides(BlackjackAction::Hit);
    assert_eq!(round.player().get_point_value(), 21);
    assert!(!round.player().blackjack_hand());
    assert_eq!(round.phase(), Phase::PlayerTurn);
    round.player_decides(BlackjackAction::Stay);
    round.dealer_plays();
    assert_eq!(round.dealer().get_point_value(), 17);
    assert_eq!(round.phase(), Phase::Over(Outcome::PlayerWins));
}

#[test]
fn settling_puts_the_player_s_cards_before_the_dealer_s() {
    let deck = stacked_deck(&[
        (Rank::Ten, Suit::Spades),
        (Rank::Ten, Suit::Hearts),
        (Rank::Eight, Suit::Spades),
        (Rank::Nine, Suit::Hearts),
    ]);
    let mut round = Round::deal(deck, "Player 1");
    round.player_decides(BlackjackAction::Stay);
    round.dealer_plays();
    let deck = round.settle();
    assert_eq!(deck.len(), 52);
    assert_eq!(deck.get(0), Some(&Card { rank: Rank::Ace, suit: Suit::Diamonds }));
    assert_eq!(deck.get(48), Some(&Card { rank: Rank::Ten, suit: Suit::Spades }));
    assert_eq!(deck.get(49), Some(&Card { rank: Rank::Eight, suit: Suit::Spades }));
    assert_eq!(deck.get(50), Some(&Card { rank: Rank::Ten, suit: Suit::Hearts }));
    assert_eq!(deck.get(51), Some(&Card { rank: Rank::Nine, suit: Suit::Hearts }));
    assert_eq!(sorted_keys(&deck), sorted_keys(&Deck::new()));
}

#[test]
fn the_deck_serves_round_after_round() {
    let mut deck = Deck::new();
    for _ in 0..25 {
        deck.shuffle();
        let mut round = Round::deal(deck, "Player 1");
        assert_eq!(count_of(&round), 52);
        while round.phase() == Phase::PlayerTurn {
            let action = if round.player().get_point_value() < 15 {
                BlackjackAction::Hit
            } else {
                BlackjackAction::Stay
            };
            round.player_decides(action);
            assert_eq!(count_of(&round), 52);
        }
        if round.phase() == Phase::DealerTurn {
            round.dealer_plays();
            assert!(round.dealer().get_point_value() >= 17);
            assert_ne!(round.phase(), Phase::Over(Outcome::DealerBlackjack));
        } else {
            assert_eq!(round.dealer().get_num_cards(), 2);
        }
        assert!(matches!(round.phase(), Phase::Over(_)));
        assert_eq!(count_of(&round), 52);
        deck = round.settle();
        assert_eq!(deck.len(), 52);
        assert_eq!(sorted_keys(&deck), sorted_keys(&Deck::new()));
    }
}

#[test]
fn the_look_at_the_player_s_turn() {
    let with = |player: &[Rank], dealer: &[Rank]| {
        let mut human: HumanPlayer = BlackjackPlayer::new("Player 1");
        for rank in player {
            human.add_card_to_hand(Card { rank: *rank, suit: Suit::Spades });
        }
        let mut house: Dealer = BlackjackPlayer::new("Dealer");
        for rank in dealer {
            house.add_card_to_hand(Card { rank: *rank, suit: Suit::Hearts });
        }
        check_player_turn(&human, &house)
    };
    assert_eq!(with(&[Rank::Ten, Rank::Nine], &[Rank::Ten, Rank::Six]), None);
    assert_eq!(
        with(&[Rank::Ten, Rank::Nine, Rank::Three], &[Rank::Ten, Rank::Six]),
        Some(Outcome::PlayerBust)
    );
    assert_eq!(
        with(&[Rank::Ten, Rank::Nine, Rank::Three], &[Rank::Ten, Rank::Ace]),
        Some(Outcome::PlayerBust)
    );
    assert_eq!(
        with(&[Rank::Ten, Rank::Ace], &[Rank::Ten, Rank::Six]),
        Some(Outcome::PlayerBlackjack)
    );
    assert_eq!(
        with(&[Rank::Ten, Rank::Ace], &[Rank::Ace, Rank::Jack]),
        Some(Outcome::BlackjackPush)
    );
    assert_eq!(
        with(&[Rank::Ten, Rank::Nine], &[Rank::Ace, Rank::Jack]),
        Some(Outcome::DealerBlackjack)
    );
    assert_eq!(with(&[Rank::Five, Rank::Six, Rank::Ten], &[Rank::Ten, Rank::Six]), None);
}

#[test]
fn the_look_at_the_dealer_s_turn() {
    let with = |player: &[Rank], dealer: &[Rank]| {
        let mut human: HumanPlayer = BlackjackPlayer::new("Player 1");
        for rank in player {
            human.add_card_to_hand(Card { rank: *rank, suit: Suit::Spades });
        }
        let mut house: Dealer = BlackjackPlayer::new("Dealer");
        for rank in dealer {
            house.add_card_to_hand(Card { rank: *rank, suit: Suit::Hearts });
        }
        check_dealer_turn(&human, &house)
    };
    assert_eq!(with(&[Rank::Ten, Rank::Nine], &[Rank::Ten, Rank::Six]), None);
    assert_eq!(
        with(&[Rank::Ten, Rank::Nine], &[Rank::Ten, Rank::Seven]),
        Some(Outcome::PlayerWins)
    );
    assert_eq!(
        with(&[Rank::Ten, Rank::Seven], &[Rank::Ten, Rank::Seven]),
        Some(Outcome::Push)
    );
    assert_eq!(
        with(&[Rank::Ten, Rank::Seven], &[Rank::Ten, Rank::Eight]),
        Some(Outcome::DealerWins)
    );
    assert_eq!(
        with(&[Rank::Ten, Rank::Seven], &[Rank::Ten, Rank::Six, Rank::Six]),
        Some(Outcome::DealerBust)
    );
    assert_eq!(
        with(&[Rank::Ten, Rank::Seven], &[Rank::Ten, Rank::Ace]),
        Some(Outcome::DealerBlackjack)
    );
    assert_eq!(
        with(&[Rank::Ten, Rank::Seven], &[Rank::Five, Rank::Six, Rank::Ten]),
        Some(Outcome::DealerWins)
    );
}
