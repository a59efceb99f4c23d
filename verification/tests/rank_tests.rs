use blackjack::rank::InvalidIntToRank;
use blackjack::rank::Rank;

#[test]
fn test_format_rank() {
    let formatted_string = Rank::Ace.to_string();
    assert_eq!(formatted_string, "Ace");
    let formatted_string = Rank::Two.to_string();
    assert_eq!(formatted_string, "2");
    let formatted_string = Rank::Three.to_string();
    assert_eq!(formatted_string, "3");
    let formatted_string = Rank::Four.to_string();
    assert_eq!(formatted_string, "4");
    let formatted_string = Rank::Five.to_string();
    assert_eq!(formatted_string, "5");
    let formatted_string = Rank::Six.to_string();
    assert_eq!(formatted_string, "6");
    let formatted_string = Rank::Seven.to_string();
    assert_eq!(formatted_string, "7");
    let formatted_string = Rank::Eight.to_string();
    assert_eq!(formatted_string, "8");
    let formatted_string = Rank::Nine.to_string();
    assert_eq!(formatted_string, "9");
    let formatted_string = Rank::Ten.to_string();
    assert_eq!(formatted_string, "10");
    let formatted_string = Rank::Jack.to_string();
    assert_eq!(formatted_string, "Jack");
    let formatted_string = Rank::Queen.to_string();
    assert_eq!(formatted_string, "Queen");
    let formatted_string = Rank::King.to_string();
    assert_eq!(formatted_string, "King");
}

#[test]
fn rank_test_try_from_u32() {
    for n in 0..20 {
        let try_rank_from_u32 = Rank::try_from(n);
        let expected_okay = match Some(n) {
            Some(x) if x >= Rank::Ace.to_u32() && x <= Rank::King.to_u32() => true,
            _ => false,
        };
        assert_eq!(try_rank_from_u32.is_ok(), expected_okay);
    }
}

#[test]
fn rank_integers_run_from_one_to_thirteen() {
    let ranks = [
        Rank::Ace,
        Rank::Two,
        Rank::Three,
        Rank::Four,
        Rank::Five,
        Rank::Six,
        Rank::Seven,
        Rank::Eight,
        Rank::Nine,
        Rank::Ten,
        Rank::Jack,
        Rank::Queen,
        Rank::King,
    ];
    for (position, rank) in ranks.iter().enumerate() {
        assert_eq!(rank.to_u32(), position as u32 + 1);
    }
}

#[test]
fn rank_round_trips_through_its_integer() {
    for n in 1u32..=13 {
        let rank = Rank::try_from(n).unwrap();
        assert_eq!(rank.to_u32(), n);
        assert_eq!(Rank::try_from(rank.to_u32()), Ok(rank));
    }
}

#[test]
fn rank_rejects_integers_out_of_range() {
    assert_eq!(Rank::try_from(0), Err(InvalidIntToRank));
    assert_eq!(Rank::try_from(14), Err(InvalidIntToRank));
    assert_eq!(Rank::try_from(u32::MAX), Err(InvalidIntToRank));
    assert_eq!(Rank::try_from(1), Ok(Rank::Ace));
    assert_eq!(Rank::try_from(13), Ok(Rank::King));
}

#[test]
fn rank_error_message() {
    assert_eq!(InvalidIntToRank.to_string(), "invalid integer; does not map to rank");
}
