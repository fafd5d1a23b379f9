use blackjack::cards::{get_rank_value, rank_from_int, suit_from_int, Card, Rank, Suit};
use blackjack::player::get_hand_value;

fn card(rank: Rank) -> Card {
    Card { suit: Suit::Spades, rank }
}

#[test]
fn score_of_empty_hand_is_zero() {
    assert_eq!(get_hand_value(vec![]), 0);
}

#[test]
fn score_sums_plainly_under_21() {
    assert_eq!(get_hand_value(vec![card(Rank::Five), card(Rank::Nine)]), 14);
    assert_eq!(get_hand_value(vec![card(Rank::King), card(Rank::Queen)]), 20);
    assert_eq!(get_hand_value(vec![card(Rank::Two)]), 2);
    assert_eq!(
        get_hand_value(vec![card(Rank::Ace), card(Rank::Five), card(Rank::Five)]),
        21
    );
}

#[test]
fn score_exactly_21_keeps_ace_high() {
    assert_eq!(get_hand_value(vec![card(Rank::Ace), card(Rank::King)]), 21);
}

#[test]
fn score_single_ace_adjusts_once_over_21() {
    // 11 + 10 + 5 = 26 busts, so the ace drops ten: 16.
    assert_eq!(
        get_hand_value(vec![card(Rank::Ace), card(Rank::King), card(Rank::Five)]),
        16
    );
    // 11 + 9 + 5 = 25 -> 15.
    assert_eq!(
        get_hand_value(vec![card(Rank::Ace), card(Rank::Nine), card(Rank::Five)]),
        15
    );
}

#[test]
fn score_two_aces_adjust_only_once() {
    // 11 + 11 = 22 busts; a single adjustment leaves 12, not 2.
    assert_eq!(get_hand_value(vec![card(Rank::Ace), card(Rank::Ace)]), 12);
    // 11 + 11 + 9 = 31 -> 21 after one adjustment.
    assert_eq!(
        get_hand_value(vec![card(Rank::Ace), card(Rank::Ace), card(Rank::Nine)]),
        21
    );
}

#[test]
fn score_busting_hand_without_ace_stays_busted() {
    assert_eq!(
        get_hand_value(vec![card(Rank::King), card(Rank::Queen), card(Rank::Five)]),
        25
    );
}

#[test]
fn rank_values_match_the_table() {
    assert_eq!(get_rank_value(Rank::Two), 2);
    assert_eq!(get_rank_value(Rank::Three), 3);
    assert_eq!(get_rank_value(Rank::Four), 4);
    assert_eq!(get_rank_value(Rank::Five), 5);
    assert_eq!(get_rank_value(Rank::Six), 6);
    assert_eq!(get_rank_value(Rank::Seven), 7);
    assert_eq!(get_rank_value(Rank::Eight), 8);
    assert_eq!(get_rank_value(Rank::Nine), 9);
    assert_eq!(get_rank_value(Rank::Ten), 10);
    assert_eq!(get_rank_value(Rank::Jack), 10);
    assert_eq!(get_rank_value(Rank::Queen), 10);
    assert_eq!(get_rank_value(Rank::King), 10);
    assert_eq!(get_rank_value(Rank::Ace), 11);
    assert_eq!(Rank::King.get_value(), 10);
}

#[test]
fn rank_from_int_cycles_through_all_ranks() {
    assert_eq!(rank_from_int(0), Rank::Two);
    assert_eq!(rank_from_int(8), Rank::Ten);
    assert_eq!(rank_from_int(9), Rank::Jack);
    assert_eq!(rank_from_int(12), Rank::Ace);
    // The argument is taken modulo thirteen.
    assert_eq!(rank_from_int(13), Rank::Two);
    assert_eq!(rank_from_int(25), Rank::Ace);
    assert_eq!(Rank::from_int(10), Rank::Queen);
}

#[test]
fn suit_from_int_cycles_through_all_suits() {
    assert_eq!(suit_from_int(0), Suit::Spades);
    assert_eq!(suit_from_int(1), Suit::Hearts);
    assert_eq!(suit_from_int(2), Suit::Diamonds);
    assert_eq!(suit_from_int(3), Suit::Clubs);
    assert_eq!(suit_from_int(4), Suit::Spades);
    assert_eq!(Suit::from_int(7), Suit::Clubs);
}

#[test]
fn symbols_match_the_printed_forms() {
    assert_eq!(Rank::Ace.symbol(), "A");
    assert_eq!(Rank::Ten.symbol(), "T");
    assert_eq!(Rank::Two.symbol(), "2");
    assert_eq!(Suit::Spades.symbol(), "\u{2660}");
    assert_eq!(Suit::Hearts.symbol(), "\u{2665}");
    assert_eq!(Suit::Diamonds.symbol(), "\u{2666}");
    assert_eq!(Suit::Clubs.symbol(), "\u{2663}");
}
