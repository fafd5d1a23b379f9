//! Players and hand scoring: the sum of a hand's card values with the
//! single soft-ace adjustment that keeps an ace-holding hand from busting.

use vstd::prelude::*;

use crate::cards::{get_rank_value, rank_value, Card, Rank};

verus! {

#[derive(Debug, Clone, Copy, PartialEq, Eq, Structural)]
pub enum PlayerType {
    Human,
    Dealer,
}

#[derive(Debug, Clone, PartialEq)]
pub struct Player {
    pub user_name: String,
    pub player_type: PlayerType,
    pub hand: Vec<Card>,
    pub hand_value: u32,
    pub chips: u32,
    pub current_bet: u32,
}

#[derive(Debug, Clone, Copy, PartialEq, Eq, Structural)]
pub enum PlayerAction {
    Hit,
    Stand,
    Double,
}

/// The most cards one hand may ever hold. The cap keeps every hand sum far
/// inside machine range; no real round comes anywhere near it.
pub const MAX_HAND_CARDS: usize = 1000;

/// The plain sum of the face values of the cards in a hand.
pub open spec fn hand_sum(hand: Seq<Card>) -> int
    decreases hand.len(),
{
    if hand.len() == 0 {
        0
    } else {
        rank_value(hand[0].rank) + hand_sum(hand.drop_first())
    }
}

/// Whether the hand holds at least one ace.
pub open spec fn has_ace(hand: Seq<Card>) -> bool {
    exists|i: int| 0 <= i < hand.len() && hand[i].rank == Rank::Ace
}

/// How many aces the hand holds.
pub open spec fn num_aces(hand: Seq<Card>) -> int
    decreases hand.len(),
{
    if hand.len() == 0 {
        0
    } else {
        (if hand[0].rank == Rank::Ace {
            1int
        } else {
            0int
        }) + num_aces(hand.drop_first())
    }
}

/// The blackjack score of a hand: the plain sum, with ten subtracted exactly
/// once when the sum busts and the hand holds an ace. Multiple aces in a
/// busting hand are not repeatedly adjusted.
pub open spec fn score(hand: Seq<Card>) -> int {
    if hand_sum(hand) > 21 && has_ace(hand) {
        hand_sum(hand) - 10
    } else {
        hand_sum(hand)
    }
}

/// A well-formed player record: the cached hand value agrees with the
/// scoring rules, the current bet is covered by the chip balance, and the
/// bet is small enough that the largest payout still fits the balance type.
pub open spec fn player_wf(p: Player) -> bool {
    &&& p.hand@.len() <= MAX_HAND_CARDS
    &&& p.hand_value as int == score(p.hand@)
    &&& p.current_bet <= p.chips
    &&& p.chips + 3 * p.current_bet <= u32::MAX
}

/// Every card contributes between two and eleven to the sum.
pub proof fn lemma_hand_sum_bounds(hand: Seq<Card>)
    ensures
        2 * hand.len() <= hand_sum(hand) <= 11 * hand.len(),
    decreases hand.len(),
{
    if hand.len() > 0 {
        lemma_hand_sum_bounds(hand.drop_first());
    }
}

/// Summing one more card extends the sum of a prefix by that card's value.
pub proof fn lemma_hand_sum_take_succ(hand: Seq<Card>, i: int)
    requires
        0 <= i < hand.len(),
    ensures
        hand_sum(hand.take(i + 1)) == hand_sum(hand.take(i)) + rank_value(hand[i].rank),
    decreases i,
{
    if i == 0 {
        assert(hand.take(1).drop_first() =~= hand.take(0));
    } else {
        lemma_hand_sum_take_succ(hand.drop_first(), i - 1);
        assert(hand.take(i + 1).drop_first() =~= hand.drop_first().take(i));
        assert(hand.take(i).drop_first() =~= hand.drop_first().take(i - 1));
    }
}

/// A hand's sum splits at any point into the sums of the two parts.
pub proof fn lemma_hand_sum_split(hand: Seq<Card>, i: int)
    requires
        0 <= i <= hand.len(),
    ensures
        hand_sum(hand) == hand_sum(hand.take(i)) + hand_sum(hand.skip(i)),
    decreases i,
{
    if i == 0 {
        assert(hand.take(0) =~= Seq::<Card>::empty());
        assert(hand.skip(0) =~= hand);
    } else {
        lemma_hand_sum_split(hand.drop_first(), i - 1);
        assert(hand.take(i).drop_first() =~= hand.drop_first().take(i - 1));
        assert(hand.skip(i) =~= hand.drop_first().skip(i - 1));
    }
}

/// A hand with an ace in it satisfies `has_ace`.
proof fn lemma_num_aces_positive_has_ace(hand: Seq<Card>)
    requires
        num_aces(hand) > 0,
    ensures
        has_ace(hand),
    decreases hand.len(),
{
    if hand[0].rank == Rank::Ace {
        assert(hand[0].rank == Rank::Ace);
    } else {
        lemma_num_aces_positive_has_ace(hand.drop_first());
        let i = choose|i: int| 0 <= i < hand.drop_first().len() && hand.drop_first()[i].rank
            == Rank::Ace;
        assert(hand[i + 1].rank == Rank::Ace);
    }
}

/// A hand whose face values do not exceed twenty-one is scored as their
/// plain sum: no ace adjustment is applied.
pub proof fn lemma_score_without_adjustment(hand: Seq<Card>)
    requires
        hand_sum(hand) <= 21,
    ensures
        score(hand) == hand_sum(hand),
{
}

/// A hand holding exactly one ace whose face values exceed twenty-one is
/// scored as their sum less ten.
pub proof fn lemma_score_single_ace(hand: Seq<Card>)
    requires
        num_aces(hand) == 1,
        hand_sum(hand) > 21,
    ensures
        score(hand) == hand_sum(hand) - 10,
{
    lemma_num_aces_positive_has_ace(hand);
}

fn compute_hand_value(hand: &Vec<Card>) -> (r: u32)
    requires
        hand_sum(hand@) <= u32::MAX,
    ensures
        r as int == score(hand@),
{
    let mut sum: u32 = 0;
    let mut ace = false;
    let mut i: usize = 0;
    while i < hand.len()
        invariant
            0 <= i <= hand@.len(),
            sum as int == hand_sum(hand@.take(i as int)),
            ace <==> (exists|j: int| 0 <= j < i && hand@[j].rank == Rank::Ace),
            hand_sum(hand@) <= u32::MAX,
        decreases hand@.len() - i,
    {
        proof {
            lemma_hand_sum_take_succ(hand@, i as int);
            lemma_hand_sum_split(hand@, i + 1);
            lemma_hand_sum_bounds(hand@.skip(i + 1 as int));
        }
        let v = get_rank_value(hand[i].rank);
        sum = sum + v;
        if matches!(hand[i].rank, Rank::Ace) {
            ace = true;
        }
        i = i + 1;
    }
    proof {
        assert(hand@.take(hand@.len() as int) =~= hand@);
    }
    if ace && sum > 21 {
        sum - 10
    } else {
        sum
    }
}

/// The score of a whole hand, as the round-resolution rules read it.
pub fn get_hand_value(hand: Vec<Card>) -> (r: u32)
    requires
        hand_sum(hand@) <= u32::MAX,
    ensures
        r as int == score(hand@),
{
    compute_hand_value(&hand)
}

/// An element-for-element copy of a hand.
pub fn clone_cards(cards: &Vec<Card>) -> (r: Vec<Card>)
    ensures
        r@ == cards@,
{
    let mut out: Vec<Card> = Vec::new();
    let mut i: usize = 0;
    while i < cards.len()
        invariant
            0 <= i <= cards@.len(),
            out@ =~= cards@.take(i as int),
        decreases cards@.len() - i,
    {
        out.push(cards[i]);
        i = i + 1;
    }
    proof {
        assert(cards@.take(cards@.len() as int) =~= cards@);
    }
    out
}

/// A field-for-field copy of a player record.
pub fn copy_player(p: &Player) -> (r: Player)
    ensures
        r.user_name@ == p.user_name@,
        r.player_type == p.player_type,
        r.hand@ == p.hand@,
        r.hand_value == p.hand_value,
        r.chips == p.chips,
        r.current_bet == p.current_bet,
{
    Player {
        user_name: p.user_name.clone(),
        player_type: p.player_type,
        hand: clone_cards(&p.hand),
        hand_value: p.hand_value,
        chips: p.chips,
        current_bet: p.current_bet,
    }
}

} // verus!
