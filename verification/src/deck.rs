//! The deck source: freshly shuffled multi-deck sets of cards, and drawing
//! from the top of such a set with an automatic re-shuffle on exhaustion.

use vstd::prelude::*;

use crate::cards::{rank_from_int, rank_index, suit_from_int, suit_index, Card};
use rand::seq::SliceRandom;

verus! {

broadcast use vstd::seq_lib::group_to_multiset_ensures;

/// Relies on `rand::seq::SliceRandom::shuffle` (with `rand::thread_rng` as
/// the generator): a Fisher-Yates shuffle permutes the slice in place, so
/// the cards afterwards are the same cards in some order.
#[verifier::external_body]
fn shuffle_cards(deck: &mut Vec<Card>)
    ensures
        final(deck)@.len() == old(deck)@.len(),
        final(deck)@.to_multiset() == old(deck)@.to_multiset(),
{
    deck.shuffle(&mut rand::thread_rng());
}

/// A shuffled set of `num_of_decks` complete 52-card decks: every one of the
/// 52 distinct cards appears exactly `num_of_decks` times.
pub fn create_playing_deck(num_of_decks: u8) -> (r: Vec<Card>)
    ensures
        r@.len() == 52 * num_of_decks as int,
        forall|c: Card| r@.to_multiset().count(c) == num_of_decks as int,
{
    let mut deck: Vec<Card> = Vec::new();
    let mut d: u8 = 0;
    while d < num_of_decks
        invariant
            0 <= d <= num_of_decks,
            deck@.len() == 52 * d as int,
            forall|c: Card| deck@.to_multiset().count(c) == d as int,
        decreases num_of_decks as int - d as int,
    {
        let mut s: u32 = 0;
        while s < 4
            invariant
                0 <= s <= 4,
                deck@.len() == 52 * d as int + 13 * s as int,
                forall|c: Card|
                    deck@.to_multiset().count(c) == d as int + (if suit_index(c.suit) < s as int {
                        1int
                    } else {
                        0int
                    }),
            decreases 4 - s as int,
        {
            let mut rk: u32 = 0;
            while rk < 13
                invariant
                    0 <= s < 4,
                    0 <= rk <= 13,
                    deck@.len() == 52 * d as int + 13 * s as int + rk as int,
                    forall|c: Card|
                        deck@.to_multiset().count(c) == d as int + (if suit_index(c.suit)
                            < s as int || (suit_index(c.suit) == s as int && rank_index(c.rank)
                            < rk as int) {
                            1int
                        } else {
                            0int
                        }),
                decreases 13 - rk as int,
            {
                let card = Card { rank: rank_from_int(rk), suit: suit_from_int(s) };
                proof {
                    crate::cards::lemma_rank_index_of_int(rk as int);
                    crate::cards::lemma_suit_index_of_int(s as int);
                }
                deck.push(card);
                rk = rk + 1;
            }
            s = s + 1;
        }
        d = d + 1;
    }
    shuffle_cards(&mut deck);
    deck
}

/// Draws `num_to_draw` cards off the top of `deck`. Whenever the deck runs
/// out, a fresh shuffled deck is appended and drawing goes on, so the draw
/// never fails. While the deck lasts, the cards come off its end in order.
pub fn draw_cards(deck: &mut Vec<Card>, num_to_draw: u16) -> (r: Vec<Card>)
    ensures
        r@.len() == num_to_draw as int,
        old(deck)@.len() >= num_to_draw as int ==> {
            &&& final(deck)@ == old(deck)@.take(old(deck)@.len() - num_to_draw as int)
            &&& forall|i: int|
                0 <= i < num_to_draw as int ==> r@[i] == old(deck)@[old(deck)@.len() - 1 - i]
        },
{
    let ghost orig = deck@;
    let mut cards: Vec<Card> = Vec::new();
    let mut num = num_to_draw;

    while num > 0
        invariant
            cards@.len() == num_to_draw as int - num as int,
            orig.len() >= num_to_draw as int ==> {
                &&& deck@ == orig.take(orig.len() - cards@.len())
                &&& forall|i: int| 0 <= i < cards@.len() ==> cards@[i] == orig[orig.len() - 1 - i]
            },
        decreases num as int,
    {
        match deck.pop() {
            Some(card) => {
                proof {
                    if orig.len() >= num_to_draw as int {
                        assert(deck@ =~= orig.take(orig.len() - cards@.len() - 1));
                    }
                }
                cards.push(card);
            },
            None => {
                let mut new_deck = create_playing_deck(1);
                deck.append(&mut new_deck);
                let card = deck.pop().unwrap();
                cards.push(card);
            },
        }
        num = num - 1;
    }
    cards
}

} // verus!
