//! The actions a round is made of: dealing, betting, drawing, the dealer's
//! automated play, and the arithmetic that resolves and pays out a round.

use vstd::prelude::*;

use crate::cards::Card;
use crate::player::{
    clone_cards, copy_player, get_hand_value, hand_sum, lemma_hand_sum_bounds,
    lemma_hand_sum_split, player_wf, score, Player, MAX_HAND_CARDS,
};
use crate::protocol::{EndState, PublishRequest, PublishTrigger, TurnResult};
use crate::registry::{
    first_at_position, first_with_id, lemma_first_at_position,
    lemma_first_at_position_same_positions, lemma_first_with_id, Client, Registry,
};

verus! {

/// The outcome of one player's score against the dealer's final score.
/// The push rule is checked first, so two busts or two equal scores push
/// even when the player holds a blackjack.
pub open spec fn resolve(player_score: int, dealer_score: int, blackjack: bool) -> EndState {
    if (dealer_score > 21 && player_score > 21) || dealer_score == player_score {
        EndState::Push
    } else if blackjack {
        EndState::Blackjack
    } else if dealer_score > 21 || (player_score <= 21 && player_score > dealer_score) {
        EndState::Win
    } else {
        EndState::Loss
    }
}

/// The chip balance after one round's payout: a win returns the bet, a loss
/// takes it, a blackjack pays the bet three times over, a push pays nothing.
pub open spec fn payout(chips: int, bet: int, end_state: EndState) -> int {
    match end_state {
        EndState::Win => chips + bet,
        EndState::Loss => chips - bet,
        EndState::Blackjack => chips + 3 * bet,
        EndState::Push => chips,
    }
}

/// A blackjack: a two-card hand worth twenty-one.
pub open spec fn spec_is_blackjack(p: Player) -> bool {
    p.hand@.len() == 2 && p.hand_value == 21
}

/// The outcome of `p`'s round once the dealer has finished on `dealer_score`.
pub open spec fn round_outcome(p: Player, dealer_score: int) -> EndState {
    resolve(p.hand_value as int, dealer_score, spec_is_blackjack(p))
}

/// Everything but the embedded player is the same on both clients.
pub open spec fn same_but_player(a: Client, b: Client) -> bool {
    a.id == b.id && a.sender == b.sender && a.position == b.position
}

/// The snapshot stands at connection `i`; no other connection moved.
pub open spec fn snapshot_committed(
    old_clients: Seq<Client>,
    i: int,
    snapshot: Player,
    new_clients: Seq<Client>,
) -> bool {
    &&& new_clients.len() == old_clients.len()
    &&& forall|k: int|
        0 <= k < old_clients.len() && k != i ==> new_clients[k] == old_clients[k]
    &&& same_but_player(new_clients[i], old_clients[i])
    &&& new_clients[i].player.user_name@ == snapshot.user_name@
    &&& new_clients[i].player.player_type == snapshot.player_type
    &&& new_clients[i].player.hand@ == snapshot.hand@
    &&& new_clients[i].player.hand_value == snapshot.hand_value
    &&& new_clients[i].player.chips == snapshot.chips
    &&& new_clients[i].player.current_bet == snapshot.current_bet
}

/// The bet of connection `i` is `amount`; nothing else moved.
pub open spec fn bet_applied(
    old_clients: Seq<Client>,
    i: int,
    amount: u32,
    new_clients: Seq<Client>,
) -> bool {
    &&& new_clients.len() == old_clients.len()
    &&& forall|k: int|
        0 <= k < old_clients.len() && k != i ==> new_clients[k] == old_clients[k]
    &&& same_but_player(new_clients[i], old_clients[i])
    &&& new_clients[i].player.user_name == old_clients[i].player.user_name
    &&& new_clients[i].player.player_type == old_clients[i].player.player_type
    &&& new_clients[i].player.hand == old_clients[i].player.hand
    &&& new_clients[i].player.hand_value == old_clients[i].player.hand_value
    &&& new_clients[i].player.chips == old_clients[i].player.chips
    &&& new_clients[i].player.current_bet == amount
}

/// Connection `i`'s hand grew by exactly the cards the event carries, its
/// cached value was recomputed, and nothing else moved.
pub open spec fn cards_drawn_applied(
    old_clients: Seq<Client>,
    i: int,
    ev: PublishRequest,
    n: int,
    new_clients: Seq<Client>,
) -> bool {
    &&& new_clients.len() == old_clients.len()
    &&& forall|k: int|
        0 <= k < old_clients.len() && k != i ==> new_clients[k] == old_clients[k]
    &&& same_but_player(new_clients[i], old_clients[i])
    &&& (ev.trigger matches PublishTrigger::CardsDrawn { cards } && {
        &&& cards@.len() == n
        &&& new_clients[i].player.hand@ == old_clients[i].player.hand@ + cards@
    })
    &&& new_clients[i].player.hand_value as int == score(new_clients[i].player.hand@)
    &&& new_clients[i].player.user_name == old_clients[i].player.user_name
    &&& new_clients[i].player.player_type == old_clients[i].player.player_type
    &&& new_clients[i].player.chips == old_clients[i].player.chips
    &&& new_clients[i].player.current_bet == old_clients[i].player.current_bet
}

/// A start-turn announcement naming `c`, exposing only the dealer's first,
/// face-up card.
pub open spec fn start_turn_event(ev: PublishRequest, c: Client, dealer_after: Player) -> bool {
    ev.trigger matches PublishTrigger::StartTurn { active_client_id, user_name, dealer_card }
        && active_client_id@ == c.id@ && user_name@ == c.player.user_name@ && dealer_card == Some(
        dealer_after.hand@[0],
    )
}

/// Every connection's round stands resolved against the dealer's final
/// value: chips carry the payout, hands and bets are reset, and the
/// snapshot that was committed at `i` is what connection `i` was scored on.
pub open spec fn round_resolved(
    old_clients: Seq<Client>,
    i: int,
    snapshot: Player,
    dealer_after: Player,
    new_clients: Seq<Client>,
) -> bool {
    &&& new_clients.len() == old_clients.len()
    &&& forall|k: int|
        0 <= k < old_clients.len() ==> ({
            let pk = if k == i {
                snapshot
            } else {
                old_clients[k].player
            };
            let es = round_outcome(pk, dealer_after.hand_value as int);
            &&& same_but_player(#[trigger] new_clients[k], old_clients[k])
            &&& new_clients[k].player.chips as int == payout(
                pk.chips as int,
                pk.current_bet as int,
                es,
            )
            &&& new_clients[k].player.hand@.len() == 0
            &&& new_clients[k].player.hand_value == 0
            &&& new_clients[k].player.current_bet == 0
            &&& new_clients[k].player.user_name@ == pk.user_name@
            &&& new_clients[k].player.player_type == pk.player_type
        })
}

/// The round-finished report: the dealer's own snapshot first — its end
/// state a mere placeholder, the dealer has no stake — then one result per
/// connection in registry order, each carrying the bet it was scored on.
pub open spec fn results_reported(
    old_clients: Seq<Client>,
    i: int,
    snapshot: Player,
    dealer_after: Player,
    new_clients: Seq<Client>,
    results: Seq<TurnResult>,
) -> bool {
    &&& results.len() == old_clients.len() + 1
    &&& results[0].end_state == EndState::Push
    &&& results[0].player.user_name@ == dealer_after.user_name@
    &&& results[0].player.player_type == dealer_after.player_type
    &&& results[0].player.hand@ == dealer_after.hand@
    &&& results[0].player.hand_value == dealer_after.hand_value
    &&& results[0].player.chips == dealer_after.chips
    &&& results[0].player.current_bet == dealer_after.current_bet
    &&& forall|m: int|
        1 <= m <= old_clients.len() ==> ({
            let pk = if m - 1 == i {
                snapshot
            } else {
                old_clients[m - 1].player
            };
            let es = round_outcome(pk, dealer_after.hand_value as int);
            &&& (#[trigger] results[m]).end_state == es
            &&& results[m].player.chips == new_clients[m - 1].player.chips
            &&& results[m].player.hand@.len() == 0
            &&& results[m].player.hand_value == 0
            &&& results[m].player.current_bet == pk.current_bet
            &&& results[m].player.user_name@ == pk.user_name@
            &&& results[m].player.player_type == pk.player_type
        })
}

/// Equal scores push: resolving any score against itself, with no
/// blackjack, is a push, whatever the score.
pub proof fn lemma_resolve_equal_scores_push(score_value: int)
    ensures
        resolve(score_value, score_value, false) == EndState::Push,
{
}

/// Whether the player's hand qualifies as a blackjack.
pub fn is_blackjack(player: &Player) -> (r: bool)
    ensures
        r == spec_is_blackjack(*player),
{
    player.hand.len() == 2 && player.hand_value == 21
}

/// Resolves one player's round against the dealer's current hand value.
pub fn calculate_end_state(player: &Player, dealer: &Player) -> (r: EndState)
    ensures
        r == round_outcome(*player, dealer.hand_value as int),
{
    let player_value = player.hand_value;
    let dealer_value = dealer.hand_value;

    if dealer_value > 21 && player_value > 21 || dealer_value == player_value {
        EndState::Push
    } else if is_blackjack(player) {
        EndState::Blackjack
    } else if dealer_value > 21 || (player_value <= 21 && player_value > dealer_value) {
        EndState::Win
    } else {
        EndState::Loss
    }
}

/// Applies one round's payout to the player's chip balance. The caller
/// guarantees the bet is covered and the largest payout fits the balance.
pub fn handle_end_state(player: &mut Player, end_state: EndState)
    requires
        old(player).current_bet <= old(player).chips,
        old(player).chips + 3 * old(player).current_bet <= u32::MAX,
    ensures
        final(player).chips as int == payout(
            old(player).chips as int,
            old(player).current_bet as int,
            end_state,
        ),
        final(player).user_name == old(player).user_name,
        final(player).player_type == old(player).player_type,
        final(player).hand == old(player).hand,
        final(player).hand_value == old(player).hand_value,
        final(player).current_bet == old(player).current_bet,
{
    match end_state {
        EndState::Win => {
            player.chips = player.chips + player.current_bet;
        },
        EndState::Loss => {
            player.chips = player.chips - player.current_bet;
        },
        EndState::Blackjack => {
            player.chips = player.chips + player.current_bet * 3;
        },
        EndState::Push => {},  // Nothing moves on a push.
    }
}

/// Returns `num_to_draw` freshly dealt cards. The state of the deck between
/// calls is irrelevant for this table, so each call deals from a new
/// shuffled deck; the supply never runs out.
pub fn draw_cards(num_to_draw: u16) -> (r: Vec<Card>)
    ensures
        r@.len() == num_to_draw as int,
{
    let mut deck = crate::deck::create_playing_deck(1);
    crate::deck::draw_cards(&mut deck, num_to_draw)
}

/// Deals the dealer a fresh two-card hand and announces the start of a
/// turn: the event names the client whose turn begins and exposes only the
/// dealer's first, face-up card.
pub fn start_turn(client: &Client, dealer: &mut Player) -> (r: PublishRequest)
    ensures
        final(dealer).hand@.len() == 2,
        final(dealer).hand_value as int == score(final(dealer).hand@),
        final(dealer).user_name == old(dealer).user_name,
        final(dealer).player_type == old(dealer).player_type,
        final(dealer).chips == old(dealer).chips,
        final(dealer).current_bet == old(dealer).current_bet,
        start_turn_event(r, *client, *final(dealer)),
        hand_sum(final(dealer).hand@) <= u32::MAX,
{
    let dealer_cards = draw_cards(2);
    dealer.hand = dealer_cards;
    proof {
        lemma_hand_sum_bounds(dealer.hand@);
    }
    let v = get_hand_value(clone_cards(&dealer.hand));
    dealer.hand_value = v;
    let face_up = dealer.hand[0];

    PublishRequest {
        trigger: PublishTrigger::StartTurn {
            active_client_id: client.id.clone(),
            user_name: client.player.user_name.clone(),
            dealer_card: Some(face_up),
        },
    }
}

/// Sets the bet of the connection carrying `id`. The caller guarantees the
/// identity is registered and the bet keeps the player well formed.
pub fn bet(registry: &mut Registry, id: &str, amount: u32)
    requires
        first_with_id(old(registry).clients@, id@) != -1,
        ({
            let i = first_with_id(old(registry).clients@, id@);
            &&& amount <= old(registry).clients@[i].player.chips
            &&& old(registry).clients@[i].player.chips + 3 * amount <= u32::MAX
        }),
    ensures
        bet_applied(
            old(registry).clients@,
            first_with_id(old(registry).clients@, id@),
            amount,
            final(registry).clients@,
        ),
        old(registry).wf() ==> final(registry).wf(),
{
    proof {
        lemma_first_with_id(registry.clients@, id@);
    }
    let i = registry.find_by_identity(id).unwrap();
    let ghost before = registry.clients@;
    let mut c = registry.clients.remove(i);
    c.player.current_bet = amount;
    registry.clients.insert(i, c);
    proof {
        assert(registry.clients@ =~= before.update(i as int, registry.clients@[i as int]));
    }
}

/// Draws `n` cards for the connection carrying `id`, appends them to its
/// hand, recomputes the cached hand value, and returns the event carrying
/// exactly the drawn cards.
pub fn draw_cards_for_publish(n: u16, registry: &mut Registry, id: &str) -> (r: PublishRequest)
    requires
        old(registry).wf(),
        first_with_id(old(registry).clients@, id@) != -1,
        ({
            let i = first_with_id(old(registry).clients@, id@);
            old(registry).clients@[i].player.hand@.len() + n as int <= MAX_HAND_CARDS
        }),
    ensures
        cards_drawn_applied(
            old(registry).clients@,
            first_with_id(old(registry).clients@, id@),
            r,
            n as int,
            final(registry).clients@,
        ),
        final(registry).wf(),
{
    proof {
        lemma_first_with_id(registry.clients@, id@);
    }
    let i = registry.find_by_identity(id).unwrap();
    let ghost before = registry.clients@;

    let drawn_cards = draw_cards(n);
    let mut c = registry.clients.remove(i);
    let mut appended = clone_cards(&drawn_cards);
    c.player.hand.append(&mut appended);
    proof {
        lemma_hand_sum_bounds(c.player.hand@);
    }
    let v = get_hand_value(clone_cards(&c.player.hand));
    c.player.hand_value = v;
    registry.clients.insert(i, c);
    proof {
        assert(registry.clients@ =~= before.update(i as int, registry.clients@[i as int]));
    }

    PublishRequest { trigger: PublishTrigger::CardsDrawn { cards: drawn_cards } }
}

/// Plays the dealer's automated turn: recomputes the dealer's hand value,
/// then draws one card at a time while the value is below seventeen,
/// standing as soon as it reaches seventeen or more. A dealer bust needs no
/// separate check: the busting score itself is terminal.
pub fn take_dealers_turn(dealer: &mut Player)
    requires
        hand_sum(old(dealer).hand@) <= u32::MAX,
    ensures
        final(dealer).user_name == old(dealer).user_name,
        final(dealer).player_type == old(dealer).player_type,
        final(dealer).chips == old(dealer).chips,
        final(dealer).current_bet == old(dealer).current_bet,
        final(dealer).hand_value as int == score(final(dealer).hand@),
        final(dealer).hand_value >= 17,
        final(dealer).hand@.len() >= old(dealer).hand@.len(),
        final(dealer).hand@.take(old(dealer).hand@.len() as int) == old(dealer).hand@,
        score(old(dealer).hand@) >= 17 ==> final(dealer).hand@ == old(dealer).hand@,
        forall|m: int|
            old(dealer).hand@.len() <= m < final(dealer).hand@.len() ==> score(
                final(dealer).hand@.take(m),
            ) < 17,
        final(dealer).hand@.len() <= old(dealer).hand@.len() + 18,
        hand_sum(final(dealer).hand@) <= u32::MAX,
{
    let v = get_hand_value(clone_cards(&dealer.hand));
    dealer.hand_value = v;

    while dealer.hand_value < 17
        invariant
            dealer.hand_value as int == score(dealer.hand@),
            dealer.user_name == old(dealer).user_name,
            dealer.player_type == old(dealer).player_type,
            dealer.chips == old(dealer).chips,
            dealer.current_bet == old(dealer).current_bet,
            dealer.hand@.len() >= old(dealer).hand@.len(),
            dealer.hand@.take(old(dealer).hand@.len() as int) =~= old(dealer).hand@,
            score(old(dealer).hand@) >= 17 ==> dealer.hand@ =~= old(dealer).hand@,
            forall|m: int|
                old(dealer).hand@.len() <= m < dealer.hand@.len() ==> score(
                    dealer.hand@.take(m),
                ) < 17,
            hand_sum(dealer.hand@) <= u32::MAX,
            dealer.hand@.len() > old(dealer).hand@.len() ==> hand_sum(dealer.hand@) <= 37,
        decreases (if hand_sum(dealer.hand@) > 27 {
            0int
        } else {
            27 - hand_sum(dealer.hand@)
        }),
    {
        let ghost prev = dealer.hand@;
        let drawn = draw_cards(1);
        let card = drawn[0];
        dealer.hand.push(card);
        proof {
            assert(dealer.hand@.take(prev.len() as int) =~= prev);
            assert(dealer.hand@.take(old(dealer).hand@.len() as int) =~= old(dealer).hand@);
            lemma_hand_sum_split(dealer.hand@, prev.len() as int);
            assert(dealer.hand@.skip(prev.len() as int) =~= seq![card]);
            assert(hand_sum(seq![card]) == crate::cards::rank_value(card.rank) + hand_sum(
                seq![card].drop_first(),
            ));
            assert(seq![card].drop_first() =~= Seq::<Card>::empty());
            // The score before this draw was below seventeen, so the plain
            // sum was at most twenty-six, and one more card keeps it small.
            assert(hand_sum(prev) <= 26);
            assert forall|m: int|
                old(dealer).hand@.len() <= m < dealer.hand@.len() implies score(
                dealer.hand@.take(m),
            ) < 17 by {
                if m < prev.len() {
                    assert(dealer.hand@.take(m) =~= prev.take(m));
                } else {
                    assert(dealer.hand@.take(m) =~= prev);
                }
            }
        }
        let v2 = get_hand_value(clone_cards(&dealer.hand));
        dealer.hand_value = v2;
    }
    proof {
        if dealer.hand@.len() > old(dealer).hand@.len() {
            lemma_hand_sum_bounds(dealer.hand@);
        }
    }
}

/// Ends the caller's turn. The submitted player snapshot is committed into
/// the registry at the caller's connection; then the connection at the next
/// turn position, if any, is named in a start-turn event. When no such
/// connection exists the round is over: the dealer plays automatically,
/// every connection's round is resolved and paid out, hands and bets are
/// reset, and one round-finished event reports every result, the dealer's
/// own first (its end state a mere placeholder, since the dealer has no
/// stake). The boolean is false only when a finished round leaves no
/// connection holding chips.
pub fn end_turn(registry: &mut Registry, id: &str, player: &Player, dealer: &mut Player) -> (r: (
    PublishRequest,
    bool,
))
    requires
        old(registry).wf(),
        first_with_id(old(registry).clients@, id@) != -1,
        player_wf(*player),
        hand_sum(old(dealer).hand@) <= u32::MAX,
        old(dealer).hand@.len() >= 1,
        ({
            let i = first_with_id(old(registry).clients@, id@);
            old(registry).clients@[i].position < usize::MAX
        }),
    ensures
        final(registry).wf(),
        final(registry).clients@.len() == old(registry).clients@.len(),
        hand_sum(final(dealer).hand@) <= u32::MAX,
        ({
            let i = first_with_id(old(registry).clients@, id@);
            let pos = old(registry).clients@[i].position as int;
            let next = first_at_position(old(registry).clients@, pos + 1);
            if next != -1 {
                &&& *final(dealer) == *old(dealer)
                &&& r.1 == true
                &&& snapshot_committed(old(registry).clients@, i, *player, final(registry).clients@)
                &&& start_turn_event(r.0, old(registry).clients@[next], *old(dealer))
            } else {
                &&& final(dealer).hand_value as int == score(final(dealer).hand@)
                &&& final(dealer).hand_value >= 17
                &&& final(dealer).user_name == old(dealer).user_name
                &&& final(dealer).player_type == old(dealer).player_type
                &&& final(dealer).chips == old(dealer).chips
                &&& final(dealer).current_bet == old(dealer).current_bet
                &&& round_resolved(
                    old(registry).clients@,
                    i,
                    *player,
                    *final(dealer),
                    final(registry).clients@,
                )
                &&& r.1 == (exists|k: int|
                    0 <= k < old(registry).clients@.len()
                        && final(registry).clients@[k].player.chips > 0)
                &&& (r.0.trigger matches PublishTrigger::RoundFinished(results)
                    && results_reported(
                    old(registry).clients@,
                    i,
                    *player,
                    *final(dealer),
                    final(registry).clients@,
                    results@,
                ))
            }
        }),
{
    proof {
        lemma_first_with_id(registry.clients@, id@);
    }
    let i = registry.find_by_identity(id).unwrap();
    let ghost before = registry.clients@;

    // Commit the caller's submitted snapshot at its connection.
    let mut ci = registry.clients.remove(i);
    ci.player = copy_player(player);
    let position = ci.position;
    registry.clients.insert(i, ci);
    let ghost committed = registry.clients@;
    proof {
        assert(committed =~= before.update(i as int, committed[i as int]));
        assert(forall|k: int|
            0 <= k < committed.len() ==> committed[k].position == before[k].position);
        lemma_first_at_position_same_positions(committed, before, position as int + 1);
        lemma_first_at_position(committed, position as int + 1);
    }

    let next_found = registry.find_by_position(position + 1);

    match next_found {
        Some(j) => {
            let c = &registry.clients[j];
            let trigger = PublishTrigger::StartTurn {
                active_client_id: c.id.clone(),
                user_name: c.player.user_name.clone(),
                dealer_card: Some(dealer.hand[0]),
            };
            (PublishRequest { trigger }, true)
        },
        None => {
            // No connection at the next position: every player has finished.
            take_dealers_turn(dealer);
            let ghost dealer_done = *dealer;

            let mut results: Vec<TurnResult> = Vec::new();
            results.push(TurnResult { player: copy_player(dealer), end_state: EndState::Push });

            let mut continue_playing = false;
            let mut k: usize = 0;
            while k < registry.clients.len()
                invariant
                    0 <= k <= committed.len(),
                    registry.clients@.len() == committed.len(),
                    *dealer == dealer_done,
                    forall|m: int|
                        k <= m < committed.len() ==> #[trigger] registry.clients@[m]
                            == committed[m],
                    forall|m: int|
                        0 <= m < committed.len() ==> player_wf(#[trigger] committed[m].player),
                    forall|m: int|
                        0 <= m < k ==> ({
                            let es = round_outcome(
                                committed[m].player,
                                dealer_done.hand_value as int,
                            );
                            &&& same_but_player(#[trigger] registry.clients@[m], committed[m])
                            &&& registry.clients@[m].player.chips as int == payout(
                                committed[m].player.chips as int,
                                committed[m].player.current_bet as int,
                                es,
                            )
                            &&& registry.clients@[m].player.hand@.len() == 0
                            &&& registry.clients@[m].player.hand_value == 0
                            &&& registry.clients@[m].player.current_bet == 0
                            &&& registry.clients@[m].player.user_name@
                                == committed[m].player.user_name@
                            &&& registry.clients@[m].player.player_type
                                == committed[m].player.player_type
                        }),
                    results@.len() == k + 1,
                    results@[0].end_state == EndState::Push,
                    results@[0].player.user_name@ == dealer_done.user_name@,
                    results@[0].player.player_type == dealer_done.player_type,
                    results@[0].player.hand@ == dealer_done.hand@,
                    results@[0].player.hand_value == dealer_done.hand_value,
                    results@[0].player.chips == dealer_done.chips,
                    results@[0].player.current_bet == dealer_done.current_bet,
                    forall|m: int|
                        1 <= m <= k ==> ({
                            let es = round_outcome(
                                committed[m - 1].player,
                                dealer_done.hand_value as int,
                            );
                            &&& (#[trigger] results@[m]).end_state == es
                            &&& results@[m].player.chips == registry.clients@[m - 1].player.chips
                            &&& results@[m].player.hand@.len() == 0
                            &&& results@[m].player.hand_value == 0
                            &&& results@[m].player.current_bet == committed[m
                                - 1].player.current_bet
                            &&& results@[m].player.user_name@ == committed[m - 1].player.user_name@
                            &&& results@[m].player.player_type == committed[m - 1].player.player_type
                        }),
                    continue_playing == (exists|m: int|
                        0 <= m < k && registry.clients@[m].player.chips > 0),
                decreases committed.len() - k,
            {
                let es = calculate_end_state(&registry.clients[k].player, &*dealer);
                let ghost loop_before = registry.clients@;
                let mut ck = registry.clients.remove(k);
                handle_end_state(&mut ck.player, es);
                ck.player.hand = Vec::new();
                ck.player.hand_value = 0;
                results.push(TurnResult { player: copy_player(&ck.player), end_state: es });
                ck.player.current_bet = 0;
                let ghost was_continuing = continue_playing;
                if ck.player.chips > 0 {
                    continue_playing = true;
                }
                registry.clients.insert(k, ck);
                proof {
                    assert(registry.clients@ =~= loop_before.update(
                        k as int,
                        registry.clients@[k as int],
                    ));
                    if was_continuing {
                        let m0 = choose|m: int|
                            0 <= m < k && loop_before[m].player.chips > 0;
                        assert(registry.clients@[m0].player.chips > 0);
                    }
                    if !continue_playing {
                        assert forall|m: int|
                            0 <= m < k + 1 implies !(registry.clients@[m].player.chips > 0) by {
                            if m < k {
                                assert(registry.clients@[m] == loop_before[m]);
                            }
                        }
                    }
                }
                k = k + 1;
            }

            (PublishRequest { trigger: PublishTrigger::RoundFinished(results) }, continue_playing)
        },
    }
}

} // verus!
