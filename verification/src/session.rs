//! The turn sequencer: an explicit phase for the table and one transition
//! function that consumes a connection's command, applies it to the shared
//! state under the caller's locks, fans the resulting events out, and
//! reports the next phase — or says exactly why the command was rejected.

use vstd::prelude::*;

use crate::fanout::publish;
use crate::game::{
    bet, bet_applied, cards_drawn_applied, draw_cards_for_publish, end_turn, results_reported,
    round_resolved, snapshot_committed, start_turn, start_turn_event,
};
use crate::player::{
    clone_cards, get_hand_value, hand_sum, lemma_hand_sum_bounds, player_wf, score, Player,
    MAX_HAND_CARDS,
};
use crate::protocol::{PublishRequest, PublishTrigger, RequestCommand};
use crate::registry::{first_at_position, first_with_id, lemma_first_with_id, Registry};

verus! {

/// Where a round stands. `DealerResolving` and `RoundFinished` are passed
/// through inside a single end-turn transition; the phases a command can
/// find the table in are the other three.
#[derive(Debug, Clone, Copy, PartialEq, Eq, Structural)]
pub enum TurnPhase {
    AwaitingStart,
    PlayerActing(usize),
    DealerResolving,
    RoundFinished,
    GameOver,
}

/// Why a command was rejected. Rejections leave the table untouched; the
/// connection stays open and later commands are welcome.
#[derive(Debug, Clone, Copy, PartialEq, Eq, Structural)]
pub enum CommandError {
    /// The identity is not in the registry.
    NotRegistered,
    /// The connection's outbound channel is not attached yet.
    NotReady,
    /// The game has finished; no further commands are accepted.
    GameAlreadyOver,
    /// The command does not fit the table's phase.
    WrongPhase,
    /// Only the host — the connection at position zero — may start a round.
    NotHost,
    /// Another connection's turn is in progress.
    NotYourTurn,
    /// The bet is not covered by the chip balance, or its largest payout
    /// would not fit the balance type.
    InvalidBet,
    /// The draw would push the hand past the hand-size cap.
    TooManyCards,
    /// The submitted player snapshot is not well formed.
    InvalidSnapshot,
}

/// The guard a command passes before it is applied, checked in this order.
/// `None` means the command is accepted.
pub open spec fn command_check(
    phase: TurnPhase,
    clients: Seq<crate::registry::Client>,
    id: Seq<char>,
    command: RequestCommand,
) -> Option<CommandError> {
    let i = first_with_id(clients, id);
    if i == -1 {
        Some(CommandError::NotRegistered)
    } else if clients[i].sender is None {
        Some(CommandError::NotReady)
    } else if phase is GameOver {
        Some(CommandError::GameAlreadyOver)
    } else {
        match command {
            RequestCommand::Start => {
                if !(phase is AwaitingStart) {
                    Some(CommandError::WrongPhase)
                } else if clients[i].position != 0 {
                    Some(CommandError::NotHost)
                } else {
                    None
                }
            },
            RequestCommand::Bet(amount) => {
                match phase {
                    TurnPhase::PlayerActing(p) => {
                        if clients[i].position != p {
                            Some(CommandError::NotYourTurn)
                        } else if !(amount <= clients[i].player.chips && clients[i].player.chips
                            + 3 * amount <= u32::MAX) {
                            Some(CommandError::InvalidBet)
                        } else {
                            None
                        }
                    },
                    _ => Some(CommandError::WrongPhase),
                }
            },
            RequestCommand::DrawCards(n) => draw_check(phase, clients, i, n as int),
            RequestCommand::Hit => draw_check(phase, clients, i, 1),
            RequestCommand::EndTurn(snapshot) => {
                match phase {
                    TurnPhase::PlayerActing(p) => {
                        if clients[i].position != p {
                            Some(CommandError::NotYourTurn)
                        } else if !player_wf(snapshot) {
                            Some(CommandError::InvalidSnapshot)
                        } else {
                            None
                        }
                    },
                    _ => Some(CommandError::WrongPhase),
                }
            },
        }
    }
}

/// The guard shared by the two drawing commands.
pub open spec fn draw_check(
    phase: TurnPhase,
    clients: Seq<crate::registry::Client>,
    i: int,
    n: int,
) -> Option<CommandError> {
    match phase {
        TurnPhase::PlayerActing(p) => {
            if clients[i].position != p {
                Some(CommandError::NotYourTurn)
            } else if clients[i].player.hand@.len() + n > MAX_HAND_CARDS {
                Some(CommandError::TooManyCards)
            } else {
                None
            }
        },
        _ => Some(CommandError::WrongPhase),
    }
}

/// Whether a submitted player snapshot may be committed: its cached hand
/// value agrees with the scoring rules, its bet is covered, and the largest
/// payout fits the balance type.
pub fn snapshot_ok(p: &Player) -> (r: bool)
    ensures
        r == player_wf(*p),
{
    if p.hand.len() > MAX_HAND_CARDS {
        return false;
    }
    proof {
        lemma_hand_sum_bounds(p.hand@);
    }
    let v = get_hand_value(clone_cards(&p.hand));
    p.hand_value == v && p.current_bet <= p.chips && (p.chips as u64) + 3 * (p.current_bet as u64)
        <= u32::MAX as u64
}

/// Applies one inbound command to the table. The guard is checked first —
/// a rejected command changes nothing and says why it was rejected. An
/// accepted command mutates the registry and the dealer exactly as the
/// game rules say, fans every resulting event out to all attached
/// connections, and returns the table's next phase beside the events, in
/// the order they were published.
pub fn handle_command(
    phase: TurnPhase,
    registry: &mut Registry,
    dealer: &mut Player,
    id: &str,
    command: &RequestCommand,
) -> (r: Result<(TurnPhase, Vec<PublishRequest>), CommandError>)
    requires
        old(registry).wf(),
        hand_sum(old(dealer).hand@) <= u32::MAX,
        (phase matches TurnPhase::PlayerActing(p) ==> p < usize::MAX
            && old(dealer).hand@.len() >= 1),
    ensures
        final(registry).wf(),
        hand_sum(final(dealer).hand@) <= u32::MAX,
        (command_check(phase, old(registry).clients@, id@, *command) matches Some(e) ==> r
            == Err::<(TurnPhase, Vec<PublishRequest>), CommandError>(e)),
        (command_check(phase, old(registry).clients@, id@, *command) is None ==> r is Ok),
        (r is Err ==> *final(registry) == *old(registry) && *final(dealer) == *old(dealer)),
        (r matches Ok(ok) ==> ({
            let i = first_with_id(old(registry).clients@, id@);
            let pos = old(registry).clients@[i].position as int;
            let next = first_at_position(old(registry).clients@, pos + 1);
            &&& (*command is Start ==> {
                &&& ok.0 == TurnPhase::PlayerActing(0usize)
                &&& ok.1@.len() == 1
                &&& start_turn_event(ok.1@[0], old(registry).clients@[i], *final(dealer))
                &&& final(dealer).hand@.len() == 2
                &&& final(dealer).hand_value as int == score(final(dealer).hand@)
                &&& final(dealer).user_name == old(dealer).user_name
                &&& final(dealer).player_type == old(dealer).player_type
                &&& final(dealer).chips == old(dealer).chips
                &&& final(dealer).current_bet == old(dealer).current_bet
                &&& *final(registry) == *old(registry)
            })
            &&& (*command matches RequestCommand::Bet(amount) ==> {
                &&& ok.0 == phase
                &&& ok.1@.len() == 0
                &&& bet_applied(old(registry).clients@, i, amount, final(registry).clients@)
                &&& *final(dealer) == *old(dealer)
            })
            &&& (*command matches RequestCommand::DrawCards(n) ==> {
                &&& ok.0 == phase
                &&& ok.1@.len() == 1
                &&& cards_drawn_applied(
                    old(registry).clients@,
                    i,
                    ok.1@[0],
                    n as int,
                    final(registry).clients@,
                )
                &&& *final(dealer) == *old(dealer)
            })
            &&& (*command is Hit ==> {
                &&& ok.0 == phase
                &&& ok.1@.len() == 1
                &&& cards_drawn_applied(
                    old(registry).clients@,
                    i,
                    ok.1@[0],
                    1,
                    final(registry).clients@,
                )
                &&& *final(dealer) == *old(dealer)
            })
            &&& (*command matches RequestCommand::EndTurn(snapshot) ==> {
                if next != -1 {
                    &&& ok.0 == TurnPhase::PlayerActing((pos + 1) as usize)
                    &&& ok.1@.len() == 1
                    &&& start_turn_event(ok.1@[0], old(registry).clients@[next], *old(dealer))
                    &&& snapshot_committed(
                        old(registry).clients@,
                        i,
                        snapshot,
                        final(registry).clients@,
                    )
                    &&& *final(dealer) == *old(dealer)
                } else {
                    &&& final(dealer).hand_value as int == score(final(dealer).hand@)
                    &&& final(dealer).hand_value >= 17
                    &&& final(dealer).user_name == old(dealer).user_name
                    &&& final(dealer).player_type == old(dealer).player_type
                    &&& final(dealer).chips == old(dealer).chips
                    &&& final(dealer).current_bet == old(dealer).current_bet
                    &&& round_resolved(
                        old(registry).clients@,
                        i,
                        snapshot,
                        *final(dealer),
                        final(registry).clients@,
                    )
                    &&& (ok.1@[0].trigger matches PublishTrigger::RoundFinished(results)
                        && results_reported(
                        old(registry).clients@,
                        i,
                        snapshot,
                        *final(dealer),
                        final(registry).clients@,
                        results@,
                    ))
                    &&& if (exists|k: int|
                        0 <= k < old(registry).clients@.len()
                            && final(registry).clients@[k].player.chips > 0) {
                        &&& ok.0 == TurnPhase::AwaitingStart
                        &&& ok.1@.len() == 1
                    } else {
                        &&& ok.0 == TurnPhase::GameOver
                        &&& ok.1@.len() == 2
                        &&& ok.1@[1].trigger is GameFinished
                    }
                }
            })
        })),
        (r matches Ok(ok) ==> (ok.0 matches TurnPhase::PlayerActing(p)
            ==> final(dealer).hand@.len() >= 1)),
{
    proof {
        lemma_first_with_id(registry.clients@, id@);
    }
    let found = registry.find_by_identity(id);
    let i = match found {
        Some(i) => i,
        None => {
            return Err(CommandError::NotRegistered);
        },
    };
    let has_sender = match &registry.clients[i].sender {
        Some(_) => true,
        None => false,
    };
    if !has_sender {
        return Err(CommandError::NotReady);
    }
    if matches!(phase, TurnPhase::GameOver) {
        return Err(CommandError::GameAlreadyOver);
    }

    match command {
        RequestCommand::Start => {
            if !matches!(phase, TurnPhase::AwaitingStart) {
                return Err(CommandError::WrongPhase);
            }
            if registry.clients[i].position != 0 {
                return Err(CommandError::NotHost);
            }
            let ev = start_turn(&registry.clients[i], dealer);
            let _ = publish(&*registry, &ev, None);
            let mut events: Vec<PublishRequest> = Vec::new();
            events.push(ev);
            Ok((TurnPhase::PlayerActing(0), events))
        },
        RequestCommand::Bet(amount) => {
            let p = match phase {
                TurnPhase::PlayerActing(p) => p,
                _ => {
                    return Err(CommandError::WrongPhase);
                },
            };
            if registry.clients[i].position != p {
                return Err(CommandError::NotYourTurn);
            }
            let chips = registry.clients[i].player.chips;
            if !(*amount <= chips && (chips as u64) + 3 * (*amount as u64) <= u32::MAX as u64) {
                return Err(CommandError::InvalidBet);
            }
            bet(registry, id, *amount);
            Ok((phase, Vec::new()))
        },
        RequestCommand::DrawCards(n) => {
            let p = match phase {
                TurnPhase::PlayerActing(p) => p,
                _ => {
                    return Err(CommandError::WrongPhase);
                },
            };
            if registry.clients[i].position != p {
                return Err(CommandError::NotYourTurn);
            }
            if registry.clients[i].player.hand.len() + (*n as usize) > MAX_HAND_CARDS {
                return Err(CommandError::TooManyCards);
            }
            let ev = draw_cards_for_publish(*n, registry, id);
            let _ = publish(&*registry, &ev, None);
            let mut events: Vec<PublishRequest> = Vec::new();
            events.push(ev);
            Ok((phase, events))
        },
        RequestCommand::Hit => {
            let p = match phase {
                TurnPhase::PlayerActing(p) => p,
                _ => {
                    return Err(CommandError::WrongPhase);
                },
            };
            if registry.clients[i].position != p {
                return Err(CommandError::NotYourTurn);
            }
            if registry.clients[i].player.hand.len() + 1 > MAX_HAND_CARDS {
                return Err(CommandError::TooManyCards);
            }
            let ev = draw_cards_for_publish(1, registry, id);
            let _ = publish(&*registry, &ev, None);
            let mut events: Vec<PublishRequest> = Vec::new();
            events.push(ev);
            Ok((phase, events))
        },
        RequestCommand::EndTurn(snapshot) => {
            let p = match phase {
                TurnPhase::PlayerActing(p) => p,
                _ => {
                    return Err(CommandError::WrongPhase);
                },
            };
            if registry.clients[i].position != p {
                return Err(CommandError::NotYourTurn);
            }
            if !snapshot_ok(snapshot) {
                return Err(CommandError::InvalidSnapshot);
            }
            let (ev, continue_playing) = end_turn(registry, id, snapshot, dealer);
            let to_next_player = matches!(ev.trigger, PublishTrigger::StartTurn { .. });
            let _ = publish(&*registry, &ev, None);
            let mut events: Vec<PublishRequest> = Vec::new();
            events.push(ev);
            if to_next_player {
                Ok((TurnPhase::PlayerActing(p + 1), events))
            } else if continue_playing {
                Ok((TurnPhase::AwaitingStart, events))
            } else {
                let finished = PublishRequest { trigger: PublishTrigger::GameFinished };
                let _ = publish(&*registry, &finished, None);
                events.push(finished);
                Ok((TurnPhase::GameOver, events))
            }
        },
    }
}

} // verus!
