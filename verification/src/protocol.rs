//! The message vocabulary: commands sent by a connection, events broadcast
//! to every connection, and the registration exchange.

use vstd::prelude::*;

use crate::cards::Card;
use crate::player::Player;

verus! {

#[derive(Debug, Clone, PartialEq)]
pub struct RegisterRequest {
    pub user_name: String,
}

#[derive(Debug, Clone, PartialEq)]
pub struct RegisterResponse {
    pub url: String,
    pub is_host: bool,
    pub id: String,
}

/// An event fanned out to every connection when the shared game state moves.
#[derive(Debug, Clone, PartialEq)]
pub enum PublishTrigger {
    StartTurn { active_client_id: String, user_name: String, dealer_card: Option<Card> },
    CardsDrawn { cards: Vec<Card> },
    RoundFinished(Vec<TurnResult>),
    GameFinished,
}

/// A command a connection sends to the coordinator, one per message.
#[derive(Debug, Clone, PartialEq)]
pub enum RequestCommand {
    Start,
    Bet(u32),
    DrawCards(u16),
    Hit,
    EndTurn(Player),
}

#[derive(Debug, Clone, PartialEq)]
pub struct BlackjackRequest {
    pub command: RequestCommand,
}

#[derive(Debug, Clone, PartialEq)]
pub struct PublishRequest {
    pub trigger: PublishTrigger,
}

/// One player's outcome of a round, reported in the round-finished event.
#[derive(Debug, Clone, PartialEq)]
pub struct TurnResult {
    pub player: Player,
    pub end_state: EndState,
}

#[derive(Debug, Clone, Copy, PartialEq, Eq, Structural)]
pub enum EndState {
    Win,
    Loss,
    Blackjack,
    Push,
}

/// What a connection's socket loop should do with a prepared response.
#[derive(Debug, Clone, Copy, PartialEq, Eq, Structural)]
pub enum WebSocketAction {
    Send,
    Close,
    Idle,
}

#[derive(Debug, Clone, PartialEq)]
pub struct WebSocketResponse {
    pub action: WebSocketAction,
    pub response: String,
}

} // verus!
