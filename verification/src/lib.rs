//! Server-side coordinator for a multi-party, turn-based blackjack game.
//!
//! The crate covers the pieces of the game that are worth reasoning about:
//! hand scoring and round resolution, the registry of connected players,
//! the turn sequencer that drives a round from start to payout, and the
//! broadcast fan-out that hands events to every connection's outbound queue.

pub mod cards;
pub mod deck;
pub mod fanout;
pub mod game;
pub mod player;
pub mod protocol;
pub mod registry;
pub mod session;
