//! Session protocol for turn-based board games played through a relay:
//! matching waiting players into sessions, passing moves and events between a
//! rules engine and the connections, and turning pointer input into moves.
//!
//! On the relay's side a [`lobby::LobbyRegistry`] maps names to lobbies and
//! sessions, a [`session::SessionDriver`] advances one session move by move
//! over the [`agent::AgentCore`] of each seat, and a
//! [`bridge::TransportBridge`] ties one connection to one seat. On the
//! player's side a [`client::ClientController`] takes in the relay's events
//! and turns presses and releases, located by a [`gesture::Grid`], into
//! moves; it finds its game by the page's [`address`] and reads the pawns
//! from the engine's table through [`board`]. Both sides speak in the
//! frames of [`wire`]. The rules of the game
//! are not part of this crate: a session asks them of a
//! [`session::RulesEngine`].
//!
//! [`history`] states what holds over a session's whole lifetime: every
//! player is told of the same moves in the same order, and nothing is lost
//! or delivered twice.

pub mod address;
pub mod agent;
pub mod board;
pub mod bridge;
pub mod client;
pub mod gesture;
pub mod history;
pub mod lobby;
pub mod moves;
pub mod rulebook;
pub mod session;
pub mod wire;
