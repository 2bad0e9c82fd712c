//! A two-player naval-combat game.
//!
//! - [`board`]: the grid, where a ship may be placed, when a ship is sunk.
//! - [`cards`]: the power-up cards and the last-stand rescue.
//! - [`model`] and [`laws`]: the session as mathematics, and what holds of it.
//! - [`session`]: the authoritative session of two players.
//! - [`ai`]: the computer opponent.
//! - [`game_state`], [`client`], [`input`]: the state of a player's client,
//!   and what messages and keys do to it.
//! - [`relay`]: the session that only passes messages on.
//! - [`chance`]: the dice.
//! - [`text`] and [`types`]: texts and the messages of the protocol.

pub mod ai;
pub mod board;
pub mod cards;
pub mod chance;
pub mod client;
pub mod display;
pub mod game_state;
pub mod input;
pub mod laws;
pub mod model;
pub mod relay;
pub mod session;
pub mod text;
pub mod types;
