//! Rules engine for a multiplayer dice-drafting board game.
//!
//! Players draft dice from a shared pool each round, place them on personal
//! grids under placement constraints, spend single-use tools to bend those
//! constraints, and accrue score from color/number patterns and public
//! objectives. This crate holds the game state machine: round and turn
//! progression, the draft-and-placement protocol, tool-usage resolution,
//! and the scoring engine.

pub mod board;
pub mod color;
pub mod constants;
pub mod error;
pub mod game;
pub mod objective;
mod rng;
pub mod template;
pub mod tool;
pub mod turn;
