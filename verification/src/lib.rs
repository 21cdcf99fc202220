//! Core of a falling-block puzzle game: board and piece models with
//! collision and line-clearing, a pausable multi-slot clock, the command
//! vocabulary, scheduling decisions for the tickers, and the state machine
//! that applies commands to the shared game state.

pub mod block;
pub mod event;
pub mod frame;
pub mod handler;
pub mod state;
pub mod timer;
pub mod trigger;
