//! A move-selection engine for chess.
//!
//! The engine chooses the best move for the side to move within a bounded
//! amount of search effort. Chess legality itself (move generation, move
//! application, terminal status) is supplied by the `chess` crate, which the
//! engine consults through a small set of trusted declarations; everything
//! the engine decides on top of those answers — position evaluation,
//! alpha-beta negamax search with move ordering and extensions, quiescence
//! search, and the difficulty/time-budget policy — is verified.

pub mod model;
pub mod rules;
pub mod eval;
pub mod ordering;
pub mod search;
pub mod policy;
