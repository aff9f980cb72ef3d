//! Verified game engines for a set of turn-based contest puzzles.
//!
//! The heart of the crate is a bitboard engine for the two-player board game
//! Onitama: a 5x5 board encoded in the low 25 bits of a `u32`, per-turn move
//! tables, a minimax search tree and an alpha-beta scorer.  Smaller companion
//! modules hold a grid-quest rule set, a robot-arena rule engine and a toy
//! tree builder.

pub mod bits;
pub mod board;
pub mod state;
pub mod score;
pub mod moves;
pub mod search;
pub mod laws;
pub mod prototree;
pub mod quest;
pub mod bots;
