//! Rules engine for two-player checkers: board, pieces, move legality,
//! turn and capture-chain bookkeeping, legal-move tables and termination.

pub mod board;
pub mod piece;
pub mod moves;
pub mod turn;
pub mod state;
pub mod game;
pub mod gym_env;
pub mod laws;
