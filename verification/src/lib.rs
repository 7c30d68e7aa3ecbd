//! A chess move-generation and legality engine built on magic bitboards.
//!
//! The library models the board as a 64-bit occupancy set next to a 64-cell
//! piece list, precomputes sliding-piece attack tables through perfect
//! hashing of blocker subsets, and validates candidate moves (including
//! castling, en passant and promotion) before executing them on the game
//! state.

pub mod attack_magic;
pub mod attack_tables;
pub mod bits;
pub mod board;
pub mod chess_move;
pub mod error;
pub mod game;
pub mod mask;
pub mod move_logic;
pub mod occupancy;
pub mod piece;
pub mod square;
