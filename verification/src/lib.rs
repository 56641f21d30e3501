//! A falling-block puzzle engine: a fixed-size board accepts one actively
//! falling piece at a time, moved by player commands and a periodic gravity
//! tick, and settles pieces into the board when they can no longer descend.
//! Settling may complete rows, which are cleared and scored.

pub mod board;
pub mod controller;
pub mod piece;

pub use board::Firetris;
pub use controller::{Command, FiretrisController};
pub use piece::{Piece, PieceType};
