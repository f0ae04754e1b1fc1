//! Replays chess games written in PGN and encodes the positions they pass
//! through.
//!
//! - `scan` cuts a text into games, tag pairs and movetext tokens;
//! - `tags` and `number` read tag pairs and ratings;
//! - `replay` plays movetext tokens one by one, resolving each against the
//!   legal moves of the `chess` crate (`oracle`), and records each ply;
//! - `position` and `tensor` keep the board as 64 squares and encode it as a
//!   6 x 8 x 8 grid;
//! - `outcome`, `record` and `parser` put games together from these parts.

pub mod piece;
pub mod position;
pub mod tensor;
pub mod outcome;
pub mod oracle;
pub mod replay;
pub mod scan;
pub mod tags;
pub mod number;
pub mod record;
pub mod parser;
