//! A Connect-Four-style game core: a rectangular grid that pieces drop into
//! column by column, a round-robin turn cursor, a column selector, and
//! detection of four-in-a-row wins and full-board draws.
//!
//! The crate holds only the game logic; reading keys and painting the board
//! belong to whatever terminal front end drives it.

pub mod game;
pub mod laws;
pub mod win;
