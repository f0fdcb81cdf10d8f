//! The Royal Game of Ur: a packed board with moves that can be taken back,
//! choosers that look one move ahead, and a Monte-Carlo search for the best
//! move, all with machine-checked contracts.
//!
//! - [`optimized_game`] holds the board in three machine words and reads,
//!   lists, makes and takes back moves on it; [`bits`] is the arithmetic of
//!   those words.
//! - [`model`] says what a board stands for and what the rules allow;
//!   [`laws`] states what follows for every game, and [`consistency`] and
//!   [`listing`] carry the proofs that the board code rests on.
//! - [`ai_helpers`] rates and chooses moves at a glance; [`choice`] is the
//!   rule by which every chooser breaks ties.
//! - [`ai`] searches by random playouts, which [`playout`] plays and rates;
//!   [`tally`] is the table the search keeps, [`budget`] the division of its
//!   playouts among workers, and [`chance`] its dice.
//! - [`display`] places the squares on a drawn board, and [`stats`] keeps the
//!   figures of a run of games.

pub mod ai;
pub mod ai_helpers;
pub mod bits;
pub mod budget;
pub mod chance;
pub mod choice;
pub mod consistency;
pub mod display;
pub mod laws;
pub mod listing;
pub mod model;
pub mod optimized_game;
pub mod playout;
pub mod stats;
pub mod tally;
