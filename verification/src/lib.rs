//! Game logic of the dolphin breeding game: player state, the commands a
//! player can issue, the timer queue of dolphin events, the word encodings
//! in which all of it is stored, and the seed commitment scheme used for
//! randomness.
pub mod config;
pub mod event;
pub mod gameplay;
pub mod random;
pub mod state;
