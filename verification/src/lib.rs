//! A Monte Carlo simulator for the dice game craps.
//!
//! The crate is layered leaf-first: [`dice`] rolls a set of dice, [`game`]
//! holds the rules of one game, [`tally`] adds up the outcomes of many games
//! and [`sim`] plays a run of games, each with a generator of its own.

pub mod dice;
pub mod game;
pub mod sim;
pub mod tally;
