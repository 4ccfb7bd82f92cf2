//! A statistical simulator for the Monty Hall problem.
//!
//! The library repeatedly simulates the three-door game: each trial draws the
//! contestant's initial pick and the prize door independently and uniformly
//! from the three doors, then tallies whether staying with the pick or
//! switching away from it would have won. After a configured number of trials
//! it renders the empirical win rates as a fixed-format report.

pub mod args;
pub mod generator;
pub mod report;
pub mod session;

pub use args::{Args, ParseError, RunArgs};
pub use generator::TrialGenerator;
pub use session::{run, RunSession};
