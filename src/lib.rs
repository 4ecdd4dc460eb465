//! Small verified programs: a number-guessing session and a few classic
//! helpers on strings, slices, integers and records.

pub mod basics;
pub mod game;
pub mod input;
pub mod user;
