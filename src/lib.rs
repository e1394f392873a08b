//! Checks and reducers that drive a command-line argument matcher.
pub mod text;
pub mod shared;
pub mod runner;
pub mod actions;
pub mod laws;
