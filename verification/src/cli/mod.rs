//! The commands that a user types.
pub mod commands;
pub mod display;
pub mod error;
pub mod parse;
