//! Finding peers through DNS seeds.
pub mod bootstrapper;
pub mod client;
pub mod config;
pub mod error;
pub mod pubkey;
pub mod query;
