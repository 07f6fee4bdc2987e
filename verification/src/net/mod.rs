//! Peers and their addresses.
pub mod address;
pub mod peer;
