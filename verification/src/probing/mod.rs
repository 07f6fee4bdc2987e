//! Probing: sending payments that cannot succeed, to learn which routes would carry one.
pub mod runner;
pub mod sampling;
pub mod sender;
pub mod tracker;
