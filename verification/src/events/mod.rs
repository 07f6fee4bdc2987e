//! What the node does about the events of its Lightning library.
pub mod funding;
pub mod handler;
