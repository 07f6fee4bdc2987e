//! What the commands do.
pub mod channel;
pub mod payment;
pub mod peer;
pub mod sign;
