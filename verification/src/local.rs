//! The owner's side: what a command asks of the sidecar, what the sidecar makes
//! of it, and what the owner gets to see.

pub mod message;
pub mod owner;
pub mod reply;
