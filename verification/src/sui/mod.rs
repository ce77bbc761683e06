//! The fullnode: what it sends and what is asked of it.

pub mod client;
pub mod types;
