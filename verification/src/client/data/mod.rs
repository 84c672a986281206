//! What the client is configured with and what it keeps track of.

pub mod config;
pub mod user;
