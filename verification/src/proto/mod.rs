//! The messages of the IRC protocol that the client sends and understands.

pub mod caps;
pub mod command;
pub mod message;
pub mod mode;
pub mod response;
pub mod wire;
