//! The core of an IRC client.
//!
//! A [`client::Client`] follows and answers the messages it is handed, and queues those it sends;
//! a [`client::Outgoing`] decides which of them is written when. Neither performs input or output:
//! that is left to the program around them.

pub mod client;
pub mod error;
pub mod proto;
pub mod text;
