//! The client: what it sends, how it answers what it receives, and how fast it writes.

pub mod channels;
pub mod clock;
pub mod conduct;
pub mod connection;
pub mod data;
pub mod delivery;
pub mod flow;
pub mod joins;
pub mod keys;
pub mod outgoing;
pub mod pacing;
pub mod penalty;
pub mod requests;
pub mod sender;
pub mod setup;
pub mod state;
pub mod tracking;

pub use connection::{Client, ClientStream, StreamError};
pub use outgoing::Outgoing;
pub use sender::Sender;
pub use state::{ClientState, Features};
