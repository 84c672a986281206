//! What can go wrong.

use crate::proto::mode::{MessageParseError, MessageParseErrorView};
use vstd::prelude::*;

verus! {

/// An error of the client.
#[derive(Debug, PartialEq, Eq, Clone)]
pub enum Error {
    /// The queue of outgoing messages is closed.
    AsyncChannelClosed,
    /// The server took none of the nicknames.
    NoUsableNick,
    /// The stream of incoming messages was taken before.
    StreamAlreadyConfigured,
    /// The configuration names no nickname.
    NicknameNotSpecified,
    /// A message that cannot be read.
    InvalidMessage { string: String, cause: MessageParseError },
}

/// What an [`Error`] holds.
pub enum ErrorView {
    AsyncChannelClosed,
    NoUsableNick,
    StreamAlreadyConfigured,
    NicknameNotSpecified,
    InvalidMessage { string: Seq<char>, cause: MessageParseErrorView },
}

impl View for Error {
    type V = ErrorView;

    open spec fn view(&self) -> ErrorView {
        match self {
            Error::AsyncChannelClosed => ErrorView::AsyncChannelClosed,
            Error::NoUsableNick => ErrorView::NoUsableNick,
            Error::StreamAlreadyConfigured => ErrorView::StreamAlreadyConfigured,
            Error::NicknameNotSpecified => ErrorView::NicknameNotSpecified,
            Error::InvalidMessage { string, cause } => ErrorView::InvalidMessage {
                string: string@,
                cause: cause@,
            },
        }
    }
}

/// What a result without a value holds.
pub open spec fn outcome(r: Result<(), Error>) -> Result<(), ErrorView> {
    match r {
        Ok(()) => Ok(()),
        Err(e) => Err(e@),
    }
}

} // verus!
