//! Messages: a command and where it comes from.

use crate::proto::command::{Command, CommandView};
use crate::text;
use vstd::prelude::*;

verus! {

/// `From<T>` for `T` of the standard library: it returns its argument unchanged.
pub assume_specification<Any>[ <Any as core::convert::From<Any>>::from ](a: Any) -> (r: Any)
    ensures
        r == a,
;

/// Where a message comes from.
#[derive(Debug, PartialEq, Eq, Clone)]
pub enum Prefix {
    /// A server, by its name.
    ServerName(String),
    /// A user, by nickname, user name and host. An unknown user name or host is empty.
    Nickname(String, String, String),
}

/// What a [`Prefix`] holds.
pub enum PrefixView {
    ServerName(Seq<char>),
    Nickname(Seq<char>, Seq<char>, Seq<char>),
}

impl View for Prefix {
    type V = PrefixView;

    open spec fn view(&self) -> PrefixView {
        match self {
            Prefix::ServerName(s) => PrefixView::ServerName(s@),
            Prefix::Nickname(n, u, h) => PrefixView::Nickname(n@, u@, h@),
        }
    }
}

impl PrefixView {
    /// A prefix as it is written. What is unknown of a user is left out.
    pub open spec fn written(self) -> Seq<char> {
        match self {
            PrefixView::ServerName(s) => s,
            PrefixView::Nickname(n, u, h) => n + (if u.len() == 0 {
                seq![]
            } else {
                seq!['!'] + u
            }) + (if h.len() == 0 {
                seq![]
            } else {
                seq!['@'] + h
            }),
        }
    }
}

/// A message of the protocol.
#[derive(Debug, PartialEq, Eq, Clone)]
pub struct Message {
    pub prefix: Option<Prefix>,
    pub command: Command,
}

/// What a [`Message`] holds.
pub struct MessageView {
    pub prefix: Option<PrefixView>,
    pub command: CommandView,
}

impl View for Message {
    type V = MessageView;

    open spec fn view(&self) -> MessageView {
        MessageView {
            prefix: match self.prefix {
                Some(p) => Some(p@),
                None => None,
            },
            command: self.command@,
        }
    }
}

impl MessageView {
    /// The message that a client sends to issue a command.
    pub open spec fn of(command: CommandView) -> MessageView {
        MessageView { prefix: None, command }
    }

    /// The nickname of the user that the message comes from.
    pub open spec fn source_nickname(self) -> Option<Seq<char>> {
        match self.prefix {
            Some(PrefixView::Nickname(n, _, _)) => Some(n),
            _ => None,
        }
    }

    /// A message as it is sent, with the end of its line.
    pub open spec fn written(self) -> Seq<char> {
        (match self.prefix {
            Some(p) => seq![':'] + p.written() + seq![' '],
            None => seq![],
        }) + crate::proto::command::line(self.command.word(), self.command.params()) + seq![
            '\r',
            '\n',
        ]
    }
}

/// What each message holds.
pub open spec fn message_views(v: Seq<Message>) -> Seq<MessageView> {
    v.map_values(|m: Message| m@)
}

impl Prefix {
    /// This prefix as it is written.
    pub fn write(&self) -> (r: String)
        ensures
            r@ == self@.written(),
    {
        match self {
            Prefix::ServerName(s) => s.clone(),
            Prefix::Nickname(n, u, h) => {
                let mut r = n.clone();
                if !u.as_str().is_empty() {
                    r.push('!');
                    r.append(u.as_str());
                }
                if !h.as_str().is_empty() {
                    r.push('@');
                    r.append(h.as_str());
                }
                assert(r@ =~= self@.written());
                r
            },
        }
    }
}

impl From<Command> for Message {
    fn from(command: Command) -> (r: Message) {
        Message { prefix: None, command }
    }
}

impl vstd::std_specs::convert::FromSpecImpl<Command> for Message {
    open spec fn obeys_from_spec() -> bool {
        true
    }

    open spec fn from_spec(command: Command) -> Message {
        Message { prefix: None, command }
    }
}

impl Message {
    /// The nickname of the user that the message comes from.
    pub fn source_nickname(&self) -> (r: Option<&str>)
        ensures
            match r {
                Some(n) => self@.source_nickname() == Some(n@),
                None => self@.source_nickname() is None,
            },
    {
        match &self.prefix {
            Some(Prefix::Nickname(n, _, _)) => Some(n.as_str()),
            _ => None,
        }
    }

    /// This message as it is sent, with the end of its line.
    pub fn write(&self) -> (r: String)
        ensures
            r@ == self@.written(),
    {
        let mut r = String::new();
        match &self.prefix {
            Some(p) => {
                r.push(':');
                r.append(p.write().as_str());
                r.push(' ');
            },
            None => {},
        }
        r.append(self.command.to_line().as_str());
        r.push('\r');
        r.push('\n');
        assert(r@ =~= self@.written());
        r
    }
}

} // verus!
