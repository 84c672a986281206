//! Capability negotiation.

use crate::text;
use vstd::prelude::*;

verus! {

/// A protocol extension that client and server may agree on.
#[derive(Debug, PartialEq, Eq)]
pub enum Capability {
    MultiPrefix,
    Sasl,
    AccountNotify,
    AwayNotify,
    ExtendedJoin,
    Metadata,
    MetadataNotify,
    Monitor,
    AccountTag,
    Batch,
    CapNotify,
    ChgHost,
    EchoMessage,
    InviteNotify,
    ServerTime,
    UserhostInNames,
    /// A capability by its name.
    Custom(String),
}

impl Capability {
    /// The name by which a capability is negotiated.
    pub open spec fn name(self) -> Seq<char> {
        match self {
            Capability::MultiPrefix => "multi-prefix"@,
            Capability::Sasl => "sasl"@,
            Capability::AccountNotify => "account-notify"@,
            Capability::AwayNotify => "away-notify"@,
            Capability::ExtendedJoin => "extended-join"@,
            Capability::Metadata => "metadata"@,
            Capability::MetadataNotify => "metadata-notify"@,
            Capability::Monitor => "monitor"@,
            Capability::AccountTag => "account-tag"@,
            Capability::Batch => "batch"@,
            Capability::CapNotify => "cap-notify"@,
            Capability::ChgHost => "chghost"@,
            Capability::EchoMessage => "echo-message"@,
            Capability::InviteNotify => "invite-notify"@,
            Capability::ServerTime => "server-time"@,
            Capability::UserhostInNames => "userhost-in-names"@,
            Capability::Custom(name) => name@,
        }
    }

    /// The name by which this capability is negotiated.
    pub fn to_name(&self) -> (r: &str)
        ensures
            r@ == self.name(),
    {
        match self {
            Capability::MultiPrefix => "multi-prefix",
            Capability::Sasl => "sasl",
            Capability::AccountNotify => "account-notify",
            Capability::AwayNotify => "away-notify",
            Capability::ExtendedJoin => "extended-join",
            Capability::Metadata => "metadata",
            Capability::MetadataNotify => "metadata-notify",
            Capability::Monitor => "monitor",
            Capability::AccountTag => "account-tag",
            Capability::Batch => "batch",
            Capability::CapNotify => "cap-notify",
            Capability::ChgHost => "chghost",
            Capability::EchoMessage => "echo-message",
            Capability::InviteNotify => "invite-notify",
            Capability::ServerTime => "server-time",
            Capability::UserhostInNames => "userhost-in-names",
            Capability::Custom(name) => name.as_str(),
        }
    }
}

/// The names of the capabilities.
pub open spec fn names(caps: Seq<Capability>) -> Seq<Seq<char>> {
    caps.map_values(|c: Capability| c.name())
}

/// The names of the capabilities, with a space between each two of them.
pub fn name_list(caps: &[Capability]) -> (r: String)
    ensures
        r@ == text::joined(names(caps@), " "@),
{
    let mut all: Vec<String> = Vec::new();
    let mut i: usize = 0;
    while i < caps.len()
        invariant
            i <= caps.len(),
            text::texts(all@) == names(caps@).take(i as int),
        decreases caps.len() - i,
    {
        let ghost before = text::texts(all@);
        all.push(caps[i].to_name().to_owned());
        assert(text::texts(all@) =~= before.push(caps@[i as int].name()));
        i = i + 1;
        assert(names(caps@).take(i as int) =~= before.push(caps@[i - 1].name()));
    }
    assert(names(caps@).take(i as int) =~= names(caps@));
    text::join(&all, " ")
}

/// The version of capability negotiation that the client offers.
#[derive(Debug, PartialEq, Eq, Clone, Copy)]
pub enum NegotiationVersion {
    V301,
    V302,
}

/// What a `CAP` command is about.
#[derive(Debug, PartialEq, Eq, Clone, Copy, Structural)]
pub enum CapSubCommand {
    LS,
    LIST,
    REQ,
    ACK,
    NAK,
    END,
    NEW,
    DEL,
}

impl CapSubCommand {
    /// The word for a subcommand.
    pub open spec fn word(self) -> Seq<char> {
        match self {
            CapSubCommand::LS => "LS"@,
            CapSubCommand::LIST => "LIST"@,
            CapSubCommand::REQ => "REQ"@,
            CapSubCommand::ACK => "ACK"@,
            CapSubCommand::NAK => "NAK"@,
            CapSubCommand::END => "END"@,
            CapSubCommand::NEW => "NEW"@,
            CapSubCommand::DEL => "DEL"@,
        }
    }

    /// The word for this subcommand.
    pub fn to_word(&self) -> (r: &'static str)
        ensures
            r@ == self.word(),
    {
        match self {
            CapSubCommand::LS => "LS",
            CapSubCommand::LIST => "LIST",
            CapSubCommand::REQ => "REQ",
            CapSubCommand::ACK => "ACK",
            CapSubCommand::NAK => "NAK",
            CapSubCommand::END => "END",
            CapSubCommand::NEW => "NEW",
            CapSubCommand::DEL => "DEL",
        }
    }
}

} // verus!
