//! The commands of the protocol and how they are written.

use crate::proto::caps::CapSubCommand;
use crate::proto::mode::{write_modes, ChannelMode, Mode, ModeView, UserMode};
use crate::proto::response::Response;
use crate::text;
use vstd::prelude::*;

verus! {

/// A command of the protocol.
#[allow(non_camel_case_types)]
#[derive(Debug, PartialEq, Eq, Clone)]
pub enum Command {
    /// Gives the connection password.
    PASS(String),
    /// Asks for a nickname.
    NICK(String),
    /// Names the user: user name, mode and real name.
    USER(String, String, String),
    /// Asks for operator privileges: name and password.
    OPER(String, String),
    /// Changes modes of a user.
    UserMODE(String, Vec<Mode<UserMode>>),
    /// Ends the session.
    QUIT(Option<String>),
    /// Joins channels: list of channels, list of keys, real name.
    JOIN(String, Option<String>, Option<String>),
    /// Leaves channels: list of channels, comment.
    PART(String, Option<String>),
    /// Changes modes of a channel.
    ChannelMODE(String, Vec<Mode<ChannelMode>>),
    /// Sets or asks for a topic.
    TOPIC(String, Option<String>),
    /// Asks for names: list of channels, target.
    NAMES(Option<String>, Option<String>),
    /// Asks for channels: list of channels, target.
    LIST(Option<String>, Option<String>),
    /// Invites a user: nickname and channel.
    INVITE(String, String),
    /// Removes users: list of channels, list of users, comment.
    KICK(String, String, Option<String>),
    /// Sends a message: target and text.
    PRIVMSG(String, String),
    /// Sends a notice: target and text.
    NOTICE(String, String),
    /// Asks for the message of the day.
    MOTD(Option<String>),
    /// Asks for the size of the network: mask, target.
    LUSERS(Option<String>, Option<String>),
    /// Asks for statistics: query, target.
    STATS(Option<String>, Option<String>),
    /// Asks for linked servers: remote server, mask.
    LINKS(Option<String>, Option<String>),
    /// Asks for the route to a target.
    TRACE(Option<String>),
    /// Asks about a server.
    INFO(Option<String>),
    /// Asks about users: mask, whether operators only.
    WHO(Option<String>, Option<bool>),
    /// Asks about users: target, list of masks.
    WHOIS(Option<String>, String),
    /// Asks about past users: list of nicknames, count, target.
    WHOWAS(String, Option<String>, Option<String>),
    /// Disconnects a user: nickname and comment.
    KILL(String, String),
    /// Tests the connection: server, other server.
    PING(String, Option<String>),
    /// Answers a test of the connection: server, other server.
    PONG(String, Option<String>),
    /// Asks who is logged in at a server.
    USERS(Option<String>),
    /// Forces a change of modes: target, modes, their parameters.
    SAMODE(String, String, Option<String>),
    /// Forces a change of nickname: old and new one.
    SANICK(String, String),
    /// A message to the nickname service.
    NICKSERV(Vec<String>),
    /// Negotiates capabilities: target, subcommand, code, parameter.
    CAP(Option<String>, CapSubCommand, Option<String>, Option<String>),
    /// Authenticates by SASL.
    AUTHENTICATE(String),
    /// A numeric reply with its arguments.
    Response(Response, Vec<String>),
    /// Another command, by its word and its arguments.
    Raw(String, Vec<String>),
}

/// What a [`Command`] holds.
#[allow(non_camel_case_types)]
pub enum CommandView {
    PASS(Seq<char>),
    NICK(Seq<char>),
    USER(Seq<char>, Seq<char>, Seq<char>),
    OPER(Seq<char>, Seq<char>),
    UserMODE(Seq<char>, Seq<ModeView<UserMode>>),
    QUIT(Option<Seq<char>>),
    JOIN(Seq<char>, Option<Seq<char>>, Option<Seq<char>>),
    PART(Seq<char>, Option<Seq<char>>),
    ChannelMODE(Seq<char>, Seq<ModeView<ChannelMode>>),
    TOPIC(Seq<char>, Option<Seq<char>>),
    NAMES(Option<Seq<char>>, Option<Seq<char>>),
    LIST(Option<Seq<char>>, Option<Seq<char>>),
    INVITE(Seq<char>, Seq<char>),
    KICK(Seq<char>, Seq<char>, Option<Seq<char>>),
    PRIVMSG(Seq<char>, Seq<char>),
    NOTICE(Seq<char>, Seq<char>),
    MOTD(Option<Seq<char>>),
    LUSERS(Option<Seq<char>>, Option<Seq<char>>),
    STATS(Option<Seq<char>>, Option<Seq<char>>),
    LINKS(Option<Seq<char>>, Option<Seq<char>>),
    TRACE(Option<Seq<char>>),
    INFO(Option<Seq<char>>),
    WHO(Option<Seq<char>>, Option<bool>),
    WHOIS(Option<Seq<char>>, Seq<char>),
    WHOWAS(Seq<char>, Option<Seq<char>>, Option<Seq<char>>),
    KILL(Seq<char>, Seq<char>),
    PING(Seq<char>, Option<Seq<char>>),
    PONG(Seq<char>, Option<Seq<char>>),
    USERS(Option<Seq<char>>),
    SAMODE(Seq<char>, Seq<char>, Option<Seq<char>>),
    SANICK(Seq<char>, Seq<char>),
    NICKSERV(Seq<Seq<char>>),
    CAP(Option<Seq<char>>, CapSubCommand, Option<Seq<char>>, Option<Seq<char>>),
    AUTHENTICATE(Seq<char>),
    Response(Response, Seq<Seq<char>>),
    Raw(Seq<char>, Seq<Seq<char>>),
}

impl View for Command {
    type V = CommandView;

    open spec fn view(&self) -> CommandView {
        match self {
            Command::PASS(a) => CommandView::PASS(a@),
            Command::NICK(a) => CommandView::NICK(a@),
            Command::USER(a, b, c) => CommandView::USER(a@, b@, c@),
            Command::OPER(a, b) => CommandView::OPER(a@, b@),
            Command::UserMODE(a, b) => CommandView::UserMODE(
                a@,
                crate::proto::mode::mode_views(b@),
            ),
            Command::QUIT(a) => CommandView::QUIT(text::opt_text(*a)),
            Command::JOIN(a, b, c) => CommandView::JOIN(a@, text::opt_text(*b), text::opt_text(*c)),
            Command::PART(a, b) => CommandView::PART(a@, text::opt_text(*b)),
            Command::ChannelMODE(a, b) => CommandView::ChannelMODE(
                a@,
                crate::proto::mode::mode_views(b@),
            ),
            Command::TOPIC(a, b) => CommandView::TOPIC(a@, text::opt_text(*b)),
            Command::NAMES(a, b) => CommandView::NAMES(text::opt_text(*a), text::opt_text(*b)),
            Command::LIST(a, b) => CommandView::LIST(text::opt_text(*a), text::opt_text(*b)),
            Command::INVITE(a, b) => CommandView::INVITE(a@, b@),
            Command::KICK(a, b, c) => CommandView::KICK(a@, b@, text::opt_text(*c)),
            Command::PRIVMSG(a, b) => CommandView::PRIVMSG(a@, b@),
            Command::NOTICE(a, b) => CommandView::NOTICE(a@, b@),
            Command::MOTD(a) => CommandView::MOTD(text::opt_text(*a)),
            Command::LUSERS(a, b) => CommandView::LUSERS(text::opt_text(*a), text::opt_text(*b)),
            Command::STATS(a, b) => CommandView::STATS(text::opt_text(*a), text::opt_text(*b)),
            Command::LINKS(a, b) => CommandView::LINKS(text::opt_text(*a), text::opt_text(*b)),
            Command::TRACE(a) => CommandView::TRACE(text::opt_text(*a)),
            Command::INFO(a) => CommandView::INFO(text::opt_text(*a)),
            Command::WHO(a, b) => CommandView::WHO(text::opt_text(*a), *b),
            Command::WHOIS(a, b) => CommandView::WHOIS(text::opt_text(*a), b@),
            Command::WHOWAS(a, b, c) => CommandView::WHOWAS(
                a@,
                text::opt_text(*b),
                text::opt_text(*c),
            ),
            Command::KILL(a, b) => CommandView::KILL(a@, b@),
            Command::PING(a, b) => CommandView::PING(a@, text::opt_text(*b)),
            Command::PONG(a, b) => CommandView::PONG(a@, text::opt_text(*b)),
            Command::USERS(a) => CommandView::USERS(text::opt_text(*a)),
            Command::SAMODE(a, b, c) => CommandView::SAMODE(a@, b@, text::opt_text(*c)),
            Command::SANICK(a, b) => CommandView::SANICK(a@, b@),
            Command::NICKSERV(a) => CommandView::NICKSERV(text::texts(a@)),
            Command::CAP(a, b, c, d) => CommandView::CAP(
                text::opt_text(*a),
                *b,
                text::opt_text(*c),
                text::opt_text(*d),
            ),
            Command::AUTHENTICATE(a) => CommandView::AUTHENTICATE(a@),
            Command::Response(a, b) => CommandView::Response(*a, text::texts(b@)),
            Command::Raw(a, b) => CommandView::Raw(a@, text::texts(b@)),
        }
    }
}

impl CommandView {
    /// The word that a command begins with.
    pub open spec fn word(self) -> Seq<char> {
        match self {
            CommandView::PASS(..) => "PASS"@,
            CommandView::NICK(..) => "NICK"@,
            CommandView::USER(..) => "USER"@,
            CommandView::OPER(..) => "OPER"@,
            CommandView::UserMODE(..) => "MODE"@,
            CommandView::QUIT(..) => "QUIT"@,
            CommandView::JOIN(..) => "JOIN"@,
            CommandView::PART(..) => "PART"@,
            CommandView::ChannelMODE(..) => "MODE"@,
            CommandView::TOPIC(..) => "TOPIC"@,
            CommandView::NAMES(..) => "NAMES"@,
            CommandView::LIST(..) => "LIST"@,
            CommandView::INVITE(..) => "INVITE"@,
            CommandView::KICK(..) => "KICK"@,
            CommandView::PRIVMSG(..) => "PRIVMSG"@,
            CommandView::NOTICE(..) => "NOTICE"@,
            CommandView::MOTD(..) => "MOTD"@,
            CommandView::LUSERS(..) => "LUSERS"@,
            CommandView::STATS(..) => "STATS"@,
            CommandView::LINKS(..) => "LINKS"@,
            CommandView::TRACE(..) => "TRACE"@,
            CommandView::INFO(..) => "INFO"@,
            CommandView::WHO(..) => "WHO"@,
            CommandView::WHOIS(..) => "WHOIS"@,
            CommandView::WHOWAS(..) => "WHOWAS"@,
            CommandView::KILL(..) => "KILL"@,
            CommandView::PING(..) => "PING"@,
            CommandView::PONG(..) => "PONG"@,
            CommandView::USERS(..) => "USERS"@,
            CommandView::SAMODE(..) => "SAMODE"@,
            CommandView::SANICK(..) => "SANICK"@,
            CommandView::NICKSERV(..) => "NICKSERV"@,
            CommandView::CAP(..) => "CAP"@,
            CommandView::AUTHENTICATE(..) => "AUTHENTICATE"@,
            CommandView::Response(a, _) => a.digits(),
            CommandView::Raw(a, _) => a,
        }
    }

    /// The parameters of a command.
    pub open spec fn params(self) -> Seq<Seq<char>> {
        match self {
            CommandView::PASS(a) => seq![a],
            CommandView::NICK(a) => seq![a],
            CommandView::AUTHENTICATE(a) => seq![a],
            CommandView::USER(a, b, c) => seq![a, b, "*"@, c],
            CommandView::OPER(a, b) => seq![a, b],
            CommandView::INVITE(a, b) => seq![a, b],
            CommandView::PRIVMSG(a, b) => seq![a, b],
            CommandView::NOTICE(a, b) => seq![a, b],
            CommandView::KILL(a, b) => seq![a, b],
            CommandView::SANICK(a, b) => seq![a, b],
            CommandView::UserMODE(a, b) => seq![a] + crate::proto::mode::mode_params(b),
            CommandView::ChannelMODE(a, b) => seq![a] + crate::proto::mode::mode_params(b),
            CommandView::QUIT(a) => present(a),
            CommandView::MOTD(a) => present(a),
            CommandView::TRACE(a) => present(a),
            CommandView::INFO(a) => present(a),
            CommandView::USERS(a) => present(a),
            CommandView::JOIN(a, b, c) => seq![a] + present(b) + present(c),
            CommandView::PART(a, b) => seq![a] + present(b),
            CommandView::TOPIC(a, b) => seq![a] + present(b),
            CommandView::PING(a, b) => seq![a] + present(b),
            CommandView::PONG(a, b) => seq![a] + present(b),
            CommandView::NAMES(a, b) => match a {
                Some(x) => seq![x] + present(b),
                None => seq![],
            },
            CommandView::LIST(a, b) => match a {
                Some(x) => seq![x] + present(b),
                None => seq![],
            },
            CommandView::LUSERS(a, b) => match a {
                Some(x) => seq![x] + present(b),
                None => seq![],
            },
            CommandView::STATS(a, b) => match a {
                Some(x) => seq![x] + present(b),
                None => seq![],
            },
            CommandView::LINKS(a, b) => match b {
                Some(y) => present(a) + seq![y],
                None => seq![],
            },
            CommandView::KICK(a, b, c) => seq![a, b] + present(c),
            CommandView::SAMODE(a, b, c) => seq![a, b] + present(c),
            CommandView::WHO(a, b) => match a {
                Some(x) => if b == Some(true) {
                    seq![x, "o"@]
                } else {
                    seq![x]
                },
                None => seq![],
            },
            CommandView::WHOIS(a, b) => present(a) + seq![b],
            CommandView::WHOWAS(a, b, c) => match b {
                Some(y) => seq![a, y] + present(c),
                None => seq![a],
            },
            CommandView::NICKSERV(a) => a,
            CommandView::CAP(a, b, c, d) => present(a) + seq![b.word()] + present(c) + present(d),
            CommandView::Response(_, a) => a,
            CommandView::Raw(_, a) => a,
        }
    }
}

/// The value of an optional parameter, if it is there.
pub open spec fn present(o: Option<Seq<char>>) -> Seq<Seq<char>> {
    match o {
        Some(s) => seq![s],
        None => seq![],
    }
}

/// Whether a last parameter is written behind a colon: where it is empty, holds a space or
/// begins with a colon.
pub open spec fn needs_colon(s: Seq<char>) -> bool {
    s.len() == 0 || s.contains(' ') || s[0] == ':'
}

/// The line for a command: its word and its parameters, with spaces between them.
pub open spec fn line(word: Seq<char>, params: Seq<Seq<char>>) -> Seq<char> {
    if params.len() == 0 {
        word
    } else {
        let head = text::joined(params.drop_last(), " "@);
        let last = params.last();
        word + (if head.len() == 0 {
            seq![]
        } else {
            seq![' '] + head
        }) + seq![' '] + (if needs_colon(last) {
            seq![':']
        } else {
            seq![]
        }) + last
    }
}

fn none() -> (r: Vec<String>)
    ensures
        text::texts(r@) == Seq::<Seq<char>>::empty(),
{
    let r: Vec<String> = Vec::new();
    assert(text::texts(r@) =~= seq![]);
    r
}

fn one(a: &String) -> (r: Vec<String>)
    ensures
        text::texts(r@) == seq![a@],
{
    let mut r: Vec<String> = Vec::new();
    r.push(a.clone());
    assert(text::texts(r@) =~= seq![a@]);
    r
}

fn two(a: &String, b: &String) -> (r: Vec<String>)
    ensures
        text::texts(r@) == seq![a@, b@],
{
    assert(seq![a@] + seq![b@] =~= seq![a@, b@]);
    and_one(one(a), b.as_str())
}

fn and_one(v: Vec<String>, a: &str) -> (r: Vec<String>)
    ensures
        text::texts(r@) == text::texts(v@) + seq![a@],
{
    let mut r = v;
    r.push(a.to_owned());
    assert(text::texts(r@) =~= text::texts(v@) + seq![a@]);
    r
}

fn and_present(v: Vec<String>, o: &Option<String>) -> (r: Vec<String>)
    ensures
        text::texts(r@) == text::texts(v@) + present(text::opt_text(*o)),
{
    match o {
        Some(s) => and_one(v, s.as_str()),
        None => {
            assert(text::texts(v@) + seq![] =~= text::texts(v@));
            v
        },
    }
}

/// Writes the line for a command.
pub fn write_line(word: &str, params: &Vec<String>) -> (r: String)
    ensures
        r@ == line(word@, text::texts(params@)),
{
    let mut r = word.to_owned();
    if params.len() > 0 {
        let ghost all = text::texts(params@);
        let n = params.len() - 1;
        let mut front: Vec<String> = Vec::new();
        let mut i: usize = 0;
        while i < n
            invariant
                i <= n < params.len(),
                all == text::texts(params@),
                text::texts(front@) == all.take(i as int),
            decreases n - i,
        {
            let ghost before = text::texts(front@);
            front.push(params[i].clone());
            assert(text::texts(front@) =~= before.push(all[i as int]));
            i = i + 1;
            assert(all.take(i as int) =~= before.push(all[i - 1]));
        }
        assert(all.take(n as int) =~= all.drop_last());
        let head = text::join(&front, " ");
        let last = params[n].as_str();
        if !head.as_str().is_empty() {
            r.push(' ');
            r.append(head.as_str());
        }
        r.push(' ');
        if last.is_empty() || text::has_char(last, ' ') || text::begins_with(last, ':') {
            r.push(':');
        }
        r.append(last);
        assert(r@ =~= line(word@, all));
    }
    r
}

impl Command {
    /// The word that this command begins with.
    pub fn to_word(&self) -> (r: String)
        ensures
            r@ == self@.word(),
    {
        match self {
            Command::PASS(..) => "PASS".to_owned(),
            Command::NICK(..) => "NICK".to_owned(),
            Command::USER(..) => "USER".to_owned(),
            Command::OPER(..) => "OPER".to_owned(),
            Command::UserMODE(..) => "MODE".to_owned(),
            Command::QUIT(..) => "QUIT".to_owned(),
            Command::JOIN(..) => "JOIN".to_owned(),
            Command::PART(..) => "PART".to_owned(),
            Command::ChannelMODE(..) => "MODE".to_owned(),
            Command::TOPIC(..) => "TOPIC".to_owned(),
            Command::NAMES(..) => "NAMES".to_owned(),
            Command::LIST(..) => "LIST".to_owned(),
            Command::INVITE(..) => "INVITE".to_owned(),
            Command::KICK(..) => "KICK".to_owned(),
            Command::PRIVMSG(..) => "PRIVMSG".to_owned(),
            Command::NOTICE(..) => "NOTICE".to_owned(),
            Command::MOTD(..) => "MOTD".to_owned(),
            Command::LUSERS(..) => "LUSERS".to_owned(),
            Command::STATS(..) => "STATS".to_owned(),
            Command::LINKS(..) => "LINKS".to_owned(),
            Command::TRACE(..) => "TRACE".to_owned(),
            Command::INFO(..) => "INFO".to_owned(),
            Command::WHO(..) => "WHO".to_owned(),
            Command::WHOIS(..) => "WHOIS".to_owned(),
            Command::WHOWAS(..) => "WHOWAS".to_owned(),
            Command::KILL(..) => "KILL".to_owned(),
            Command::PING(..) => "PING".to_owned(),
            Command::PONG(..) => "PONG".to_owned(),
            Command::USERS(..) => "USERS".to_owned(),
            Command::SAMODE(..) => "SAMODE".to_owned(),
            Command::SANICK(..) => "SANICK".to_owned(),
            Command::NICKSERV(..) => "NICKSERV".to_owned(),
            Command::CAP(..) => "CAP".to_owned(),
            Command::AUTHENTICATE(..) => "AUTHENTICATE".to_owned(),
            Command::Response(a, _) => a.to_digits(),
            Command::Raw(a, _) => a.clone(),
        }
    }

    /// The parameters of this command.
    pub fn to_params(&self) -> (r: Vec<String>)
        ensures
            text::texts(r@) == self@.params(),
    {
        match self {
            Command::PASS(a) => one(a),
            Command::NICK(a) => one(a),
            Command::AUTHENTICATE(a) => one(a),
            Command::USER(a, b, c) => {
                assert(seq![a@, b@] + seq!["*"@] + seq![c@] =~= seq![a@, b@, "*"@, c@]);
                and_one(and_one(two(a, b), "*"), c.as_str())
            },
            Command::OPER(a, b) => two(a, b),
            Command::INVITE(a, b) => two(a, b),
            Command::PRIVMSG(a, b) => two(a, b),
            Command::NOTICE(a, b) => two(a, b),
            Command::KILL(a, b) => two(a, b),
            Command::SANICK(a, b) => two(a, b),
            Command::UserMODE(a, b) => {
                let mut r = one(a);
                let mut rest = write_modes(b);
                let ghost tail = text::texts(rest@);
                r.append(&mut rest);
                assert(text::texts(r@) =~= seq![a@] + tail);
                r
            },
            Command::ChannelMODE(a, b) => {
                let mut r = one(a);
                let mut rest = write_modes(b);
                let ghost tail = text::texts(rest@);
                r.append(&mut rest);
                assert(text::texts(r@) =~= seq![a@] + tail);
                r
            },
            Command::QUIT(a) => and_present(none(), a),
            Command::MOTD(a) => and_present(none(), a),
            Command::TRACE(a) => and_present(none(), a),
            Command::INFO(a) => and_present(none(), a),
            Command::USERS(a) => and_present(none(), a),
            Command::JOIN(a, b, c) => and_present(and_present(one(a), b), c),
            Command::PART(a, b) => and_present(one(a), b),
            Command::TOPIC(a, b) => and_present(one(a), b),
            Command::PING(a, b) => and_present(one(a), b),
            Command::PONG(a, b) => and_present(one(a), b),
            Command::NAMES(a, b) => match a {
                Some(x) => and_present(one(x), b),
                None => none(),
            },
            Command::LIST(a, b) => match a {
                Some(x) => and_present(one(x), b),
                None => none(),
            },
            Command::LUSERS(a, b) => match a {
                Some(x) => and_present(one(x), b),
                None => none(),
            },
            Command::STATS(a, b) => match a {
                Some(x) => and_present(one(x), b),
                None => none(),
            },
            Command::LINKS(a, b) => match b {
                Some(y) => and_one(and_present(none(), a), y.as_str()),
                None => none(),
            },
            Command::KICK(a, b, c) => and_present(two(a, b), c),
            Command::SAMODE(a, b, c) => and_present(two(a, b), c),
            Command::WHO(a, b) => match a {
                Some(x) => match b {
                    Some(true) => and_one(one(x), "o"),
                    _ => one(x),
                },
                None => none(),
            },
            Command::WHOIS(a, b) => and_one(and_present(none(), a), b.as_str()),
            Command::WHOWAS(a, b, c) => match b {
                Some(y) => and_present(two(a, y), c),
                None => one(a),
            },
            Command::NICKSERV(a) => text::copy_all(a.as_slice()),
            Command::CAP(a, b, c, d) => and_present(
                and_present(and_one(and_present(none(), a), b.to_word()), c),
                d,
            ),
            Command::Response(_, a) => text::copy_all(a.as_slice()),
            Command::Raw(_, a) => text::copy_all(a.as_slice()),
        }
    }

    /// The line for this command.
    pub fn to_line(&self) -> (r: String)
        ensures
            r@ == line(self@.word(), self@.params()),
    {
        write_line(self.to_word().as_str(), &self.to_params())
    }
}

} // verus!
