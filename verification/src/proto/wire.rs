//! What stands in a line of the protocol.

use crate::error::{Error, ErrorView};
use crate::proto::caps::{CapSubCommand, Capability};
use crate::proto::command::{self, Command, CommandView};
use crate::proto::message::{Message, MessageView, Prefix, PrefixView};
use crate::proto::mode::{self, ChannelMode, Mode, ModeType, ModeView, UserMode};
use crate::proto::response::Response;
use crate::text;
use vstd::prelude::*;

verus! {

/// Whether an optional text is shown as it is.
pub open spec fn shows_option(shown: Option<Seq<char>>, o: Option<String>) -> bool {
    match o {
        Some(s) => shown is Some && shown->0 == s@,
        None => shown is None,
    }
}

/// Whether a list of texts is shown as it is.
pub open spec fn shows_list(shown: Seq<Seq<char>>, v: Seq<String>) -> bool {
    &&& shown.len() == v.len()
    &&& forall|i: int| 0 <= i < v.len() ==> #[trigger] shown[i] == v[i]@
}

/// Whether changes of modes are shown as they are.
pub open spec fn shows_modes<T>(shown: Seq<ModeView<T>>, v: Seq<Mode<T>>) -> bool {
    &&& shown.len() == v.len()
    &&& forall|i: int|
        0 <= i < v.len() ==> match (#[trigger] shown[i], v[i]) {
            (ModeView::Plus(m, a), Mode::Plus(n, o)) => m == n && shows_option(a, o),
            (ModeView::Minus(m, a), Mode::Minus(n, o)) => m == n && shows_option(a, o),
            _ => false,
        }
}

/// What contracts say of a command they say of all that it holds: of each argument, in its place.
pub proof fn commands_are_shown_in_full(cmd: Command)
    ensures
        match cmd {
            Command::PASS(a) => {
                &&& cmd@ is PASS
                &&& cmd@->PASS_0 == a@
            },
            Command::NICK(a) => {
                &&& cmd@ is NICK
                &&& cmd@->NICK_0 == a@
            },
            Command::USER(a, b, c) => {
                &&& cmd@ is USER
                &&& cmd@->USER_0 == a@
                &&& cmd@->USER_1 == b@
                &&& cmd@->USER_2 == c@
            },
            Command::OPER(a, b) => {
                &&& cmd@ is OPER
                &&& cmd@->OPER_0 == a@
                &&& cmd@->OPER_1 == b@
            },
            Command::UserMODE(a, b) => {
                &&& cmd@ is UserMODE
                &&& cmd@->UserMODE_0 == a@
                &&& shows_modes(cmd@->UserMODE_1, b@)
            },
            Command::QUIT(a) => {
                &&& cmd@ is QUIT
                &&& shows_option(cmd@->QUIT_0, a)
            },
            Command::JOIN(a, b, c) => {
                &&& cmd@ is JOIN
                &&& cmd@->JOIN_0 == a@
                &&& shows_option(cmd@->JOIN_1, b)
                &&& shows_option(cmd@->JOIN_2, c)
            },
            Command::PART(a, b) => {
                &&& cmd@ is PART
                &&& cmd@->PART_0 == a@
                &&& shows_option(cmd@->PART_1, b)
            },
            Command::ChannelMODE(a, b) => {
                &&& cmd@ is ChannelMODE
                &&& cmd@->ChannelMODE_0 == a@
                &&& shows_modes(cmd@->ChannelMODE_1, b@)
            },
            Command::TOPIC(a, b) => {
                &&& cmd@ is TOPIC
                &&& cmd@->TOPIC_0 == a@
                &&& shows_option(cmd@->TOPIC_1, b)
            },
            Command::NAMES(a, b) => {
                &&& cmd@ is NAMES
                &&& shows_option(cmd@->NAMES_0, a)
                &&& shows_option(cmd@->NAMES_1, b)
            },
            Command::LIST(a, b) => {
                &&& cmd@ is LIST
                &&& shows_option(cmd@->LIST_0, a)
                &&& shows_option(cmd@->LIST_1, b)
            },
            Command::INVITE(a, b) => {
                &&& cmd@ is INVITE
                &&& cmd@->INVITE_0 == a@
                &&& cmd@->INVITE_1 == b@
            },
            Command::KICK(a, b, c) => {
                &&& cmd@ is KICK
                &&& cmd@->KICK_0 == a@
                &&& cmd@->KICK_1 == b@
                &&& shows_option(cmd@->KICK_2, c)
            },
            Command::PRIVMSG(a, b) => {
                &&& cmd@ is PRIVMSG
                &&& cmd@->PRIVMSG_0 == a@
                &&& cmd@->PRIVMSG_1 == b@
            },
            Command::NOTICE(a, b) => {
                &&& cmd@ is NOTICE
                &&& cmd@->NOTICE_0 == a@
                &&& cmd@->NOTICE_1 == b@
            },
            Command::MOTD(a) => {
                &&& cmd@ is MOTD
                &&& shows_option(cmd@->MOTD_0, a)
            },
            Command::LUSERS(a, b) => {
                &&& cmd@ is LUSERS
                &&& shows_option(cmd@->LUSERS_0, a)
                &&& shows_option(cmd@->LUSERS_1, b)
            },
            Command::STATS(a, b) => {
                &&& cmd@ is STATS
                &&& shows_option(cmd@->STATS_0, a)
                &&& shows_option(cmd@->STATS_1, b)
            },
            Command::LINKS(a, b) => {
                &&& cmd@ is LINKS
                &&& shows_option(cmd@->LINKS_0, a)
                &&& shows_option(cmd@->LINKS_1, b)
            },
            Command::TRACE(a) => {
                &&& cmd@ is TRACE
                &&& shows_option(cmd@->TRACE_0, a)
            },
            Command::INFO(a) => {
                &&& cmd@ is INFO
                &&& shows_option(cmd@->INFO_0, a)
            },
            Command::WHO(a, b) => {
                &&& cmd@ is WHO
                &&& shows_option(cmd@->WHO_0, a)
                &&& cmd@->WHO_1 == b
            },
            Command::WHOIS(a, b) => {
                &&& cmd@ is WHOIS
                &&& shows_option(cmd@->WHOIS_0, a)
                &&& cmd@->WHOIS_1 == b@
            },
            Command::WHOWAS(a, b, c) => {
                &&& cmd@ is WHOWAS
                &&& cmd@->WHOWAS_0 == a@
                &&& shows_option(cmd@->WHOWAS_1, b)
                &&& shows_option(cmd@->WHOWAS_2, c)
            },
            Command::KILL(a, b) => {
                &&& cmd@ is KILL
                &&& cmd@->KILL_0 == a@
                &&& cmd@->KILL_1 == b@
            },
            Command::PING(a, b) => {
                &&& cmd@ is PING
                &&& cmd@->PING_0 == a@
                &&& shows_option(cmd@->PING_1, b)
            },
            Command::PONG(a, b) => {
                &&& cmd@ is PONG
                &&& cmd@->PONG_0 == a@
                &&& shows_option(cmd@->PONG_1, b)
            },
            Command::USERS(a) => {
                &&& cmd@ is USERS
                &&& shows_option(cmd@->USERS_0, a)
            },
            Command::SAMODE(a, b, c) => {
                &&& cmd@ is SAMODE
                &&& cmd@->SAMODE_0 == a@
                &&& cmd@->SAMODE_1 == b@
                &&& shows_option(cmd@->SAMODE_2, c)
            },
            Command::SANICK(a, b) => {
                &&& cmd@ is SANICK
                &&& cmd@->SANICK_0 == a@
                &&& cmd@->SANICK_1 == b@
            },
            Command::NICKSERV(a) => {
                &&& cmd@ is NICKSERV
                &&& shows_list(cmd@->NICKSERV_0, a@)
            },
            Command::CAP(a, b, c, d) => {
                &&& cmd@ is CAP
                &&& shows_option(cmd@->CAP_0, a)
                &&& cmd@->CAP_1 == b
                &&& shows_option(cmd@->CAP_2, c)
                &&& shows_option(cmd@->CAP_3, d)
            },
            Command::AUTHENTICATE(a) => {
                &&& cmd@ is AUTHENTICATE
                &&& cmd@->AUTHENTICATE_0 == a@
            },
            Command::Response(a, b) => {
                &&& cmd@ is Response
                &&& cmd@->Response_0 == a
                &&& shows_list(cmd@->Response_1, b@)
            },
            Command::Raw(a, b) => {
                &&& cmd@ is Raw
                &&& cmd@->Raw_0 == a@
                &&& shows_list(cmd@->Raw_1, b@)
            },
        },
{
}

/// What contracts say of a message they say of its command and of its source.
pub proof fn messages_are_shown_in_full(m: Message)
    ensures
        m@.command == m.command@,
        m.prefix is None ==> m@.prefix is None,
        m.prefix matches Some(Prefix::ServerName(s)) ==> m@.prefix == Some(
            PrefixView::ServerName(s@),
        ),
        m.prefix matches Some(Prefix::Nickname(n, u, h)) ==> m@.prefix == Some(
            PrefixView::Nickname(n@, u@, h@),
        ),
{
}

/// What contracts say of messages they say of each, in its place.
pub proof fn rows_of_messages(v: Seq<Message>, i: int)
    requires
        0 <= i < v.len(),
    ensures
        crate::proto::message::message_views(v).len() == v.len(),
        crate::proto::message::message_views(v)[i] == v[i]@,
{
}

/// What contracts say of changes of modes they say of each, in its place.
pub proof fn rows_of_modes<T>(v: Seq<Mode<T>>)
    ensures
        shows_modes(mode::mode_views(v), v),
{
}

/// What contracts say of an error they say of its kind and of all that it holds.
pub proof fn errors_are_shown_in_full(e: Error, r: Result<(), Error>)
    ensures
        e is AsyncChannelClosed <==> e@ is AsyncChannelClosed,
        e is NoUsableNick <==> e@ is NoUsableNick,
        e is StreamAlreadyConfigured <==> e@ is StreamAlreadyConfigured,
        e is NicknameNotSpecified <==> e@ is NicknameNotSpecified,
        e is InvalidMessage <==> e@ is InvalidMessage,
        e is InvalidMessage ==> e@->string == e->string@ && e@->cause == e->cause@,
        r is Ok <==> crate::error::outcome(r) is Ok,
        r is Err ==> crate::error::outcome(r) == Err::<(), ErrorView>(r->Err_0@),
{
}

/// A line is its word and its parameters with spaces between them. A last parameter that is empty,
/// holds a space or begins with a colon has a colon in front, and no other has.
pub proof fn lines_in_full(word: Seq<char>, middle: Seq<Seq<char>>, last: Seq<char>)
    requires
        forall|i: int| 0 <= i < middle.len() ==> (#[trigger] middle[i]).len() > 0,
    ensures
        command::line(word, seq![]) == word,
        command::line(word, middle.push(last)) == text::joined(seq![word] + middle, seq![' '])
            + if last.len() == 0 || last.contains(' ') || last[0] == ':' {
            seq![' ', ':']
        } else {
            seq![' ']
        } + last,
{
    let params = middle.push(last);
    reveal_strlit(" ");
    assert(" "@ =~= seq![' ']);
    assert(params.drop_last() =~= middle);
    let head = text::joined(middle, " "@);
    if middle.len() == 0 {
        assert(seq![word] + middle =~= seq![word]);
        text::joining(middle, word, seq![' ']);
    } else {
        assert(head.len() > 0) by {
            text::joining(middle.drop_last(), middle.last(), " "@);
            assert(middle.drop_last().push(middle.last()) =~= middle);
            if middle.len() == 1 {
                assert(middle =~= seq![middle[0]]);
            }
        }
        text::joined_from_the_front(word, middle, seq![' ']);
    }
    assert(command::line(word, params) =~= text::joined(seq![word] + middle, seq![' ']) + if
    last.len() == 0 || last.contains(' ') || last[0] == ':' {
        seq![' ', ':']
    } else {
        seq![' ']
    } + last);
}

/// A message is a line and its end. One that a client sends has no source in front.
pub proof fn messages_in_full(m: MessageView)
    ensures
        m.prefix is None ==> m.written() == command::line(m.command.word(), m.command.params())
            + seq!['\r', '\n'],
        m.prefix matches Some(p) ==> m.written() == seq![':'] + p.written() + seq![' ']
            + command::line(m.command.word(), m.command.params()) + seq!['\r', '\n'],
        forall|c: CommandView| #[trigger] MessageView::of(c) == (MessageView {
            prefix: None,
            command: c,
        }),
        forall|n: Seq<char>, u: Seq<char>, h: Seq<char>|
            u.len() > 0 && h.len() > 0 ==> #[trigger] PrefixView::Nickname(n, u, h).written() == n
                + seq!['!'] + u + seq!['@'] + h,
        forall|n: Seq<char>| #[trigger] PrefixView::ServerName(n).written() == n,
        m.source_nickname() == match m.prefix {
            Some(PrefixView::Nickname(n, _, _)) => Some(n),
            _ => None,
        },
{
    assert forall|n: Seq<char>, u: Seq<char>, h: Seq<char>|
        u.len() > 0 && h.len() > 0 implies #[trigger] PrefixView::Nickname(n, u, h).written() == n
        + seq!['!'] + u + seq!['@'] + h by {
        assert(PrefixView::Nickname(n, u, h).written() =~= n + seq!['!'] + u + seq!['@'] + h);
    }
    if m.prefix is None {
        assert(m.written() =~= command::line(m.command.word(), m.command.params()) + seq![
            '\r',
            '\n',
        ]);
    }
}

/// The words and parameters of the commands that a client issues, in the order in which they are
/// given. What is left out leaves no gap.
pub proof fn issued_commands(
    a: Seq<char>,
    b: Seq<char>,
    c: Seq<char>,
    o: Option<Seq<char>>,
    words: Seq<Seq<char>>,
)
    ensures
        CommandView::PASS(a).params() == seq![a],
        CommandView::NICK(a).params() == seq![a],
        CommandView::AUTHENTICATE(a).params() == seq![a],
        CommandView::USER(a, b, c).params() == seq![a, b, "*"@, c],
        CommandView::OPER(a, b).params() == seq![a, b],
        CommandView::INVITE(a, b).params() == seq![a, b],
        CommandView::PRIVMSG(a, b).params() == seq![a, b],
        CommandView::NOTICE(a, b).params() == seq![a, b],
        CommandView::KILL(a, b).params() == seq![a, b],
        CommandView::SANICK(a, b).params() == seq![a, b],
        CommandView::QUIT(Some(a)).params() == seq![a],
        CommandView::PONG(a, None).params() == seq![a],
        CommandView::PING(a, None).params() == seq![a],
        CommandView::PART(a, None).params() == seq![a],
        CommandView::JOIN(a, None, None).params() == seq![a],
        CommandView::JOIN(a, Some(b), None).params() == seq![a, b],
        CommandView::TOPIC(a, None).params() == seq![a],
        CommandView::TOPIC(a, Some(b)).params() == seq![a, b],
        CommandView::KICK(a, b, None).params() == seq![a, b],
        CommandView::KICK(a, b, Some(c)).params() == seq![a, b, c],
        CommandView::SAMODE(a, b, None).params() == seq![a, b],
        CommandView::SAMODE(a, b, Some(c)).params() == seq![a, b, c],
        CommandView::NICKSERV(words).params() == words,
        CommandView::Raw(a, words).params() == words,
        CommandView::Raw(a, words).word() == a,
        CommandView::CAP(None, CapSubCommand::END, None, None).params() == seq!["END"@],
        CommandView::CAP(None, CapSubCommand::LS, None, None).params() == seq!["LS"@],
        CommandView::CAP(None, CapSubCommand::LS, Some(a), None).params() == seq!["LS"@, a],
        CommandView::CAP(None, CapSubCommand::REQ, None, Some(a)).params() == seq!["REQ"@, a],
        CommandView::PASS(a).word() == "PASS"@,
        CommandView::NICK(a).word() == "NICK"@,
        CommandView::AUTHENTICATE(a).word() == "AUTHENTICATE"@,
        CommandView::USER(a, b, c).word() == "USER"@,
        CommandView::OPER(a, b).word() == "OPER"@,
        CommandView::INVITE(a, b).word() == "INVITE"@,
        CommandView::PRIVMSG(a, b).word() == "PRIVMSG"@,
        CommandView::NOTICE(a, b).word() == "NOTICE"@,
        CommandView::KILL(a, b).word() == "KILL"@,
        CommandView::SANICK(a, b).word() == "SANICK"@,
        CommandView::QUIT(o).word() == "QUIT"@,
        CommandView::PONG(a, o).word() == "PONG"@,
        CommandView::PING(a, o).word() == "PING"@,
        CommandView::PART(a, o).word() == "PART"@,
        CommandView::JOIN(a, o, None).word() == "JOIN"@,
        CommandView::TOPIC(a, o).word() == "TOPIC"@,
        CommandView::KICK(a, b, o).word() == "KICK"@,
        CommandView::SAMODE(a, b, o).word() == "SAMODE"@,
        CommandView::NICKSERV(words).word() == "NICKSERV"@,
        CommandView::CAP(None, CapSubCommand::END, None, None).word() == "CAP"@,
{
    assert(seq![a] + seq![b] =~= seq![a, b]);
    assert(seq![a, b] + seq![c] =~= seq![a, b, c]);
    assert(CommandView::CAP(None, CapSubCommand::LS, Some(a), None).params() =~= seq!["LS"@, a]);
    assert(CommandView::CAP(None, CapSubCommand::REQ, None, Some(a)).params() =~= seq!["REQ"@, a]);
    assert(CommandView::CAP(None, CapSubCommand::END, None, None).params() =~= seq!["END"@]);
    assert(CommandView::CAP(None, CapSubCommand::LS, None, None).params() =~= seq!["LS"@]);
    assert(CommandView::JOIN(a, None, None).params() =~= seq![a]);
    assert(CommandView::JOIN(a, Some(b), None).params() =~= seq![a, b]);
    assert(CommandView::PONG(a, None).params() =~= seq![a]);
    assert(CommandView::PING(a, None).params() =~= seq![a]);
    assert(CommandView::PART(a, None).params() =~= seq![a]);
    assert(CommandView::TOPIC(a, None).params() =~= seq![a]);
    assert(CommandView::KICK(a, b, None).params() =~= seq![a, b]);
    assert(CommandView::SAMODE(a, b, None).params() =~= seq![a, b]);
}

/// A change of modes is written as signs and letters, one sign and one letter for each mode in
/// their order, and behind them the arguments of those modes that have one, in the same order.
pub proof fn modes_in_full<T: ModeType>(target: Seq<char>, modes: Seq<ModeView<T>>)
    requires
        modes.len() > 0,
    ensures
        ({
            let params = mode::mode_params(modes);
            let kept = modes.filter(|m: ModeView<T>| m.arg() is Some);
            &&& params.len() == 1 + kept.len()
            &&& params[0].len() == 2 * modes.len()
            &&& forall|i: int|
                0 <= i < modes.len() ==> {
                    let m = #[trigger] modes[i];
                    &&& params[0][2 * i] == if m is Plus {
                        '+'
                    } else {
                        '-'
                    }
                    &&& params[0][2 * i + 1] == match m {
                        ModeView::Plus(k, _) => k.letter(),
                        ModeView::Minus(k, _) => k.letter(),
                    }
                }
            &&& forall|i: int|
                0 <= i < kept.len() ==> params[1 + i] == match #[trigger] kept[i] {
                    ModeView::Plus(_, a) => a->0,
                    ModeView::Minus(_, a) => a->0,
                }
        }),
        mode::mode_params(Seq::<ModeView<T>>::empty()).len() == 0,
{
    flags_in_full(modes);
    args_in_full(modes);
    let params = mode::mode_params(modes);
    let kept = modes.filter(|m: ModeView<T>| m.arg() is Some);
    assert forall|i: int| 0 <= i < kept.len() implies params[1 + i] == match #[trigger] kept[i] {
        ModeView::Plus(_, a) => a->0,
        ModeView::Minus(_, a) => a->0,
    } by {
        assert(params[1 + i] == mode::args(modes)[i]);
    }
}

proof fn flags_in_full<T: ModeType>(modes: Seq<ModeView<T>>)
    ensures
        mode::flags(modes).len() == 2 * modes.len(),
        forall|i: int|
            0 <= i < modes.len() ==> {
                let m = #[trigger] modes[i];
                &&& mode::flags(modes)[2 * i] == m.sign()
                &&& mode::flags(modes)[2 * i + 1] == m.mode().letter()
            },
    decreases modes.len(),
{
    if modes.len() > 0 {
        let head = modes.drop_last();
        flags_in_full(head);
        assert forall|i: int| 0 <= i < modes.len() implies {
            let m = #[trigger] modes[i];
            &&& mode::flags(modes)[2 * i] == m.sign()
            &&& mode::flags(modes)[2 * i + 1] == m.mode().letter()
        } by {
            if i < head.len() {
                assert(head[i] == modes[i]);
            }
        }
    }
}

proof fn args_in_full<T>(modes: Seq<ModeView<T>>)
    ensures
        ({
            let kept = modes.filter(|m: ModeView<T>| m.arg() is Some);
            &&& mode::args(modes).len() == kept.len()
            &&& forall|i: int|
                0 <= i < kept.len() ==> mode::args(modes)[i] == (#[trigger] kept[i]).arg()->0
        }),
    decreases modes.len(),
{
    reveal(Seq::filter);
    let has = |m: ModeView<T>| m.arg() is Some;
    if modes.len() > 0 {
        args_in_full(modes.drop_last());
    }
}

/// The letters of the modes.
pub proof fn letters_of_modes(c: char)
    ensures
        ChannelMode::Ban.letter() == 'b',
        ChannelMode::Exception.letter() == 'e',
        ChannelMode::Limit.letter() == 'l',
        ChannelMode::InviteOnly.letter() == 'i',
        ChannelMode::InviteException.letter() == 'I',
        ChannelMode::Key.letter() == 'k',
        ChannelMode::Moderated.letter() == 'm',
        ChannelMode::RegisteredOnly.letter() == 'r',
        ChannelMode::Secret.letter() == 's',
        ChannelMode::ProtectedTopic.letter() == 't',
        ChannelMode::NoExternalMessages.letter() == 'n',
        ChannelMode::Founder.letter() == 'q',
        ChannelMode::Admin.letter() == 'a',
        ChannelMode::Oper.letter() == 'o',
        ChannelMode::Halfop.letter() == 'h',
        ChannelMode::Voice.letter() == 'v',
        ChannelMode::Unknown(c).letter() == c,
        UserMode::Away.letter() == 'a',
        UserMode::Invisible.letter() == 'i',
        UserMode::Wallops.letter() == 'w',
        UserMode::Restricted.letter() == 'r',
        UserMode::Oper.letter() == 'o',
        UserMode::LocalOper.letter() == 'O',
        UserMode::ServerNotices.letter() == 's',
        UserMode::MaskedHost.letter() == 'x',
        UserMode::Unknown(c).letter() == c,
{
}

/// To read a letter and to write the mode again gives the letter back, and a mode that has a name
/// is read as such.
pub proof fn letters_are_read_back(c: char, m: UserMode)
    ensures
        mode::user_mode(c).letter() == c,
        !(m is Unknown) ==> mode::user_mode(m.letter()) == m,
{
}

/// User modes are read sign by sign: behind what was read before, each letter up to the next sign
/// is a mode, under that sign, without an argument.
pub proof fn modes_are_read_by_sign(before: Seq<char>, sign: char, letters: Seq<char>)
    requires
        sign == '+' || sign == '-',
        forall|i: int| 0 <= i < letters.len() ==> #[trigger] letters[i] != '+' && letters[i] != '-',
    ensures
        mode::signed_modes(Seq::<char>::empty()).len() == 0,
        mode::signed_modes(before.push(sign) + letters) == mode::signed_modes(before)
            + letters.map_values(
            |c: char|
                if sign == '+' {
                    ModeView::Plus(mode::user_mode(c), None)
                } else {
                    ModeView::Minus(mode::user_mode(c), None)
                },
        ),
    decreases letters.len(),
{
    let f = |c: char|
        if sign == '+' {
            ModeView::Plus(mode::user_mode(c), None)
        } else {
            ModeView::Minus(mode::user_mode(c), None)
        };
    let all = before.push(sign) + letters;
    if letters.len() == 0 {
        assert(all =~= before.push(sign));
        assert(all.drop_last() =~= before);
        assert(mode::signed_modes(all) =~= mode::signed_modes(before) + letters.map_values(f));
    } else {
        let head = letters.drop_last();
        modes_are_read_by_sign(before, sign, head);
        assert(all.drop_last() =~= before.push(sign) + head);
        assert(all.last() == letters.last());
        assert(letters[letters.len() - 1] != '+');
        sign_before(before, sign, head);
        assert(letters.map_values(f) =~= head.map_values(f).push(f(letters.last())));
        assert(mode::signed_modes(all) =~= mode::signed_modes(before) + letters.map_values(f));
    }
}

/// The last sign before letters is the one in front of them.
proof fn sign_before(before: Seq<char>, sign: char, letters: Seq<char>)
    requires
        sign == '+' || sign == '-',
        forall|i: int| 0 <= i < letters.len() ==> #[trigger] letters[i] != '+' && letters[i] != '-',
    ensures
        mode::last_sign(before.push(sign) + letters) == sign,
    decreases letters.len(),
{
    let all = before.push(sign) + letters;
    if letters.len() == 0 {
        assert(all =~= before.push(sign));
    } else {
        let head = letters.drop_last();
        sign_before(before, sign, head);
        assert(all.drop_last() =~= before.push(sign) + head);
        assert(letters[letters.len() - 1] != '+');
    }
}

/// A command that changes modes is that of its kind, with the target and the modes as given.
pub proof fn mode_commands(
    target: Seq<char>,
    channel: Seq<ModeView<ChannelMode>>,
    user: Seq<ModeView<UserMode>>,
)
    ensures
        ChannelMode::change(target, channel) == CommandView::ChannelMODE(target, channel),
        UserMode::change(target, user) == CommandView::UserMODE(target, user),
        CommandView::ChannelMODE(target, channel).word() == "MODE"@,
        CommandView::UserMODE(target, user).word() == "MODE"@,
        CommandView::ChannelMODE(target, channel).params() == seq![target] + mode::mode_params(
            channel,
        ),
        CommandView::UserMODE(target, user).params() == seq![target] + mode::mode_params(user),
{
}

/// The numbers of the replies that a client acts on.
pub proof fn numbers_of_replies(n: u16)
    ensures
        Response::RPL_NAMREPLY.number() == 353,
        Response::RPL_ENDOFMOTD.number() == 376,
        Response::ERR_NOMOTD.number() == 422,
        Response::ERR_ERRONEOUSNICKNAME.number() == 432,
        Response::ERR_NICKNAMEINUSE.number() == 433,
        Response::Other(n).number() == n,
{
}

/// The names of capabilities are listed in the order in which they are given.
pub proof fn capabilities_in_turn(caps: Seq<Capability>, i: int)
    requires
        0 <= i < caps.len(),
    ensures
        crate::proto::caps::names(caps).len() == caps.len(),
        crate::proto::caps::names(caps)[i] == caps[i].name(),
        Capability::MultiPrefix.name() == "multi-prefix"@,
        Capability::Sasl.name() == "sasl"@,
        Capability::AccountNotify.name() == "account-notify"@,
        Capability::AwayNotify.name() == "away-notify"@,
        Capability::ExtendedJoin.name() == "extended-join"@,
        Capability::Metadata.name() == "metadata"@,
        Capability::MetadataNotify.name() == "metadata-notify"@,
        Capability::Monitor.name() == "monitor"@,
        Capability::AccountTag.name() == "account-tag"@,
        Capability::Batch.name() == "batch"@,
        Capability::CapNotify.name() == "cap-notify"@,
        Capability::ChgHost.name() == "chghost"@,
        Capability::EchoMessage.name() == "echo-message"@,
        Capability::InviteNotify.name() == "invite-notify"@,
        Capability::ServerTime.name() == "server-time"@,
        Capability::UserhostInNames.name() == "userhost-in-names"@,
        caps[i] matches Capability::Custom(name) ==> caps[i].name() == name@,
{
}

} // verus!
