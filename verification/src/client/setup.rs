//! How a client sets itself up: what it sends to introduce itself, and when the message of the day
//! has ended.

use crate::client::channels;
use crate::client::data::config::ConfigView;
use crate::client::joins;
use crate::client::state::{self, StateView};
use crate::error::ErrorView;
use crate::proto::caps::CapSubCommand;
use crate::proto::command::CommandView;
use crate::proto::message::MessageView;
use crate::proto::mode::{MessageParseErrorView, ModeParseError};
use crate::proto::response::Response;
use crate::text;
use vstd::prelude::*;

verus! {

/// Whether `plan` holds the message that issues `command` at place `i`.
pub open spec fn issues(plan: Seq<MessageView>, i: int, command: CommandView) -> bool {
    &&& 0 <= i < plan.len()
    &&& plan[i].prefix is None
    &&& plan[i].command == command
}

/// To introduce itself a client ends the negotiation of capabilities, gives the password of the
/// server where there is one, asks for its nickname, and names the user: by the user name first
/// and the real name last, each of them the nickname where it is not configured.
pub proof fn introducing(
    config: ConfigView,
    nick: Seq<char>,
    user: Seq<char>,
    name: Seq<char>,
)
    requires
        config.nickname == Some(nick),
        config.username matches Some(u) ==> u == user,
        config.username is None ==> user == nick,
        config.realname matches Some(r) ==> r == name,
        config.realname is None ==> name == nick,
    ensures
        ({
            let script = state::identify_script(config);
            let guarded = config.password matches Some(p) && p.len() > 0;
            &&& script.end is Ok
            &&& script.turn is None
            &&& script.plan.len() == if guarded {
                4int
            } else {
                3int
            }
            &&& issues(script.plan, 0, CommandView::CAP(None, CapSubCommand::END, None, None))
            &&& guarded ==> issues(script.plan, 1, CommandView::PASS(config.password->0))
            &&& issues(script.plan, script.plan.len() - 2, CommandView::NICK(nick))
            &&& issues(
                script.plan,
                script.plan.len() - 1,
                CommandView::USER(user, seq!['0'], name),
            )
        }),
{
    reveal_strlit("0");
    assert("0"@ =~= seq!['0']);
}

/// Without a nickname the introduction ends in an error behind the password.
pub proof fn introducing_without_a_nickname(config: ConfigView)
    requires
        config.nickname is None,
    ensures
        ({
            let script = state::identify_script(config);
            let guarded = config.password matches Some(p) && p.len() > 0;
            &&& script.end == Err::<(), ErrorView>(ErrorView::NicknameNotSpecified)
            &&& script.turn is None
            &&& script.plan.len() == if guarded {
                2int
            } else {
                1int
            }
            &&& issues(script.plan, 0, CommandView::CAP(None, CapSubCommand::END, None, None))
            &&& guarded ==> issues(script.plan, 1, CommandView::PASS(config.password->0))
        }),
{
}

/// Without a password for the nickname nothing is sent to the nickname service.
pub proof fn nothing_to_identify_with(config: ConfigView, index: nat)
    requires
        config.nick_password matches Some(p) ==> p.len() == 0,
    ensures
        ({
            let script = state::nick_password_script(config, index);
            script.plan.len() == 0 && script.end is Ok && script.turn is None
        }),
{
}

/// A client that has the nickname it wants, or does not reclaim it, identifies by the password
/// alone.
pub proof fn identifying(config: ConfigView, index: nat, password: Seq<char>)
    requires
        config.nick_password == Some(password),
        password.len() > 0,
        !config.should_ghost || index == 0,
    ensures
        ({
            let script = state::nick_password_script(config, index);
            &&& script.plan.len() == 1
            &&& issues(script.plan, 0, CommandView::NICKSERV(seq!["IDENTIFY"@, password]))
            &&& script.end is Ok
            &&& script.turn is None
        }),
{
}

/// A client that reclaims its nickname sends each of the commands for that, in their order, with
/// the nickname and the password; it takes the nickname to be in use once these are out; then it
/// asks for it, and identifies. The one command is `GHOST` where none are configured.
pub proof fn reclaiming(
    config: ConfigView,
    index: nat,
    password: Seq<char>,
    nick: Seq<char>,
    words: Seq<Seq<char>>,
)
    requires
        config.nick_password == Some(password),
        password.len() > 0,
        config.should_ghost,
        index != 0,
        config.nickname == Some(nick),
        config.ghost_sequence matches Some(w) ==> w == words,
        config.ghost_sequence is None ==> words == seq!["GHOST"@],
    ensures
        ({
            let script = state::nick_password_script(config, index);
            &&& script.plan.len() == words.len() + 2
            &&& forall|i: int|
                0 <= i < words.len() ==> issues(
                    script.plan,
                    i,
                    CommandView::NICKSERV(seq![#[trigger] words[i], nick, password]),
                )
            &&& issues(script.plan, words.len() as int, CommandView::NICK(nick))
            &&& issues(
                script.plan,
                (words.len() + 1) as int,
                CommandView::NICKSERV(seq!["IDENTIFY"@, password]),
            )
            &&& script.end is Ok
            &&& script.turn == Some((words.len(), 0nat))
        }),
{
}

/// A client that is to reclaim a nickname and has none configured fails, and sends nothing.
pub proof fn reclaiming_without_a_nickname(config: ConfigView, index: nat, password: Seq<char>)
    requires
        config.nick_password == Some(password),
        password.len() > 0,
        config.should_ghost,
        index != 0,
        config.nickname is None,
    ensures
        ({
            let script = state::nick_password_script(config, index);
            &&& script.plan.len() == 0
            &&& script.end == Err::<(), ErrorView>(ErrorView::NicknameNotSpecified)
            &&& (config.ghost_sequence matches Some(w) ==> w.len() > 0) ==> script.turn is None
            &&& (config.ghost_sequence matches Some(w) && w.len() == 0) ==> script.turn == Some(
                (0nat, 0nat),
            )
        }),
{
}

/// The nickname in use is the configured one, or the alternative before the index.
pub proof fn which_nickname(config: ConfigView, index: nat, nick: Seq<char>)
    ensures
        index == 0 && config.nickname == Some(nick) ==> state::nickname_in_use(config, index)
            == nick,
        0 < index <= config.alt_nicks.len() ==> state::nickname_in_use(config, index)
            == config.alt_nicks[index - 1],
{
}

/// User modes are set on the nickname in use, all of them in one message. They have to begin with
/// a sign: where they do not, that is an error and nothing is sent. Where none are configured
/// nothing is sent either.
pub proof fn setting_user_modes(config: ConfigView, index: nat, first: char, rest: Seq<char>)
    ensures
        (config.umodes matches Some(m) ==> m.len() == 0) ==> {
            let script = state::umodes_script(config, index);
            script.plan.len() == 0 && script.end is Ok && script.turn is None
        },
        config.umodes == Some(seq![first] + rest) ==> {
            let script = state::umodes_script(config, index);
            let nick = state::nickname_in_use(config, index);
            let umodes = seq![first] + rest;
            if first == '+' || first == '-' {
                &&& script.plan.len() == 1
                &&& script.plan[0].prefix is None
                &&& script.plan[0].command matches CommandView::UserMODE(target, _)
                &&& target == nick
                &&& script.end is Ok
                &&& script.turn is None
            } else {
                &&& script.plan.len() == 0
                &&& script.turn is None
                &&& script.end == Err::<(), ErrorView>(
                    ErrorView::InvalidMessage {
                        string: seq!['M', 'O', 'D', 'E', ' '] + nick + seq![' '] + umodes,
                        cause: MessageParseErrorView::InvalidModeString {
                            string: umodes,
                            cause: if first == ' ' {
                                ModeParseError::MissingModeModifier
                            } else {
                                ModeParseError::InvalidModeModifier { modifier: first }
                            },
                        },
                    },
                )
            }
        },
{
    if config.umodes == Some(seq![first] + rest) {
        let umodes = seq![first] + rest;
        let parts = text::pieces(umodes, " "@);
        reveal_strlit(" ");
        reveal_strlit("MODE ");
        assert(" "@ =~= seq![' ']);
        assert("MODE "@ =~= seq!['M', 'O', 'D', 'E', ' ']);
        text::splitting_loses_nothing(umodes, " "@);
        first_piece(umodes);
    }
}

/// The first piece of a text that is split at spaces begins as the text does.
proof fn first_piece(s: Seq<char>)
    requires
        s.len() > 0,
    ensures
        text::pieces(s, " "@).len() > 0,
        s[0] == ' ' ==> text::pieces(s, " "@)[0].len() == 0,
        s[0] != ' ' ==> text::pieces(s, " "@)[0].len() > 0 && text::pieces(s, " "@)[0][0] == s[0],
{
    reveal_strlit(" ");
    text::found_first(s, " "@, 0);
    text::occurring(s, " "@, 0);
    match text::find_from(s, " "@, 0) {
        Some(j) => {
            text::occurring(s, " "@, j);
            if s[0] == ' ' {
                assert(text::occurs_at(s, " "@, 0));
                assert(j == 0);
            } else {
                assert(s[j + 0] == " "@[0]);
                assert(j > 0);
            }
            assert(text::pieces(s, " "@)[0] == s.take(j));
        },
        None => {
            if s[0] == ' ' {
                assert(text::occurs_at(s, " "@, 0));
            }
            assert(text::pieces(s, " "@)[0] == s);
        },
    }
}

/// The modes that are set are those of the configured text up to its first space. What stands
/// behind that is for arguments, which user modes do not take.
pub proof fn modes_up_to_a_space(
    config: ConfigView,
    index: nat,
    head: Seq<char>,
    tail: Seq<char>,
)
    requires
        config.umodes == Some(head + tail),
        head.len() > 0,
        !head.contains(' '),
        head[0] == '+' || head[0] == '-',
        tail.len() > 0 ==> tail[0] == ' ',
    ensures
        state::umodes_script(config, index).plan.len() == 1,
        state::umodes_script(config, index).plan[0].command->UserMODE_1
            == crate::proto::mode::signed_modes(head),
{
    let umodes = head + tail;
    let space = " "@;
    reveal_strlit(" ");
    text::found_first(umodes, space, 0);
    if tail.len() > 0 {
        text::occurring(umodes, space, head.len() as int);
        assert(umodes[head.len() as int] == tail[0]);
        assert(text::occurs_at(umodes, space, head.len() as int));
    }
    match text::find_from(umodes, space, 0) {
        Some(j) => {
            text::occurring(umodes, space, j);
            assert(umodes[j + 0] == space[0]);
            if j < head.len() {
                assert(umodes[j] == head[j]);
                assert(head.contains(head[j]));
            }
            assert(j == head.len());
            assert(umodes.take(j) =~= head);
        },
        None => {
            assert(umodes =~= head);
        },
    }
    assert(text::pieces(umodes, space)[0] == head);
}

/// When the message of the day ends, the client first identifies itself, then sets its user modes
/// on the nickname that is in use by then, then joins channels; an error ends it there.
pub proof fn setting_up_in_turn(s: StateView)
    ensures
        ({
            let a = state::nick_password_script(s.config, s.index);
            let index = if a.turn is Some {
                0
            } else {
                s.index
            };
            let b = state::umodes_script(s.config, index);
            let c = state::autojoin_script(s);
            let all = state::motd_script(s);
            &&& all.turn == a.turn
            &&& a.end is Err ==> all.plan == a.plan && all.end == a.end
            &&& a.end is Ok && b.end is Err ==> all.plan == a.plan + b.plan && all.end == b.end
            &&& a.end is Ok && b.end is Ok ==> all.plan == a.plan + b.plan + c.plan && all.end is Ok
        }),
{
}

/// Whether a message asks for the channels `part` with the keys of those that have one: the i-th
/// key of the list is that of the i-th channel, and every channel that has a key has it there.
pub open spec fn joins_with_keys(
    m: MessageView,
    part: Seq<Seq<char>>,
    keys: Map<Seq<char>, Seq<char>>,
) -> bool {
    let listed = joins::keys_for(part, keys);
    &&& m.prefix is None
    &&& part.len() > 0
    &&& listed.len() == 0 ==> m.command == CommandView::JOIN(
        text::joined(part, seq![',']),
        None,
        None,
    )
    &&& listed.len() > 0 ==> m.command == CommandView::JOIN(
        text::joined(part, seq![',']),
        Some(text::joined(listed, seq![','])),
        None,
    )
    &&& listed.len() <= part.len()
    &&& forall|j: int|
        0 <= j < listed.len() ==> keys.contains_key(#[trigger] part[j]) && listed[j]
            == keys[part[j]]
    &&& forall|j: int| listed.len() <= j < part.len() ==> !keys.contains_key(#[trigger] part[j])
}

/// The configured channels are joined with their keys, and all of them: those with a key first,
/// then the others, in the order in which they are configured. In each message every channel that
/// has a key has it in the list of keys, at its own place.
pub proof fn configured_channels_are_joined(config: ConfigView) -> (parts: Seq<Seq<Seq<char>>>)
    ensures
        state::join_messages(config).len() == parts.len(),
        forall|i: int|
            0 <= i < parts.len() ==> joins_with_keys(
                state::join_messages(config)[i],
                #[trigger] parts[i],
                config.channel_keys,
            ),
        parts.flatten() == config.channels.filter(
            |c: Seq<char>| config.channel_keys.contains_key(c),
        ) + config.channels.filter(|c: Seq<char>| !config.channel_keys.contains_key(c)),
        forall|i: int|
            0 <= i < parts.len() && (#[trigger] parts[i]).len() > 1 ==> joins::asking_takes(
                parts[i],
                config.channel_keys,
            ) <= 505,
        forall|i: int|
            0 <= i < parts.len() - 1 ==> joins::asking_takes(
                (#[trigger] parts[i]).push(parts[i + 1][0]),
                config.channel_keys,
            ) > 505,
{
    let parts = joins::batches_in_full(config.channels, config.channel_keys);
    assert forall|i: int| 0 <= i < parts.len() implies joins_with_keys(
        state::join_messages(config)[i],
        #[trigger] parts[i],
        config.channel_keys,
    ) by {
        let batch = joins::batches(config.channels, config.channel_keys)[i];
        assert(joins::asks_with_keys(batch, parts[i], config.channel_keys));
        assert(state::join_messages(config)[i].command == CommandView::JOIN(
            batch.0,
            batch.1,
            None,
        ));
    }
    assert forall|i: int|
        0 <= i < parts.len() && (#[trigger] parts[i]).len() > 1 implies joins::asking_takes(
        parts[i],
        config.channel_keys,
    ) <= 505 by {
        assert(joins::asks_with_keys(
            joins::batches(config.channels, config.channel_keys)[i],
            parts[i],
            config.channel_keys,
        ));
    }
    parts
}

/// The channels that are tracked and not configured are joined again, all of them and no others,
/// in the order in which they came up, without keys, and as many to a line as fit.
pub proof fn remembered_channels_are_joined(s: StateView) -> (parts: Seq<Seq<Seq<char>>>)
    ensures
        state::rejoin_messages(s).len() == parts.len(),
        parts.flatten() == channels::names(s.lists).filter(
            |name: Seq<char>| !s.config.channels.contains(name),
        ),
        forall|i: int|
            0 <= i < parts.len() ==> (#[trigger] parts[i]).len() > 0 && issues(
                state::rejoin_messages(s),
                i,
                CommandView::JOIN(text::joined(parts[i], seq![',']), None, None),
            ),
        forall|i: int|
            0 <= i < parts.len() && (#[trigger] parts[i]).len() > 1 ==> text::byte_len(
                text::joined(parts[i], seq![',']),
            ) <= 505,
        forall|i: int|
            0 <= i < parts.len() - 1 ==> text::byte_len(
                text::joined((#[trigger] parts[i]).push(parts[i + 1][0]), seq![',']),
            ) > 505,
{
    let rest = state::remembered(s);
    let parts = joins::batches_without_keys(rest);
    assert forall|i: int| 0 <= i < parts.len() implies (#[trigger] parts[i]).len() > 0 && issues(
        state::rejoin_messages(s),
        i,
        CommandView::JOIN(text::joined(parts[i], seq![',']), None, None),
    ) by {
        let batch = joins::batches(rest, Map::empty())[i];
        assert(batch.0 == text::joined(parts[i], seq![',']));
        assert(state::rejoin_messages(s)[i].command == CommandView::JOIN(batch.0, None, None));
    }
    parts
}

/// Channels are joined where the switch is on: first the configured ones, then those remembered.
/// Where it is off, none are.
pub proof fn joining_by_the_switch(s: StateView)
    ensures
        ({
            let script = state::autojoin_script(s);
            &&& script.end is Ok
            &&& script.turn is None
            &&& script.plan == if s.sender.autojoin {
                state::join_messages(s.config) + state::rejoin_messages(s)
            } else {
                Seq::<MessageView>::empty()
            }
        }),
{
}

/// Which answer a message gets goes by what it is: a numeric reply by its number, a message of a
/// user as it is, and no other message gets any.
pub proof fn answers_by_message(s: StateView, msg: MessageView, time: Seq<char>)
    ensures
        ({
            let script = state::script(s, msg, time);
            match msg.command {
                CommandView::Response(code, _) => {
                    let number = code.number();
                    &&& code == Response::RPL_ENDOFMOTD || code == Response::ERR_NOMOTD ==> script
                        == state::motd_script(s) && (number == 376 || number == 422)
                    &&& code == Response::ERR_NICKNAMEINUSE || code
                        == Response::ERR_ERRONEOUSNICKNAME ==> script == state::nick_taken_script(
                        s.config,
                        s.index,
                    ) && (number == 433 || number == 432)
                    &&& code == Response::RPL_NAMREPLY || code is Other ==> script.plan.len() == 0
                        && script.end is Ok && script.turn is None
                },
                CommandView::PRIVMSG(target, body) => script == state::privmsg_script(
                    s,
                    msg.source_nickname(),
                    target,
                    body,
                    time,
                ),
                _ => script.plan.len() == 0 && script.end is Ok && script.turn is None,
            }
        }),
{
}

/// A refused nickname: the next alternative is asked for, and is in use once that is out and not
/// before. Where none is left that is an error, and nothing is sent.
pub proof fn asking_for_the_next_nickname(config: ConfigView, index: nat)
    ensures
        ({
            let script = state::nick_taken_script(config, index);
            if index < config.alt_nicks.len() {
                &&& script.plan.len() == 1
                &&& issues(script.plan, 0, CommandView::NICK(config.alt_nicks[index as int]))
                &&& script.end is Ok
                &&& script.turn == Some((1nat, (index + 1) as nat))
            } else {
                &&& script.plan.len() == 0
                &&& script.end == Err::<(), ErrorView>(ErrorView::NoUsableNick)
                &&& script.turn is None
            }
        }),
{
}

/// When a client can answer, and what holds of it always.
pub proof fn when_a_client_can_answer(s: StateView, msg: MessageView)
    ensures
        s.has_nickname() <==> s.index > 0 || s.config.nickname is Some,
        !s.can_answer(msg) <==> {
            &&& msg.command matches CommandView::Response(code, _)
            &&& code.number() == 376 && !(code is Other) || code.number() == 422 && !(code
                is Other)
            &&& s.config.umodes matches Some(m)
            &&& m.len() > 0
            &&& s.index == 0
            &&& s.config.nickname is None
        },
        s.valid() <==> {
            &&& forall|i: int, j: int|
                0 <= i < j < s.lists.len() ==> (#[trigger] s.lists[i]).name != (
                #[trigger] s.lists[j]).name
            &&& s.index <= s.config.alt_nicks.len()
            &&& !s.features.channel_lists ==> s.lists.len() == 0
        },
{
    let names = channels::names(s.lists);
    if channels::each_once(s.lists) {
        assert forall|i: int, j: int| 0 <= i < j < s.lists.len() implies (
        #[trigger] s.lists[i]).name != (#[trigger] s.lists[j]).name by {
            assert(names[i] != names[j]);
        }
    }
    if forall|i: int, j: int|
        0 <= i < j < s.lists.len() ==> (#[trigger] s.lists[i]).name != (
        #[trigger] s.lists[j]).name {
        assert forall|i: int, j: int| 0 <= i < names.len() && 0 <= j < names.len() && i != j implies names[i]
            != names[j] by {
            if i < j {
                assert(s.lists[i].name != s.lists[j].name);
            } else {
                assert(s.lists[j].name != s.lists[i].name);
            }
        }
    }
}

} // verus!
