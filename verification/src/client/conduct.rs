//! What a client can be relied on to do with what it receives.

use crate::client::channels;
use crate::client::joins;
use crate::client::sender::{self, SenderView};
use crate::client::state::{self, Script, StateView};
use crate::error::{Error, ErrorView};
use crate::proto::command::CommandView;
use crate::proto::message::MessageView;
use crate::proto::response::Response;
use crate::text;
use vstd::prelude::*;

verus! {

/// Whether no message joins a channel.
pub open spec fn joins_nothing(plan: Seq<MessageView>) -> bool {
    forall|i: int| 0 <= i < plan.len() ==> !((#[trigger] plan[i]).command is JOIN)
}

/// A state with the switch for joining channels set.
pub open spec fn with_autojoin(s: StateView, enabled: bool) -> StateView {
    StateView { sender: SenderView { autojoin: enabled, ..s.sender }, ..s }
}

/// Whether a message asks to join `channel`, with others or alone.
pub open spec fn asks_for(m: MessageView, channel: Seq<char>) -> bool {
    exists|list: Seq<Seq<char>>|
        {
            &&& #[trigger] list.contains(channel)
            &&& m.command matches CommandView::JOIN(chanlist, _, _)
            &&& chanlist == text::joined(list, seq![','])
        }
}

/// While the switch is off, no message that is received makes the client join a channel.
pub proof fn autojoin_off_joins_nothing(s: StateView, msg: MessageView, time: Seq<char>)
    requires
        !s.sender.autojoin,
    ensures
        joins_nothing(state::script(s, msg, time).plan),
{
}

/// Only the end of the message of the day makes the client join channels.
pub proof fn only_the_end_of_the_motd_joins(s: StateView, msg: MessageView, time: Seq<char>)
    requires
        !state::ends_motd(msg.command),
    ensures
        joins_nothing(state::script(s, msg, time).plan),
{
}

/// The switch for joining channels has no part in anything else: whatever is received, the client
/// identifies itself, sets its user modes and answers as if it were on, and then joins channels or
/// does not.
pub proof fn autojoin_switches_joins_only(s: StateView, msg: MessageView, time: Seq<char>)
    ensures
        ({
            let on = state::script(with_autojoin(s, true), msg, time);
            let off = state::script(with_autojoin(s, false), msg, time);
            &&& on.end == off.end
            &&& on.turn == off.turn
            &&& on.plan == off.plan + if state::ends_motd(msg.command) && off.end is Ok {
                state::join_messages(s.config) + state::rejoin_messages(s)
            } else {
                seq![]
            }
        }),
{
    let on = with_autojoin(s, true);
    let off = with_autojoin(s, false);
    let a = state::script(on, msg, time);
    let b = state::script(off, msg, time);
    if state::ends_motd(msg.command) {
        assert(state::rejoin_messages(on) == state::rejoin_messages(s)) by {
            assert(state::remembered(on) =~= state::remembered(s));
        }
        assert(a.plan =~= b.plan + if b.end is Ok {
            state::join_messages(s.config) + state::rejoin_messages(s)
        } else {
            seq![]
        });
    } else {
        assert(a.plan =~= b.plan);
    }
}

/// Both ends of the message of the day are the same to the client.
pub proof fn both_ends_of_the_motd(
    s: StateView,
    first: Seq<Seq<char>>,
    second: Seq<Seq<char>>,
    a: MessageView,
    b: MessageView,
    time: Seq<char>,
    other: Seq<char>,
)
    requires
        a.command == CommandView::Response(Response::RPL_ENDOFMOTD, first),
        b.command == CommandView::Response(Response::ERR_NOMOTD, second),
    ensures
        state::script(s, a, time) == state::script(s, b, other),
        state::received(s, a) == state::received(s, b),
{
}

/// When the message of the day ends and the switch is on, the client asks for every configured
/// channel and for every one it keeps track of.
pub proof fn every_channel_is_joined(s: StateView, channel: Seq<char>) -> (i: int)
    requires
        s.config.channels.contains(channel) || channels::names(s.lists).contains(channel),
    ensures
        ({
            let plan = state::join_messages(s.config) + state::rejoin_messages(s);
            &&& 0 <= i < plan.len()
            &&& asks_for(plan[i], channel)
        }),
{
    let first = state::join_messages(s.config);
    if s.config.channels.contains(channel) {
        let i = joins::command_for_channel(s.config.channels, s.config.channel_keys, channel);
        let items = joins::request_order(s.config.channels, s.config.channel_keys);
        assert(joins::channels_of(joins::groups(items)[i]).contains(channel));
        assert(asks_for(first[i], channel));
        i
    } else {
        let keep = |name: Seq<char>| !s.config.channels.contains(name);
        let names = channels::names(s.lists);
        let k = choose|k: int| 0 <= k < names.len() && names[k] == channel;
        names.lemma_filter_contains(keep, k);
        let rest = state::remembered(s);
        let none = Map::<Seq<char>, Seq<char>>::empty();
        let i = joins::command_for_channel(rest, none, channel);
        assert(joins::channels_of(
            joins::groups(joins::request_order(rest, none))[i],
        ).contains(channel));
        assert(asks_for(state::rejoin_messages(s)[i], channel));
        first.len() + i
    }
}

/// A `JOIN` as it is written is the line whose length the batches are held to, unless its last
/// argument has to be set off by a colon.
pub proof fn join_messages_fit_the_line(
    channels: Seq<Seq<char>>,
    keys: Map<Seq<char>, Seq<char>>,
    i: int,
)
    requires
        0 <= i < joins::batches(channels, keys).len(),
        joins::batches(channels, keys)[i].0.len() > 0,
        match joins::batches(channels, keys)[i].1 {
            Some(k) => !crate::proto::command::needs_colon(k),
            None => !crate::proto::command::needs_colon(joins::batches(channels, keys)[i].0),
        },
    ensures
        ({
            let batch = joins::batches(channels, keys)[i];
            let m = MessageView::of(CommandView::JOIN(batch.0, batch.1, None));
            let group = joins::groups(joins::request_order(channels, keys))[i];
            &&& m.written() == joins::join_line(batch) + seq!['\r', '\n']
            &&& group.len() > 1 || joins::payload(batch) <= joins::BUDGET ==> text::byte_len(
                m.written(),
            ) <= 512
        }),
{
    let items = joins::request_order(channels, keys);
    let batch = joins::batches(channels, keys)[i];
    let m = MessageView::of(CommandView::JOIN(batch.0, batch.1, None));
    let params = m.command.params();
    assert(batch == joins::arguments(joins::groups(items)[i]));
    reveal_strlit("JOIN");
    match batch.1 {
        Some(k) => {
            assert(params =~= seq![batch.0, k]);
            assert(params.drop_last() =~= seq![batch.0]);
        },
        None => {
            assert(params =~= seq![batch.0]);
            assert(params.drop_last() =~= seq![]);
        },
    }
    assert(m.written() =~= joins::join_line(batch) + seq!['\r', '\n']);
    if joins::groups(items)[i].len() > 1 || joins::payload(batch) <= joins::BUDGET {
        joins::join_lines_stay_under_the_limit(items, i);
    }
}

/// The client runs out of nicknames when, and only when, one is refused and no alternative is
/// left.
pub proof fn running_out_of_nicknames(s: StateView, msg: MessageView, time: Seq<char>)
    ensures
        state::script(s, msg, time).end == Err::<(), ErrorView>(ErrorView::NoUsableNick)
            <==> state::refuses_nick(msg.command) && s.index >= s.config.alt_nicks.len(),
{
}

/// The state after `n` nicknames were refused, where all messages are taken.
pub open spec fn after_refusals(s: StateView, n: nat) -> StateView
    decreases n,
{
    if n == 0 {
        s
    } else {
        let before = after_refusals(s, (n - 1) as nat);
        let script = state::nick_taken_script(before.config, before.index);
        before.after(script, script.plan.len())
    }
}

/// The alternatives are tried in turn, each of them once: after as many refusals as there are
/// alternatives the last one is in use, and each refusal made the client ask for the next.
pub proof fn nicknames_are_tried_in_turn(s: StateView, n: nat)
    requires
        s.valid(),
        s.index + n <= s.config.alt_nicks.len(),
    ensures
        ({
            let after = after_refusals(s, n);
            &&& after.index == s.index + n
            &&& after.config == s.config
            &&& after.lists == s.lists
            &&& after.sender.offered == s.sender.offered + sender::taken(
                s.config.alt_nicks.subrange(s.index as int, (s.index + n) as int).map_values(
                    |nick: Seq<char>| MessageView::of(CommandView::NICK(nick)),
                ),
            )
        }),
    decreases n,
{
    let nicks = |k: nat|
        sender::taken(
            s.config.alt_nicks.subrange(s.index as int, (s.index + k) as int).map_values(
                |nick: Seq<char>| MessageView::of(CommandView::NICK(nick)),
            ),
        );
    if n == 0 {
        assert(s.sender.offered + nicks(0) =~= s.sender.offered);
    } else {
        let k = (n - 1) as nat;
        nicknames_are_tried_in_turn(s, k);
        let before = after_refusals(s, k);
        let script = state::nick_taken_script(before.config, before.index);
        let one = MessageView::of(CommandView::NICK(s.config.alt_nicks[(s.index + k) as int]));
        assert(script.plan =~= seq![one]);
        assert(sender::offers(script.plan, 1) =~= seq![(one, true)]);
        assert(nicks(n) =~= nicks(k).push((one, true)));
        assert(after_refusals(s, n).sender.offered =~= s.sender.offered + nicks(n));
    }
}

/// The state after messages were received, each at its time of day, where all answers are taken.
pub open spec fn after_messages(
    s: StateView,
    heard: Seq<(MessageView, Seq<char>)>,
) -> StateView
    decreases heard.len(),
{
    if heard.len() == 0 {
        s
    } else {
        let before = after_messages(s, heard.drop_last());
        let (msg, time) = heard.last();
        let script = state::script(before, msg, time);
        state::received(before, msg).after(script, script.plan.len())
    }
}

/// How many of the messages refuse a nickname.
pub open spec fn refusals(heard: Seq<(MessageView, Seq<char>)>) -> nat
    decreases heard.len(),
{
    if heard.len() == 0 {
        0
    } else {
        refusals(heard.drop_last()) + if state::refuses_nick(heard.last().0.command) {
            1nat
        } else {
            0nat
        }
    }
}

/// Whether the nickname is never reclaimed while the messages are received.
pub open spec fn never_reclaims(s: StateView, heard: Seq<(MessageView, Seq<char>)>) -> bool
    decreases heard.len(),
{
    heard.len() > 0 ==> {
        let before = after_messages(s, heard.drop_last());
        &&& never_reclaims(s, heard.drop_last())
        &&& state::ends_motd(heard.last().0.command) ==> {
            ||| before.index == 0
            ||| !before.config.should_ghost
            ||| before.config.nick_password_or_none().len() == 0
        }
    }
}

/// As many alternatives are used up as nicknames were refused, whatever else was received.
proof fn refusals_use_up_nicknames(s: StateView, heard: Seq<(MessageView, Seq<char>)>)
    requires
        s.index == 0,
        never_reclaims(s, heard),
    ensures
        after_messages(s, heard).config == s.config,
        after_messages(s, heard).index == if refusals(heard) <= s.config.alt_nicks.len() {
            refusals(heard)
        } else {
            s.config.alt_nicks.len()
        },
    decreases heard.len(),
{
    if heard.len() > 0 {
        refusals_use_up_nicknames(s, heard.drop_last());
    }
}

/// Over any history of messages, with others among them, in which the nickname is not reclaimed:
/// the refusal behind `k` others makes the client ask for the alternative at place `k`, and that
/// alone, and be known by it; where there is none, the refusal is an error, and nothing is sent or
/// changed.
pub proof fn each_refusal_asks_for_the_next_nickname(
    s: StateView,
    heard: Seq<(MessageView, Seq<char>)>,
    msg: MessageView,
    time: Seq<char>,
)
    requires
        s.index == 0,
        never_reclaims(s, heard),
        state::refuses_nick(msg.command),
    ensures
        ({
            let k = refusals(heard);
            let before = after_messages(s, heard);
            let script = state::script(before, msg, time);
            let after = after_messages(s, heard.push((msg, time)));
            let alts = s.config.alt_nicks;
            if k < alts.len() {
                &&& script.plan == seq![MessageView::of(CommandView::NICK(alts[k as int]))]
                &&& script.end is Ok
                &&& state::nickname_in_use(after.config, after.index) == alts[k as int]
            } else {
                &&& script.plan == Seq::<MessageView>::empty()
                &&& script.end == Err::<(), ErrorView>(ErrorView::NoUsableNick)
                &&& after.index == before.index
                &&& after.sender.offered == before.sender.offered
            }
        }),
{
    let before = after_messages(s, heard);
    let script = state::script(before, msg, time);
    refusals_use_up_nicknames(s, heard);
    assert(heard.push((msg, time)).drop_last() =~= heard);
    if refusals(heard) < s.config.alt_nicks.len() {
        assert(script.plan =~= seq![
            MessageView::of(CommandView::NICK(s.config.alt_nicks[refusals(heard) as int])),
        ]);
    } else {
        assert(sender::offers(Seq::<MessageView>::empty(), 0) =~= seq![]);
        assert(after_messages(s, heard.push((msg, time))).sender.offered
            =~= before.sender.offered);
    }
}

/// A nickname that is reclaimed is in use again as soon as the requests for it are out; nothing
/// but a refusal and this changes which nickname is in use.
pub proof fn nicknames_in_use(s: StateView, msg: MessageView, time: Seq<char>, n: nat)
    ensures
        ({
            let after = state::script(s, msg, time).index_after(s.index, n);
            ||| after == s.index
            ||| after == s.index + 1 && state::refuses_nick(msg.command) && n >= 1
            ||| after == 0 && state::ends_motd(msg.command) && s.config.should_ghost && n
                >= if s.config.nickname is Some {
                state::ghost_commands(s.config).len()
            } else {
                0
            }
        }),
{
}

/// The answers to requests of the client-to-client protocol are notices, never messages that could
/// be answered in turn, and go to the channel or to the user that the request came from.
pub proof fn answers_are_notices(
    s: StateView,
    msg: MessageView,
    time: Seq<char>,
    i: int,
)
    requires
        msg.command is PRIVMSG,
        0 <= i < state::script(s, msg, time).plan.len(),
    ensures
        ({
            let target = msg.command->PRIVMSG_0;
            let m = state::script(s, msg, time).plan[i];
            &&& s.features.ctcp
            &&& m.command matches CommandView::NOTICE(to, _)
            &&& to == target && target.len() > 0 && target[0] == '#' || Some(to)
                == msg.source_nickname()
        }),
{
}

/// Which channels are tracked changes only with a list of users, and then by at most the channel
/// that the list is of.
pub proof fn only_lists_add_channels(s: StateView, msg: MessageView)
    ensures
        match msg.command {
            CommandView::Response(Response::RPL_NAMREPLY, args) => {
                ||| channels::names(state::lists_after(s, msg)) == channels::names(s.lists)
                ||| args.len() == 4 && channels::names(state::lists_after(s, msg))
                    == channels::names(s.lists).push(args[2])
            },
            _ => channels::names(state::lists_after(s, msg)) == channels::names(s.lists),
        },
{
    let src = state::source_or_none(msg);
    match msg.command {
        CommandView::JOIN(chan, _, _) => {
            channels::only_lists_and_parts_change_the_channels(s.lists, src, src, chan, seq![]);
        },
        CommandView::PART(chan, _) => {
            channels::only_lists_and_parts_change_the_channels(s.lists, src, src, chan, seq![]);
        },
        CommandView::KICK(chan, user, _) => {
            channels::only_lists_and_parts_change_the_channels(s.lists, user, src, chan, seq![]);
        },
        CommandView::QUIT(_) => {
            channels::only_lists_and_parts_change_the_channels(s.lists, src, src, src, seq![]);
        },
        CommandView::NICK(nick) => {
            channels::only_lists_and_parts_change_the_channels(s.lists, src, nick, src, seq![]);
        },
        CommandView::ChannelMODE(chan, modes) => {
            channels::only_lists_and_parts_change_the_channels(s.lists, src, src, chan, modes);
        },
        CommandView::Response(Response::RPL_NAMREPLY, args) => {
            if args.len() == 4 {
                channels::lists_track_the_channel(
                    s.lists,
                    args[2],
                    text::pieces(args[3], " "@),
                );
            }
        },
        _ => {},
    }
}

/// A channel that the client leaves is forgotten at once, whether or not the queue takes the
/// message, and so is not joined again; the others stay.
pub proof fn leaving_forgets_the_channel(
    s: StateView,
    chan: Seq<char>,
    comment: Option<Seq<char>>,
)
    ensures
        ({
            let leave = MessageView::of(CommandView::PART(chan, comment));
            let names = channels::names(state::sending(s, leave).lists);
            &&& !names.contains(chan)
            &&& !state::remembered(state::sending(s, leave)).contains(chan)
            &&& forall|other: Seq<char>|
                other != chan ==> (#[trigger] names.contains(other) <==> channels::names(
                    s.lists,
                ).contains(other))
        }),
{
    let leave = MessageView::of(CommandView::PART(chan, comment));
    let after = state::sending(s, leave);
    channels::removal_forgets_the_channel(s.lists, chan);
    let keep = |name: Seq<char>| !s.config.channels.contains(name);
    if state::remembered(after).contains(chan) {
        channels::names(after.lists).lemma_filter_contains_rev(keep, chan);
    }
}

/// What was offered to the queue stays offered, and in its order: a script only adds to it. Nor
/// does a script touch the configuration, the tracked channels or the switches.
pub proof fn scripts_only_add_messages(
    s: StateView,
    script: Script,
    t: StateView,
    r: Result<(), Error>,
)
    requires
        s.performs(script, t, r),
    ensures
        s.sender.offered.is_prefix_of(t.sender.offered),
        t.sender.autojoin == s.sender.autojoin,
        t.sender.flood_protection == s.sender.flood_protection,
        t.sender.wake_writer == s.sender.wake_writer,
        t.config == s.config,
        t.lists == s.lists,
        r is Ok ==> t.sender.offered == s.sender.offered + sender::taken(script.plan),
{
}

} // verus!
