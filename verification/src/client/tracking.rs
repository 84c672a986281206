//! How a client follows the users of its channels.

use crate::client::channels::{self, Channel, ChannelView};
use crate::client::data::user::{User, UserView};
use crate::client::state::{self, StateView};
use crate::proto::command::CommandView;
use crate::proto::message::{MessageView, PrefixView};
use crate::proto::mode::{ChannelMode, ModeView};
use crate::proto::response::Response;
use crate::text;
use vstd::prelude::*;

verus! {

/// Whether the user at place `i` is the first of the nickname `nick`.
pub open spec fn first_of(users: Seq<UserView>, nick: Seq<char>, i: int) -> bool {
    &&& 0 <= i < users.len()
    &&& users[i].nickname == nick
    &&& forall|k: int| 0 <= k < i ==> (#[trigger] users[k]).nickname != nick
}

/// Whether no user has the nickname `nick`.
pub open spec fn nobody(users: Seq<UserView>, nick: Seq<char>) -> bool {
    forall|k: int| 0 <= k < users.len() ==> (#[trigger] users[k]).nickname != nick
}

/// Whether the first user of the nickname `nick`, if there is one, was taken out, and the last user
/// put in the free place.
pub open spec fn taken_out(before: Seq<UserView>, after: Seq<UserView>, nick: Seq<char>) -> bool {
    &&& nobody(before, nick) ==> after == before
    &&& forall|i: int| #[trigger]
        first_of(before, nick, i) ==> {
            &&& after.len() == before.len() - 1
            &&& forall|k: int| 0 <= k < after.len() && k != i ==> #[trigger] after[k] == before[k]
            &&& i < after.len() ==> after[i] == before[before.len() - 1]
        }
}

/// Whether the first user of the nickname `nick`, if there is one, was replaced by `user`, and all
/// others stayed.
pub open spec fn put_in_place(
    before: Seq<UserView>,
    after: Seq<UserView>,
    nick: Seq<char>,
    user: UserView,
) -> bool {
    &&& after.len() == before.len()
    &&& nobody(before, nick) ==> after == before
    &&& forall|i: int| #[trigger]
        first_of(before, nick, i) ==> {
            &&& after[i] == user
            &&& forall|k: int| 0 <= k < after.len() && k != i ==> #[trigger] after[k] == before[k]
        }
}

/// The first user of a nickname is where it is found.
proof fn found_where_first(users: Seq<UserView>, nick: Seq<char>, from: int)
    requires
        0 <= from,
        forall|k: int| 0 <= k < from && k < users.len() ==> (#[trigger] users[k]).nickname != nick,
    ensures
        match channels::position_from(users, nick, from) {
            Some(i) => first_of(users, nick, i) && forall|j: int| #[trigger]
                first_of(users, nick, j) ==> j == i,
            None => nobody(users, nick),
        },
    decreases users.len() - from,
{
    if from < users.len() && users[from].nickname != nick {
        found_where_first(users, nick, from + 1);
    } else if from < users.len() {
        assert forall|j: int| #[trigger] first_of(users, nick, j) implies j == from by {
            if j > from {
                assert(users[from].nickname != nick);
            }
            if j < from {
                assert(users[j].nickname != nick);
            }
        }
    }
}

/// A user is taken out as said.
proof fn without_takes_out(users: Seq<UserView>, nick: Seq<char>)
    ensures
        taken_out(users, channels::without(users, nick), nick),
{
    found_where_first(users, nick, 0);
    let after = channels::without(users, nick);
    if nobody(users, nick) {
        if let Some(i) = channels::position_from(users, nick, 0) {
            assert(users[i].nickname != nick);
        }
    }
}

/// A user is replaced as said.
proof fn replaced_puts_in_place(users: Seq<UserView>, nick: Seq<char>, user: UserView)
    ensures
        put_in_place(users, channels::replaced(users, nick, user), nick, user),
{
    found_where_first(users, nick, 0);
    if nobody(users, nick) {
        if let Some(i) = channels::position_from(users, nick, 0) {
            assert(users[i].nickname != nick);
        }
    }
}

/// Where the first user of a nickname is the only one, none is left once that one is taken out, or
/// replaced by one of another nickname.
pub proof fn the_only_one_is_gone(
    before: Seq<UserView>,
    after: Seq<UserView>,
    nick: Seq<char>,
    user: UserView,
)
    requires
        taken_out(before, after, nick) || put_in_place(before, after, nick, user) && user.nickname
            != nick,
        forall|i: int, j: int|
            0 <= i < j < before.len() && (#[trigger] before[i]).nickname == nick ==> (
            #[trigger] before[j]).nickname != nick,
    ensures
        nobody(after, nick),
{
    found_where_first(before, nick, 0);
    match channels::position_from(before, nick, 0) {
        Some(i) => {
            assert(first_of(before, nick, i));
            assert forall|k: int| 0 <= k < after.len() implies (#[trigger] after[k]).nickname
                != nick by {
                if k < i {
                    assert(before[k].nickname != nick);
                } else if k > i {
                    assert(before[i].nickname == nick);
                    assert(before[k].nickname != nick);
                } else if taken_out(before, after, nick) {
                    assert(before[i].nickname == nick);
                    assert(before[before.len() - 1].nickname != nick);
                }
            }
        },
        None => {},
    }
}

/// Whether a message comes from the user `nick`.
pub open spec fn comes_from(msg: MessageView, nick: Seq<char>) -> bool {
    msg.prefix matches Some(PrefixView::Nickname(n, _, _)) && n == nick
}

/// Where channels are not tracked nothing is followed, and where they are, only joins, parts,
/// kicks, quits, changes of nickname and of modes, and lists of names are.
pub proof fn what_is_followed(s: StateView, msg: MessageView)
    ensures
        !s.features.channel_lists ==> state::lists_after(s, msg) == s.lists,
        match msg.command {
            CommandView::JOIN(..) => true,
            CommandView::PART(..) => true,
            CommandView::KICK(..) => true,
            CommandView::QUIT(..) => true,
            CommandView::NICK(..) => true,
            CommandView::ChannelMODE(..) => true,
            CommandView::Response(code, args) => code == Response::RPL_NAMREPLY && args.len() == 4
                || state::lists_after(s, msg) == s.lists,
            _ => state::lists_after(s, msg) == s.lists,
        },
        msg.prefix matches Some(PrefixView::Nickname(n, _, _)) ==> state::source_or_none(msg) == n,
        !(msg.prefix matches Some(PrefixView::Nickname(_, _, _))) ==> state::source_or_none(
            msg,
        ).len() == 0,
{
}

/// A user who joins a tracked channel comes last in it. No other channel changes, and none is
/// tracked on that account.
pub proof fn following_joins(s: StateView, msg: MessageView, nick: Seq<char>, i: int)
    requires
        s.features.channel_lists,
        msg.command is JOIN,
        comes_from(msg, nick),
        nick.len() > 0,
        0 <= i < s.lists.len(),
    ensures
        ({
            let chan = msg.command->JOIN_0;
            let after = state::lists_after(s, msg);
            &&& after.len() == s.lists.len()
            &&& after[i].name == s.lists[i].name
            &&& after[i].users == if s.lists[i].name == chan {
                s.lists[i].users.push(UserView::described(nick))
            } else {
                s.lists[i].users
            }
        }),
{
}

/// A user who leaves a channel, or is kicked from it, is taken out of it, and of no other.
pub proof fn following_parts(s: StateView, msg: MessageView, nick: Seq<char>, i: int)
    requires
        s.features.channel_lists,
        msg.command is PART && comes_from(msg, nick) || msg.command is KICK
            && msg.command->KICK_1 == nick,
        nick.len() > 0,
        0 <= i < s.lists.len(),
    ensures
        ({
            let chan = if msg.command is PART {
                msg.command->PART_0
            } else {
                msg.command->KICK_0
            };
            let after = state::lists_after(s, msg);
            &&& after.len() == s.lists.len()
            &&& after[i].name == s.lists[i].name
            &&& s.lists[i].name == chan ==> taken_out(s.lists[i].users, after[i].users, nick)
            &&& s.lists[i].name != chan ==> after[i].users == s.lists[i].users
        }),
{
    without_takes_out(s.lists[i].users, nick);
}

/// A user who quits is taken out of every channel.
pub proof fn following_quits(s: StateView, msg: MessageView, nick: Seq<char>, i: int)
    requires
        s.features.channel_lists,
        msg.command is QUIT,
        comes_from(msg, nick),
        nick.len() > 0,
        0 <= i < s.lists.len(),
    ensures
        ({
            let after = state::lists_after(s, msg);
            &&& after.len() == s.lists.len()
            &&& after[i].name == s.lists[i].name
            &&& taken_out(s.lists[i].users, after[i].users, nick)
        }),
{
    without_takes_out(s.lists[i].users, nick);
}

/// A user who changes nickname is replaced, in place, in every channel: by one who is known by the
/// new nickname only.
pub proof fn following_nicknames(s: StateView, msg: MessageView, nick: Seq<char>, i: int)
    requires
        s.features.channel_lists,
        msg.command is NICK,
        msg.command->NICK_0.len() > 0,
        comes_from(msg, nick),
        nick.len() > 0,
        0 <= i < s.lists.len(),
    ensures
        ({
            let after = state::lists_after(s, msg);
            let user = UserView::described(msg.command->NICK_0);
            &&& after.len() == s.lists.len()
            &&& after[i].name == s.lists[i].name
            &&& put_in_place(s.lists[i].users, after[i].users, nick, user)
        }),
{
    replaced_puts_in_place(
        s.lists[i].users,
        nick,
        UserView::described(msg.command->NICK_0),
    );
}

/// After a change to a nickname that describes no other, and where the old one occurs at most once
/// in a channel, no user of that channel has the old one.
pub proof fn old_nicknames_are_gone(s: StateView, msg: MessageView, nick: Seq<char>, i: int)
    requires
        s.features.channel_lists,
        msg.command is NICK,
        msg.command->NICK_0.len() > 0,
        UserView::described(msg.command->NICK_0).nickname != nick,
        comes_from(msg, nick),
        nick.len() > 0,
        0 <= i < s.lists.len(),
        forall|a: int, b: int|
            0 <= a < b < s.lists[i].users.len() && (#[trigger] s.lists[i].users[a]).nickname == nick
                ==> (#[trigger] s.lists[i].users[b]).nickname != nick,
    ensures
        nobody(state::lists_after(s, msg)[i].users, nick),
{
    following_nicknames(s, msg, nick, i);
    the_only_one_is_gone(
        s.lists[i].users,
        state::lists_after(s, msg)[i].users,
        nick,
        UserView::described(msg.command->NICK_0),
    );
}

/// A message that would be followed says nothing where it comes from no user, or names an empty
/// nickname.
pub proof fn nobody_is_followed(s: StateView, msg: MessageView)
    requires
        msg.command is JOIN || msg.command is PART || msg.command is QUIT || msg.command is NICK
            || msg.command is KICK,
        msg.command is KICK ==> msg.command->KICK_1.len() == 0,
        !(msg.command is KICK) ==> {
            ||| !(msg.prefix matches Some(PrefixView::Nickname(_, _, _)))
            ||| msg.prefix matches Some(PrefixView::Nickname(n, _, _)) && n.len() == 0
            ||| msg.command is NICK && msg.command->NICK_0.len() == 0
        },
    ensures
        state::lists_after(s, msg) == s.lists,
{
}

/// Changes of the modes of a channel are followed one behind the other.
pub proof fn following_modes(s: StateView, msg: MessageView)
    requires
        s.features.channel_lists,
        msg.command is ChannelMODE,
    ensures
        state::lists_after(s, msg) == channels::after_modes(
            s.lists,
            msg.command->ChannelMODE_0,
            msg.command->ChannelMODE_1,
        ),
        channels::after_modes(s.lists, msg.command->ChannelMODE_0, seq![]) == s.lists,
{
}

/// One change of a mode more: the first user of the channel whom it names has the mode added or
/// taken away, and nothing else changes. One that names nobody changes nothing.
pub proof fn one_mode_more(
    lists: Seq<ChannelView>,
    chan: Seq<char>,
    modes: Seq<ModeView<ChannelMode>>,
    mode: ModeView<ChannelMode>,
    i: int,
)
    requires
        0 <= i < lists.len(),
    ensures
        ({
            let before = channels::after_modes(lists, chan, modes);
            let after = channels::after_modes(lists, chan, modes.push(mode));
            let arg = match mode {
                ModeView::Plus(_, a) => a,
                ModeView::Minus(_, a) => a,
            };
            &&& before.len() == lists.len()
            &&& after.len() == lists.len()
            &&& before[i].name == lists[i].name
            &&& after[i].name == lists[i].name
            &&& lists[i].name != chan || arg is None ==> after[i].users == before[i].users
            &&& lists[i].name == chan && arg is Some ==> {
                &&& nobody(before[i].users, arg->0) ==> after[i].users == before[i].users
                &&& forall|k: int| #[trigger]
                    first_of(before[i].users, arg->0, k) ==> after[i].users
                        == before[i].users.update(k, before[i].users[k].with_mode(mode))
            }
        }),
{
    let before = channels::after_modes(lists, chan, modes);
    channels::only_lists_and_parts_change_the_channels(lists, chan, chan, chan, modes);
    assert(channels::names(before)[i] == channels::names(lists)[i]);
    assert(channels::names(before).len() == before.len());
    assert(modes.push(mode).drop_last() =~= modes);
    if let Some(nick) = mode.arg() {
        found_where_first(before[i].users, nick, 0);
        if nobody(before[i].users, nick) {
            if let Some(k) = channels::position_from(before[i].users, nick, 0) {
                assert(before[i].users[k].nickname != nick);
            }
        }
    }
}

/// A list of names adds its users to the channel behind those it has, in the order of the list. A
/// channel that was not tracked comes last, with the users of the list only. The others stay.
pub proof fn following_lists(s: StateView, msg: MessageView, words: Seq<Seq<char>>)
    requires
        s.valid(),
        s.features.channel_lists,
        msg.command is Response,
        msg.command->Response_0 == Response::RPL_NAMREPLY,
        msg.command->Response_1.len() == 4,
        words == text::pieces(msg.command->Response_1[3], " "@),
    ensures
        ({
            let chan = msg.command->Response_1[2];
            let after = state::lists_after(s, msg);
            let n = s.lists.len() as int;
            &&& forall|i: int|
                0 <= i < n ==> {
                    let old = #[trigger] s.lists[i];
                    let new = after[i];
                    &&& new.name == old.name
                    &&& old.name != chan ==> new.users == old.users
                    &&& old.name == chan ==> {
                        &&& after.len() == n
                        &&& new.users.len() == old.users.len() + words.len()
                        &&& forall|k: int|
                            0 <= k < old.users.len() ==> #[trigger] new.users[k] == old.users[k]
                        &&& forall|k: int|
                            0 <= k < words.len() ==> new.users[old.users.len() + k]
                                == UserView::described(#[trigger] words[k])
                    }
                }
            &&& (forall|i: int| 0 <= i < n ==> (#[trigger] s.lists[i]).name != chan) ==> {
                &&& after.len() == n + 1
                &&& after[n].name == chan
                &&& after[n].users.len() == words.len()
                &&& forall|k: int|
                    0 <= k < words.len() ==> after[n].users[k] == UserView::described(
                        #[trigger] words[k],
                    )
            }
        }),
{
    let chan = msg.command->Response_1[2];
    let names = channels::names(s.lists);
    let after = state::lists_after(s, msg);
    let n = s.lists.len() as int;
    assert(after == channels::after_names(s.lists, chan, words));
    if forall|i: int| 0 <= i < n ==> (#[trigger] s.lists[i]).name != chan {
        if names.contains(chan) {
            let k = choose|k: int| 0 <= k < names.len() && names[k] == chan;
            assert(s.lists[k].name == chan);
        }
    }
    assert forall|i: int| 0 <= i < n implies {
        let old = #[trigger] s.lists[i];
        let new = after[i];
        &&& new.name == old.name
        &&& old.name != chan ==> new.users == old.users
        &&& old.name == chan ==> {
            &&& after.len() == n
            &&& new.users.len() == old.users.len() + words.len()
            &&& forall|k: int|
                0 <= k < old.users.len() ==> #[trigger] new.users[k] == old.users[k]
            &&& forall|k: int|
                0 <= k < words.len() ==> new.users[old.users.len() + k] == UserView::described(
                    #[trigger] words[k],
                )
        }
    } by {
        assert(names[i] == s.lists[i].name);
        if s.lists[i].name == chan {
            assert(names.contains(chan));
            let described = channels::users_described(words);
            assert forall|k: int| 0 <= k < words.len() implies after[i].users[s.lists[i].users.len()
                + k] == UserView::described(#[trigger] words[k]) by {
                assert(described[k] == UserView::described(words[k]));
            }
        }
    }
}

/// What is listed is what is tracked: each channel by its name, in its place, and each user with
/// all that is known of them.
pub proof fn lists_are_shown_in_full(
    lists: Seq<ChannelView>,
    i: int,
    channel: Channel,
    users: Seq<User>,
    k: int,
)
    requires
        0 <= i < lists.len(),
        0 <= k < users.len(),
    ensures
        channels::names(lists).len() == lists.len(),
        channels::names(lists)[i] == lists[i].name,
        channel@.name == channel.name@,
        channel@.users.len() == channel.users.len(),
        forall|j: int|
            0 <= j < channel.users.len() ==> #[trigger] channel@.users[j] == channel.users[j]@,
        crate::client::data::user::user_views(users).len() == users.len(),
        crate::client::data::user::user_views(users)[k] == users[k]@,
{
}

} // verus!
