//! The users of each channel.

use crate::client::data::user::{User, UserView};
use crate::proto::mode::{ChannelMode, Mode, ModeView};
use crate::text;
use vstd::prelude::*;

verus! {

/// A channel and its users.
#[derive(Debug)]
pub struct Channel {
    pub name: String,
    pub users: Vec<User>,
}

/// What a [`Channel`] holds.
#[verifier::ext_equal]
pub struct ChannelView {
    pub name: Seq<char>,
    pub users: Seq<UserView>,
}

impl View for Channel {
    type V = ChannelView;

    open spec fn view(&self) -> ChannelView {
        ChannelView {
            name: self.name@,
            users: crate::client::data::user::user_views(self.users@),
        }
    }
}

/// The channels that are tracked, each once, in the order in which they came up.
#[derive(Debug)]
pub struct ChannelLists {
    entries: Vec<Channel>,
}

impl View for ChannelLists {
    type V = Seq<ChannelView>;

    closed spec fn view(&self) -> Seq<ChannelView> {
        self.entries@.map_values(|c: Channel| c@)
    }
}

/// The names of the channels.
pub open spec fn names(lists: Seq<ChannelView>) -> Seq<Seq<char>> {
    lists.map_values(|c: ChannelView| c.name)
}

/// Whether no channel occurs twice.
pub open spec fn each_once(lists: Seq<ChannelView>) -> bool {
    names(lists).no_duplicates()
}

/// The first place, from `i` on, of a user with the nickname `nick`.
pub open spec fn position_from(users: Seq<UserView>, nick: Seq<char>, i: int) -> Option<int>
    decreases users.len() - i,
{
    if i < 0 || i >= users.len() {
        None
    } else if users[i].nickname == nick {
        Some(i)
    } else {
        position_from(users, nick, i + 1)
    }
}

/// The users without the first of the nickname `nick`, whose place the last one takes.
pub open spec fn without(users: Seq<UserView>, nick: Seq<char>) -> Seq<UserView> {
    match position_from(users, nick, 0) {
        Some(i) => crate::client::data::user::swap_removed(users, i),
        None => users,
    }
}

/// The users with the first of the nickname `nick` replaced.
pub open spec fn replaced(users: Seq<UserView>, nick: Seq<char>, by: UserView) -> Seq<UserView> {
    match position_from(users, nick, 0) {
        Some(i) => users.update(i, by),
        None => users,
    }
}

/// The users after a change of a channel mode. One that names no user changes none.
pub open spec fn users_with_mode(
    users: Seq<UserView>,
    mode: ModeView<ChannelMode>,
) -> Seq<UserView> {
    match mode.arg() {
        Some(nick) => match position_from(users, nick, 0) {
            Some(i) => users.update(i, users[i].with_mode(mode)),
            None => users,
        },
        None => users,
    }
}

/// The channels with the users of `chan` changed by `f`.
pub open spec fn in_channel(
    lists: Seq<ChannelView>,
    chan: Seq<char>,
    f: spec_fn(Seq<UserView>) -> Seq<UserView>,
) -> Seq<ChannelView> {
    lists.map_values(
        |c: ChannelView|
            if c.name == chan {
                ChannelView { name: c.name, users: f(c.users) }
            } else {
                c
            },
    )
}

/// The channels with the users of each changed by `f`.
pub open spec fn in_each(
    lists: Seq<ChannelView>,
    f: spec_fn(Seq<UserView>) -> Seq<UserView>,
) -> Seq<ChannelView> {
    lists.map_values(|c: ChannelView| ChannelView { name: c.name, users: f(c.users) })
}

/// The channels once the user `src` has joined `chan`. A channel that is not tracked stays so.
pub open spec fn after_join(
    lists: Seq<ChannelView>,
    src: Seq<char>,
    chan: Seq<char>,
) -> Seq<ChannelView> {
    if src.len() == 0 {
        lists
    } else {
        in_channel(lists, chan, |us: Seq<UserView>| us.push(UserView::described(src)))
    }
}

/// The channels once the user `src` has left `chan`.
pub open spec fn after_part(
    lists: Seq<ChannelView>,
    src: Seq<char>,
    chan: Seq<char>,
) -> Seq<ChannelView> {
    if src.len() == 0 {
        lists
    } else {
        in_channel(lists, chan, |us: Seq<UserView>| without(us, src))
    }
}

/// The channels once the user `src` has left the network.
pub open spec fn after_quit(lists: Seq<ChannelView>, src: Seq<char>) -> Seq<ChannelView> {
    if src.len() == 0 {
        lists
    } else {
        in_each(lists, |us: Seq<UserView>| without(us, src))
    }
}

/// The channels once the user `old_nick` has become `new_nick`.
pub open spec fn after_nick_change(
    lists: Seq<ChannelView>,
    old_nick: Seq<char>,
    new_nick: Seq<char>,
) -> Seq<ChannelView> {
    if old_nick.len() == 0 || new_nick.len() == 0 {
        lists
    } else {
        in_each(
            lists,
            |us: Seq<UserView>| replaced(us, old_nick, UserView::described(new_nick)),
        )
    }
}

/// The channels once the modes of `chan` have changed, one mode behind the other.
pub open spec fn after_modes(
    lists: Seq<ChannelView>,
    chan: Seq<char>,
    modes: Seq<ModeView<ChannelMode>>,
) -> Seq<ChannelView>
    decreases modes.len(),
{
    if modes.len() == 0 {
        lists
    } else {
        in_channel(
            after_modes(lists, chan, modes.drop_last()),
            chan,
            |us: Seq<UserView>| users_with_mode(us, modes.last()),
        )
    }
}

/// The users that `described` describes.
pub open spec fn users_described(described: Seq<Seq<char>>) -> Seq<UserView> {
    described.map_values(|s: Seq<char>| UserView::described(s))
}

/// The channels once a server has listed users of `chan`. A channel that was not tracked is
/// tracked from then on.
pub open spec fn after_names(
    lists: Seq<ChannelView>,
    chan: Seq<char>,
    described: Seq<Seq<char>>,
) -> Seq<ChannelView> {
    if names(lists).contains(chan) {
        in_channel(lists, chan, |us: Seq<UserView>| us + users_described(described))
    } else {
        lists.push(ChannelView { name: chan, users: users_described(described) })
    }
}

/// The channels without `chan`.
pub open spec fn after_removal(lists: Seq<ChannelView>, chan: Seq<char>) -> Seq<ChannelView> {
    lists.filter(|c: ChannelView| c.name != chan)
}

/// Where no channel occurs twice, a change of the one at `i` is a change of all of its name.
proof fn changed_at(
    before: Seq<ChannelView>,
    after: Seq<ChannelView>,
    i: int,
    f: spec_fn(Seq<UserView>) -> Seq<UserView>,
)
    requires
        each_once(before),
        0 <= i < before.len(),
        after.len() == before.len(),
        after[i].name == before[i].name,
        after[i].users == f(before[i].users),
        forall|k: int| 0 <= k < before.len() && k != i ==> after[k] == #[trigger] before[k],
    ensures
        after == in_channel(before, before[i].name, f),
{
    assert forall|k: int| 0 <= k < before.len() implies after[k] == in_channel(
        before,
        before[i].name,
        f,
    )[k] by {
        assert(names(before)[k] == before[k].name);
        assert(names(before)[i] == before[i].name);
        if k == i {
            assert(after[k] =~= in_channel(before, before[i].name, f)[k]);
        }
    }
    assert(after =~= in_channel(before, before[i].name, f));
}

/// A change of a channel that is not there changes nothing.
proof fn unchanged(
    lists: Seq<ChannelView>,
    chan: Seq<char>,
    f: spec_fn(Seq<UserView>) -> Seq<UserView>,
)
    requires
        !names(lists).contains(chan),
    ensures
        in_channel(lists, chan, f) == lists,
{
    assert forall|k: int| 0 <= k < lists.len() implies lists[k] == in_channel(
        lists,
        chan,
        f,
    )[k] by {
        assert(names(lists)[k] == lists[k].name);
    }
    assert(in_channel(lists, chan, f) =~= lists);
}

/// A change of users leaves the names of the channels alone.
proof fn names_stay(
    lists: Seq<ChannelView>,
    chan: Seq<char>,
    f: spec_fn(Seq<UserView>) -> Seq<UserView>,
)
    ensures
        names(in_channel(lists, chan, f)) == names(lists),
        names(in_each(lists, f)) == names(lists),
{
    assert(names(in_channel(lists, chan, f)) =~= names(lists));
    assert(names(in_each(lists, f)) =~= names(lists));
}

/// Changes of modes leave the names of the channels alone.
proof fn modes_keep_names(
    lists: Seq<ChannelView>,
    chan: Seq<char>,
    modes: Seq<ModeView<ChannelMode>>,
)
    ensures
        names(after_modes(lists, chan, modes)) == names(lists),
    decreases modes.len(),
{
    if modes.len() > 0 {
        modes_keep_names(lists, chan, modes.drop_last());
        names_stay(
            after_modes(lists, chan, modes.drop_last()),
            chan,
            |us: Seq<UserView>| users_with_mode(us, modes.last()),
        );
    }
}

/// What joins, parts, quits, changes of nicknames and changes of modes leave as it was: which
/// channels are tracked, and in which order.
pub proof fn only_lists_and_parts_change_the_channels(
    lists: Seq<ChannelView>,
    src: Seq<char>,
    other: Seq<char>,
    chan: Seq<char>,
    modes: Seq<ModeView<ChannelMode>>,
)
    ensures
        names(after_join(lists, src, chan)) == names(lists),
        names(after_part(lists, src, chan)) == names(lists),
        names(after_quit(lists, src)) == names(lists),
        names(after_nick_change(lists, src, other)) == names(lists),
        names(after_modes(lists, chan, modes)) == names(lists),
{
    names_stay(lists, chan, |us: Seq<UserView>| us.push(UserView::described(src)));
    names_stay(lists, chan, |us: Seq<UserView>| without(us, src));
    names_stay(
        lists,
        chan,
        |us: Seq<UserView>| replaced(us, src, UserView::described(other)),
    );
    modes_keep_names(lists, chan, modes);
}

/// A list of users adds the channel it is about, and no other.
pub proof fn lists_track_the_channel(
    lists: Seq<ChannelView>,
    chan: Seq<char>,
    described: Seq<Seq<char>>,
)
    ensures
        names(after_names(lists, chan, described)) == if names(lists).contains(chan) {
            names(lists)
        } else {
            names(lists).push(chan)
        },
        names(after_names(lists, chan, described)).contains(chan),
{
    let f = |us: Seq<UserView>| us + users_described(described);
    names_stay(lists, chan, f);
    let after = names(after_names(lists, chan, described));
    if !names(lists).contains(chan) {
        assert(after =~= names(lists).push(chan));
        assert(after.last() == chan);
    }
}

/// The names of a filtered list.
proof fn filtered_names(lists: Seq<ChannelView>, chan: Seq<char>)
    ensures
        names(after_removal(lists, chan)) == names(lists).filter(|n: Seq<char>| n != chan),
    decreases lists.len(),
{
    reveal(Seq::filter);
    let keep = |c: ChannelView| c.name != chan;
    let keep_name = |n: Seq<char>| n != chan;
    if lists.len() > 0 {
        filtered_names(lists.drop_last(), chan);
        assert(names(lists).drop_last() =~= names(lists.drop_last()));
        let head = lists.drop_last().filter(keep);
        assert(names(head.push(lists.last())) =~= names(head).push(lists.last().name));
    } else {
        assert(names(lists).filter(keep_name) =~= seq![]);
        assert(names(lists.filter(keep)) =~= seq![]);
    }
}

/// A channel that was removed is not tracked; the others are.
pub proof fn removal_forgets_the_channel(lists: Seq<ChannelView>, chan: Seq<char>)
    ensures
        !names(after_removal(lists, chan)).contains(chan),
        forall|other: Seq<char>|
            other != chan ==> (#[trigger] names(after_removal(lists, chan)).contains(other)
                <==> names(lists).contains(other)),
{
    let keep_name = |n: Seq<char>| n != chan;
    filtered_names(lists, chan);
    let after = names(lists).filter(keep_name);
    if after.contains(chan) {
        let i = choose|i: int| 0 <= i < after.len() && after[i] == chan;
        names(lists).lemma_filter_pred(keep_name, i);
    }
    assert forall|other: Seq<char>| other != chan implies (#[trigger] after.contains(other)
        <==> names(lists).contains(other)) by {
        if names(lists).contains(other) {
            let i = choose|i: int| 0 <= i < names(lists).len() && names(lists)[i] == other;
            names(lists).lemma_filter_contains(keep_name, i);
        }
        if after.contains(other) {
            names(lists).lemma_filter_contains_rev(keep_name, other);
        }
    }
}

/// The place, if any, of a user with the nickname `nick`.
fn position(users: &Vec<User>, nick: &str) -> (r: Option<usize>)
    ensures
        match r {
            Some(i) => i < users.len() && position_from(
                crate::client::data::user::user_views(users@),
                nick@,
                0,
            ) == Some(i as int),
            None => position_from(crate::client::data::user::user_views(users@), nick@, 0) is None,
        },
{
    let ghost views = crate::client::data::user::user_views(users@);
    let mut i: usize = 0;
    while i < users.len()
        invariant
            i <= users.len(),
            views == crate::client::data::user::user_views(users@),
            position_from(views, nick@, 0) == position_from(views, nick@, i as int),
        decreases users.len() - i,
    {
        if text::same(users[i].get_nickname(), nick) {
            return Some(i);
        }
        i = i + 1;
    }
    None
}

/// Removes the first user of the nickname `nick`.
fn remove_user(users: &mut Vec<User>, nick: &str)
    ensures
        crate::client::data::user::user_views(final(users)@) == without(
            crate::client::data::user::user_views(old(users)@),
            nick@,
        ),
{
    let ghost before = crate::client::data::user::user_views(users@);
    if let Some(i) = position(users, nick) {
        users.swap_remove(i);
        assert(crate::client::data::user::user_views(users@)
            =~= crate::client::data::user::swap_removed(before, i as int));
    }
}

/// Replaces the first user of the nickname `nick` by the user `new_nick`.
fn rename_user(users: &mut Vec<User>, nick: &str, new_nick: &str)
    ensures
        crate::client::data::user::user_views(final(users)@) == replaced(
            crate::client::data::user::user_views(old(users)@),
            nick@,
            UserView::described(new_nick@),
        ),
{
    let ghost before = crate::client::data::user::user_views(users@);
    if let Some(i) = position(users, nick) {
        users[i] = User::new(new_nick);
        assert(crate::client::data::user::user_views(users@) =~= before.update(
            i as int,
            UserView::described(new_nick@),
        ));
    }
}

/// Follows a change of a channel mode.
fn change_mode(users: &mut Vec<User>, mode: &Mode<ChannelMode>)
    ensures
        crate::client::data::user::user_views(final(users)@) == users_with_mode(
            crate::client::data::user::user_views(old(users)@),
            mode@,
        ),
{
    let ghost before = crate::client::data::user::user_views(users@);
    let arg = match mode {
        Mode::Plus(_, a) => a,
        Mode::Minus(_, a) => a,
    };
    if let Some(nick) = arg {
        if let Some(i) = position(users, nick.as_str()) {
            users[i].update_access_level(mode);
            assert(crate::client::data::user::user_views(users@) =~= before.update(
                i as int,
                before[i as int].with_mode(mode@),
            ));
        }
    }
}

/// Where no channel occurs twice, to remove one of a name is to take it out.
proof fn removed_at(lists: Seq<ChannelView>, i: int)
    requires
        each_once(lists),
        0 <= i < lists.len(),
    ensures
        after_removal(lists, lists[i].name) == lists.remove(i),
        each_once(lists.remove(i)),
{
    let chan = lists[i].name;
    let keep = |c: ChannelView| c.name != chan;
    let front = lists.take(i);
    let back = lists.skip(i + 1);
    let one = seq![lists[i]];
    assert(names(lists)[i] == chan);
    assert forall|k: int| 0 <= k < front.len() implies #[trigger] keep(front[k]) by {
        assert(names(lists)[k] == front[k].name);
    }
    assert forall|k: int| 0 <= k < back.len() implies #[trigger] keep(back[k]) by {
        assert(names(lists)[i + 1 + k] == back[k].name);
    }
    kept_all(front, keep);
    kept_all(back, keep);
    assert(one.filter(keep) =~= seq![]) by {
        reveal_with_fuel(Seq::filter, 2);
    }
    Seq::filter_distributes_over_add(front + one, back, keep);
    Seq::filter_distributes_over_add(front, one, keep);
    assert(front + one + back =~= lists);
    assert(front + Seq::<ChannelView>::empty() + back =~= lists.remove(i));
    assert(names(lists.remove(i)) =~= names(lists).remove(i));
}

impl ChannelLists {
    /// No channel is tracked.
    pub fn new() -> (r: ChannelLists)
        ensures
            r@ == Seq::<ChannelView>::empty(),
    {
        let r = ChannelLists { entries: Vec::new() };
        assert(r@ =~= seq![]);
        r
    }

    /// The place of the channel `chan`.
    fn find(&self, chan: &str) -> (r: Option<usize>)
        ensures
            match r {
                Some(i) => i < self.entries.len() && self@[i as int].name == chan@,
                None => !names(self@).contains(chan@),
            },
    {
        let mut i: usize = 0;
        while i < self.entries.len()
            invariant
                i <= self.entries.len(),
                forall|k: int| 0 <= k < i ==> names(self@)[k] != chan@,
            decreases self.entries.len() - i,
        {
            if text::same(self.entries[i].name.as_str(), chan) {
                return Some(i);
            }
            i = i + 1;
        }
        None
    }

    /// Follows a user who joins `chan`.
    pub fn join(&mut self, src: &str, chan: &str)
        requires
            each_once(old(self)@),
        ensures
            final(self)@ == after_join(old(self)@, src@, chan@),
    {
        let ghost f = |us: Seq<UserView>| us.push(UserView::described(src@));
        let ghost before = self@;
        if src.is_empty() {
            return ;
        }
        match self.find(chan) {
            Some(i) => {
                self.entries[i].users.push(User::new(src));
                proof {
                    assert(self@[i as int].users =~= f(before[i as int].users));
                    changed_at(before, self@, i as int, f);
                }
            },
            None => {
                proof {
                    unchanged(before, chan@, f);
                }
            },
        }
    }

    /// Follows a user who leaves `chan`.
    pub fn part(&mut self, src: &str, chan: &str)
        requires
            each_once(old(self)@),
        ensures
            final(self)@ == after_part(old(self)@, src@, chan@),
    {
        let ghost f = |us: Seq<UserView>| without(us, src@);
        let ghost before = self@;
        if src.is_empty() {
            return ;
        }
        match self.find(chan) {
            Some(i) => {
                remove_user(&mut self.entries[i].users, src);
                proof {
                    changed_at(before, self@, i as int, f);
                }
            },
            None => {
                proof {
                    unchanged(before, chan@, f);
                }
            },
        }
    }

    /// Follows a user who leaves the network.
    pub fn quit(&mut self, src: &str)
        ensures
            final(self)@ == after_quit(old(self)@, src@),
    {
        if src.is_empty() {
            return ;
        }
        let ghost f = |us: Seq<UserView>| without(us, src@);
        let ghost before = self@;
        let mut i: usize = 0;
        while i < self.entries.len()
            invariant
                i <= self.entries.len(),
                f == (|us: Seq<UserView>| without(us, src@)),
                self@.len() == before.len(),
                forall|k: int| 0 <= k < i ==> #[trigger] self@[k] == in_each(before, f)[k],
                forall|k: int| i <= k < before.len() ==> #[trigger] self@[k] == before[k],
            decreases self.entries.len() - i,
        {
            let ghost prior = self@;
            assert(prior[i as int] == before[i as int]);
            remove_user(&mut self.entries[i].users, src);
            assert(self@[i as int] =~= in_each(before, f)[i as int]);
            assert(forall|k: int|
                0 <= k < before.len() && k != i ==> #[trigger] self@[k] == prior[k]);
            i = i + 1;
        }
        assert(self@ =~= in_each(before, f));
    }

    /// Follows a user who changes nickname.
    pub fn rename(&mut self, old_nick: &str, new_nick: &str)
        ensures
            final(self)@ == after_nick_change(old(self)@, old_nick@, new_nick@),
    {
        if old_nick.is_empty() || new_nick.is_empty() {
            return ;
        }
        let ghost f = |us: Seq<UserView>|
            replaced(us, old_nick@, UserView::described(new_nick@));
        let ghost before = self@;
        let mut i: usize = 0;
        while i < self.entries.len()
            invariant
                i <= self.entries.len(),
                f == (|us: Seq<UserView>|
                    replaced(us, old_nick@, UserView::described(new_nick@))),
                self@.len() == before.len(),
                forall|k: int| 0 <= k < i ==> #[trigger] self@[k] == in_each(before, f)[k],
                forall|k: int| i <= k < before.len() ==> #[trigger] self@[k] == before[k],
            decreases self.entries.len() - i,
        {
            let ghost prior = self@;
            assert(prior[i as int] == before[i as int]);
            rename_user(&mut self.entries[i].users, old_nick, new_nick);
            assert(self@[i as int] =~= in_each(before, f)[i as int]);
            assert(forall|k: int|
                0 <= k < before.len() && k != i ==> #[trigger] self@[k] == prior[k]);
            i = i + 1;
        }
        assert(self@ =~= in_each(before, f));
    }

    /// Follows changes of modes of `chan`.
    pub fn change_modes(&mut self, chan: &str, modes: &[Mode<ChannelMode>])
        requires
            each_once(old(self)@),
        ensures
            final(self)@ == after_modes(
                old(self)@,
                chan@,
                crate::proto::mode::mode_views(modes@),
            ),
    {
        let ghost before = self@;
        let ghost views = crate::proto::mode::mode_views(modes@);
        let mut m: usize = 0;
        assert(views.take(0) =~= seq![]);
        while m < modes.len()
            invariant
                m <= modes.len(),
                views == crate::proto::mode::mode_views(modes@),
                each_once(before),
                self@ == after_modes(before, chan@, views.take(m as int)),
            decreases modes.len() - m,
        {
            let ghost prior = self@;
            let ghost f = |us: Seq<UserView>| users_with_mode(us, views[m as int]);
            proof {
                modes_keep_names(before, chan@, views.take(m as int));
                assert(views.take(m + 1).drop_last() =~= views.take(m as int));
                assert(views.take(m + 1).last() == views[m as int]);
            }
            match self.find(chan) {
                Some(i) => {
                    change_mode(&mut self.entries[i].users, &modes[m]);
                    proof {
                        changed_at(prior, self@, i as int, f);
                    }
                },
                None => {
                    proof {
                        unchanged(prior, chan@, f);
                    }
                },
            }
            m = m + 1;
        }
        assert(views.take(m as int) =~= views);
    }

    /// Adds the users that a server lists for `chan`.
    pub fn add_names(&mut self, chan: &str, described: &Vec<String>)
        requires
            each_once(old(self)@),
        ensures
            final(self)@ == after_names(old(self)@, chan@, text::texts(described@)),
            each_once(final(self)@),
    {
        let ghost before = self@;
        let ghost words = text::texts(described@);
        let ghost f = |us: Seq<UserView>| us + users_described(words);
        let (fresh, at) = match self.find(chan) {
            Some(i) => (false, i),
            None => {
                self.entries.push(Channel { name: chan.to_owned(), users: Vec::new() });
                (true, self.entries.len() - 1)
            },
        };
        let ghost base = self@;
        let ghost had = base[at as int].users;
        proof {
            if fresh {
                assert(base[at as int].users =~= seq![]);
                assert(base =~= before.push(base[at as int]));
            }
        }
        let mut i: usize = 0;
        assert(had + users_described(words.take(0)) =~= had);
        while i < described.len()
            invariant
                i <= described.len(),
                at < self.entries.len(),
                words == text::texts(described@),
                self@.len() == base.len(),
                self@[at as int].name == base[at as int].name,
                self@[at as int].users == had + users_described(words.take(i as int)),
                forall|k: int|
                    0 <= k < base.len() && k != at ==> self@[k] == #[trigger] base[k],
            decreases described.len() - i,
        {
            let ghost prior = self@;
            self.entries[at].users.push(User::new(described[i].as_str()));
            proof {
                assert(words.take(i + 1) =~= words.take(i as int).push(words[i as int]));
                assert(self@[at as int].users =~= prior[at as int].users.push(
                    UserView::described(words[i as int]),
                ));
                assert(self@[at as int].users =~= had + users_described(words.take(i + 1)));
                assert(forall|k: int|
                    0 <= k < base.len() && k != at ==> self@[k] == #[trigger] prior[k]);
            }
            i = i + 1;
        }
        proof {
            assert(words.take(i as int) =~= words);
            lists_track_the_channel(before, chan@, words);
            if fresh {
                assert(had =~= seq![]);
                assert(self@[at as int].users =~= users_described(words));
                let added = ChannelView { name: chan@, users: users_described(words) };
                assert(self@[at as int] =~= added);
                assert forall|k: int| 0 <= k < before.len() implies self@[k] == before[k] by {
                    assert(self@[k] == base[k]);
                }
                assert(self@ =~= before.push(added));
            } else {
                assert(names(before)[at as int] == chan@);
                changed_at(before, self@, at as int, f);
            }
        }
    }

    /// Forgets `chan`.
    pub fn remove(&mut self, chan: &str)
        requires
            each_once(old(self)@),
        ensures
            final(self)@ == after_removal(old(self)@, chan@),
            each_once(final(self)@),
    {
        let ghost before = self@;
        let ghost keep = |c: ChannelView| c.name != chan@;
        match self.find(chan) {
            Some(i) => {
                self.entries.remove(i);
                proof {
                    assert(self@ =~= before.remove(i as int));
                    removed_at(before, i as int);
                }
            },
            None => {
                proof {
                    assert forall|k: int| 0 <= k < before.len() implies #[trigger] keep(
                        before[k],
                    ) by {
                        assert(names(before)[k] == before[k].name);
                    }
                    kept_all(before, keep);
                }
            },
        }
    }

    /// The names of the channels.
    pub fn list(&self) -> (r: Vec<String>)
        ensures
            text::texts(r@) == names(self@),
    {
        let mut r: Vec<String> = Vec::new();
        let mut i: usize = 0;
        while i < self.entries.len()
            invariant
                i <= self.entries.len(),
                text::texts(r@) == names(self@).take(i as int),
            decreases self.entries.len() - i,
        {
            let ghost before = text::texts(r@);
            r.push(self.entries[i].name.clone());
            assert(text::texts(r@) =~= before.push(names(self@)[i as int]));
            i = i + 1;
            assert(names(self@).take(i as int) =~= before.push(names(self@)[i - 1]));
        }
        assert(names(self@).take(i as int) =~= names(self@));
        r
    }

    /// The users of `chan`.
    pub fn users_of(&self, chan: &str) -> (r: Option<Vec<User>>)
        requires
            each_once(self@),
        ensures
            match r {
                Some(us) => self@.contains(
                    ChannelView {
                        name: chan@,
                        users: crate::client::data::user::user_views(us@),
                    },
                ),
                None => !names(self@).contains(chan@),
            },
    {
        match self.find(chan) {
            None => None,
            Some(at) => {
                let users = &self.entries[at].users;
                let ghost views = crate::client::data::user::user_views(users@);
                let mut r: Vec<User> = Vec::new();
                let mut i: usize = 0;
                while i < users.len()
                    invariant
                        i <= users.len(),
                        views == crate::client::data::user::user_views(users@),
                        crate::client::data::user::user_views(r@) == views.take(i as int),
                    decreases users.len() - i,
                {
                    let ghost before = crate::client::data::user::user_views(r@);
                    r.push(users[i].copy());
                    assert(crate::client::data::user::user_views(r@) =~= before.push(
                        views[i as int],
                    ));
                    i = i + 1;
                    assert(views.take(i as int) =~= before.push(views[i - 1]));
                }
                assert(views.take(i as int) =~= views);
                assert(self@[at as int] =~= ChannelView { name: chan@, users: views });
                Some(r)
            },
        }
    }
}

/// A filter that keeps everything changes nothing.
pub proof fn kept_all<A>(s: Seq<A>, keep: spec_fn(A) -> bool)
    requires
        forall|k: int| 0 <= k < s.len() ==> #[trigger] keep(s[k]),
    ensures
        s.filter(keep) == s,
    decreases s.len(),
{
    reveal(Seq::filter);
    if s.len() > 0 {
        let head = s.drop_last();
        assert forall|k: int| 0 <= k < head.len() implies #[trigger] keep(head[k]) by {
            assert(head[k] == s[k]);
        }
        kept_all(head, keep);
        assert(keep(s[s.len() - 1]));
        assert(head.push(s.last()) =~= s);
    }
}

/// The only user of a nickname is found.
proof fn found_at(users: Seq<UserView>, nick: Seq<char>, i: int, from: int)
    requires
        0 <= from <= i < users.len(),
        users[i].nickname == nick,
        forall|k: int| from <= k < i ==> (#[trigger] users[k]).nickname != nick,
    ensures
        position_from(users, nick, from) == Some(i),
    decreases i - from,
{
    if from < i {
        found_at(users, nick, i, from + 1);
    }
}

/// To leave a channel undoes joining it, for a user whose nickname no other of its users has.
pub proof fn parting_undoes_joining(lists: Seq<ChannelView>, src: Seq<char>, chan: Seq<char>)
    requires
        UserView::described(src).nickname == src,
        forall|i: int, k: int|
            0 <= i < lists.len() && lists[i].name == chan && 0 <= k < lists[i].users.len() ==> (
            #[trigger] lists[i].users[k]).nickname != src,
    ensures
        after_part(after_join(lists, src, chan), src, chan) == lists,
{
    let user = UserView::described(src);
    let joined = after_join(lists, src, chan);
    let parted = after_part(joined, src, chan);
    if src.len() > 0 {
        assert forall|i: int| 0 <= i < lists.len() implies parted[i] == lists[i] by {
            let users = lists[i].users;
            if lists[i].name == chan {
                assert forall|k: int| 0 <= k < users.len() implies (
                #[trigger] users[k]).nickname != src by {
                    assert(lists[i].users[k].nickname != src);
                }
                found_at(users.push(user), src, users.len() as int, 0);
                assert(crate::client::data::user::swap_removed(
                    users.push(user),
                    users.len() as int,
                ) =~= users);
                assert(parted[i] =~= lists[i]);
            }
        }
        assert(parted =~= lists);
    }
}

/// A user who leaves a channel, or the network, and is there only once is gone from it.
pub proof fn leaving_removes_the_user(users: Seq<UserView>, nick: Seq<char>, i: int)
    requires
        0 <= i < users.len(),
        users[i].nickname == nick,
        forall|k: int| 0 <= k < users.len() && k != i ==> (#[trigger] users[k]).nickname != nick,
    ensures
        without(users, nick).to_multiset() == users.to_multiset().remove(users[i]),
        forall|k: int|
            0 <= k < without(users, nick).len() ==> (#[trigger] without(users, nick)[k]).nickname
                != nick,
{
    broadcast use vstd::seq_lib::group_to_multiset_ensures;

    found_at(users, nick, i, 0);
    let last = users.last();
    let rest = users.drop_last();
    let after = without(users, nick);
    assert(rest.push(last) =~= users);
    if i == users.len() - 1 {
        assert(after =~= rest);
        assert(users.to_multiset() =~= rest.to_multiset().insert(last));
        assert(after.to_multiset() =~= users.to_multiset().remove(users[i]));
    } else {
        assert(after =~= rest.update(i, last));
        assert(after.to_multiset() =~= users.to_multiset().remove(users[i]));
    }
}

} // verus!
