//! Users of a channel.

use crate::proto::mode::{ChannelMode, Mode, ModeView};
use crate::text;
use vstd::prelude::*;

verus! {

/// How much a user may do in a channel.
#[derive(Debug, PartialEq, Eq, Clone, Copy, Structural)]
pub enum AccessLevel {
    Owner,
    Admin,
    Oper,
    HalfOp,
    Voice,
    Member,
}

impl AccessLevel {
    /// The place of a level, counted from that of a mere member.
    pub open spec fn rank(self) -> int {
        match self {
            AccessLevel::Owner => 5,
            AccessLevel::Admin => 4,
            AccessLevel::Oper => 3,
            AccessLevel::HalfOp => 2,
            AccessLevel::Voice => 1,
            AccessLevel::Member => 0,
        }
    }

    fn to_rank(&self) -> (r: u8)
        ensures
            r == self.rank(),
    {
        match self {
            AccessLevel::Owner => 5,
            AccessLevel::Admin => 4,
            AccessLevel::Oper => 3,
            AccessLevel::HalfOp => 2,
            AccessLevel::Voice => 1,
            AccessLevel::Member => 0,
        }
    }
}

/// The level that a character in front of a nickname stands for.
pub open spec fn level_of(c: char) -> Option<AccessLevel> {
    if c == '~' {
        Some(AccessLevel::Owner)
    } else if c == '&' {
        Some(AccessLevel::Admin)
    } else if c == '@' {
        Some(AccessLevel::Oper)
    } else if c == '%' {
        Some(AccessLevel::HalfOp)
    } else if c == '+' {
        Some(AccessLevel::Voice)
    } else {
        None
    }
}

fn read_level(c: char) -> (r: Option<AccessLevel>)
    ensures
        r == level_of(c),
{
    if c == '~' {
        Some(AccessLevel::Owner)
    } else if c == '&' {
        Some(AccessLevel::Admin)
    } else if c == '@' {
        Some(AccessLevel::Oper)
    } else if c == '%' {
        Some(AccessLevel::HalfOp)
    } else if c == '+' {
        Some(AccessLevel::Voice)
    } else {
        None
    }
}

/// The levels that stand in front of a nickname.
pub open spec fn leading_levels(s: Seq<char>) -> Seq<AccessLevel>
    decreases s.len(),
{
    if s.len() == 0 {
        seq![]
    } else {
        match level_of(s[0]) {
            Some(l) => seq![l] + leading_levels(s.drop_first()),
            None => seq![],
        }
    }
}

/// The highest of the levels, or that of a mere member where there are none.
pub open spec fn highest(levels: Seq<AccessLevel>) -> AccessLevel
    decreases levels.len(),
{
    if levels.len() == 0 {
        AccessLevel::Member
    } else {
        let m = highest(levels.drop_last());
        if levels.last().rank() > m.rank() {
            levels.last()
        } else {
            m
        }
    }
}

/// The first place, from `i` on, at which `level` stands.
pub open spec fn level_from(levels: Seq<AccessLevel>, level: AccessLevel, i: int) -> Option<int>
    decreases levels.len() - i,
{
    if i < 0 || i >= levels.len() {
        None
    } else if levels[i] == level {
        Some(i)
    } else {
        level_from(levels, level, i + 1)
    }
}

/// A sequence without what stands at `i`, whose place the last element takes.
pub open spec fn swap_removed<A>(s: Seq<A>, i: int) -> Seq<A> {
    s.update(i, s.last()).drop_last()
}

/// The level that a channel mode grants.
pub open spec fn level_granted(m: ChannelMode) -> Option<AccessLevel> {
    match m {
        ChannelMode::Founder => Some(AccessLevel::Owner),
        ChannelMode::Admin => Some(AccessLevel::Admin),
        ChannelMode::Oper => Some(AccessLevel::Oper),
        ChannelMode::Halfop => Some(AccessLevel::HalfOp),
        ChannelMode::Voice => Some(AccessLevel::Voice),
        _ => None,
    }
}

/// A user of a channel.
#[derive(Debug)]
pub struct User {
    nickname: String,
    username: Option<String>,
    hostname: Option<String>,
    levels: Vec<AccessLevel>,
}

/// What a [`User`] holds.
#[verifier::ext_equal]
pub struct UserView {
    pub nickname: Seq<char>,
    pub username: Option<Seq<char>>,
    pub hostname: Option<Seq<char>>,
    pub levels: Seq<AccessLevel>,
}

impl View for User {
    type V = UserView;

    closed spec fn view(&self) -> UserView {
        UserView {
            nickname: self.nickname@,
            username: text::opt_text(self.username),
            hostname: text::opt_text(self.hostname),
            levels: self.levels@,
        }
    }
}

/// What each user holds.
pub open spec fn user_views(v: Seq<User>) -> Seq<UserView> {
    v.map_values(|u: User| u@)
}

impl UserView {
    /// The user that `s` describes: the signs of the levels, the nickname and, behind `!`, the
    /// user name and the host with an `@` between them.
    pub open spec fn described(s: Seq<char>) -> UserView {
        let levels = leading_levels(s);
        let rest = s.skip(levels.len() as int);
        match text::find_from(rest, seq!['!'], 0) {
            None => UserView {
                nickname: rest,
                username: None,
                hostname: None,
                levels: levels.push(AccessLevel::Member),
            },
            Some(i) => {
                let address = rest.skip(i + 1);
                match text::find_from(address, seq!['@'], 0) {
                    None => UserView {
                        nickname: rest.take(i),
                        username: None,
                        hostname: None,
                        levels: levels.push(AccessLevel::Member),
                    },
                    Some(k) => UserView {
                        nickname: rest.take(i),
                        username: Some(address.take(k)),
                        hostname: Some(address.skip(k + 1)),
                        levels: levels.push(AccessLevel::Member),
                    },
                }
            },
        }
    }

    /// The user once a channel mode that names them has changed.
    pub open spec fn with_mode(self, mode: ModeView<ChannelMode>) -> UserView {
        match level_granted(mode.mode()) {
            None => self,
            Some(level) => match mode {
                ModeView::Plus(..) => UserView { levels: self.levels.push(level), ..self },
                ModeView::Minus(..) => match level_from(self.levels, level, 0) {
                    Some(i) => UserView { levels: swap_removed(self.levels, i), ..self },
                    None => self,
                },
            },
        }
    }
}

/// The first place at which `c` stands among the characters from `from` on.
fn find_char(x: &Vec<char>, c: char, from: usize) -> (r: Option<usize>)
    requires
        from <= x.len(),
    ensures
        match r {
            Some(i) => from <= i < x.len() && text::find_from(x@.skip(from as int), seq![c], 0)
                == Some(i - from),
            None => text::find_from(x@.skip(from as int), seq![c], 0) is None,
        },
{
    let ghost rest = x@.skip(from as int);
    let mut i: usize = from;
    while i < x.len()
        invariant
            from <= i <= x.len(),
            rest == x@.skip(from as int),
            text::find_from(rest, seq![c], 0) == text::find_from(rest, seq![c], i - from),
        decreases x.len() - i,
    {
        let ghost here = rest.subrange(i - from, i - from + 1);
        assert(here[0] == x@[i as int]);
        if x[i] == c {
            assert(here =~= seq![c]);
            return Some(i);
        }
        assert(!text::occurs_at(rest, seq![c], i - from)) by {
            assert(seq![c][0] == c);
        }
        i = i + 1;
    }
    None
}

impl User {
    /// The user that `string` describes, as a server lists users or names the source of a
    /// message.
    pub fn new(string: &str) -> (r: User)
        ensures
            r@ == UserView::described(string@),
    {
        let x = text::to_chars(string);
        let mut levels: Vec<AccessLevel> = Vec::new();
        let mut n: usize = 0;
        let ghost all = leading_levels(string@);
        let mut more = true;
        assert(string@.skip(0) =~= string@);
        while more && n < x.len()
            invariant
                x@ == string@,
                n <= x.len(),
                levels.len() == n,
                all == levels@ + leading_levels(string@.skip(n as int)),
                !more ==> leading_levels(string@.skip(n as int)) =~= seq![],
            decreases x.len() - n + (if more { 1int } else { 0int }),
        {
            let ghost rest = string@.skip(n as int);
            match read_level(x[n]) {
                Some(l) => {
                    assert(rest.drop_first() =~= string@.skip(n + 1));
                    assert(levels@ + (seq![l] + leading_levels(rest.drop_first())) =~= levels@.push(
                        l,
                    ) + leading_levels(rest.drop_first()));
                    levels.push(l);
                    n = n + 1;
                },
                None => {
                    more = false;
                },
            }
        }
        assert(all =~= levels@);
        levels.push(AccessLevel::Member);
        let len = x.len();
        let ghost rest = string@.skip(n as int);
        match find_char(&x, '!', n) {
            None => {
                assert(rest =~= string@.subrange(n as int, len as int));
                User {
                    nickname: string.substring_char(n, len).to_owned(),
                    username: None,
                    hostname: None,
                    levels,
                }
            },
            Some(i) => {
                assert(rest.take(i - n) =~= string@.subrange(n as int, i as int));
                assert(rest.skip(i - n + 1) =~= string@.skip(i + 1));
                let nickname = string.substring_char(n, i).to_owned();
                match find_char(&x, '@', i + 1) {
                    None => User { nickname, username: None, hostname: None, levels },
                    Some(k) => {
                        let ghost address = string@.skip(i + 1);
                        assert(address.take(k - i - 1) =~= string@.subrange(i + 1, k as int));
                        assert(address.skip(k - i - 1 + 1) =~= string@.subrange(
                            k + 1,
                            len as int,
                        ));
                        User {
                            nickname,
                            username: Some(string.substring_char(i + 1, k).to_owned()),
                            hostname: Some(string.substring_char(k + 1, len).to_owned()),
                            levels,
                        }
                    },
                }
            },
        }
    }

    /// The nickname.
    pub fn get_nickname(&self) -> (r: &str)
        ensures
            r@ == self@.nickname,
    {
        self.nickname.as_str()
    }

    /// The user name, where it is known.
    pub fn get_username(&self) -> (r: Option<&str>)
        ensures
            match r {
                Some(s) => self@.username == Some(s@),
                None => self@.username is None,
            },
    {
        match &self.username {
            Some(s) => Some(s.as_str()),
            None => None,
        }
    }

    /// The host, where it is known.
    pub fn get_hostname(&self) -> (r: Option<&str>)
        ensures
            match r {
                Some(s) => self@.hostname == Some(s@),
                None => self@.hostname is None,
            },
    {
        match &self.hostname {
            Some(s) => Some(s.as_str()),
            None => None,
        }
    }

    /// The levels of the user in their channel.
    pub fn access_levels(&self) -> (r: Vec<AccessLevel>)
        ensures
            r@ == self@.levels,
    {
        let mut r: Vec<AccessLevel> = Vec::new();
        let mut i: usize = 0;
        while i < self.levels.len()
            invariant
                i <= self.levels.len(),
                r@ == self.levels@.take(i as int),
            decreases self.levels.len() - i,
        {
            r.push(self.levels[i]);
            i = i + 1;
        }
        r
    }

    /// The highest of the levels.
    pub fn highest_access_level(&self) -> (r: AccessLevel)
        ensures
            r == highest(self@.levels),
    {
        let mut r = AccessLevel::Member;
        let mut i: usize = 0;
        assert(self.levels@.take(0) =~= seq![]);
        while i < self.levels.len()
            invariant
                i <= self.levels.len(),
                r == highest(self.levels@.take(i as int)),
            decreases self.levels.len() - i,
        {
            assert(self.levels@.take(i + 1).drop_last() =~= self.levels@.take(i as int));
            if self.levels[i].to_rank() > r.to_rank() {
                r = self.levels[i];
            }
            i = i + 1;
        }
        assert(self.levels@.take(i as int) =~= self.levels@);
        r
    }

    /// Follows a change of a channel mode that names this user.
    pub fn update_access_level(&mut self, mode: &Mode<ChannelMode>)
        ensures
            final(self)@ == old(self)@.with_mode(mode@),
    {
        let (plus, m) = match mode {
            Mode::Plus(m, _) => (true, *m),
            Mode::Minus(m, _) => (false, *m),
        };
        let level = match m {
            ChannelMode::Founder => AccessLevel::Owner,
            ChannelMode::Admin => AccessLevel::Admin,
            ChannelMode::Oper => AccessLevel::Oper,
            ChannelMode::Halfop => AccessLevel::HalfOp,
            ChannelMode::Voice => AccessLevel::Voice,
            _ => {
                return ;
            },
        };
        if plus {
            self.levels.push(level);
            return ;
        }
        let ghost before = self.levels@;
        let mut i: usize = 0;
        while i < self.levels.len()
            invariant
                self.levels@ == before,
                *self == *old(self),
                level_granted(mode@.mode()) == Some(level),
                mode@ is Minus,
                i <= self.levels.len(),
                level_from(before, level, 0) == level_from(before, level, i as int),
            decreases self.levels.len() - i,
        {
            if self.levels[i] == level {
                self.levels.swap_remove(i);
                return ;
            }
            i = i + 1;
        }
    }

    /// Copies the user.
    pub fn copy(&self) -> (r: User)
        ensures
            r@ == self@,
    {
        User {
            nickname: self.nickname.clone(),
            username: text::copy_opt(&self.username),
            hostname: text::copy_opt(&self.hostname),
            levels: self.access_levels(),
        }
    }
}

fn same_opt(a: Option<&str>, b: Option<&str>) -> (r: bool)
    ensures
        r == match (a, b) {
            (Some(x), Some(y)) => x@ == y@,
            (None, None) => true,
            _ => false,
        },
{
    match (a, b) {
        (Some(x), Some(y)) => text::same(x, y),
        (None, None) => true,
        _ => false,
    }
}

impl PartialEq for User {
    /// Users are the same by name: their levels do not count.
    fn eq(&self, other: &User) -> (r: bool) {
        text::same(self.get_nickname(), other.get_nickname()) && same_opt(
            self.get_username(),
            other.get_username(),
        ) && same_opt(self.get_hostname(), other.get_hostname())
    }
}

impl vstd::std_specs::cmp::PartialEqSpecImpl for User {
    open spec fn obeys_eq_spec() -> bool {
        true
    }

    open spec fn eq_spec(&self, other: &User) -> bool {
        &&& self@.nickname == other@.nickname
        &&& self@.username == other@.username
        &&& self@.hostname == other@.hostname
    }
}

/// The signs of the levels, and how the levels are ordered.
pub proof fn signs_of_levels(c: char)
    ensures
        level_of('~') == Some(AccessLevel::Owner),
        level_of('&') == Some(AccessLevel::Admin),
        level_of('@') == Some(AccessLevel::Oper),
        level_of('%') == Some(AccessLevel::HalfOp),
        level_of('+') == Some(AccessLevel::Voice),
        level_of(c) is Some ==> c == '~' || c == '&' || c == '@' || c == '%' || c == '+',
        AccessLevel::Owner.rank() > AccessLevel::Admin.rank(),
        AccessLevel::Admin.rank() > AccessLevel::Oper.rank(),
        AccessLevel::Oper.rank() > AccessLevel::HalfOp.rank(),
        AccessLevel::HalfOp.rank() > AccessLevel::Voice.rank(),
        AccessLevel::Voice.rank() > AccessLevel::Member.rank(),
{
}

/// A sign in front of a description adds its level in front of the others, and changes nothing
/// else.
pub proof fn a_sign_in_front(c: char, rest: Seq<char>)
    requires
        level_of(c) is Some,
    ensures
        ({
            let with = UserView::described(seq![c] + rest);
            let without = UserView::described(rest);
            &&& with.levels == seq![level_of(c)->0] + without.levels
            &&& with.nickname == without.nickname
            &&& with.username == without.username
            &&& with.hostname == without.hostname
        }),
{
    let all = seq![c] + rest;
    assert(all.drop_first() =~= rest);
    levels_are_no_longer(rest);
    let n = leading_levels(rest).len() as int;
    assert(all.skip(n + 1) =~= rest.skip(n));
    assert(seq![level_of(c)->0] + leading_levels(rest).push(AccessLevel::Member) =~= (
    seq![level_of(c)->0] + leading_levels(rest)).push(AccessLevel::Member));
}

/// There are no more levels than signs.
proof fn levels_are_no_longer(s: Seq<char>)
    ensures
        leading_levels(s).len() <= s.len(),
    decreases s.len(),
{
    if s.len() > 0 {
        levels_are_no_longer(s.drop_first());
    }
}

/// A single character is found where it first stands.
proof fn found_char(s: Seq<char>, c: char, i: int)
    requires
        0 <= i <= s.len(),
        forall|k: int| 0 <= k < i ==> #[trigger] s[k] != c,
        i < s.len() ==> s[i] == c,
    ensures
        text::find_from(s, seq![c], 0) == if i < s.len() {
            Some(i)
        } else {
            None
        },
{
    text::found_first(s, seq![c], 0);
    if let Some(j) = text::find_from(s, seq![c], 0) {
        text::occurring(s, seq![c], j);
        assert(s[j + 0] == seq![c][0]);
    }
    if i < s.len() {
        text::occurring(s, seq![c], i);
        assert(text::occurs_at(s, seq![c], i));
    }
}

/// A description without signs: a nickname alone, or a nickname and an address behind it. Whoever
/// is described is a member.
pub proof fn descriptions(nick: Seq<char>, user: Seq<char>, host: Seq<char>)
    requires
        nick.len() > 0,
        level_of(nick[0]) is None,
        !nick.contains('!'),
        !user.contains('@'),
    ensures
        UserView::described(nick) == (UserView {
            nickname: nick,
            username: None,
            hostname: None,
            levels: seq![AccessLevel::Member],
        }),
        UserView::described(nick + seq!['!'] + user + seq!['@'] + host) == (UserView {
            nickname: nick,
            username: Some(user),
            hostname: Some(host),
            levels: seq![AccessLevel::Member],
        }),
        UserView::described(nick + seq!['!'] + user) == (UserView {
            nickname: nick,
            username: None,
            hostname: None,
            levels: seq![AccessLevel::Member],
        }),
{
    let one = seq![AccessLevel::Member];
    assert(Seq::<AccessLevel>::empty().push(AccessLevel::Member) =~= one);
    let n = nick.len() as int;
    assert forall|k: int| 0 <= k < n implies #[trigger] nick[k] != '!' by {
        assert(nick.contains(nick[k]));
    }
    assert forall|k: int| 0 <= k < user.len() implies #[trigger] user[k] != '@' by {
        assert(user.contains(user[k]));
    }
    assert(nick.skip(0) =~= nick);
    found_char(nick, '!', n);
    let full = nick + seq!['!'] + user + seq!['@'] + host;
    assert(full[0] == nick[0]);
    assert(full.skip(0) =~= full);
    assert forall|k: int| 0 <= k < n implies #[trigger] full[k] != '!' by {
        assert(full[k] == nick[k]);
    }
    found_char(full, '!', n);
    let address = full.skip(n + 1);
    assert(address =~= user + seq!['@'] + host);
    assert forall|k: int| 0 <= k < user.len() implies #[trigger] address[k] != '@' by {
        assert(address[k] == user[k]);
    }
    found_char(address, '@', user.len() as int);
    assert(full.take(n) =~= nick);
    assert(address.take(user.len() as int) =~= user);
    assert(address.skip((user.len() + 1) as int) =~= host);
    let half = nick + seq!['!'] + user;
    assert(half[0] == nick[0]);
    assert(half.skip(0) =~= half);
    assert forall|k: int| 0 <= k < n implies #[trigger] half[k] != '!' by {
        assert(half[k] == nick[k]);
    }
    found_char(half, '!', n);
    assert(half.skip(n + 1) =~= user);
    found_char(user, '@', user.len() as int);
    assert(half.take(n) =~= nick);
}

/// A mode of a channel adds the level that it grants, or takes the first such level away, and the
/// last level comes in its place. A mode that grants none changes nothing, and none changes who the
/// user is.
pub proof fn modes_change_levels(
    user: UserView,
    m: ChannelMode,
    level: AccessLevel,
    arg: Option<Seq<char>>,
    i: int,
)
    ensures
        ({
            let grants = {
                ||| m == ChannelMode::Founder && level == AccessLevel::Owner
                ||| m == ChannelMode::Admin && level == AccessLevel::Admin
                ||| m == ChannelMode::Oper && level == AccessLevel::Oper
                ||| m == ChannelMode::Halfop && level == AccessLevel::HalfOp
                ||| m == ChannelMode::Voice && level == AccessLevel::Voice
            };
            let plus = user.with_mode(ModeView::Plus(m, arg));
            let minus = user.with_mode(ModeView::Minus(m, arg));
            &&& plus.nickname == user.nickname && minus.nickname == user.nickname
            &&& plus.username == user.username && minus.username == user.username
            &&& plus.hostname == user.hostname && minus.hostname == user.hostname
            &&& grants ==> plus.levels == user.levels.push(level)
            &&& grants && !user.levels.contains(level) ==> minus.levels == user.levels
            &&& grants && 0 <= i < user.levels.len() && user.levels[i] == level && (forall|k: int|
                0 <= k < i ==> #[trigger] user.levels[k] != level) ==> {
                &&& minus.levels.len() == user.levels.len() - 1
                &&& forall|k: int|
                    0 <= k < minus.levels.len() && k != i ==> #[trigger] minus.levels[k]
                        == user.levels[k]
                &&& i < minus.levels.len() ==> minus.levels[i] == user.levels.last()
            }
            &&& m != ChannelMode::Founder && m != ChannelMode::Admin && m != ChannelMode::Oper && m
                != ChannelMode::Halfop && m != ChannelMode::Voice ==> plus == user && minus == user
        }),
{
    first_level(user.levels, level, 0);
}

/// The first place of a level is where it is found.
proof fn first_level(levels: Seq<AccessLevel>, level: AccessLevel, from: int)
    requires
        0 <= from,
    ensures
        match level_from(levels, level, from) {
            Some(i) => from <= i < levels.len() && levels[i] == level && forall|k: int|
                from <= k < i ==> #[trigger] levels[k] != level,
            None => forall|k: int| from <= k < levels.len() ==> #[trigger] levels[k] != level,
        },
    decreases levels.len() - from,
{
    if from < levels.len() && levels[from] != level {
        first_level(levels, level, from + 1);
    }
}

/// The highest level of a user is one of the levels, and none is above it; that of a user without
/// levels is that of a member.
pub proof fn highest_of_levels(levels: Seq<AccessLevel>, i: int)
    requires
        levels.len() > 0 ==> 0 <= i < levels.len(),
    ensures
        levels.len() == 0 ==> highest(levels) == AccessLevel::Member,
        levels.len() > 0 ==> highest(levels).rank() >= levels[i].rank(),
        levels.len() > 0 ==> levels.contains(highest(levels)) || highest(levels)
            == AccessLevel::Member,
    decreases levels.len(),
{
    if levels.len() > 0 {
        let head = levels.drop_last();
        if head.len() > 0 {
            highest_of_levels(
                head,
                if i < head.len() {
                    i
                } else {
                    0
                },
            );
            if head.contains(highest(head)) {
                let k = choose|k: int| 0 <= k < head.len() && head[k] == highest(head);
                assert(levels[k] == highest(head));
            }
        }
        assert(levels[levels.len() - 1] == levels.last());
    }
}

} // verus!
