//! Modes of channels and of users.

use crate::proto::command::{Command, CommandView};
use crate::text;
use vstd::prelude::*;

verus! {

/// A mode of a channel.
#[derive(Debug, PartialEq, Eq, Clone, Copy, Structural)]
pub enum ChannelMode {
    Ban,
    Exception,
    Limit,
    InviteOnly,
    InviteException,
    Key,
    Moderated,
    RegisteredOnly,
    Secret,
    ProtectedTopic,
    NoExternalMessages,
    Founder,
    Admin,
    Oper,
    Halfop,
    Voice,
    Unknown(char),
}

/// A mode of a user.
#[derive(Debug, PartialEq, Eq, Clone, Copy, Structural)]
pub enum UserMode {
    Away,
    Invisible,
    Wallops,
    Restricted,
    Oper,
    LocalOper,
    ServerNotices,
    MaskedHost,
    Unknown(char),
}

/// A mode that is set or cleared, with the argument that goes with it.
#[derive(Debug, PartialEq, Eq, Clone)]
pub enum Mode<T> {
    Plus(T, Option<String>),
    Minus(T, Option<String>),
}

/// What a [`Mode`] holds.
pub enum ModeView<T> {
    Plus(T, Option<Seq<char>>),
    Minus(T, Option<Seq<char>>),
}

impl<T> View for Mode<T> {
    type V = ModeView<T>;

    open spec fn view(&self) -> ModeView<T> {
        match self {
            Mode::Plus(m, a) => ModeView::Plus(*m, text::opt_text(*a)),
            Mode::Minus(m, a) => ModeView::Minus(*m, text::opt_text(*a)),
        }
    }
}

impl<T> ModeView<T> {
    /// Which mode it is.
    pub open spec fn mode(self) -> T {
        match self {
            ModeView::Plus(m, _) => m,
            ModeView::Minus(m, _) => m,
        }
    }

    /// The argument.
    pub open spec fn arg(self) -> Option<Seq<char>> {
        match self {
            ModeView::Plus(_, a) => a,
            ModeView::Minus(_, a) => a,
        }
    }

    /// The sign of the change.
    pub open spec fn sign(self) -> char {
        match self {
            ModeView::Plus(..) => '+',
            ModeView::Minus(..) => '-',
        }
    }
}

/// What each mode holds.
pub open spec fn mode_views<T>(modes: Seq<Mode<T>>) -> Seq<ModeView<T>> {
    modes.map_values(|m: Mode<T>| m@)
}

/// A kind of mode: what a target has to be to have it, and how it is written.
pub trait ModeType: Sized + Copy {
    /// The letter of a mode.
    spec fn letter(self) -> char;

    /// The command that changes `modes` of `target`.
    spec fn change(target: Seq<char>, modes: Seq<ModeView<Self>>) -> CommandView;

    /// The letter of this mode.
    fn to_letter(&self) -> (c: char)
        ensures
            c == self.letter(),
    ;

    /// The command that changes `modes` of `target`.
    fn mode(target: &str, modes: &[Mode<Self>]) -> (r: Command)
        ensures
            r@ == Self::change(target@, mode_views(modes@)),
    ;
}

impl ModeType for ChannelMode {
    open spec fn letter(self) -> char {
        match self {
            ChannelMode::Ban => 'b',
            ChannelMode::Exception => 'e',
            ChannelMode::Limit => 'l',
            ChannelMode::InviteOnly => 'i',
            ChannelMode::InviteException => 'I',
            ChannelMode::Key => 'k',
            ChannelMode::Moderated => 'm',
            ChannelMode::RegisteredOnly => 'r',
            ChannelMode::Secret => 's',
            ChannelMode::ProtectedTopic => 't',
            ChannelMode::NoExternalMessages => 'n',
            ChannelMode::Founder => 'q',
            ChannelMode::Admin => 'a',
            ChannelMode::Oper => 'o',
            ChannelMode::Halfop => 'h',
            ChannelMode::Voice => 'v',
            ChannelMode::Unknown(c) => c,
        }
    }

    open spec fn change(target: Seq<char>, modes: Seq<ModeView<ChannelMode>>) -> CommandView {
        CommandView::ChannelMODE(target, modes)
    }

    fn to_letter(&self) -> (c: char) {
        match self {
            ChannelMode::Ban => 'b',
            ChannelMode::Exception => 'e',
            ChannelMode::Limit => 'l',
            ChannelMode::InviteOnly => 'i',
            ChannelMode::InviteException => 'I',
            ChannelMode::Key => 'k',
            ChannelMode::Moderated => 'm',
            ChannelMode::RegisteredOnly => 'r',
            ChannelMode::Secret => 's',
            ChannelMode::ProtectedTopic => 't',
            ChannelMode::NoExternalMessages => 'n',
            ChannelMode::Founder => 'q',
            ChannelMode::Admin => 'a',
            ChannelMode::Oper => 'o',
            ChannelMode::Halfop => 'h',
            ChannelMode::Voice => 'v',
            ChannelMode::Unknown(c) => *c,
        }
    }

    fn mode(target: &str, modes: &[Mode<ChannelMode>]) -> (r: Command) {
        Command::ChannelMODE(target.to_owned(), copy_modes(modes))
    }
}

impl ModeType for UserMode {
    open spec fn letter(self) -> char {
        match self {
            UserMode::Away => 'a',
            UserMode::Invisible => 'i',
            UserMode::Wallops => 'w',
            UserMode::Restricted => 'r',
            UserMode::Oper => 'o',
            UserMode::LocalOper => 'O',
            UserMode::ServerNotices => 's',
            UserMode::MaskedHost => 'x',
            UserMode::Unknown(c) => c,
        }
    }

    open spec fn change(target: Seq<char>, modes: Seq<ModeView<UserMode>>) -> CommandView {
        CommandView::UserMODE(target, modes)
    }

    fn to_letter(&self) -> (c: char) {
        match self {
            UserMode::Away => 'a',
            UserMode::Invisible => 'i',
            UserMode::Wallops => 'w',
            UserMode::Restricted => 'r',
            UserMode::Oper => 'o',
            UserMode::LocalOper => 'O',
            UserMode::ServerNotices => 's',
            UserMode::MaskedHost => 'x',
            UserMode::Unknown(c) => *c,
        }
    }

    fn mode(target: &str, modes: &[Mode<UserMode>]) -> (r: Command) {
        Command::UserMODE(target.to_owned(), copy_modes(modes))
    }
}

/// Copies a list of modes.
fn copy_modes<T: Copy>(modes: &[Mode<T>]) -> (r: Vec<Mode<T>>)
    ensures
        mode_views(r@) == mode_views(modes@),
{
    let mut r: Vec<Mode<T>> = Vec::new();
    let mut i: usize = 0;
    while i < modes.len()
        invariant
            i <= modes.len(),
            mode_views(r@) == mode_views(modes@).take(i as int),
        decreases modes.len() - i,
    {
        let ghost before = mode_views(r@);
        let m = match &modes[i] {
            Mode::Plus(m, a) => Mode::Plus(*m, text::copy_opt(a)),
            Mode::Minus(m, a) => Mode::Minus(*m, text::copy_opt(a)),
        };
        r.push(m);
        assert(mode_views(r@) =~= before.push(modes@[i as int]@));
        i = i + 1;
        assert(mode_views(modes@).take(i as int) =~= before.push(modes@[i - 1]@));
    }
    assert(mode_views(modes@).take(i as int) =~= mode_views(modes@));
    r
}

/// The signs and letters of the modes, one behind the other.
pub open spec fn flags<T: ModeType>(modes: Seq<ModeView<T>>) -> Seq<char>
    decreases modes.len(),
{
    if modes.len() == 0 {
        seq![]
    } else {
        flags(modes.drop_last()).push(modes.last().sign()).push(modes.last().mode().letter())
    }
}

/// The arguments of those modes that have one.
pub open spec fn args<T>(modes: Seq<ModeView<T>>) -> Seq<Seq<char>>
    decreases modes.len(),
{
    if modes.len() == 0 {
        seq![]
    } else {
        match modes.last().arg() {
            Some(a) => args(modes.drop_last()).push(a),
            None => args(modes.drop_last()),
        }
    }
}

/// The parameters of a `MODE` command behind its target: what changes, then the arguments.
pub open spec fn mode_params<T: ModeType>(modes: Seq<ModeView<T>>) -> Seq<Seq<char>> {
    if modes.len() == 0 {
        seq![]
    } else {
        seq![flags(modes)] + args(modes)
    }
}

/// Writes the parameters of a `MODE` command behind its target.
pub fn write_modes<T: ModeType>(modes: &Vec<Mode<T>>) -> (r: Vec<String>)
    ensures
        text::texts(r@) == mode_params(mode_views(modes@)),
{
    let ghost views = mode_views(modes@);
    let mut letters = String::new();
    let mut rest: Vec<String> = Vec::new();
    let mut i: usize = 0;
    assert(views.take(0) =~= seq![]);
    while i < modes.len()
        invariant
            i <= modes.len(),
            views == mode_views(modes@),
            letters@ == flags(views.take(i as int)),
            text::texts(rest@) == args(views.take(i as int)),
        decreases modes.len() - i,
    {
        let ghost before = text::texts(rest@);
        assert(views.take(i + 1).drop_last() =~= views.take(i as int));
        let (sign, m, a) = match &modes[i] {
            Mode::Plus(m, a) => ('+', m, a),
            Mode::Minus(m, a) => ('-', m, a),
        };
        letters.push(sign);
        letters.push(m.to_letter());
        match a {
            Some(s) => {
                rest.push(s.clone());
                assert(text::texts(rest@) =~= before.push(s@));
            },
            None => {},
        }
        i = i + 1;
    }
    assert(views.take(i as int) =~= views);
    let mut r: Vec<String> = Vec::new();
    if modes.len() > 0 {
        r.push(letters);
        let ghost tail = text::texts(rest@);
        r.append(&mut rest);
        assert(text::texts(r@) =~= seq![letters@] + tail);
    }
    r
}

/// Why a string of modes cannot be read.
#[derive(Debug, PartialEq, Eq, Clone)]
pub enum ModeParseError {
    /// It begins with a character that is no sign.
    InvalidModeModifier { modifier: char },
    /// It does not begin with a sign.
    MissingModeModifier,
}

/// A message, or a part of one, that cannot be read.
#[derive(Debug, PartialEq, Eq, Clone)]
pub enum MessageParseError {
    /// The string of modes, and what is wrong with it.
    InvalidModeString { string: String, cause: ModeParseError },
}

/// What a [`MessageParseError`] holds.
pub enum MessageParseErrorView {
    InvalidModeString { string: Seq<char>, cause: ModeParseError },
}

impl View for MessageParseError {
    type V = MessageParseErrorView;

    open spec fn view(&self) -> MessageParseErrorView {
        match self {
            MessageParseError::InvalidModeString { string, cause } =>
                MessageParseErrorView::InvalidModeString { string: string@, cause: *cause },
        }
    }
}

/// Whether `c` is a sign.
pub open spec fn is_sign(c: char) -> bool {
    c == '+' || c == '-'
}

/// The last sign in `s`, or a plus where there is none.
pub open spec fn last_sign(s: Seq<char>) -> char
    decreases s.len(),
{
    if s.len() == 0 {
        '+'
    } else if is_sign(s.last()) {
        s.last()
    } else {
        last_sign(s.drop_last())
    }
}

/// The user mode with the letter `c`.
pub open spec fn user_mode(c: char) -> UserMode {
    if c == 'a' {
        UserMode::Away
    } else if c == 'i' {
        UserMode::Invisible
    } else if c == 'w' {
        UserMode::Wallops
    } else if c == 'r' {
        UserMode::Restricted
    } else if c == 'o' {
        UserMode::Oper
    } else if c == 'O' {
        UserMode::LocalOper
    } else if c == 's' {
        UserMode::ServerNotices
    } else if c == 'x' {
        UserMode::MaskedHost
    } else {
        UserMode::Unknown(c)
    }
}

/// The user modes that `s` sets and clears: one for each letter, under the last sign before it.
pub open spec fn signed_modes(s: Seq<char>) -> Seq<ModeView<UserMode>>
    decreases s.len(),
{
    if s.len() == 0 {
        seq![]
    } else if is_sign(s.last()) {
        signed_modes(s.drop_last())
    } else {
        signed_modes(s.drop_last()).push(
            if last_sign(s.drop_last()) == '-' {
                ModeView::Minus(user_mode(s.last()), None)
            } else {
                ModeView::Plus(user_mode(s.last()), None)
            },
        )
    }
}

/// The user modes that the pieces of a mode string stand for. User modes take no argument, so
/// that only the first piece counts, and it has to begin with a sign.
pub open spec fn user_modes(pieces: Seq<Seq<char>>) -> Result<
    Seq<ModeView<UserMode>>,
    MessageParseErrorView,
> {
    if pieces.len() == 0 {
        Ok(seq![])
    } else if pieces[0].len() == 0 {
        Err(
            MessageParseErrorView::InvalidModeString {
                string: text::joined(pieces, " "@),
                cause: ModeParseError::MissingModeModifier,
            },
        )
    } else if !is_sign(pieces[0][0]) {
        Err(
            MessageParseErrorView::InvalidModeString {
                string: text::joined(pieces, " "@),
                cause: ModeParseError::InvalidModeModifier { modifier: pieces[0][0] },
            },
        )
    } else {
        Ok(signed_modes(pieces[0]))
    }
}

/// The user mode with the letter `c`.
fn read_user_mode(c: char) -> (r: UserMode)
    ensures
        r == user_mode(c),
{
    if c == 'a' {
        UserMode::Away
    } else if c == 'i' {
        UserMode::Invisible
    } else if c == 'w' {
        UserMode::Wallops
    } else if c == 'r' {
        UserMode::Restricted
    } else if c == 'o' {
        UserMode::Oper
    } else if c == 'O' {
        UserMode::LocalOper
    } else if c == 's' {
        UserMode::ServerNotices
    } else if c == 'x' {
        UserMode::MaskedHost
    } else {
        UserMode::Unknown(c)
    }
}

impl Mode<UserMode> {
    /// Reads user modes from the pieces of a mode string.
    pub fn as_user_modes(pieces: &Vec<String>) -> (r: Result<
        Vec<Mode<UserMode>>,
        MessageParseError,
    >)
        ensures
            match r {
                Ok(modes) => user_modes(text::texts(pieces@)) == Ok::<
                    Seq<ModeView<UserMode>>,
                    MessageParseErrorView,
                >(mode_views(modes@)),
                Err(e) => user_modes(text::texts(pieces@)) == Err::<
                    Seq<ModeView<UserMode>>,
                    MessageParseErrorView,
                >(e@),
            },
    {
        let mut res: Vec<Mode<UserMode>> = Vec::new();
        assert(mode_views(res@) =~= seq![]);
        if pieces.len() == 0 {
            return Ok(res);
        }
        let ghost all = text::texts(pieces@);
        let first = text::to_chars(pieces[0].as_str());
        if first.len() == 0 {
            return Err(
                MessageParseError::InvalidModeString {
                    string: text::join(pieces, " "),
                    cause: ModeParseError::MissingModeModifier,
                },
            );
        }
        if first[0] != '+' && first[0] != '-' {
            return Err(
                MessageParseError::InvalidModeString {
                    string: text::join(pieces, " "),
                    cause: ModeParseError::InvalidModeModifier { modifier: first[0] },
                },
            );
        }
        let mut minus = false;
        let mut i: usize = 0;
        assert(first@.take(0) =~= seq![]);
        while i < first.len()
            invariant
                i <= first.len(),
                minus == (last_sign(first@.take(i as int)) == '-'),
                mode_views(res@) == signed_modes(first@.take(i as int)),
            decreases first.len() - i,
        {
            let ghost before = mode_views(res@);
            assert(first@.take(i + 1).drop_last() =~= first@.take(i as int));
            let c = first[i];
            if c == '+' {
                minus = false;
            } else if c == '-' {
                minus = true;
            } else {
                let m = read_user_mode(c);
                let entry = if minus {
                    Mode::Minus(m, None)
                } else {
                    Mode::Plus(m, None)
                };
                res.push(entry);
                assert(mode_views(res@) =~= before.push(entry@));
            }
            i = i + 1;
        }
        assert(first@.take(i as int) =~= first@);
        Ok(res)
    }
}

} // verus!
