//! The state of a connection: what a client does with the messages it receives.

use crate::client::channels::{ChannelLists, ChannelView};
use crate::client::clock;
use crate::client::data::config::{Config, ConfigView};
use crate::client::data::user::User;
use crate::client::joins::{self, Batch, BatchView};
use crate::client::keys::ChannelKeys;
use crate::client::sender::{mark, with_text, LineKind, Sender, SenderView};
use crate::error::{Error, ErrorView};
use crate::proto::caps::CapSubCommand;
use crate::proto::command::{Command, CommandView};
use crate::proto::message::{Message, MessageView};
use crate::proto::mode::{ChannelMode, Mode, ModeType, UserMode};
use crate::proto::response::Response;
use crate::text;
use vstd::prelude::*;

verus! {

/// What a client is asked to do beyond sending and receiving.
#[derive(Debug, Clone, Copy, PartialEq, Eq, Structural)]
pub struct Features {
    /// Whether it keeps track of the users of channels.
    pub channel_lists: bool,
    /// Whether it answers requests of the client-to-client protocol.
    pub ctcp: bool,
}

/// The state of a connection.
pub struct ClientState {
    sender: Sender,
    config: Config,
    features: Features,
    chanlists: ChannelLists,
    /// Which nickname is in use: none of the alternatives, or the one before this place.
    alt_nick_index: usize,
}

/// What a [`ClientState`] holds.
#[verifier::ext_equal]
pub struct StateView {
    pub sender: SenderView,
    pub config: ConfigView,
    pub features: Features,
    pub lists: Seq<ChannelView>,
    pub index: nat,
}

impl View for ClientState {
    type V = StateView;

    closed spec fn view(&self) -> StateView {
        StateView {
            sender: self.sender@,
            config: self.config@,
            features: self.features,
            lists: self.chanlists@,
            index: self.alt_nick_index as nat,
        }
    }
}

/// What the client sends on some occasion: messages, up to the first that the queue does not
/// take; what comes of it where all were taken; and the nickname that is in use from some message
/// on.
#[verifier::ext_equal]
pub struct Script {
    /// The messages.
    pub plan: Seq<MessageView>,
    /// What comes of it where all of them were taken.
    pub end: Result<(), ErrorView>,
    /// The index of the nickname once so many of them were taken.
    pub turn: Option<(nat, nat)>,
}

impl Script {
    /// Nothing is sent.
    pub open spec fn quiet() -> Script {
        Script { plan: seq![], end: Ok(()), turn: None }
    }

    /// The messages are sent.
    pub open spec fn says(plan: Seq<MessageView>) -> Script {
        Script { plan, end: Ok(()), turn: None }
    }

    /// Nothing is sent, and an error comes of it.
    pub open spec fn fails(e: ErrorView) -> Script {
        Script { plan: seq![], end: Err(e), turn: None }
    }

    /// From now on another nickname is in use.
    pub open spec fn turns(index: nat) -> Script {
        Script { plan: seq![], end: Ok(()), turn: Some((0, index)) }
    }

    /// This script, and the next one if no error came of this one.
    pub open spec fn followed_by(self, next: Script) -> Script {
        if self.end is Err {
            self
        } else {
            Script {
                plan: self.plan + next.plan,
                end: next.end,
                turn: match next.turn {
                    Some((at, index)) => Some((self.plan.len() + at, index)),
                    None => self.turn,
                },
            }
        }
    }

    /// What comes of it where the queue takes `n` messages.
    pub open spec fn outcome(self, n: nat) -> Result<(), ErrorView> {
        if n < self.plan.len() {
            Err(ErrorView::AsyncChannelClosed)
        } else {
            self.end
        }
    }

    /// The index of the nickname where it was `index` and the queue takes `n` messages.
    pub open spec fn index_after(self, index: nat, n: nat) -> nat {
        match self.turn {
            Some((at, i)) => if at <= n {
                i
            } else {
                index
            },
            None => index,
        }
    }

    /// The index of the nickname where it was `index` and all messages are taken.
    pub open spec fn last_index(self, index: nat) -> nat {
        self.index_after(index, self.plan.len())
    }
}

impl StateView {
    /// What holds of every state: no channel is tracked twice, the nickname in use is one of the
    /// configured, and nothing is tracked where nothing is to be.
    pub open spec fn valid(self) -> bool {
        &&& crate::client::channels::each_once(self.lists)
        &&& self.index <= self.config.alt_nicks.len()
        &&& !self.features.channel_lists ==> self.lists.len() == 0
    }

    /// Whether it is known which nickname is in use.
    pub open spec fn has_nickname(self) -> bool {
        self.index > 0 || self.config.nickname is Some
    }

    /// This state once the queue took `n` messages of a script.
    pub open spec fn after(self, script: Script, n: nat) -> StateView {
        StateView {
            sender: self.sender.after(script.plan, n),
            index: script.index_after(self.index, n),
            ..self
        }
    }

    /// Whether `after` and `r` are what comes of a script, for some number of messages that the
    /// queue takes.
    pub open spec fn performs(
        self,
        script: Script,
        after: StateView,
        r: Result<(), Error>,
    ) -> bool {
        exists|n: nat|
            {
                &&& n <= script.plan.len()
                &&& after == #[trigger] self.after(script, n)
                &&& crate::error::outcome(r) == script.outcome(n)
            }
    }

    /// Whether `after` and `r` are what comes of sending `plan`.
    pub open spec fn delivers(
        self,
        plan: Seq<MessageView>,
        after: StateView,
        r: Result<(), Error>,
    ) -> bool {
        &&& self.sender.delivers(plan, after.sender, r)
        &&& after == (StateView { sender: after.sender, ..self })
    }
}

/// The nickname in use.
pub open spec fn nickname_in_use(config: ConfigView, index: nat) -> Seq<char> {
    if index == 0 {
        config.nickname->0
    } else {
        config.alt_nicks[index - 1]
    }
}

/// The commands with which the nickname is reclaimed.
pub open spec fn ghost_commands(config: ConfigView) -> Seq<Seq<char>> {
    match config.ghost_sequence {
        Some(s) => s,
        None => seq!["GHOST"@],
    }
}

/// A request to the nickname service.
pub open spec fn nickserv(words: Seq<Seq<char>>) -> MessageView {
    MessageView::of(CommandView::NICKSERV(words))
}

/// The requests that reclaim the nickname `nick`.
pub open spec fn ghost_requests(config: ConfigView, nick: Seq<char>) -> Seq<MessageView> {
    ghost_commands(config).map_values(
        |s: Seq<char>| nickserv(seq![s, nick, config.nick_password_or_none()]),
    )
}

/// How a nickname is reclaimed that another user holds.
pub open spec fn ghost_script(config: ConfigView) -> Script {
    match config.nickname {
        Some(nick) => Script::says(ghost_requests(config, nick)).followed_by(
            Script::turns(0),
        ).followed_by(Script::says(crate::client::sender::one(CommandView::NICK(nick)))),
        None => if ghost_commands(config).len() == 0 {
            Script::turns(0).followed_by(Script::fails(ErrorView::NicknameNotSpecified))
        } else {
            Script::fails(ErrorView::NicknameNotSpecified)
        },
    }
}

/// How the client identifies itself to the nickname service.
pub open spec fn nick_password_script(config: ConfigView, index: nat) -> Script {
    let password = config.nick_password_or_none();
    let identify = Script::says(seq![nickserv(seq!["IDENTIFY"@, password])]);
    if password.len() == 0 {
        Script::quiet()
    } else if config.should_ghost && index != 0 {
        ghost_script(config).followed_by(identify)
    } else {
        identify
    }
}

/// How the client sets its user modes.
pub open spec fn umodes_script(config: ConfigView, index: nat) -> Script {
    let umodes = config.umodes_or_none();
    let nick = nickname_in_use(config, index);
    if umodes.len() == 0 {
        Script::quiet()
    } else {
        match crate::proto::mode::user_modes(text::pieces(umodes, " "@)) {
            Ok(modes) => Script::says(
                crate::client::sender::one(CommandView::UserMODE(nick, modes)),
            ),
            Err(cause) => Script::fails(
                ErrorView::InvalidMessage { string: "MODE "@ + nick + " "@ + umodes, cause },
            ),
        }
    }
}

/// The messages with which a client begins to introduce itself to the server.
pub open spec fn opening_messages(config: ConfigView) -> Seq<MessageView> {
    let end = CommandView::CAP(None, CapSubCommand::END, None, None);
    if config.password_or_none().len() == 0 {
        seq![MessageView::of(end)]
    } else {
        seq![
            MessageView::of(end),
            MessageView::of(CommandView::PASS(config.password_or_none())),
        ]
    }
}

/// How a client introduces itself to the server.
pub open spec fn identify_script(config: ConfigView) -> Script {
    Script::says(opening_messages(config)).followed_by(
        match config.nickname {
            Some(nick) => Script::says(
                seq![
                    MessageView::of(CommandView::NICK(nick)),
                    MessageView::of(
                        CommandView::USER(config.user_name(), "0"@, config.real_name()),
                    ),
                ],
            ),
            None => Script::fails(ErrorView::NicknameNotSpecified),
        },
    )
}

/// The messages that join channels, with or without their keys.
pub open spec fn batch_messages(batches: Seq<BatchView>, with_keys: bool) -> Seq<MessageView> {
    batches.map_values(
        |b: BatchView|
            MessageView::of(
                CommandView::JOIN(
                    b.0,
                    if with_keys {
                        b.1
                    } else {
                        None
                    },
                    None,
                ),
            ),
    )
}

/// The messages that join the configured channels.
pub open spec fn join_messages(config: ConfigView) -> Seq<MessageView> {
    batch_messages(joins::batches(config.channels, config.channel_keys), true)
}

/// The tracked channels that are not configured.
pub open spec fn remembered(state: StateView) -> Seq<Seq<char>> {
    crate::client::channels::names(state.lists).filter(
        |name: Seq<char>| !state.config.channels.contains(name),
    )
}

/// The messages that join the remembered channels again.
pub open spec fn rejoin_messages(state: StateView) -> Seq<MessageView> {
    batch_messages(joins::batches(remembered(state), Map::empty()), false)
}

/// How the client joins channels.
pub open spec fn autojoin_script(state: StateView) -> Script {
    if state.sender.autojoin {
        Script::says(join_messages(state.config) + rejoin_messages(state))
    } else {
        Script::quiet()
    }
}

/// How the client sets itself up when the message of the day ends.
pub open spec fn motd_script(state: StateView) -> Script {
    let identify = nick_password_script(state.config, state.index);
    identify.followed_by(
        umodes_script(state.config, identify.last_index(state.index)),
    ).followed_by(autojoin_script(state))
}

/// How the client asks for the next nickname.
pub open spec fn nick_taken_script(config: ConfigView, index: nat) -> Script {
    if index >= config.alt_nicks.len() {
        Script::fails(ErrorView::NoUsableNick)
    } else {
        Script::says(
            crate::client::sender::one(CommandView::NICK(config.alt_nicks[index as int])),
        ).followed_by(Script::turns(index + 1))
    }
}

/// What the client answers to a request of the client-to-client protocol.
pub open spec fn ctcp_answer(
    config: ConfigView,
    tokens: Seq<Seq<char>>,
    time: Seq<char>,
) -> Option<Seq<char>> {
    if tokens.len() == 0 {
        None
    } else if text::same_letters(tokens[0], "FINGER"@) {
        Some("FINGER :"@ + config.real_name() + " ("@ + config.user_name() + ")"@)
    } else if text::same_letters(tokens[0], "VERSION"@) {
        Some("VERSION "@ + config.version_answer())
    } else if text::same_letters(tokens[0], "SOURCE"@) {
        Some("SOURCE "@ + config.source_answer())
    } else if text::same_letters(tokens[0], "PING"@) && tokens.len() > 1 {
        Some("PING "@ + tokens[1])
    } else if text::same_letters(tokens[0], "TIME"@) {
        Some("TIME :"@ + time)
    } else if text::same_letters(tokens[0], "USERINFO"@) {
        Some("USERINFO :"@ + config.user_info_answer())
    } else {
        None
    }
}

/// How the client answers a request of the client-to-client protocol.
pub open spec fn ctcp_script(
    state: StateView,
    resp: Seq<char>,
    tokens: Seq<Seq<char>>,
    time: Seq<char>,
) -> Script {
    if !state.features.ctcp {
        Script::quiet()
    } else {
        match ctcp_answer(state.config, tokens, time) {
            Some(answer) => Script::says(
                LineKind::Notice.messages(resp, crate::client::sender::marked(answer)),
            ),
            None => Script::quiet(),
        }
    }
}

/// What stands between the marks of a request. The second mark may be missing.
pub open spec fn between_marks(body: Seq<char>) -> Seq<char> {
    if body.len() > 1 && body.last() == '\u{1}' {
        body.subrange(1, body.len() - 1)
    } else {
        body.skip(1)
    }
}

/// How the client answers a message of a user.
pub open spec fn privmsg_script(
    state: StateView,
    source: Option<Seq<char>>,
    target: Seq<char>,
    body: Seq<char>,
    time: Seq<char>,
) -> Script {
    if body.len() == 0 || body[0] != '\u{1}' {
        Script::quiet()
    } else {
        let tokens = text::pieces(between_marks(body), " "@);
        if target.len() > 0 && target[0] == '#' {
            ctcp_script(state, target, tokens, time)
        } else {
            match source {
                Some(user) => ctcp_script(state, user, tokens, time),
                None => Script::quiet(),
            }
        }
    }
}

/// Whether a message ends the message of the day.
pub open spec fn ends_motd(command: CommandView) -> bool {
    match command {
        CommandView::Response(code, _) => code == Response::RPL_ENDOFMOTD || code
            == Response::ERR_NOMOTD,
        _ => false,
    }
}

/// Whether a message refuses a nickname.
pub open spec fn refuses_nick(command: CommandView) -> bool {
    match command {
        CommandView::Response(code, _) => code == Response::ERR_NICKNAMEINUSE || code
            == Response::ERR_ERRONEOUSNICKNAME,
        _ => false,
    }
}

/// How the client answers a message, where it is now `time`.
pub open spec fn script(state: StateView, msg: MessageView, time: Seq<char>) -> Script {
    if ends_motd(msg.command) {
        motd_script(state)
    } else if refuses_nick(msg.command) {
        nick_taken_script(state.config, state.index)
    } else {
        match msg.command {
            CommandView::PRIVMSG(target, body) => privmsg_script(
                state,
                msg.source_nickname(),
                target,
                body,
                time,
            ),
            _ => Script::quiet(),
        }
    }
}

/// The nickname of the user that a message comes from; empty where there is none.
pub open spec fn source_or_none(msg: MessageView) -> Seq<char> {
    match msg.source_nickname() {
        Some(s) => s,
        None => seq![],
    }
}

/// The tracked channels once a message was received.
pub open spec fn lists_after(state: StateView, msg: MessageView) -> Seq<ChannelView> {
    let src = source_or_none(msg);
    if !state.features.channel_lists {
        state.lists
    } else {
        match msg.command {
            CommandView::JOIN(chan, _, _) => crate::client::channels::after_join(
                state.lists,
                src,
                chan,
            ),
            CommandView::PART(chan, _) => crate::client::channels::after_part(
                state.lists,
                src,
                chan,
            ),
            CommandView::KICK(chan, user, _) => crate::client::channels::after_part(
                state.lists,
                user,
                chan,
            ),
            CommandView::QUIT(_) => crate::client::channels::after_quit(state.lists, src),
            CommandView::NICK(new_nick) => crate::client::channels::after_nick_change(
                state.lists,
                src,
                new_nick,
            ),
            CommandView::ChannelMODE(chan, modes) => crate::client::channels::after_modes(
                state.lists,
                chan,
                modes,
            ),
            CommandView::Response(Response::RPL_NAMREPLY, args) => if args.len() == 4 {
                crate::client::channels::after_names(
                    state.lists,
                    args[2],
                    text::pieces(args[3], " "@),
                )
            } else {
                state.lists
            },
            _ => state.lists,
        }
    }
}

/// The state once a message was received and before it is answered.
pub open spec fn received(state: StateView, msg: MessageView) -> StateView {
    StateView { lists: lists_after(state, msg), ..state }
}

impl StateView {
    /// Whether the client can answer a message. To set the user modes when the message of the day
    /// ends, it has to know its nickname.
    pub open spec fn can_answer(self, msg: MessageView) -> bool {
        ends_motd(msg.command) && self.config.umodes_or_none().len() > 0 ==> self.has_nickname()
    }

    /// Whether `after` and `r` are what comes of receiving a message, at some time of day.
    pub open spec fn answers(
        self,
        msg: MessageView,
        after: StateView,
        r: Result<(), Error>,
    ) -> bool {
        exists|time: Seq<char>|
            received(self, msg).performs(#[trigger] script(self, msg, time), after, r)
    }
}

/// The tracked channels once a message was sent. A channel that the client leaves is forgotten,
/// whether or not the queue takes the message.
pub open spec fn lists_after_sending(
    lists: Seq<ChannelView>,
    msg: MessageView,
) -> Seq<ChannelView> {
    match msg.command {
        CommandView::PART(chan, _) => crate::client::channels::after_removal(lists, chan),
        _ => lists,
    }
}

/// The state when a message is about to be queued.
pub open spec fn sending(state: StateView, msg: MessageView) -> StateView {
    StateView { lists: lists_after_sending(state.lists, msg), ..state }
}

/// Two scripts, one behind the other.
proof fn performs_both(
    s: StateView,
    first: Script,
    t: StateView,
    second: Script,
    u: StateView,
    r: Result<(), Error>,
)
    requires
        s.performs(first, t, Ok(())),
        t.performs(second, u, r),
        first.turn matches Some((at, _)) ==> at <= first.plan.len(),
        second.turn is Some ==> first.turn is None,
    ensures
        s.performs(first.followed_by(second), u, r),
{
    let m = choose|m: nat|
        m <= first.plan.len() && t == #[trigger] s.after(first, m) && first.outcome(m) == Ok::<
            (),
            ErrorView,
        >(());
    let n = choose|n: nat|
        n <= second.plan.len() && u == #[trigger] t.after(second, n) && crate::error::outcome(r)
            == second.outcome(n);
    assert(m == first.plan.len());
    let both = first.followed_by(second);
    let k = (m + n) as nat;
    let rest: Result<(), Error> = if n < second.plan.len() {
        Err(Error::AsyncChannelClosed)
    } else {
        Ok(())
    };
    assert(s.sender.delivers(first.plan, t.sender, Ok(())));
    assert(t.sender.delivers(second.plan, u.sender, rest));
    offered_both(s.sender, first.plan, second.plan, n);
    assert(u =~= s.after(both, k));
}

/// What is offered of two plans where all of the first is taken.
proof fn offered_both(s: SenderView, first: Seq<MessageView>, second: Seq<MessageView>, n: nat)
    requires
        n <= second.len(),
    ensures
        s.after(first, first.len()).after(second, n) == s.after(first + second, first.len() + n),
{
    let plan = first + second;
    let k = (first.len() + n) as nat;
    if n < second.len() {
        assert(plan.take(k as int) =~= first + second.take(n as int));
        assert(crate::client::sender::offers(plan, k) =~= crate::client::sender::offers(
            first,
            first.len(),
        ) + crate::client::sender::offers(second, n));
    } else {
        assert(crate::client::sender::offers(plan, k) =~= crate::client::sender::offers(
            first,
            first.len(),
        ) + crate::client::sender::offers(second, n));
    }
    assert(s.after(first, first.len()).after(second, n) =~= s.after(plan, k));
}

/// Where the first of two scripts fails, the second does not begin.
proof fn performs_first_only(
    s: StateView,
    first: Script,
    second: Script,
    t: StateView,
    r: Result<(), Error>,
)
    requires
        s.performs(first, t, r),
        r is Err,
        second.turn is Some ==> first.turn is None,
    ensures
        s.performs(first.followed_by(second), t, r),
{
    let n = choose|n: nat|
        n <= first.plan.len() && t == #[trigger] s.after(first, n) && crate::error::outcome(r)
            == first.outcome(n);
    let both = first.followed_by(second);
    if first.end is Ok {
        assert(n < first.plan.len());
        assert(both.plan.take(n as int) =~= first.plan.take(n as int));
        assert(crate::client::sender::offers(both.plan, n) =~= crate::client::sender::offers(
            first.plan,
            n,
        ));
        assert(t =~= s.after(both, n));
    }
    assert(t =~= s.after(both, n));
}

/// To do nothing is to perform the empty script.
proof fn performs_quiet(s: StateView)
    ensures
        s.performs(Script::quiet(), s, Ok(())),
{
    assert(crate::client::sender::offers(Seq::<MessageView>::empty(), 0) =~= seq![]);
    assert(s.after(Script::quiet(), 0) =~= s);
}

/// To fail at once is to perform the script that only fails.
proof fn performs_failure(s: StateView, e: Error)
    ensures
        s.performs(Script::fails(e@), s, Err(e)),
{
    assert(crate::client::sender::offers(Seq::<MessageView>::empty(), 0) =~= seq![]);
    assert(s.after(Script::fails(e@), 0) =~= s);
}

/// To change the nickname in use is to perform the script that turns to it.
proof fn performs_turn(s: StateView, t: StateView)
    requires
        t == (StateView { index: t.index, ..s }),
    ensures
        s.performs(Script::turns(t.index), t, Ok(())),
{
    assert(crate::client::sender::offers(Seq::<MessageView>::empty(), 0) =~= seq![]);
    assert(s.after(Script::turns(t.index), 0) =~= t);
}

/// To send messages is to perform the script that says them.
proof fn performs_saying(
    s: StateView,
    plan: Seq<MessageView>,
    t: StateView,
    r: Result<(), Error>,
)
    requires
        s.delivers(plan, t, r),
    ensures
        s.performs(Script::says(plan), t, r),
{
    let n = choose|n: nat|
        n <= plan.len() && t.sender == #[trigger] s.sender.after(plan, n) && crate::error::outcome(
            r,
        ) == crate::client::sender::result_of(plan.len(), n);
    assert(t =~= s.after(Script::says(plan), n));
}

/// What stands between the marks of a request.
fn strip_marks(body: &str) -> (r: String)
    requires
        body@.len() > 0,
    ensures
        r@ == between_marks(body@),
{
    let len = body.unicode_len();
    let end: usize = if text::ends_with(body, '\u{1}') && len > 1 {
        len - 1
    } else {
        len
    };
    let r = body.substring_char(1, end).to_owned();
    assert(r@ =~= between_marks(body@));
    r
}

/// A request to the nickname service that gives a command, a nickname and a password.
fn ghost_request(word: &String, nick: &String, password: &String) -> (r: Command)
    ensures
        r@ == CommandView::NICKSERV(seq![word@, nick@, password@]),
{
    let words: Vec<String> = vec![word.clone(), nick.clone(), password.clone()];
    assert(text::texts(words@) =~= seq![word@, nick@, password@]);
    Command::NICKSERV(words)
}

/// A request to the nickname service to identify by a password.
fn identify_request(password: &String) -> (r: Command)
    ensures
        r@ == CommandView::NICKSERV(seq!["IDENTIFY"@, password@]),
{
    let words: Vec<String> = vec!["IDENTIFY".to_owned(), password.clone()];
    assert(text::texts(words@) =~= seq!["IDENTIFY"@, password@]);
    Command::NICKSERV(words)
}

impl ClientState {
    /// The state of a connection at its beginning.
    pub fn new(sender: Sender, config: Config, features: Features) -> (r: ClientState)
        ensures
            r@ == (StateView {
                sender: sender@,
                config: config@,
                features,
                lists: seq![],
                index: 0,
            }),
            r@.valid(),
    {
        ClientState {
            sender,
            config,
            features,
            chanlists: ChannelLists::new(),
            alt_nick_index: 0,
        }
    }

    /// The configuration of this connection.
    pub fn config(&self) -> (r: &Config)
        ensures
            r@ == self@.config,
    {
        &self.config
    }

    /// The sender of this connection.
    pub fn sender(&mut self) -> (r: &mut Sender)
        ensures
            r@ == old(self)@.sender,
            final(self)@ == (StateView { sender: final(r)@, ..old(self)@ }),
    {
        &mut self.sender
    }

    /// The tracked channels, or nothing where channels are not tracked.
    pub fn list_channels(&self) -> (r: Option<Vec<String>>)
        ensures
            text::opt_texts(r) == if self@.features.channel_lists {
                Some(crate::client::channels::names(self@.lists))
            } else {
                None
            },
    {
        if self.features.channel_lists {
            Some(self.chanlists.list())
        } else {
            None
        }
    }

    /// The users of a channel, or nothing where it is not tracked.
    pub fn list_users(&self, chan: &str) -> (r: Option<Vec<User>>)
        requires
            self@.valid(),
        ensures
            match r {
                Some(users) => {
                    &&& self@.features.channel_lists
                    &&& self@.lists.contains(
                        (ChannelView {
                            name: chan@,
                            users: crate::client::data::user::user_views(users@),
                        }),
                    )
                },
                None => !self@.features.channel_lists || !crate::client::channels::names(
                    self@.lists,
                ).contains(chan@),
            },
    {
        if self.features.channel_lists {
            self.chanlists.users_of(chan)
        } else {
            None
        }
    }

    /// Whether it is known which nickname is in use.
    pub fn has_nickname(&self) -> (r: bool)
        ensures
            r == self@.has_nickname(),
    {
        self.alt_nick_index > 0 || self.config.nickname.is_some()
    }

    /// Whether the client can answer a message.
    pub fn can_answer(&self, msg: &Message) -> (r: bool)
        ensures
            r == self@.can_answer(msg@),
    {
        match &msg.command {
            Command::Response(code, _) => match code {
                Response::RPL_ENDOFMOTD | Response::ERR_NOMOTD => self.config.umodes().is_empty()
                    || self.has_nickname(),
                _ => true,
            },
            _ => true,
        }
    }

    /// The nickname in use.
    pub fn current_nickname(&self) -> (r: &str)
        requires
            self@.valid(),
            self@.has_nickname(),
        ensures
            r@ == nickname_in_use(self@.config, self@.index),
    {
        if self.alt_nick_index == 0 {
            match &self.config.nickname {
                Some(nick) => nick.as_str(),
                None => "",
            }
        } else {
            assert(self@.config.alt_nicks[self.alt_nick_index - 1]
                == self.config.alt_nicks[self.alt_nick_index - 1]@);
            self.config.alt_nicks[self.alt_nick_index - 1].as_str()
        }
    }

    /// Follows a message that is about to be sent: a channel that the client leaves is forgotten.
    pub fn handle_sent_message(&mut self, msg: &Message)
        requires
            old(self)@.valid(),
        ensures
            final(self)@ == sending(old(self)@, msg@),
            final(self)@.valid(),
    {
        match &msg.command {
            Command::PART(chan, _) => {
                self.chanlists.remove(chan.as_str());
                proof {
                    let keep = |c: ChannelView| c.name != chan@;
                    old(self)@.lists.lemma_filter_len(keep);
                }
            },
            _ => {},
        }
    }

    /// Sends one message.
    pub(crate) fn send_message(&mut self, msg: Message) -> (r: Result<(), Error>)
        requires
            old(self)@.valid(),
        ensures
            sending(old(self)@, msg@).delivers(seq![msg@], final(self)@, r),
            final(self)@.valid(),
    {
        self.handle_sent_message(&msg);
        self.sender.send_message(msg)
    }

    /// Sends one message.
    pub fn send<M: Into<Message>>(&mut self, msg: M) -> (r: Result<(), Error>)
        requires
            old(self)@.valid(),
        ensures
            exists|m: Message|
                #[trigger] call_ensures(<M as Into<Message>>::into, (msg,), m) && sending(
                    old(self)@,
                    m@,
                ).delivers(seq![m@], final(self)@, r),
            final(self)@.valid(),
    {
        let m: Message = msg.into();
        self.send_message(m)
    }

    /// Sends the message that issues a command.
    pub(crate) fn issue(&mut self, command: Command) -> (r: Result<(), Error>)
        requires
            old(self)@.valid(),
        ensures
            sending(old(self)@, MessageView::of(command@)).delivers(
                crate::client::sender::one(command@),
                final(self)@,
                r,
            ),
            final(self)@.valid(),
    {
        self.send_message(Message { prefix: None, command })
    }

    /// Changes modes of `target`.
    pub fn send_mode<T: ModeType>(&mut self, target: &str, modes: &[Mode<T>]) -> (r: Result<
        (),
        Error,
    >)
        requires
            old(self)@.valid(),
        ensures
            sending(
                old(self)@,
                MessageView::of(T::change(target@, crate::proto::mode::mode_views(modes@))),
            ).delivers(
                crate::client::sender::one(
                    T::change(target@, crate::proto::mode::mode_views(modes@)),
                ),
                final(self)@,
                r,
            ),
            final(self)@.valid(),
    {
        self.issue(T::mode(target, modes))
    }

    /// Joins a channel or a list of channels.
    pub fn send_join(&mut self, chanlist: &str) -> (r: Result<(), Error>)
        ensures
            old(self)@.delivers(
                crate::client::sender::one(CommandView::JOIN(chanlist@, None, None)),
                final(self)@,
                r,
            ),
    {
        self.sender.send_join(chanlist)
    }

    /// Joins a list of channels with a list of keys.
    pub fn send_join_with_keys(&mut self, chanlist: &str, keylist: &str) -> (r: Result<(), Error>)
        ensures
            old(self)@.delivers(
                crate::client::sender::one(CommandView::JOIN(chanlist@, Some(keylist@), None)),
                final(self)@,
                r,
            ),
    {
        self.sender.send_join_with_keys(chanlist, keylist)
    }

    /// Sends a notice: one for each line of `message`.
    pub fn send_notice(&mut self, target: &str, message: &str) -> (r: Result<(), Error>)
        ensures
            old(self)@.delivers(
                LineKind::Notice.messages(target@, message@),
                final(self)@,
                r,
            ),
    {
        self.sender.send_notice(target, message)
    }

    /// The commands with which the nickname is reclaimed.
    fn ghost_words(&self) -> (r: Vec<String>)
        ensures
            text::texts(r@) == ghost_commands(self@.config),
    {
        match self.config.ghost_sequence() {
            Some(s) => text::copy_all(s),
            None => {
                let r: Vec<String> = vec!["GHOST".to_owned()];
                assert(text::texts(r@) =~= seq!["GHOST"@]);
                r
            },
        }
    }

    /// Sends the requests that reclaim the nickname `nick`.
    fn send_ghost_requests(&mut self, nick: &String, password: &String) -> (r: Result<(), Error>)
        requires
            password@ == old(self)@.config.nick_password_or_none(),
        ensures
            old(self)@.delivers(
                ghost_requests(old(self)@.config, nick@),
                final(self)@,
                r,
            ),
    {
        let ghost before = self@;
        let ghost plan = ghost_requests(before.config, nick@);
        let words = self.ghost_words();
        let mut i: usize = 0;
        proof {
            crate::client::sender::delivers_nothing(before.sender);
            assert(plan.take(0) =~= seq![]);
        }
        while i < words.len()
            invariant
                i <= words.len(),
                before == old(self)@,
                plan == ghost_requests(before.config, nick@),
                text::texts(words@) == ghost_commands(before.config),
                password@ == before.config.nick_password_or_none(),
                before.delivers(plan.take(i as int), self@, Ok(())),
            decreases words.len() - i,
        {
            let ghost now = self@;
            assert(text::texts(words@)[i as int] == words[i as int]@);
            let command = ghost_request(&words[i], nick, password);
            let ghost next = crate::client::sender::one(command@);
            let r = self.sender.issue(command);
            proof {
                assert(next =~= seq![plan[i as int]]);
                assert(plan.take(i as int) + next =~= plan.take(i + 1));
                crate::client::sender::delivers_both(
                    before.sender,
                    plan.take(i as int),
                    now.sender,
                    next,
                    self@.sender,
                    r,
                );
                if r is Err {
                    crate::client::sender::delivers_first_only(
                        before.sender,
                        plan.take(i + 1),
                        plan.skip(i + 1),
                        self@.sender,
                        r,
                    );
                    assert(plan.take(i + 1) + plan.skip(i + 1) =~= plan);
                }
            }
            if r.is_err() {
                return r;
            }
            i = i + 1;
        }
        assert(plan.take(i as int) =~= plan);
        Ok(())
    }

    /// Reclaims the nickname from another user.
    fn reclaim_nickname(&mut self, password: &String) -> (r: Result<(), Error>)
        requires
            password@ == old(self)@.config.nick_password_or_none(),
        ensures
            old(self)@.performs(ghost_script(old(self)@.config), final(self)@, r),
    {
        let ghost s0 = self@;
        let nick = match self.config.nickname() {
            Ok(nick) => nick.to_owned(),
            Err(_) => {
                if self.ghost_words().len() == 0 {
                    self.alt_nick_index = 0;
                    proof {
                        performs_turn(s0, self@);
                        performs_failure(self@, Error::NicknameNotSpecified);
                        performs_both(
                            s0,
                            Script::turns(0),
                            self@,
                            Script::fails(ErrorView::NicknameNotSpecified),
                            self@,
                            Err(Error::NicknameNotSpecified),
                        );
                    }
                } else {
                    proof {
                        performs_failure(s0, Error::NicknameNotSpecified);
                    }
                }
                return Err(Error::NicknameNotSpecified);
            },
        };
        let ghost asks = Script::says(ghost_requests(s0.config, nick@));
        let ghost turned = asks.followed_by(Script::turns(0));
        let ghost renames = Script::says(crate::client::sender::one(CommandView::NICK(nick@)));
        let r = self.send_ghost_requests(&nick, password);
        let ghost s1 = self@;
        proof {
            performs_saying(s0, ghost_requests(s0.config, nick@), s1, r);
            if r is Err {
                performs_first_only(s0, asks, Script::turns(0), s1, r);
                performs_first_only(s0, turned, renames, s1, r);
            }
        }
        if r.is_err() {
            return r;
        }
        self.alt_nick_index = 0;
        let ghost s2 = self@;
        proof {
            performs_turn(s1, s2);
            performs_both(s0, asks, s1, Script::turns(0), s2, Ok(()));
        }
        let r = self.sender.issue(Command::NICK(nick));
        proof {
            performs_saying(s2, crate::client::sender::one(CommandView::NICK(nick@)), self@, r);
            performs_both(s0, turned, s2, renames, self@, r);
        }
        r
    }

    /// Identifies the client to the nickname service, where a password is configured.
    pub fn send_nick_password(&mut self) -> (r: Result<(), Error>)
        ensures
            old(self)@.performs(
                nick_password_script(old(self)@.config, old(self)@.index),
                final(self)@,
                r,
            ),
    {
        let ghost s0 = self@;
        let password = self.config.nick_password().to_owned();
        if password.as_str().is_empty() {
            proof {
                performs_quiet(s0);
            }
            return Ok(());
        }
        let ghost identify = Script::says(seq![nickserv(seq!["IDENTIFY"@, password@])]);
        let reclaim = self.config.should_ghost() && self.alt_nick_index != 0;
        if reclaim {
            let r = self.reclaim_nickname(&password);
            if r.is_err() {
                proof {
                    performs_first_only(s0, ghost_script(s0.config), identify, self@, r);
                }
                return r;
            }
        }
        let ghost s1 = self@;
        let r = self.sender.issue(identify_request(&password));
        proof {
            performs_saying(s1, identify.plan, self@, r);
            if reclaim {
                performs_both(s0, ghost_script(s0.config), s1, identify, self@, r);
            }
        }
        r
    }

    /// Sends the messages with which a client begins to introduce itself.
    fn send_opening(&mut self) -> (r: Result<(), Error>)
        ensures
            old(self)@.delivers(opening_messages(old(self)@.config), final(self)@, r),
    {
        let ghost s0 = self@;
        let ghost plan = opening_messages(s0.config);
        let end = Command::CAP(None, CapSubCommand::END, None, None);
        let ghost first = crate::client::sender::one(end@);
        let r = self.sender.issue(end);
        let ghost s1 = self@;
        let password = self.config.password().to_owned();
        let ghost second = crate::client::sender::one(CommandView::PASS(password@));
        proof {
            if password@.len() == 0 {
                assert(plan =~= first);
            } else {
                assert(plan =~= first + second);
            }
        }
        if r.is_err() {
            proof {
                crate::client::sender::delivers_first_only(
                    s0.sender,
                    first,
                    second,
                    s1.sender,
                    r,
                );
            }
            return r;
        }
        if password.as_str().is_empty() {
            return r;
        }
        let r = self.sender.issue(Command::PASS(password));
        proof {
            crate::client::sender::delivers_both(
                s0.sender,
                first,
                s1.sender,
                second,
                self@.sender,
                r,
            );
        }
        r
    }

    /// Sends the messages that name the user.
    fn send_names(&mut self, nick: String) -> (r: Result<(), Error>)
        ensures
            old(self)@.delivers(
                seq![
                    MessageView::of(CommandView::NICK(nick@)),
                    MessageView::of(
                        CommandView::USER(
                            old(self)@.config.user_name(),
                            "0"@,
                            old(self)@.config.real_name(),
                        ),
                    ),
                ],
                final(self)@,
                r,
            ),
    {
        let ghost s0 = self@;
        let user = Command::USER(
            self.config.username().to_owned(),
            "0".to_owned(),
            self.config.real_name().to_owned(),
        );
        let ghost first = crate::client::sender::one(CommandView::NICK(nick@));
        let ghost second = crate::client::sender::one(user@);
        assert(first + second =~= seq![
            MessageView::of(CommandView::NICK(nick@)),
            MessageView::of(user@),
        ]);
        let r = self.sender.issue(Command::NICK(nick));
        let ghost s1 = self@;
        if r.is_err() {
            proof {
                crate::client::sender::delivers_first_only(
                    s0.sender,
                    first,
                    second,
                    s1.sender,
                    r,
                );
            }
            return r;
        }
        let r = self.sender.issue(user);
        proof {
            crate::client::sender::delivers_both(
                s0.sender,
                first,
                s1.sender,
                second,
                self@.sender,
                r,
            );
        }
        r
    }

    /// Introduces the client to the server.
    pub fn identify(&mut self) -> (r: Result<(), Error>)
        ensures
            old(self)@.performs(identify_script(old(self)@.config), final(self)@, r),
    {
        let ghost s0 = self@;
        let ghost opening = Script::says(opening_messages(s0.config));
        let ghost naming = match s0.config.nickname {
            Some(nick) => Script::says(
                seq![
                    MessageView::of(CommandView::NICK(nick)),
                    MessageView::of(
                        CommandView::USER(s0.config.user_name(), "0"@, s0.config.real_name()),
                    ),
                ],
            ),
            None => Script::fails(ErrorView::NicknameNotSpecified),
        };
        let r = self.send_opening();
        let ghost s1 = self@;
        proof {
            performs_saying(s0, opening.plan, s1, r);
        }
        if r.is_err() {
            proof {
                performs_first_only(s0, opening, naming, s1, r);
            }
            return r;
        }
        let r = match self.config.nickname() {
            Ok(nick) => {
                let nick = nick.to_owned();
                let r = self.send_names(nick);
                proof {
                    performs_saying(s1, naming.plan, self@, r);
                }
                r
            },
            Err(_) => {
                proof {
                    performs_failure(s1, Error::NicknameNotSpecified);
                }
                Err(Error::NicknameNotSpecified)
            },
        };
        proof {
            performs_both(s0, opening, s1, naming, self@, r);
        }
        r
    }

    /// Sets the user modes, where some are configured.
    pub fn send_umodes(&mut self) -> (r: Result<(), Error>)
        requires
            old(self)@.valid(),
            old(self)@.config.umodes_or_none().len() > 0 ==> old(self)@.has_nickname(),
        ensures
            old(self)@.performs(
                umodes_script(old(self)@.config, old(self)@.index),
                final(self)@,
                r,
            ),
    {
        let ghost s0 = self@;
        let umodes = self.config.umodes().to_owned();
        if umodes.as_str().is_empty() {
            proof {
                performs_quiet(s0);
            }
            return Ok(());
        }
        let nick = self.current_nickname().to_owned();
        proof {
            reveal_strlit(" ");
        }
        let pieces = text::split(umodes.as_str(), " ");
        match Mode::<UserMode>::as_user_modes(&pieces) {
            Ok(modes) => {
                let r = self.sender.send_mode(nick.as_str(), modes.as_slice());
                proof {
                    performs_saying(
                        s0,
                        crate::client::sender::one(
                            CommandView::UserMODE(nick@, crate::proto::mode::mode_views(modes@)),
                        ),
                        self@,
                        r,
                    );
                }
                r
            },
            Err(cause) => {
                let mut string = with_text("MODE ", nick.as_str());
                string.append(" ");
                string.append(umodes.as_str());
                let e = Error::InvalidMessage { string, cause };
                proof {
                    performs_failure(s0, e);
                }
                Err(e)
            },
        }
    }

    /// Builds the `JOIN` commands that request `channels`.
    pub fn build_batched_joins(channels: &[String], channel_keys: &ChannelKeys) -> (r: Vec<Batch>)
        ensures
            joins::batch_views(r@) == joins::batches(text::texts(channels@), channel_keys@),
    {
        joins::build_batched_joins(channels, channel_keys)
    }

    /// Sends one `JOIN` for each batch, up to the first that is not taken.
    fn send_batches(&mut self, batches: &Vec<Batch>, with_keys: bool) -> (r: Result<(), Error>)
        ensures
            old(self)@.delivers(
                batch_messages(joins::batch_views(batches@), with_keys),
                final(self)@,
                r,
            ),
    {
        let ghost before = self@;
        let ghost plan = batch_messages(joins::batch_views(batches@), with_keys);
        let mut i: usize = 0;
        proof {
            crate::client::sender::delivers_nothing(before.sender);
            assert(plan.take(0) =~= seq![]);
        }
        while i < batches.len()
            invariant
                i <= batches.len(),
                before == old(self)@,
                plan == batch_messages(joins::batch_views(batches@), with_keys),
                before.delivers(plan.take(i as int), self@, Ok(())),
            decreases batches.len() - i,
        {
            let ghost now = self@;
            let ghost next = seq![plan[i as int]];
            let chanlist = batches[i].0.as_str();
            let r = match &batches[i].1 {
                Some(keys) if with_keys => self.send_join_with_keys(chanlist, keys.as_str()),
                _ => self.send_join(chanlist),
            };
            proof {
                assert(plan.take(i as int) + next =~= plan.take(i + 1));
                crate::client::sender::delivers_both(
                    before.sender,
                    plan.take(i as int),
                    now.sender,
                    next,
                    self@.sender,
                    r,
                );
                if r is Err {
                    crate::client::sender::delivers_first_only(
                        before.sender,
                        plan.take(i + 1),
                        plan.skip(i + 1),
                        self@.sender,
                        r,
                    );
                    assert(plan.take(i + 1) + plan.skip(i + 1) =~= plan);
                }
            }
            if r.is_err() {
                return r;
            }
            i = i + 1;
        }
        assert(plan.take(i as int) =~= plan);
        Ok(())
    }

    /// The tracked channels that are not configured.
    fn remembered_channels(&self) -> (r: Vec<String>)
        ensures
            text::texts(r@) == remembered(self@),
    {
        let all = self.chanlists.list();
        let ghost names = text::texts(all@);
        let ghost keep = |name: Seq<char>| !self@.config.channels.contains(name);
        let mut r: Vec<String> = Vec::new();
        let mut i: usize = 0;
        proof {
            reveal(Seq::filter);
            assert(names.take(0).filter(keep) =~= seq![]);
            assert(text::texts(r@) =~= seq![]);
        }
        while i < all.len()
            invariant
                i <= all.len(),
                names == text::texts(all@),
                keep == (|name: Seq<char>| !self@.config.channels.contains(name)),
                text::texts(r@) == names.take(i as int).filter(keep),
            decreases all.len() - i,
        {
            let ghost before = text::texts(r@);
            proof {
                reveal(Seq::filter);
                assert(names.take(i + 1).drop_last() =~= names.take(i as int));
                assert(names.take(i + 1).last() == all[i as int]@);
            }
            if !text::holds(self.config.channels(), all[i].as_str()) {
                r.push(all[i].clone());
                assert(text::texts(r@) =~= before.push(all[i as int]@));
            }
            i = i + 1;
        }
        assert(names.take(i as int) =~= names);
        r
    }

    /// Joins the configured channels, and those remembered again, where the switch is on.
    fn autojoin(&mut self) -> (r: Result<(), Error>)
        ensures
            old(self)@.performs(autojoin_script(old(self)@), final(self)@, r),
    {
        let ghost s0 = self@;
        if !self.sender.autojoin_enabled() {
            proof {
                performs_quiet(s0);
            }
            return Ok(());
        }
        let ghost first = join_messages(s0.config);
        let ghost second = rejoin_messages(s0);
        let batches = Self::build_batched_joins(self.config.channels(), &self.config.channel_keys);
        let r = self.send_batches(&batches, true);
        let ghost s1 = self@;
        if r.is_err() {
            proof {
                crate::client::sender::delivers_first_only(
                    s0.sender,
                    first,
                    second,
                    s1.sender,
                    r,
                );
                performs_saying(s0, first + second, s1, r);
            }
            return r;
        }
        let rejoin = self.remembered_channels();
        let batches = Self::build_batched_joins(rejoin.as_slice(), &ChannelKeys::new());
        let r = self.send_batches(&batches, false);
        proof {
            crate::client::sender::delivers_both(
                s0.sender,
                first,
                s1.sender,
                second,
                self@.sender,
                r,
            );
            performs_saying(s0, first + second, self@, r);
        }
        r
    }

    /// Sets the client up when the message of the day has ended.
    fn handle_end_of_motd(&mut self) -> (r: Result<(), Error>)
        requires
            old(self)@.valid(),
            old(self)@.config.umodes_or_none().len() > 0 ==> old(self)@.has_nickname(),
        ensures
            old(self)@.performs(motd_script(old(self)@), final(self)@, r),
            final(self)@.valid(),
    {
        let ghost s0 = self@;
        let ghost a = nick_password_script(s0.config, s0.index);
        let ghost b = umodes_script(s0.config, a.last_index(s0.index));
        let ghost c = autojoin_script(s0);
        let r = self.send_nick_password();
        let ghost s1 = self@;
        if r.is_err() {
            proof {
                performs_first_only(s0, a, b, s1, r);
                performs_first_only(s0, a.followed_by(b), c, s1, r);
            }
            return r;
        }
        let r = self.send_umodes();
        let ghost s2 = self@;
        proof {
            performs_both(s0, a, s1, b, s2, r);
        }
        if r.is_err() {
            proof {
                performs_first_only(s0, a.followed_by(b), c, s2, r);
            }
            return r;
        }
        let r = self.autojoin();
        proof {
            performs_both(s0, a.followed_by(b), s2, c, self@, r);
        }
        r
    }

    /// Asks for the next nickname when the server has refused one.
    fn handle_nick_refused(&mut self) -> (r: Result<(), Error>)
        requires
            old(self)@.valid(),
        ensures
            old(self)@.performs(
                nick_taken_script(old(self)@.config, old(self)@.index),
                final(self)@,
                r,
            ),
            final(self)@.valid(),
    {
        let ghost s0 = self@;
        let index: usize = self.alt_nick_index;
        let alt_nicks = self.config.alternate_nicknames();
        if index >= alt_nicks.len() {
            proof {
                performs_failure(s0, Error::NoUsableNick);
            }
            return Err(Error::NoUsableNick);
        }
        let nick = alt_nicks[index].clone();
        assert(nick@ == s0.config.alt_nicks[index as int]);
        let ghost asks = Script::says(crate::client::sender::one(CommandView::NICK(nick@)));
        let r = self.sender.issue(Command::NICK(nick));
        let ghost s1 = self@;
        proof {
            performs_saying(s0, asks.plan, s1, r);
        }
        if r.is_err() {
            proof {
                performs_first_only(s0, asks, Script::turns((index + 1) as nat), s1, r);
            }
            return r;
        }
        self.alt_nick_index = index + 1;
        proof {
            performs_turn(s1, self@);
            performs_both(s0, asks, s1, Script::turns((index + 1) as nat), self@, r);
        }
        r
    }

    /// Follows a user who joins a channel.
    pub fn handle_join(&mut self, src: &str, chan: &str)
        requires
            old(self)@.valid(),
        ensures
            final(self)@ == (StateView {
                lists: if old(self)@.features.channel_lists {
                    crate::client::channels::after_join(old(self)@.lists, src@, chan@)
                } else {
                    old(self)@.lists
                },
                ..old(self)@
            }),
            final(self)@.valid(),
    {
        if self.features.channel_lists {
            proof {
                crate::client::channels::only_lists_and_parts_change_the_channels(
                    self@.lists,
                    src@,
                    seq![],
                    chan@,
                    seq![],
                );
            }
            self.chanlists.join(src, chan);
        }
    }

    /// Follows a user who leaves a channel.
    pub fn handle_part(&mut self, src: &str, chan: &str)
        requires
            old(self)@.valid(),
        ensures
            final(self)@ == (StateView {
                lists: if old(self)@.features.channel_lists {
                    crate::client::channels::after_part(old(self)@.lists, src@, chan@)
                } else {
                    old(self)@.lists
                },
                ..old(self)@
            }),
            final(self)@.valid(),
    {
        if self.features.channel_lists {
            proof {
                crate::client::channels::only_lists_and_parts_change_the_channels(
                    self@.lists,
                    src@,
                    seq![],
                    chan@,
                    seq![],
                );
            }
            self.chanlists.part(src, chan);
        }
    }

    /// Follows a user who leaves the network.
    pub fn handle_quit(&mut self, src: &str)
        requires
            old(self)@.valid(),
        ensures
            final(self)@ == (StateView {
                lists: if old(self)@.features.channel_lists {
                    crate::client::channels::after_quit(old(self)@.lists, src@)
                } else {
                    old(self)@.lists
                },
                ..old(self)@
            }),
            final(self)@.valid(),
    {
        if self.features.channel_lists {
            proof {
                crate::client::channels::only_lists_and_parts_change_the_channels(
                    self@.lists,
                    src@,
                    seq![],
                    seq![],
                    seq![],
                );
            }
            self.chanlists.quit(src);
        }
    }

    /// Follows a user who changes nickname.
    pub fn handle_nick_change(&mut self, old_nick: &str, new_nick: &str)
        requires
            old(self)@.valid(),
        ensures
            final(self)@ == (StateView {
                lists: if old(self)@.features.channel_lists {
                    crate::client::channels::after_nick_change(
                        old(self)@.lists,
                        old_nick@,
                        new_nick@,
                    )
                } else {
                    old(self)@.lists
                },
                ..old(self)@
            }),
            final(self)@.valid(),
    {
        if self.features.channel_lists {
            proof {
                crate::client::channels::only_lists_and_parts_change_the_channels(
                    self@.lists,
                    old_nick@,
                    new_nick@,
                    seq![],
                    seq![],
                );
            }
            self.chanlists.rename(old_nick, new_nick);
        }
    }

    /// Follows changes of the modes of a channel.
    pub fn handle_mode(&mut self, chan: &str, modes: &[Mode<ChannelMode>])
        requires
            old(self)@.valid(),
        ensures
            final(self)@ == (StateView {
                lists: if old(self)@.features.channel_lists {
                    crate::client::channels::after_modes(
                        old(self)@.lists,
                        chan@,
                        crate::proto::mode::mode_views(modes@),
                    )
                } else {
                    old(self)@.lists
                },
                ..old(self)@
            }),
            final(self)@.valid(),
    {
        if self.features.channel_lists {
            proof {
                crate::client::channels::only_lists_and_parts_change_the_channels(
                    self@.lists,
                    seq![],
                    seq![],
                    chan@,
                    crate::proto::mode::mode_views(modes@),
                );
            }
            self.chanlists.change_modes(chan, modes);
        }
    }

    /// Follows a list of the users of a channel, which the server sends in four arguments.
    pub fn handle_namreply(&mut self, args: &Vec<String>)
        requires
            old(self)@.valid(),
        ensures
            final(self)@ == (StateView {
                lists: if old(self)@.features.channel_lists && args.len() == 4 {
                    crate::client::channels::after_names(
                        old(self)@.lists,
                        args[2]@,
                        text::pieces(args[3]@, " "@),
                    )
                } else {
                    old(self)@.lists
                },
                ..old(self)@
            }),
            final(self)@.valid(),
    {
        if self.features.channel_lists && args.len() == 4 {
            proof {
                reveal_strlit(" ");
            }
            let users = text::split(args[3].as_str(), " ");
            self.chanlists.add_names(args[2].as_str(), &users);
        }
    }

    /// Answers a request of the client-to-client protocol, where it is now `time`.
    pub fn handle_ctcp_at(&mut self, resp: &str, tokens: &Vec<String>, time: &str) -> (r: Result<
        (),
        Error,
    >)
        ensures
            old(self)@.performs(
                ctcp_script(old(self)@, resp@, text::texts(tokens@), time@),
                final(self)@,
                r,
            ),
    {
        let ghost s0 = self@;
        if !self.features.ctcp || tokens.len() == 0 {
            proof {
                performs_quiet(s0);
            }
            return Ok(());
        }
        let ghost words = text::texts(tokens@);
        assert(words[0] == tokens[0]@);
        let word = tokens[0].as_str();
        let answer = if text::same_ignoring_case(word, "FINGER") {
            let mut a = with_text("FINGER :", self.config.real_name());
            a.append(" (");
            a.append(self.config.username());
            a.append(")");
            a
        } else if text::same_ignoring_case(word, "VERSION") {
            with_text("VERSION ", self.config.version())
        } else if text::same_ignoring_case(word, "SOURCE") {
            with_text("SOURCE ", self.config.source())
        } else if text::same_ignoring_case(word, "PING") && tokens.len() > 1 {
            assert(words[1] == tokens[1]@);
            with_text("PING ", tokens[1].as_str())
        } else if text::same_ignoring_case(word, "TIME") {
            with_text("TIME :", time)
        } else if text::same_ignoring_case(word, "USERINFO") {
            with_text("USERINFO :", self.config.user_info())
        } else {
            proof {
                performs_quiet(s0);
            }
            return Ok(());
        };
        assert(ctcp_answer(s0.config, words, time@) == Some(answer@));
        let r = self.send_ctcp_internal(resp, answer.as_str());
        proof {
            performs_saying(
                s0,
                LineKind::Notice.messages(resp@, crate::client::sender::marked(answer@)),
                self@,
                r,
            );
        }
        r
    }

    /// Answers a request of the client-to-client protocol.
    pub fn handle_ctcp(&mut self, resp: &str, tokens: &Vec<String>) -> (r: Result<(), Error>)
        ensures
            exists|time: Seq<char>|
                old(self)@.performs(
                    #[trigger] ctcp_script(old(self)@, resp@, text::texts(tokens@), time),
                    final(self)@,
                    r,
                ),
    {
        let asked = self.features.ctcp && tokens.len() > 0 && text::same_ignoring_case(
            tokens[0].as_str(),
            "TIME",
        );
        let time = if asked {
            clock::time_text()
        } else {
            String::new()
        };
        self.handle_ctcp_at(resp, tokens, time.as_str())
    }

    /// Sends an answer of the client-to-client protocol.
    pub fn send_ctcp_internal(&mut self, target: &str, msg: &str) -> (r: Result<(), Error>)
        ensures
            old(self)@.delivers(
                LineKind::Notice.messages(target@, crate::client::sender::marked(msg@)),
                final(self)@,
                r,
            ),
    {
        let body = mark(msg);
        self.send_notice(target, body.as_str())
    }

    /// Answers a message of a user, if it is a request of the client-to-client protocol.
    fn handle_privmsg(
        &mut self,
        source: Option<&str>,
        target: &str,
        body: &str,
    ) -> (r: Result<(), Error>)
        ensures
            exists|time: Seq<char>|
                old(self)@.performs(
                    #[trigger] privmsg_script(
                        old(self)@,
                        text::opt_str(source),
                        target@,
                        body@,
                        time,
                    ),
                    final(self)@,
                    r,
                ),
    {
        let ghost s0 = self@;
        let ghost from = text::opt_str(source);
        if text::begins_with(body, '\u{1}') {
            proof {
                reveal_strlit(" ");
            }
            let inner = strip_marks(body);
            let tokens = text::split(inner.as_str(), " ");
            if text::begins_with(target, '#') {
                let r = self.handle_ctcp(target, &tokens);
                proof {
                    let time = choose|time: Seq<char>|
                        s0.performs(
                            #[trigger] ctcp_script(s0, target@, text::texts(tokens@), time),
                            self@,
                            r,
                        );
                    assert(s0.performs(
                        privmsg_script(s0, from, target@, body@, time),
                        self@,
                        r,
                    ));
                }
                return r;
            }
            if let Some(user) = source {
                let r = self.handle_ctcp(user, &tokens);
                proof {
                    let time = choose|time: Seq<char>|
                        s0.performs(
                            #[trigger] ctcp_script(s0, user@, text::texts(tokens@), time),
                            self@,
                            r,
                        );
                    assert(s0.performs(
                        privmsg_script(s0, from, target@, body@, time),
                        self@,
                        r,
                    ));
                }
                return r;
            }
        }
        proof {
            performs_quiet(s0);
            assert(privmsg_script(s0, from, target@, body@, seq![]) == Script::quiet());
        }
        Ok(())
    }

    /// Follows and answers a message that was received.
    pub fn handle_message(&mut self, msg: &Message) -> (r: Result<(), Error>)
        requires
            old(self)@.valid(),
            old(self)@.can_answer(msg@),
        ensures
            old(self)@.answers(msg@, final(self)@, r),
            final(self)@.valid(),
    {
        let ghost s0 = self@;
        let ghost now: Seq<char> = seq![];
        proof {
            reveal_strlit("");
            assert(""@ =~= seq![]);
            performs_quiet(received(s0, msg@));
        }
        let source = msg.source_nickname();
        let src = match source {
            Some(s) => s,
            None => "",
        };
        assert(src@ == source_or_none(msg@));
        match &msg.command {
            Command::JOIN(chan, _, _) => {
                self.handle_join(src, chan.as_str());
                assert(script(s0, msg@, now) == Script::quiet());
            },
            Command::PART(chan, _) => {
                self.handle_part(src, chan.as_str());
                assert(script(s0, msg@, now) == Script::quiet());
            },
            Command::KICK(chan, user, _) => {
                self.handle_part(user.as_str(), chan.as_str());
                assert(script(s0, msg@, now) == Script::quiet());
            },
            Command::QUIT(_) => {
                self.handle_quit(src);
                assert(script(s0, msg@, now) == Script::quiet());
            },
            Command::NICK(new_nick) => {
                self.handle_nick_change(src, new_nick.as_str());
                assert(script(s0, msg@, now) == Script::quiet());
            },
            Command::ChannelMODE(chan, modes) => {
                self.handle_mode(chan.as_str(), modes.as_slice());
                assert(script(s0, msg@, now) == Script::quiet());
            },
            Command::PRIVMSG(target, body) => {
                let r = self.handle_privmsg(source, target.as_str(), body.as_str());
                proof {
                    let time = choose|time: Seq<char>|
                        s0.performs(
                            #[trigger] privmsg_script(
                                s0,
                                msg@.source_nickname(),
                                target@,
                                body@,
                                time,
                            ),
                            self@,
                            r,
                        );
                    assert(received(s0, msg@) =~= s0);
                    assert(received(s0, msg@).performs(script(s0, msg@, time), self@, r));
                }
                return r;
            },
            Command::Response(code, args) => {
                match code {
                    Response::RPL_NAMREPLY => {
                        self.handle_namreply(args);
                        assert(script(s0, msg@, now) == Script::quiet());
                    },
                    Response::RPL_ENDOFMOTD | Response::ERR_NOMOTD => {
                        let r = self.handle_end_of_motd();
                        proof {
                            assert(received(s0, msg@) =~= s0);
                            assert(script(s0, msg@, now) == motd_script(s0));
                        }
                        return r;
                    },
                    Response::ERR_NICKNAMEINUSE | Response::ERR_ERRONEOUSNICKNAME => {
                        let r = self.handle_nick_refused();
                        proof {
                            assert(received(s0, msg@) =~= s0);
                            assert(script(s0, msg@, now) == nick_taken_script(
                                s0.config,
                                s0.index,
                            ));
                        }
                        return r;
                    },
                    Response::Other(_) => {
                        assert(script(s0, msg@, now) == Script::quiet());
                    },
                }
            },
            _ => {
                assert(script(s0, msg@, now) == Script::quiet());
            },
        }
        assert(self@ =~= received(s0, msg@));
        Ok(())
    }
}

} // verus!
