//! The sending half of a client: the commands it issues and the queue they go to.

use crate::client::clock;
use crate::error::{Error, ErrorView};
use crate::proto::caps::{name_list, CapSubCommand, Capability, NegotiationVersion};
use crate::proto::command::{Command, CommandView};
use crate::proto::message::{Message, MessageView};
use crate::proto::mode::{Mode, ModeType};
use crate::text;
use tokio::sync::mpsc::error::SendError;
use tokio::sync::mpsc::UnboundedSender;
use vstd::prelude::*;

verus! {

/// The sending half of a queue of tokio.
#[verifier::external_type_specification]
#[verifier::external_body]
#[verifier::reject_recursive_types(T)]
pub struct ExUnboundedSender<T>(tokio::sync::mpsc::UnboundedSender<T>);

/// What a queue of tokio answers once its receiving half is closed.
#[verifier::external_type_specification]
#[verifier::external_body]
#[verifier::reject_recursive_types(T)]
pub struct ExSendError<T>(tokio::sync::mpsc::error::SendError<T>);

/// What was offered to the queue through `tx`: each message in turn, and whether the queue took
/// it.
pub uninterp spec fn offered(tx: UnboundedSender<Message>) -> Seq<(MessageView, bool)>;

/// `UnboundedSender::send` of tokio: it offers one message to the queue, and reports whether the
/// queue took it. Whether it does rests with the receiving half, which another task may close at
/// any time; nothing is said of that. The process is aborted where more messages are queued than
/// can be counted.
#[verifier::external_body]
fn offer(tx: &mut UnboundedSender<Message>, message: Message) -> (r: Result<
    (),
    SendError<Message>,
>)
    ensures
        offered(*final(tx)) == offered(*old(tx)).push((message@, r is Ok)),
{
    tx.send(message)
}

/// The messages of `plan`, each of them taken.
pub open spec fn taken(plan: Seq<MessageView>) -> Seq<(MessageView, bool)> {
    plan.map_values(|m: MessageView| (m, true))
}

/// What is offered of `plan` where the queue takes `n` messages: these, and the one that it
/// refuses, if any is left.
pub open spec fn offers(plan: Seq<MessageView>, n: nat) -> Seq<(MessageView, bool)> {
    if n < plan.len() {
        taken(plan.take(n as int)).push((plan[n as int], false))
    } else {
        taken(plan)
    }
}

/// What comes of `len` messages where the queue takes `n`.
pub open spec fn result_of(len: nat, n: nat) -> Result<(), ErrorView> {
    if n < len {
        Err(ErrorView::AsyncChannelClosed)
    } else {
        Ok(())
    }
}

/// The one message that issues `command`.
pub open spec fn one(command: CommandView) -> Seq<MessageView> {
    seq![MessageView::of(command)]
}

/// The lines of a text.
pub open spec fn lines(s: Seq<char>) -> Seq<Seq<char>> {
    text::pieces(s, seq!['\r', '\n'])
}

/// A text between the marks of the client-to-client protocol.
pub open spec fn marked(s: Seq<char>) -> Seq<char> {
    seq!['\u{1}'] + s + seq!['\u{1}']
}

/// A text, unless it is empty.
pub open spec fn unless_empty(s: Seq<char>) -> Option<Seq<char>> {
    if s.len() == 0 {
        None
    } else {
        Some(s)
    }
}

/// Whether outgoing messages are held to the limit.
#[derive(Debug, Clone, Copy, PartialEq, Eq, Structural)]
pub struct FloodControl {
    /// Whether the limit is in force.
    pub enabled: bool,
    /// Whether the writer is to be woken, because the limit was put in force or lifted.
    pub wake: bool,
}

impl FloodControl {
    /// The limit is in force.
    pub fn new() -> (r: FloodControl)
        ensures
            r.enabled,
            !r.wake,
    {
        FloodControl { enabled: true, wake: false }
    }
}

/// The sender of a connection: it queues messages, and holds the switches of the connection.
pub struct Sender {
    tx_outgoing: UnboundedSender<Message>,
    flood_control: FloodControl,
    autojoin: bool,
}

/// What a [`Sender`] holds.
#[verifier::ext_equal]
pub struct SenderView {
    /// What was offered to the queue.
    pub offered: Seq<(MessageView, bool)>,
    /// Whether outgoing messages are held to the limit.
    pub flood_protection: bool,
    /// Whether the writer is to be woken.
    pub wake_writer: bool,
    /// Whether channels are joined when the message of the day ends.
    pub autojoin: bool,
}

impl View for Sender {
    type V = SenderView;

    closed spec fn view(&self) -> SenderView {
        SenderView {
            offered: offered(self.tx_outgoing),
            flood_protection: self.flood_control.enabled,
            wake_writer: self.flood_control.wake,
            autojoin: self.autojoin,
        }
    }
}

impl SenderView {
    /// This sender with the limit put in force, or lifted: the writer is to be woken.
    pub open spec fn with_flood_protection(self, enabled: bool) -> SenderView {
        SenderView { flood_protection: enabled, wake_writer: true, ..self }
    }

    /// This sender once `plan` was offered and the queue took `n` messages of it.
    pub open spec fn after(self, plan: Seq<MessageView>, n: nat) -> SenderView {
        SenderView { offered: self.offered + offers(plan, n), ..self }
    }

    /// Whether `after` and `r` are what comes of offering `plan`, for some number of messages
    /// that the queue takes.
    pub open spec fn delivers(
        self,
        plan: Seq<MessageView>,
        after: SenderView,
        r: Result<(), Error>,
    ) -> bool {
        exists|n: nat|
            {
                &&& n <= plan.len()
                &&& after == #[trigger] self.after(plan, n)
                &&& crate::error::outcome(r) == result_of(plan.len(), n)
            }
    }
}

/// Nothing is offered of an empty plan.
pub proof fn delivers_nothing(s: SenderView)
    ensures
        s.delivers(seq![], s, Ok(())),
{
    assert(offers(Seq::<MessageView>::empty(), 0) =~= seq![]);
    assert(s.after(seq![], 0) =~= s);
}

/// What is offered of two plans, one behind the other, is what is offered of their sum.
pub proof fn delivers_both(
    s: SenderView,
    first: Seq<MessageView>,
    t: SenderView,
    second: Seq<MessageView>,
    u: SenderView,
    r: Result<(), Error>,
)
    requires
        s.delivers(first, t, Ok(())),
        t.delivers(second, u, r),
    ensures
        s.delivers(first + second, u, r),
{
    let n = choose|n: nat|
        n <= second.len() && u == #[trigger] t.after(second, n) && crate::error::outcome(r)
            == result_of(second.len(), n);
    let m = choose|m: nat|
        m <= first.len() && t == #[trigger] s.after(first, m) && result_of(first.len(), m) == Ok::<
            (),
            ErrorView,
        >(());
    let plan = first + second;
    let k = (first.len() + n) as nat;
    assert(t.offered =~= s.offered + taken(first));
    if n < second.len() {
        assert(plan.take(k as int) =~= first + second.take(n as int));
        assert(taken(first) + taken(second.take(n as int)) =~= taken(plan.take(k as int)));
    } else {
        assert(taken(first) + taken(second) =~= taken(plan));
    }
    assert(s.offered + taken(first) + offers(second, n) =~= s.offered + offers(plan, k));
    assert(u =~= s.after(plan, k));
}

/// Where the first of two plans is not taken, nothing of the second is offered.
pub proof fn delivers_first_only(
    s: SenderView,
    first: Seq<MessageView>,
    second: Seq<MessageView>,
    t: SenderView,
    r: Result<(), Error>,
)
    requires
        s.delivers(first, t, r),
        r is Err,
    ensures
        s.delivers(first + second, t, r),
{
    let n = choose|n: nat|
        n <= first.len() && t == #[trigger] s.after(first, n) && crate::error::outcome(r)
            == result_of(first.len(), n);
    assert(n < first.len());
    let plan = first + second;
    assert(plan.take(n as int) =~= first.take(n as int));
    assert(offers(plan, n) =~= offers(first, n));
    assert(t =~= s.after(plan, n));
}

/// What the client reports of a message that was offered to the queue.
pub fn reported(taken: bool) -> (r: Result<(), Error>)
    ensures
        r == if taken {
            Ok::<(), Error>(())
        } else {
            Err(Error::AsyncChannelClosed)
        },
{
    if taken {
        Ok(())
    } else {
        Err(Error::AsyncChannelClosed)
    }
}

/// What is sent for a line of a text.
#[derive(Debug, Clone, Copy, PartialEq, Eq, Structural)]
pub enum LineKind {
    /// A message.
    Message,
    /// A notice.
    Notice,
    /// A marked message.
    Marked,
}

impl LineKind {
    /// The command that sends a line to `target`.
    pub open spec fn command(self, target: Seq<char>, line: Seq<char>) -> CommandView {
        match self {
            LineKind::Message => CommandView::PRIVMSG(target, line),
            LineKind::Notice => CommandView::NOTICE(target, line),
            LineKind::Marked => CommandView::PRIVMSG(target, marked(line)),
        }
    }

    /// The messages that send a text to `target`.
    pub open spec fn messages(self, target: Seq<char>, s: Seq<char>) -> Seq<MessageView> {
        lines(s).map_values(|l: Seq<char>| MessageView::of(self.command(target, l)))
    }
}

/// A text between the marks of the client-to-client protocol.
pub(crate) fn mark(s: &str) -> (r: String)
    ensures
        r@ == marked(s@),
{
    let mut r = String::new();
    r.push('\u{1}');
    r.append(s);
    r.push('\u{1}');
    assert(r@ =~= marked(s@));
    r
}

/// A copy of a text, unless it is empty.
pub(crate) fn some_unless_empty(s: &str) -> (r: Option<String>)
    ensures
        text::opt_text(r) == unless_empty(s@),
{
    if s.is_empty() {
        None
    } else {
        Some(s.to_owned())
    }
}

/// `first` with `second` behind it.
pub(crate) fn with_text(first: &str, second: &str) -> (r: String)
    ensures
        r@ == first@ + second@,
{
    let mut r = first.to_owned();
    r.append(second);
    r
}

impl Sender {
    /// A sender for the queue behind `tx`. Both switches are on.
    pub fn new(tx: UnboundedSender<Message>) -> (r: Sender)
        ensures
            r@ == (SenderView {
                offered: offered(tx),
                flood_protection: true,
                wake_writer: false,
                autojoin: true,
            }),
    {
        Sender { tx_outgoing: tx, flood_control: FloodControl::new(), autojoin: true }
    }

    /// Puts the configured limit in force, or lifts it, and asks for the writer to be woken.
    pub fn set_flood_protection_enabled(&mut self, enabled: bool)
        ensures
            final(self)@ == old(self)@.with_flood_protection(enabled),
    {
        self.flood_control.enabled = enabled;
        self.flood_control.wake = true;
    }

    /// Whether the writer is to be woken. Whoever asks is to wake it.
    pub fn take_wake(&mut self) -> (r: bool)
        ensures
            r == old(self)@.wake_writer,
            final(self)@ == (SenderView { wake_writer: false, ..old(self)@ }),
    {
        let r = self.flood_control.wake;
        self.flood_control.wake = false;
        r
    }

    /// Whether the configured limit is in force.
    pub fn flood_protection_enabled(&self) -> (r: bool)
        ensures
            r == self@.flood_protection,
    {
        self.flood_control.enabled
    }

    /// Whether the configured channels are joined, and those remembered joined again, when the
    /// message of the day ends. This takes effect when it next ends, and sends nothing now.
    pub fn set_autojoin_enabled(&mut self, enabled: bool)
        ensures
            final(self)@ == (SenderView { autojoin: enabled, ..old(self)@ }),
    {
        self.autojoin = enabled;
    }

    /// Whether channels are joined when the message of the day ends.
    pub fn autojoin_enabled(&self) -> (r: bool)
        ensures
            r == self@.autojoin,
    {
        self.autojoin
    }

    /// Queues one message.
    pub(crate) fn send_message(&mut self, msg: Message) -> (r: Result<(), Error>)
        ensures
            old(self)@.delivers(seq![msg@], final(self)@, r),
    {
        let ghost before = self@;
        let ghost plan = seq![msg@];
        let taken = offer(&mut self.tx_outgoing, msg).is_ok();
        let r = reported(taken);
        proof {
            let n: nat = if taken {
                1
            } else {
                0
            };
            assert(offers(plan, n) =~= seq![(msg@, taken)]);
            assert(self@ =~= before.after(plan, n));
        }
        r
    }

    /// Queues one message.
    pub fn send<M: Into<Message>>(&mut self, msg: M) -> (r: Result<(), Error>)
        ensures
            exists|m: Message|
                #[trigger] call_ensures(<M as Into<Message>>::into, (msg,), m)
                    && old(self)@.delivers(seq![m@], final(self)@, r),
    {
        let m: Message = msg.into();
        self.send_message(m)
    }

    /// Queues the message that issues a command.
    pub(crate) fn issue(&mut self, command: Command) -> (r: Result<(), Error>)
        ensures
            old(self)@.delivers(one(command@), final(self)@, r),
    {
        self.send_message(Message { prefix: None, command })
    }

    /// Queues one message for each line of a text, up to the first that is not taken.
    pub(crate) fn send_lines(&mut self, kind: LineKind, target: &str, s: &str) -> (r: Result<(), Error>)
        ensures
            old(self)@.delivers(kind.messages(target@, s@), final(self)@, r),
    {
        let ghost before = self@;
        let ghost plan = kind.messages(target@, s@);
        proof {
            reveal_strlit("\r\n");
            assert("\r\n"@ =~= seq!['\r', '\n']);
            delivers_nothing(before);
            assert(plan.take(0) =~= seq![]);
        }
        let parts = text::split(s, "\r\n");
        let mut i: usize = 0;
        while i < parts.len()
            invariant
                i <= parts.len(),
                before == old(self)@,
                text::texts(parts@) == lines(s@),
                plan == kind.messages(target@, s@),
                before.delivers(plan.take(i as int), self@, Ok(())),
            decreases parts.len() - i,
        {
            let ghost now = self@;
            assert(text::texts(parts@)[i as int] == parts[i as int]@);
            let command = match kind {
                LineKind::Message => Command::PRIVMSG(target.to_owned(), parts[i].clone()),
                LineKind::Notice => Command::NOTICE(target.to_owned(), parts[i].clone()),
                LineKind::Marked => Command::PRIVMSG(target.to_owned(), mark(parts[i].as_str())),
            };
            let ghost next = one(command@);
            let r = self.issue(command);
            proof {
                assert(next =~= seq![plan[i as int]]);
                assert(plan.take(i as int) + next =~= plan.take(i + 1));
                delivers_both(before, plan.take(i as int), now, next, self@, r);
                if r is Err {
                    delivers_first_only(before, plan.take(i + 1), plan.skip(i + 1), self@, r);
                    assert(plan.take(i + 1) + plan.skip(i + 1) =~= plan);
                }
            }
            if r.is_err() {
                return r;
            }
            i = i + 1;
        }
        assert(plan.take(i as int) =~= plan);
        Ok(())
    }

    /// Changes modes of `target`.
    pub fn send_mode<T: ModeType>(
        &mut self,
        target: &str,
        modes: &[Mode<T>],
    ) -> (r: Result<(), Error>)
        ensures
            old(self)@.delivers(
                one(
                T::change(target@, crate::proto::mode::mode_views(modes@)),
            ),
                final(self)@,
                r,
            ),
    {
        self.issue(T::mode(target, modes))
    }

    /// Joins a channel or a list of channels.
    pub fn send_join(&mut self, chanlist: &str) -> (r: Result<(), Error>)
        ensures
            old(self)@.delivers(one(CommandView::JOIN(chanlist@, None, None)), final(self)@, r),
    {
        self.issue(Command::JOIN(chanlist.to_owned(), None, None))
    }

    /// Joins a list of channels with a list of keys.
    pub fn send_join_with_keys(&mut self, chanlist: &str, keylist: &str) -> (r: Result<(), Error>)
        ensures
            old(self)@.delivers(
                one(CommandView::JOIN(chanlist@, Some(keylist@), None)),
                final(self)@,
                r,
            ),
    {
        self.issue(Command::JOIN(chanlist.to_owned(), Some(keylist.to_owned()), None))
    }

    /// Sends a notice: one for each line of `message`.
    pub fn send_notice(&mut self, target: &str, message: &str) -> (r: Result<(), Error>)
        ensures
            old(self)@.delivers(LineKind::Notice.messages(target@, message@), final(self)@, r),
    {
        self.send_lines(LineKind::Notice, target, message)
    }

    /// Asks for the capabilities of the server.
    pub fn send_cap_ls(&mut self, version: NegotiationVersion) -> (r: Result<(), Error>)
        ensures
            old(self)@.delivers(
                one(
                    CommandView::CAP(
                        None,
                        CapSubCommand::LS,
                        match version {
                            NegotiationVersion::V301 => None,
                            NegotiationVersion::V302 => Some("302"@),
                        },
                        None,
                    ),
                ),
                final(self)@,
                r,
            ),
    {
        let code = match version {
            NegotiationVersion::V301 => None,
            NegotiationVersion::V302 => Some("302".to_owned()),
        };
        self.issue(Command::CAP(None, CapSubCommand::LS, code, None))
    }

    /// Asks for capabilities.
    pub fn send_cap_req(&mut self, extensions: &[Capability]) -> (r: Result<(), Error>)
        requires
            extensions.len() > 0,
        ensures
            old(self)@.delivers(
                one(
                    CommandView::CAP(
                        None,
                        CapSubCommand::REQ,
                        None,
                        Some(text::joined(crate::proto::caps::names(extensions@), " "@)),
                    ),
                ),
                final(self)@,
                r,
            ),
    {
        self.issue(Command::CAP(None, CapSubCommand::REQ, None, Some(name_list(extensions))))
    }

    /// Authenticates with `data`.
    pub fn send_sasl(&mut self, data: &str) -> (r: Result<(), Error>)
        ensures
            old(self)@.delivers(one(CommandView::AUTHENTICATE(data@)), final(self)@, r),
    {
        self.issue(Command::AUTHENTICATE(data.to_owned()))
    }

    /// Asks to authenticate by the PLAIN mechanism.
    pub fn send_sasl_plain(&mut self) -> (r: Result<(), Error>)
        ensures
            old(self)@.delivers(one(CommandView::AUTHENTICATE("PLAIN"@)), final(self)@, r),
    {
        self.issue(Command::AUTHENTICATE("PLAIN".to_owned()))
    }

    /// Asks to authenticate by the EXTERNAL mechanism.
    pub fn send_sasl_external(&mut self) -> (r: Result<(), Error>)
        ensures
            old(self)@.delivers(one(CommandView::AUTHENTICATE("EXTERNAL"@)), final(self)@, r),
    {
        self.issue(Command::AUTHENTICATE("EXTERNAL".to_owned()))
    }

    /// Gives up authenticating.
    pub fn send_sasl_abort(&mut self) -> (r: Result<(), Error>)
        ensures
            old(self)@.delivers(one(CommandView::AUTHENTICATE("*"@)), final(self)@, r),
    {
        self.issue(Command::AUTHENTICATE("*".to_owned()))
    }

    /// Answers a PING.
    pub fn send_pong(&mut self, msg: &str) -> (r: Result<(), Error>)
        ensures
            old(self)@.delivers(one(CommandView::PONG(msg@, None)), final(self)@, r),
    {
        self.issue(Command::PONG(msg.to_owned(), None))
    }

    /// Leaves a channel or a list of channels.
    pub fn send_part(&mut self, chanlist: &str) -> (r: Result<(), Error>)
        ensures
            old(self)@.delivers(one(CommandView::PART(chanlist@, None)), final(self)@, r),
    {
        self.issue(Command::PART(chanlist.to_owned(), None))
    }

    /// Asks for operator privileges.
    pub fn send_oper(&mut self, username: &str, password: &str) -> (r: Result<(), Error>)
        ensures
            old(self)@.delivers(one(CommandView::OPER(username@, password@)), final(self)@, r),
    {
        self.issue(Command::OPER(username.to_owned(), password.to_owned()))
    }

    /// Sends a message: one for each line of `message`.
    pub fn send_privmsg(&mut self, target: &str, message: &str) -> (r: Result<(), Error>)
        ensures
            old(self)@.delivers(LineKind::Message.messages(target@, message@), final(self)@, r),
    {
        self.send_lines(LineKind::Message, target, message)
    }

    /// Sets the topic of a channel, or asks for it where `topic` is empty.
    pub fn send_topic(&mut self, channel: &str, topic: &str) -> (r: Result<(), Error>)
        ensures
            old(self)@.delivers(
                one(CommandView::TOPIC(channel@, unless_empty(topic@))),
                final(self)@,
                r,
            ),
    {
        self.issue(Command::TOPIC(channel.to_owned(), some_unless_empty(topic)))
    }

    /// Disconnects a user.
    pub fn send_kill(&mut self, target: &str, message: &str) -> (r: Result<(), Error>)
        ensures
            old(self)@.delivers(one(CommandView::KILL(target@, message@)), final(self)@, r),
    {
        self.issue(Command::KILL(target.to_owned(), message.to_owned()))
    }

    /// Removes users from channels, with a comment unless `message` is empty.
    pub fn send_kick(
        &mut self,
        chanlist: &str,
        nicklist: &str,
        message: &str,
    ) -> (r: Result<(), Error>)
        ensures
            old(self)@.delivers(
                one(CommandView::KICK(chanlist@, nicklist@, unless_empty(message@))),
                final(self)@,
                r,
            ),
    {
        self.issue(Command::KICK(
            chanlist.to_owned(),
            nicklist.to_owned(),
            some_unless_empty(message),
        ))
    }

    /// Forces a change of modes, with parameters unless `modeparams` is empty.
    pub fn send_samode(
        &mut self,
        target: &str,
        mode: &str,
        modeparams: &str,
    ) -> (r: Result<(), Error>)
        ensures
            old(self)@.delivers(
                one(CommandView::SAMODE(target@, mode@, unless_empty(modeparams@))),
                final(self)@,
                r,
            ),
    {
        self.issue(Command::SAMODE(
            target.to_owned(),
            mode.to_owned(),
            some_unless_empty(modeparams),
        ))
    }

    /// Forces a change of nickname.
    pub fn send_sanick(&mut self, old_nick: &str, new_nick: &str) -> (r: Result<(), Error>)
        ensures
            old(self)@.delivers(one(CommandView::SANICK(old_nick@, new_nick@)), final(self)@, r),
    {
        self.issue(Command::SANICK(old_nick.to_owned(), new_nick.to_owned()))
    }

    /// Invites a user to a channel.
    pub fn send_invite(&mut self, nick: &str, chan: &str) -> (r: Result<(), Error>)
        ensures
            old(self)@.delivers(one(CommandView::INVITE(nick@, chan@)), final(self)@, r),
    {
        self.issue(Command::INVITE(nick.to_owned(), chan.to_owned()))
    }

    /// Ends the session, with `Powered by Rust.` where `msg` is empty.
    pub fn send_quit(&mut self, msg: &str) -> (r: Result<(), Error>)
        ensures
            old(self)@.delivers(
                one(
                    CommandView::QUIT(
                        Some(
                            if msg@.len() == 0 {
                                "Powered by Rust."@
                            } else {
                                msg@
                            },
                        ),
                    ),
                ),
                final(self)@,
                r,
            ),
    {
        let text = if msg.is_empty() {
            "Powered by Rust.".to_owned()
        } else {
            msg.to_owned()
        };
        self.issue(Command::QUIT(Some(text)))
    }

    /// Sends a message of the client-to-client protocol: one for each line of `msg`.
    pub fn send_ctcp(&mut self, target: &str, msg: &str) -> (r: Result<(), Error>)
        ensures
            old(self)@.delivers(LineKind::Marked.messages(target@, msg@), final(self)@, r),
    {
        self.send_lines(LineKind::Marked, target, msg)
    }

    /// Sends an action.
    pub fn send_action(&mut self, target: &str, msg: &str) -> (r: Result<(), Error>)
        ensures
            old(self)@.delivers(
                LineKind::Marked.messages(target@, "ACTION "@ + msg@),
                final(self)@,
                r,
            ),
    {
        let text = with_text("ACTION ", msg);
        self.send_ctcp(target, text.as_str())
    }

    /// Asks a client who its user is.
    pub fn send_finger(&mut self, target: &str) -> (r: Result<(), Error>)
        ensures
            old(self)@.delivers(LineKind::Marked.messages(target@, "FINGER"@), final(self)@, r),
    {
        self.send_ctcp(target, "FINGER")
    }

    /// Asks a client for its version.
    pub fn send_version(&mut self, target: &str) -> (r: Result<(), Error>)
        ensures
            old(self)@.delivers(LineKind::Marked.messages(target@, "VERSION"@), final(self)@, r),
    {
        self.send_ctcp(target, "VERSION")
    }

    /// Asks a client for its source.
    pub fn send_source(&mut self, target: &str) -> (r: Result<(), Error>)
        ensures
            old(self)@.delivers(LineKind::Marked.messages(target@, "SOURCE"@), final(self)@, r),
    {
        self.send_ctcp(target, "SOURCE")
    }

    /// Asks a client about its user.
    pub fn send_user_info(&mut self, target: &str) -> (r: Result<(), Error>)
        ensures
            old(self)@.delivers(LineKind::Marked.messages(target@, "USERINFO"@), final(self)@, r),
    {
        self.send_ctcp(target, "USERINFO")
    }

    /// Sends a client a PING that carries `timestamp`.
    pub fn send_ctcp_ping_at(&mut self, target: &str, timestamp: i64) -> (r: Result<(), Error>)
        ensures
            old(self)@.delivers(
                LineKind::Marked.messages(target@, "PING "@ + text::decimal(timestamp as int)),
                final(self)@,
                r,
            ),
    {
        let digits = text::decimal_of(timestamp);
        let text = with_text("PING ", digits.as_str());
        self.send_ctcp(target, text.as_str())
    }

    /// Sends a client a PING that carries the time.
    pub fn send_ctcp_ping(&mut self, target: &str) -> (r: Result<(), Error>)
        ensures
            exists|time: i64|
                old(self)@.delivers(
                    LineKind::Marked.messages(
                        target@,
                        "PING "@ + #[trigger] text::decimal(time as int),
                    ),
                    final(self)@,
                    r,
                ),
    {
        let time: i64 = clock::timestamp();
        self.send_ctcp_ping_at(target, time)
    }

    /// Asks a client for its time.
    pub fn send_time(&mut self, target: &str) -> (r: Result<(), Error>)
        ensures
            old(self)@.delivers(LineKind::Marked.messages(target@, "TIME"@), final(self)@, r),
    {
        self.send_ctcp(target, "TIME")
    }
}

} // verus!
