//! A connection to a server: the client, and the stream of the messages it receives.

use crate::client::data::config::{Config, ConfigView};
use crate::client::data::user::User;
use crate::client::outgoing::{Outgoing, OutgoingView};
use crate::client::sender::{self, LineKind, Sender, SenderView};
use crate::client::state::{self, ClientState, Features, StateView};
use crate::error::{Error, ErrorView};
use crate::proto::caps::{CapSubCommand, Capability, NegotiationVersion};
use crate::proto::command::{Command, CommandView};
use crate::proto::message::{Message, MessageView};
use crate::proto::mode::{Mode, ModeType};
use crate::text;
use tokio::sync::mpsc::UnboundedSender;
use vstd::prelude::*;

verus! {

/// A connection to a server. Messages arrive through `I`, and `H` stands for the task that writes.
pub struct Client<I, H> {
    state: ClientState,
    incoming: Option<I>,
    outgoing: Option<Outgoing>,
    /// The task that writes, once there is one.
    pub outgoing_handle: Option<H>,
}

/// What a [`Client`] holds.
#[verifier::ext_equal]
pub struct ClientView<I, H> {
    pub state: StateView,
    pub incoming: Option<I>,
    pub outgoing: Option<OutgoingView>,
    pub outgoing_handle: Option<H>,
}

/// What an optional writer holds.
pub open spec fn opt_outgoing(o: Option<Outgoing>) -> Option<OutgoingView> {
    match o {
        Some(w) => Some(w@),
        None => None,
    }
}

impl<I, H> View for Client<I, H> {
    type V = ClientView<I, H>;

    closed spec fn view(&self) -> ClientView<I, H> {
        ClientView {
            state: self.state@,
            incoming: self.incoming,
            outgoing: opt_outgoing(self.outgoing),
            outgoing_handle: self.outgoing_handle,
        }
    }
}

impl<I, H> ClientView<I, H> {
    /// Whether `after` and `r` are what comes of sending `plan`.
    pub open spec fn delivers(
        self,
        plan: Seq<MessageView>,
        after: ClientView<I, H>,
        r: Result<(), Error>,
    ) -> bool {
        &&& self.state.delivers(plan, after.state, r)
        &&& after == (ClientView { state: after.state, ..self })
    }

    /// The client with another sender.
    pub open spec fn with_sender(self, sender: SenderView) -> ClientView<I, H> {
        ClientView { state: StateView { sender, ..self.state }, ..self }
    }

    /// Whether the stream of incoming messages is still there to be taken.
    pub open spec fn can_stream(self) -> bool {
        self.incoming is Some
    }

    /// The client once the stream, and with it the writer, was taken.
    pub open spec fn after_stream(self) -> ClientView<I, H> {
        ClientView { incoming: None, outgoing: None, ..self }
    }

    /// Whether an operation leads from this client to `after`.
    pub open spec fn leads_to(self, after: ClientView<I, H>) -> bool {
        // Sending, answering, switching.
        ||| after == (ClientView { state: after.state, ..self })
        // Taking the writer.
        ||| after == (ClientView { outgoing: None, ..self })
        // Storing or taking the task that writes.
        ||| after == (ClientView { outgoing_handle: after.outgoing_handle, ..self })
        // Taking the stream.
        ||| self.can_stream() && after == self.after_stream()
    }

    /// The client when a message is about to be queued.
    pub open spec fn sending(self, msg: MessageView) -> ClientView<I, H> {
        ClientView { state: state::sending(self.state, msg), ..self }
    }
}

impl<I, H> Client<I, H> {
    /// A client for a connection: messages arrive through `incoming`, and what is sent goes to
    /// the queue behind `tx_outgoing`.
    pub fn from_config(
        config: Config,
        features: Features,
        tx_outgoing: UnboundedSender<Message>,
        incoming: I,
    ) -> (r: Client<I, H>)
        ensures
            r@ == (ClientView::<I, H> {
                state: StateView {
                    sender: SenderView {
                        offered: sender::offered(tx_outgoing),
                        flood_protection: true,
                        wake_writer: false,
                        autojoin: true,
                    },
                    config: config@,
                    features,
                    lists: seq![],
                    index: 0,
                },
                incoming: Some(incoming),
                outgoing: Some(OutgoingView::fresh(config@.threshold() as nat)),
                outgoing_handle: None,
            }),
            r@.state.valid(),
            r@.outgoing->0.threshold == match config.flood_penalty_threshold {
                Some(n) => n as nat,
                None => 10_000,
            },
    {
        let outgoing = Outgoing::new(config.flood_penalty_threshold());
        Client {
            state: ClientState::new(Sender::new(tx_outgoing), config, features),
            incoming: Some(incoming),
            outgoing: Some(outgoing),
            outgoing_handle: None,
        }
    }

    /// Takes the writer, to drive it yourself.
    pub fn outgoing(&mut self) -> (r: Option<Outgoing>)
        ensures
            opt_outgoing(r) == old(self)@.outgoing,
            final(self)@ == (ClientView { outgoing: None, ..old(self)@ }),
    {
        self.outgoing.take()
    }

    /// The sender of this connection. All handles on the connection are handles on this one.
    pub fn sender(&mut self) -> (r: &mut Sender)
        ensures
            r@ == old(self)@.state.sender,
            final(self)@ == old(self)@.with_sender(final(r)@),
    {
        self.state.sender()
    }

    /// Takes the task that writes, to end it.
    pub fn abort_outgoing(&mut self) -> (r: Option<H>)
        ensures
            r == old(self)@.outgoing_handle,
            final(self)@ == (ClientView { outgoing_handle: None, ..old(self)@ }),
    {
        self.outgoing_handle.take()
    }

    /// The configuration of this connection.
    pub fn config(&self) -> (r: &Config)
        ensures
            r@ == self@.state.config,
    {
        self.state.config()
    }

    /// Whether the stream of incoming messages is still there to be taken.
    pub fn has_stream(&self) -> (r: bool)
        ensures
            r == self@.can_stream(),
    {
        self.incoming.is_some()
    }

    /// Takes the stream of incoming messages, and the writer, if it is still there, to run it as
    /// a task. The stream can be taken only once.
    pub fn stream(&mut self) -> (r: Result<(ClientStream<I>, Option<Outgoing>), Error>)
        requires
            old(self)@.can_stream(),
        ensures
            match r {
                Ok((stream, writer)) => {
                    &&& old(self)@.incoming == Some(stream.stream)
                    &&& opt_outgoing(writer) == old(self)@.outgoing
                    &&& final(self)@ == old(self)@.after_stream()
                },
                Err(_) => false,
            },
    {
        match self.incoming.take() {
            Some(stream) => {
                let writer = self.outgoing.take();
                Ok((ClientStream { stream }, writer))
            },
            None => Err(Error::StreamAlreadyConfigured),
        }
    }

    /// The tracked channels, or nothing where channels are not tracked.
    pub fn list_channels(&self) -> (r: Option<Vec<String>>)
        ensures
            text::opt_texts(r) == if self@.state.features.channel_lists {
                Some(crate::client::channels::names(self@.state.lists))
            } else {
                None
            },
    {
        self.state.list_channels()
    }

    /// The users of a channel, or nothing where it is not tracked.
    pub fn list_users(&self, chan: &str) -> (r: Option<Vec<User>>)
        requires
            self@.state.valid(),
        ensures
            match r {
                Some(users) => {
                    &&& self@.state.features.channel_lists
                    &&& self@.state.lists.contains(
                        (crate::client::channels::ChannelView {
                            name: chan@,
                            users: crate::client::data::user::user_views(users@),
                        }),
                    )
                },
                None => !self@.state.features.channel_lists || !crate::client::channels::names(
                    self@.state.lists,
                ).contains(chan@),
            },
    {
        self.state.list_users(chan)
    }

    /// Whether it is known which nickname is in use.
    pub fn has_nickname(&self) -> (r: bool)
        ensures
            r == self@.state.has_nickname(),
    {
        self.state.has_nickname()
    }

    /// Whether the client can answer a message.
    pub fn can_answer(&self, msg: &Message) -> (r: bool)
        ensures
            r == self@.state.can_answer(msg@),
    {
        self.state.can_answer(msg)
    }

    /// The nickname in use.
    pub fn current_nickname(&self) -> (r: &str)
        requires
            self@.state.valid(),
            self@.state.has_nickname(),
        ensures
            r@ == state::nickname_in_use(self@.state.config, self@.state.index),
    {
        self.state.current_nickname()
    }

    /// Sends one message.
    pub fn send<M: Into<Message>>(&mut self, msg: M) -> (r: Result<(), Error>)
        requires
            old(self)@.state.valid(),
        ensures
            exists|m: Message|
                #[trigger] call_ensures(<M as Into<Message>>::into, (msg,), m) && old(
                    self,
                )@.sending(m@).delivers(seq![m@], final(self)@, r),
            final(self)@.state.valid(),
    {
        self.state.send(msg)
    }

    /// Introduces the client to the server.
    pub fn identify(&mut self) -> (r: Result<(), Error>)
        ensures
            old(self)@.state.performs(
                state::identify_script(old(self)@.state.config),
                final(self)@.state,
                r,
            ),
            final(self)@ == (ClientView { state: final(self)@.state, ..old(self)@ }),
    {
        self.state.identify()
    }

    /// Changes modes of `target`.
    pub fn send_mode<T: ModeType>(&mut self, target: &str, modes: &[Mode<T>]) -> (r: Result<
        (),
        Error,
    >)
        requires
            old(self)@.state.valid(),
        ensures
            old(self)@.sending(
                MessageView::of(T::change(target@, crate::proto::mode::mode_views(modes@))),
            ).delivers(
                sender::one(T::change(target@, crate::proto::mode::mode_views(modes@))),
                final(self)@,
                r,
            ),
            final(self)@.state.valid(),
    {
        self.state.send_mode(target, modes)
    }

    /// Joins a channel or a list of channels.
    pub fn send_join(&mut self, chanlist: &str) -> (r: Result<(), Error>)
        ensures
            old(self)@.delivers(
                sender::one(CommandView::JOIN(chanlist@, None, None)),
                final(self)@,
                r,
            ),
    {
        self.state.sender().send_join(chanlist)
    }

    /// Joins a list of channels with a list of keys.
    pub fn send_join_with_keys(&mut self, chanlist: &str, keylist: &str) -> (r: Result<(), Error>)
        ensures
            old(self)@.delivers(
                sender::one(CommandView::JOIN(chanlist@, Some(keylist@), None)),
                final(self)@,
                r,
            ),
    {
        self.state.sender().send_join_with_keys(chanlist, keylist)
    }

    /// Sends a notice: one for each line of `message`.
    pub fn send_notice(&mut self, target: &str, message: &str) -> (r: Result<(), Error>)
        ensures
            old(self)@.delivers(LineKind::Notice.messages(target@, message@), final(self)@, r),
    {
        self.state.sender().send_notice(target, message)
    }

    /// Asks for the capabilities of the server.
    pub fn send_cap_ls(&mut self, version: NegotiationVersion) -> (r: Result<(), Error>)
        ensures
            old(self)@.delivers(
                sender::one(
                    CommandView::CAP(
                        None,
                        CapSubCommand::LS,
                        match version {
                            NegotiationVersion::V301 => None,
                            NegotiationVersion::V302 => Some("302"@),
                        },
                        None,
                    ),
                ),
                final(self)@,
                r,
            ),
    {
        self.state.sender().send_cap_ls(version)
    }

    /// Asks for capabilities.
    pub fn send_cap_req(&mut self, extensions: &[Capability]) -> (r: Result<(), Error>)
        requires
            extensions.len() > 0,
        ensures
            old(self)@.delivers(
                sender::one(
                    CommandView::CAP(
                        None,
                        CapSubCommand::REQ,
                        None,
                        Some(text::joined(crate::proto::caps::names(extensions@), " "@)),
                    ),
                ),
                final(self)@,
                r,
            ),
    {
        self.state.sender().send_cap_req(extensions)
    }

    /// Authenticates with `data`.
    pub fn send_sasl(&mut self, data: &str) -> (r: Result<(), Error>)
        ensures
            old(self)@.delivers(sender::one(CommandView::AUTHENTICATE(data@)), final(self)@, r),
    {
        self.state.sender().send_sasl(data)
    }

    /// Asks to authenticate by the PLAIN mechanism.
    pub fn send_sasl_plain(&mut self) -> (r: Result<(), Error>)
        ensures
            old(self)@.delivers(sender::one(CommandView::AUTHENTICATE("PLAIN"@)), final(self)@, r),
    {
        self.state.sender().send_sasl_plain()
    }

    /// Asks to authenticate by the EXTERNAL mechanism.
    pub fn send_sasl_external(&mut self) -> (r: Result<(), Error>)
        ensures
            old(self)@.delivers(
                sender::one(CommandView::AUTHENTICATE("EXTERNAL"@)),
                final(self)@,
                r,
            ),
    {
        self.state.sender().send_sasl_external()
    }

    /// Gives up authenticating.
    pub fn send_sasl_abort(&mut self) -> (r: Result<(), Error>)
        ensures
            old(self)@.delivers(sender::one(CommandView::AUTHENTICATE("*"@)), final(self)@, r),
    {
        self.state.sender().send_sasl_abort()
    }

    /// Answers a PING.
    pub fn send_pong(&mut self, msg: &str) -> (r: Result<(), Error>)
        ensures
            old(self)@.delivers(sender::one(CommandView::PONG(msg@, None)), final(self)@, r),
    {
        self.state.sender().send_pong(msg)
    }

    /// Leaves a channel or a list of channels. A tracked channel of that name is forgotten.
    pub fn send_part(&mut self, chanlist: &str) -> (r: Result<(), Error>)
        requires
            old(self)@.state.valid(),
        ensures
            old(self)@.sending(MessageView::of(CommandView::PART(chanlist@, None))).delivers(
                sender::one(CommandView::PART(chanlist@, None)),
                final(self)@,
                r,
            ),
            final(self)@.state.valid(),
    {
        self.state.issue(Command::PART(chanlist.to_owned(), None))
    }

    /// Asks for operator privileges.
    pub fn send_oper(&mut self, username: &str, password: &str) -> (r: Result<(), Error>)
        ensures
            old(self)@.delivers(
                sender::one(CommandView::OPER(username@, password@)),
                final(self)@,
                r,
            ),
    {
        self.state.sender().send_oper(username, password)
    }

    /// Sends a message: one for each line of `message`.
    pub fn send_privmsg(&mut self, target: &str, message: &str) -> (r: Result<(), Error>)
        ensures
            old(self)@.delivers(LineKind::Message.messages(target@, message@), final(self)@, r),
    {
        self.state.sender().send_privmsg(target, message)
    }

    /// Sets the topic of a channel, or asks for it where `topic` is empty.
    pub fn send_topic(&mut self, channel: &str, topic: &str) -> (r: Result<(), Error>)
        ensures
            old(self)@.delivers(
                sender::one(CommandView::TOPIC(channel@, sender::unless_empty(topic@))),
                final(self)@,
                r,
            ),
    {
        self.state.sender().send_topic(channel, topic)
    }

    /// Disconnects a user.
    pub fn send_kill(&mut self, target: &str, message: &str) -> (r: Result<(), Error>)
        ensures
            old(self)@.delivers(sender::one(CommandView::KILL(target@, message@)), final(self)@, r),
    {
        self.state.sender().send_kill(target, message)
    }

    /// Removes users from channels, with a comment unless `message` is empty.
    pub fn send_kick(
        &mut self,
        chanlist: &str,
        nicklist: &str,
        message: &str,
    ) -> (r: Result<(), Error>)
        ensures
            old(self)@.delivers(
                sender::one(
                    CommandView::KICK(chanlist@, nicklist@, sender::unless_empty(message@)),
                ),
                final(self)@,
                r,
            ),
    {
        self.state.sender().send_kick(chanlist, nicklist, message)
    }

    /// Forces a change of modes, with parameters unless `modeparams` is empty.
    pub fn send_samode(
        &mut self,
        target: &str,
        mode: &str,
        modeparams: &str,
    ) -> (r: Result<(), Error>)
        ensures
            old(self)@.delivers(
                sender::one(CommandView::SAMODE(target@, mode@, sender::unless_empty(modeparams@))),
                final(self)@,
                r,
            ),
    {
        self.state.sender().send_samode(target, mode, modeparams)
    }

    /// Forces a change of nickname.
    pub fn send_sanick(&mut self, old_nick: &str, new_nick: &str) -> (r: Result<(), Error>)
        ensures
            old(self)@.delivers(
                sender::one(CommandView::SANICK(old_nick@, new_nick@)),
                final(self)@,
                r,
            ),
    {
        self.state.sender().send_sanick(old_nick, new_nick)
    }

    /// Invites a user to a channel.
    pub fn send_invite(&mut self, nick: &str, chan: &str) -> (r: Result<(), Error>)
        ensures
            old(self)@.delivers(sender::one(CommandView::INVITE(nick@, chan@)), final(self)@, r),
    {
        self.state.sender().send_invite(nick, chan)
    }

    /// Ends the session, with `Powered by Rust.` where `msg` is empty.
    pub fn send_quit(&mut self, msg: &str) -> (r: Result<(), Error>)
        ensures
            old(self)@.delivers(
                sender::one(
                    CommandView::QUIT(
                        Some(
                            if msg@.len() == 0 {
                                "Powered by Rust."@
                            } else {
                                msg@
                            },
                        ),
                    ),
                ),
                final(self)@,
                r,
            ),
    {
        self.state.sender().send_quit(msg)
    }

    /// Sends a message of the client-to-client protocol: one for each line of `msg`.
    pub fn send_ctcp(&mut self, target: &str, msg: &str) -> (r: Result<(), Error>)
        ensures
            old(self)@.delivers(LineKind::Marked.messages(target@, msg@), final(self)@, r),
    {
        self.state.sender().send_ctcp(target, msg)
    }

    /// Sends an action.
    pub fn send_action(&mut self, target: &str, msg: &str) -> (r: Result<(), Error>)
        ensures
            old(self)@.delivers(
                LineKind::Marked.messages(target@, "ACTION "@ + msg@),
                final(self)@,
                r,
            ),
    {
        self.state.sender().send_action(target, msg)
    }

    /// Asks a client who its user is.
    pub fn send_finger(&mut self, target: &str) -> (r: Result<(), Error>)
        ensures
            old(self)@.delivers(LineKind::Marked.messages(target@, "FINGER"@), final(self)@, r),
    {
        self.state.sender().send_finger(target)
    }

    /// Asks a client for its version.
    pub fn send_version(&mut self, target: &str) -> (r: Result<(), Error>)
        ensures
            old(self)@.delivers(LineKind::Marked.messages(target@, "VERSION"@), final(self)@, r),
    {
        self.state.sender().send_version(target)
    }

    /// Asks a client for its source.
    pub fn send_source(&mut self, target: &str) -> (r: Result<(), Error>)
        ensures
            old(self)@.delivers(LineKind::Marked.messages(target@, "SOURCE"@), final(self)@, r),
    {
        self.state.sender().send_source(target)
    }

    /// Asks a client about its user.
    pub fn send_user_info(&mut self, target: &str) -> (r: Result<(), Error>)
        ensures
            old(self)@.delivers(LineKind::Marked.messages(target@, "USERINFO"@), final(self)@, r),
    {
        self.state.sender().send_user_info(target)
    }

    /// Sends a client a PING that carries `timestamp`.
    pub fn send_ctcp_ping_at(&mut self, target: &str, timestamp: i64) -> (r: Result<(), Error>)
        ensures
            old(self)@.delivers(
                LineKind::Marked.messages(target@, "PING "@ + text::decimal(timestamp as int)),
                final(self)@,
                r,
            ),
    {
        self.state.sender().send_ctcp_ping_at(target, timestamp)
    }

    /// Sends a client a PING that carries the time.
    pub fn send_ctcp_ping(&mut self, target: &str) -> (r: Result<(), Error>)
        ensures
            exists|time: i64|
                old(self)@.delivers(
                    LineKind::Marked.messages(
                        target@,
                        "PING "@ + #[trigger] text::decimal(time as int),
                    ),
                    final(self)@,
                    r,
                ),
    {
        self.state.sender().send_ctcp_ping(target)
    }

    /// Asks a client for its time.
    pub fn send_time(&mut self, target: &str) -> (r: Result<(), Error>)
        ensures
            old(self)@.delivers(LineKind::Marked.messages(target@, "TIME"@), final(self)@, r),
    {
        self.state.sender().send_time(target)
    }
}

/// The stream can be taken only once: whatever operations follow, in any number, a client whose
/// stream was taken does not meet what another call asks for.
pub proof fn the_stream_is_taken_once<I, H>(history: Seq<ClientView<I, H>>, i: int, j: int)
    requires
        forall|k: int|
            0 <= k < history.len() - 1 ==> (#[trigger] history[k]).leads_to(history[k + 1]),
        0 <= i < j < history.len(),
        history[i].can_stream(),
        history[i + 1] == history[i].after_stream(),
    ensures
        !history[j].can_stream(),
    decreases j - i,
{
    if j > i + 1 {
        the_stream_is_taken_once(history, i, j - 1);
        assert(history[j - 1].leads_to(history[j - 1 + 1]));
    }
}

/// Messages are answered one behind the other: none by doing nothing, and one more from the state
/// that the others led to. What arrived is what was handed over.
pub proof fn answering_one_more<E>(
    before: StateView,
    messages: Seq<MessageView>,
    message: MessageView,
    after: StateView,
    items: Seq<Result<Message, E>>,
    i: int,
)
    requires
        0 <= i < items.len(),
    ensures
        passes(before, Seq::<MessageView>::empty(), after) <==> after == before,
        passes(before, messages.push(message), after) <==> exists|mid: StateView|
            passes(before, messages, mid) && #[trigger] mid.answers(message, after, Ok(())),
        arrived(items).len() == items.len(),
        items[i] matches Ok(m) ==> arrived(items)[i] == m@,
        all_arrived(items) ==> items[i] is Ok,
{
    assert(messages.push(message).drop_last() =~= messages);
    assert(messages.push(message).last() == message);
}

/// What a client is about to send changes nothing but the tracked channels, and a client that is
/// given another sender is otherwise the same.
pub proof fn clients_keep_the_rest<I, H>(
    client: ClientView<I, H>,
    msg: MessageView,
    sender: SenderView,
)
    ensures
        client.sending(msg).state == state::sending(client.state, msg),
        client.sending(msg).incoming == client.incoming,
        client.sending(msg).outgoing == client.outgoing,
        client.sending(msg).outgoing_handle == client.outgoing_handle,
        client.with_sender(sender).state.sender == sender,
        client.with_sender(sender).state.config == client.state.config,
        client.with_sender(sender).state.lists == client.state.lists,
        client.with_sender(sender).state.index == client.state.index,
        client.with_sender(sender).state.features == client.state.features,
        client.with_sender(sender).incoming == client.incoming,
        client.with_sender(sender).outgoing == client.outgoing,
        client.with_sender(sender).outgoing_handle == client.outgoing_handle,
        client.can_stream() <==> client.incoming is Some,
        client.after_stream().incoming is None,
        client.after_stream().outgoing is None,
        client.after_stream().state == client.state,
        client.after_stream().outgoing_handle == client.outgoing_handle,
{
}

/// The switch for the limit has the same effect through any handle on the connection, and through
/// one taken later: the last one to turn it counts. The writer is to be woken, and nothing else of
/// the connection changes: nothing is queued.
pub proof fn handles_share_the_switch<I, H>(client: ClientView<I, H>, first: bool, second: bool)
    ensures
        ({
            let once = client.with_sender(client.state.sender.with_flood_protection(first));
            let twice = once.with_sender(once.state.sender.with_flood_protection(second));
            &&& once.state.sender.flood_protection == first
            &&& once.state.sender.wake_writer
            &&& once.state.sender.offered == client.state.sender.offered
            &&& once.state.sender.autojoin == client.state.sender.autojoin
            &&& once == (ClientView { state: once.state, ..client })
            &&& once.state == (StateView { sender: once.state.sender, ..client.state })
            &&& twice == client.with_sender(client.state.sender.with_flood_protection(second))
        }),
{
}

/// The stream of the messages that a client receives.
pub struct ClientStream<I> {
    /// Where they arrive.
    pub stream: I,
}

/// What goes wrong while messages are received: on the way, or in the client.
pub enum StreamError<E> {
    /// An error of the client.
    Client(Error),
    /// An error of what the messages arrive through.
    Transport(E),
}

/// The messages that arrived, up to the first error.
pub open spec fn arrived<E>(items: Seq<Result<Message, E>>) -> Seq<MessageView> {
    items.map_values(
        |i: Result<Message, E>|
            match i {
                Ok(m) => m@,
                Err(_) => arbitrary(),
            },
    )
}

/// Whether all items are messages.
pub open spec fn all_arrived<E>(items: Seq<Result<Message, E>>) -> bool {
    forall|i: int| 0 <= i < items.len() ==> (#[trigger] items[i]) is Ok
}

/// Whether a state comes to another by answering messages, one behind the other and each without
/// an error.
pub open spec fn passes(before: StateView, messages: Seq<MessageView>, after: StateView) -> bool
    decreases messages.len(),
{
    if messages.len() == 0 {
        after == before
    } else {
        exists|mid: StateView|
            {
                &&& passes(before, messages.drop_last(), mid)
                &&& #[trigger] mid.answers(messages.last(), after, Ok(()))
            }
    }
}

/// Whether the client can answer each message when it is its turn.
pub open spec fn can_answer_all<E>(before: StateView, items: Seq<Result<Message, E>>) -> bool {
    forall|n: int, mid: StateView|
        0 <= n < items.len() && items[n] is Ok && #[trigger] passes(
            before,
            arrived(items.take(n)),
            mid,
        ) ==> mid.can_answer(arrived(items)[n])
}

/// A client with a configured nickname, or with no user modes to set, can answer everything.
pub proof fn a_nickname_is_enough<E>(before: StateView, items: Seq<Result<Message, E>>)
    requires
        before.config.nickname is Some || before.config.umodes_or_none().len() == 0,
    ensures
        can_answer_all(before, items),
{
    assert forall|n: int, mid: StateView|
        0 <= n < items.len() && items[n] is Ok && #[trigger] passes(
            before,
            arrived(items.take(n)),
            mid,
        ) implies mid.can_answer(arrived(items)[n]) by {
        passing_keeps_the_configuration(before, arrived(items.take(n)), mid);
    }
}

/// To answer messages leaves the configuration alone.
proof fn passing_keeps_the_configuration(
    before: StateView,
    messages: Seq<MessageView>,
    after: StateView,
)
    requires
        passes(before, messages, after),
    ensures
        after.config == before.config,
    decreases messages.len(),
{
    if messages.len() > 0 {
        let mid = choose|mid: StateView|
            passes(before, messages.drop_last(), mid) && #[trigger] mid.answers(
                messages.last(),
                after,
                Ok(()),
            );
        passing_keeps_the_configuration(before, messages.drop_last(), mid);
    }
}

impl<I> ClientStream<I> {
    /// The next item of the stream, given the next of what the messages arrive through. The client
    /// answers a message before it is handed on.
    pub fn poll_next<J, H, E>(
        client: &mut Client<J, H>,
        item: Option<Result<Message, E>>,
    ) -> (r: Option<Result<Message, StreamError<E>>>)
        requires
            old(client)@.state.valid(),
            item matches Some(Ok(m)) ==> old(client)@.state.can_answer(m@),
        ensures
            final(client)@ == (ClientView { state: final(client)@.state, ..old(client)@ }),
            final(client)@.state.valid(),
            match (item, r) {
                (None, None) => final(client)@.state == old(client)@.state,
                (Some(Err(e)), Some(Err(StreamError::Transport(f)))) => {
                    &&& e == f
                    &&& final(client)@.state == old(client)@.state
                },
                (Some(Ok(m)), Some(Ok(n))) => {
                    &&& m == n
                    &&& old(client)@.state.answers(m@, final(client)@.state, Ok(()))
                },
                (Some(Ok(m)), Some(Err(StreamError::Client(e)))) => old(client)@.state.answers(
                    m@,
                    final(client)@.state,
                    Err(e),
                ),
                _ => false,
            },
    {
        match item {
            None => None,
            Some(Err(e)) => Some(Err(StreamError::Transport(e))),
            Some(Ok(msg)) => match client.state.handle_message(&msg) {
                Ok(()) => Some(Ok(msg)),
                Err(e) => Some(Err(StreamError::Client(e))),
            },
        }
    }

    /// The stream never ends: more may arrive.
    pub fn is_terminated(&self) -> (r: bool)
        ensures
            !r,
    {
        false
    }
}

impl<E> ClientStream<Vec<Result<Message, E>>> {
    /// Has the client answer all messages that arrived, up to the first error, and collects them.
    pub fn collect<J, H>(self, client: &mut Client<J, H>) -> (r: Result<
        Vec<Message>,
        StreamError<E>,
    >)
        requires
            old(client)@.state.valid(),
            can_answer_all(old(client)@.state, self.stream@),
        ensures
            final(client)@ == (ClientView { state: final(client)@.state, ..old(client)@ }),
            final(client)@.state.valid(),
            match r {
                Ok(output) => {
                    &&& all_arrived(self.stream@)
                    &&& crate::proto::message::message_views(output@) == arrived(self.stream@)
                    &&& passes(
                        old(client)@.state,
                        arrived(self.stream@),
                        final(client)@.state,
                    )
                },
                Err(StreamError::Transport(e)) => exists|n: int|
                    {
                        &&& 0 <= n < self.stream.len()
                        &&& all_arrived(#[trigger] self.stream@.take(n))
                        &&& self.stream@[n] == Err::<Message, E>(e)
                        &&& passes(
                            old(client)@.state,
                            arrived(self.stream@.take(n)),
                            final(client)@.state,
                        )
                    },
                Err(StreamError::Client(e)) => exists|n: int, mid: StateView|
                    {
                        &&& 0 <= n < self.stream.len()
                        &&& all_arrived(self.stream@.take(n + 1))
                        &&& passes(old(client)@.state, arrived(self.stream@.take(n)), mid)
                        &&& #[trigger] mid.answers(
                            #[trigger] arrived(self.stream@)[n],
                            final(client)@.state,
                            Err(e),
                        )
                    },
            },
    {
        let ghost items = self.stream@;
        let ghost before = client@;
        let mut output: Vec<Message> = Vec::new();
        let mut rest = self.stream;
        assert(items.take(0) =~= seq![]);
        while rest.len() > 0
            invariant
                items == self.stream@,
                before == old(client)@,
                can_answer_all(before.state, items),
                output.len() + rest.len() == items.len(),
                rest@ == items.skip(output.len() as int),
                all_arrived(items.take(output.len() as int)),
                crate::proto::message::message_views(output@) == arrived(
                    items.take(output.len() as int),
                ),
                passes(before.state, arrived(items.take(output.len() as int)), client@.state),
                client@ == (ClientView { state: client@.state, ..before }),
                client@.state.valid(),
            decreases rest.len(),
        {
            let ghost n = output.len() as int;
            let ghost mid = client@.state;
            proof {
                assert(items.take(n + 1).drop_last() =~= items.take(n));
                assert(items.take(n + 1) =~= items.take(n).push(items[n]));
            }
            let item = rest.remove(0);
            assert(item == items[n]);
            assert(rest@ =~= items.skip(n + 1));
            match Self::poll_next(client, Some(item)) {
                Some(Ok(message)) => {
                    proof {
                        let had = crate::proto::message::message_views(output@);
                        let all = arrived(items.take(n + 1));
                        assert(all.drop_last() =~= arrived(items.take(n)));
                        assert(all.last() == message@);
                        assert(mid.answers(all.last(), client@.state, Ok(())));
                        assert(passes(before.state, all, client@.state));
                        assert(crate::proto::message::message_views(output@.push(message))
                            =~= had.push(message@));
                        assert(all =~= had.push(message@));
                    }
                    output.push(message);
                },
                Some(Err(e)) => {
                    proof {
                        if e is Client {
                            assert(arrived(items)[n] == arrived(items.take(n + 1))[n]);
                            assert(mid.answers(arrived(items)[n], client@.state, Err(e->Client_0)));
                        }
                        assert(all_arrived(items.take(n)));
                    }
                    return Err(e);
                },
                None => {},
            }
        }
        assert(items.take(output.len() as int) =~= items);
        Ok(output)
    }
}

} // verus!
