//! The writer of a connection: it takes messages from the queue of the client and writes them,
//! no faster than the server allows.
//!
//! The writer does no input or output of its own. It asks for one action after the other, and is
//! told what came of each: [`Outgoing::step`] takes that event and answers with the next action,
//! up to one that ends the turn.

use crate::client::penalty;
use crate::proto::message::{Message, MessageView};
use tokio::time::Instant;
use vstd::prelude::*;

verus! {

/// An instant of the clock of tokio.
#[verifier::external_type_specification]
#[verifier::external_body]
pub struct ExInstant(tokio::time::Instant);

/// `Instant::now` of tokio: the present. It is a reading of the clock, of which nothing is said.
#[verifier::external_body]
fn present() -> Instant {
    Instant::now()
}

/// `Instant::elapsed` of tokio: the time since `origin`, here in nanoseconds. It is a reading of
/// the clock, of which nothing is said.
#[verifier::external_body]
fn nanos_since(origin: &Instant) -> u64 {
    origin.elapsed().as_nanos() as u64
}

/// How far an operation of the sink has come.
#[derive(Debug, Clone, Copy, PartialEq, Eq, Structural)]
pub enum Answer {
    /// It is done.
    Done,
    /// It goes on later.
    Pending,
    /// It failed.
    Failed,
}

/// What the queue of messages held.
pub enum Received<M> {
    /// A message.
    Message(M),
    /// Nothing yet.
    Empty,
    /// Nothing, now and later.
    Closed,
}

/// What came of an action.
pub enum Event<M> {
    /// A turn begins.
    Turn,
    /// What the priority queue held.
    Priority(Option<M>),
    /// Whether the sink is ready for a message.
    Ready(Answer),
    /// Whether the sink took the message.
    Started(bool),
    /// Whether the sink has written everything.
    Flushed(Answer),
    /// Whether the delay has passed.
    Delay(bool),
    /// A delay has begun.
    DelayStarted,
    /// What the queue held.
    Queue(Received<M>),
}

/// What the writer asks for.
pub enum Action<M> {
    /// Look into the priority queue.
    PollPriority,
    /// Ask the sink to get ready.
    PollReady,
    /// Give the sink a message.
    StartSend(M),
    /// Have the sink write everything.
    Flush,
    /// See whether the delay has passed.
    PollDelay,
    /// Begin a delay of so many milliseconds.
    StartDelay(u64),
    /// Look into the queue.
    PollQueue,
    /// End the turn, and begin another when something happens.
    Wait,
    /// End the turn, and begin another at once.
    WaitAwake,
    /// End for good.
    Finish,
    /// End with the error of the sink.
    Fail,
}

impl View for Received<Message> {
    type V = Received<MessageView>;

    open spec fn view(&self) -> Received<MessageView> {
        match self {
            Received::Message(m) => Received::Message(m@),
            Received::Empty => Received::Empty,
            Received::Closed => Received::Closed,
        }
    }
}

/// What an optional message holds.
pub open spec fn opt_message(o: Option<Message>) -> Option<MessageView> {
    match o {
        Some(m) => Some(m@),
        None => None,
    }
}

impl View for Event<Message> {
    type V = Event<MessageView>;

    open spec fn view(&self) -> Event<MessageView> {
        match self {
            Event::Turn => Event::Turn,
            Event::Priority(m) => Event::Priority(opt_message(*m)),
            Event::Ready(a) => Event::Ready(*a),
            Event::Started(b) => Event::Started(*b),
            Event::Flushed(a) => Event::Flushed(*a),
            Event::Delay(b) => Event::Delay(*b),
            Event::DelayStarted => Event::DelayStarted,
            Event::Queue(q) => Event::Queue(q@),
        }
    }
}

impl View for Action<Message> {
    type V = Action<MessageView>;

    open spec fn view(&self) -> Action<MessageView> {
        match self {
            Action::PollPriority => Action::PollPriority,
            Action::PollReady => Action::PollReady,
            Action::StartSend(m) => Action::StartSend(m@),
            Action::Flush => Action::Flush,
            Action::PollDelay => Action::PollDelay,
            Action::StartDelay(d) => Action::StartDelay(*d),
            Action::PollQueue => Action::PollQueue,
            Action::Wait => Action::Wait,
            Action::WaitAwake => Action::WaitAwake,
            Action::Finish => Action::Finish,
            Action::Fail => Action::Fail,
        }
    }
}

/// Where a message comes from that is given to the sink.
#[derive(Debug, Clone, Copy, PartialEq, Eq, Structural)]
pub enum Lane {
    /// The priority queue.
    Priority,
    /// The queue, in an earlier turn.
    Held,
    /// The queue, in this turn.
    Fresh,
}

/// Why the sink is to write everything.
#[derive(Debug, Clone, Copy, PartialEq, Eq, Structural)]
pub enum Reason {
    /// A message of the priority queue was given to it.
    Priority,
    /// A message of an earlier turn was given to it.
    Held,
    /// A delay has begun.
    Delayed,
    /// The queue is empty.
    Empty,
    /// The queue is closed.
    Closed,
}

/// What the writer waits to be told.
#[derive(Debug, Clone, Copy, PartialEq, Eq, Structural)]
pub enum Stage {
    /// That a turn begins.
    Idle,
    /// What the priority queue held: for the first time in this turn, or the second.
    Priority { second: bool },
    /// Whether the sink is ready.
    Ready(Lane),
    /// Whether the sink took the message.
    Start(Lane),
    /// Whether the sink has written everything.
    Flush(Reason),
    /// Whether the delay has passed.
    Delay,
    /// That a delay has begun.
    StartDelay,
    /// What the queue held.
    Queue,
}

/// The writer of a connection.
pub struct Outgoing {
    stage: Stage,
    priority_buffered: Option<Message>,
    buffered: Option<Message>,
    /// What the messages so far have cost, in milliseconds.
    penalty: u64,
    /// The penalty over which messages are delayed. Zero: never.
    penalty_threshold: u64,
    /// When the penalty was last brought up to date, in nanoseconds after the origin.
    last_penalty_check: u64,
    /// Whether the message that is held back waits for a delay to pass.
    delayed: bool,
    origin: Instant,
}

/// What an [`Outgoing`] holds.
#[verifier::ext_equal]
pub struct OutgoingView {
    pub stage: Stage,
    /// The message of the priority queue that the sink was not ready for.
    pub priority_held: Option<MessageView>,
    /// The message of the queue that is held back.
    pub held: Option<MessageView>,
    /// What the messages so far have cost, in milliseconds.
    pub penalty: nat,
    /// The penalty over which messages are delayed. Zero: never.
    pub threshold: nat,
    /// When the penalty was last brought up to date, in nanoseconds.
    pub checked: nat,
    /// Whether the message that is held back waits for a delay to pass.
    pub delayed: bool,
}

impl View for Outgoing {
    type V = OutgoingView;

    closed spec fn view(&self) -> OutgoingView {
        OutgoingView {
            stage: self.stage,
            priority_held: opt_message(self.priority_buffered),
            held: opt_message(self.buffered),
            penalty: self.penalty as nat,
            threshold: self.penalty_threshold as nat,
            checked: self.last_penalty_check as nat,
            delayed: self.delayed,
        }
    }
}

/// Whether `event` answers what the writer waits for.
pub open spec fn expected(stage: Stage, event: Event<MessageView>) -> bool {
    match stage {
        Stage::Idle => event is Turn,
        Stage::Priority { .. } => event is Priority,
        Stage::Ready(_) => event is Ready,
        Stage::Start(_) => event is Started,
        Stage::Flush(_) => event is Flushed,
        Stage::Delay => event is Delay,
        Stage::StartDelay => event is DelayStarted,
        Stage::Queue => event is Queue,
    }
}

impl OutgoingView {
    /// What holds of every writer.
    pub open spec fn valid(self) -> bool {
        &&& self.delayed ==> self.held is Some
        &&& self.penalty <= u64::MAX
        &&& self.threshold <= u64::MAX
        &&& match self.stage {
            Stage::Idle => true,
            Stage::Priority { second } => self.priority_held is None && (second ==> self.held
                is None),
            Stage::Ready(Lane::Priority) => self.priority_held is Some,
            Stage::Ready(_) => self.priority_held is None && self.held is Some && !self.delayed,
            Stage::Start(Lane::Priority) => self.priority_held is None,
            Stage::Start(_) => self.priority_held is None && self.held is None,
            Stage::Flush(Reason::Priority) => self.priority_held is None,
            Stage::Flush(Reason::Delayed) => self.priority_held is None && self.delayed,
            Stage::Flush(_) => self.priority_held is None && self.held is None,
            Stage::Delay => self.priority_held is None && self.delayed,
            Stage::StartDelay => self.priority_held is None && self.delayed,
            Stage::Queue => self.priority_held is None && self.held is None,
        }
    }

    /// The writer at the beginning of a connection.
    pub open spec fn fresh(threshold: nat) -> OutgoingView {
        OutgoingView {
            stage: Stage::Idle,
            priority_held: None,
            held: None,
            penalty: 0,
            threshold,
            checked: 0,
            delayed: false,
        }
    }

    /// The writer once it waits for something else.
    pub open spec fn at(self, stage: Stage) -> OutgoingView {
        OutgoingView { stage, ..self }
    }

    /// The penalty, brought up to date.
    pub open spec fn drained(self, now: nat) -> OutgoingView {
        OutgoingView {
            penalty: penalty::drained(self.penalty, self.checked, now),
            checked: now,
            ..self
        }
    }

    /// No penalty, and no delay.
    pub open spec fn released(self, now: nat) -> OutgoingView {
        OutgoingView { penalty: 0, checked: now, delayed: false, ..self }
    }

    /// The message that is next to be given to the sink.
    pub open spec fn slot(self, lane: Lane) -> Option<MessageView> {
        match lane {
            Lane::Priority => self.priority_held,
            _ => self.held,
        }
    }

    /// The writer without the message that is next to be given to the sink.
    pub open spec fn without(self, lane: Lane) -> OutgoingView {
        match lane {
            Lane::Priority => OutgoingView { priority_held: None, ..self },
            _ => OutgoingView { held: None, ..self },
        }
    }

    /// The turn goes on with the priority queue.
    pub open spec fn to_priority(self, second: bool) -> (OutgoingView, Action<MessageView>) {
        if self.priority_held is Some {
            (self.at(Stage::Ready(Lane::Priority)), Action::PollReady)
        } else {
            (self.at(Stage::Priority { second }), Action::PollPriority)
        }
    }

    /// The turn goes on with the message that is held back.
    pub open spec fn to_held(self) -> (OutgoingView, Action<MessageView>) {
        if self.held is Some {
            (self.at(Stage::Ready(Lane::Held)), Action::PollReady)
        } else {
            self.to_priority(true)
        }
    }

    /// Whether a message of the queue is held to the limit.
    pub open spec fn charges(self, message: MessageView, enabled: bool) -> bool {
        self.threshold > 0 && enabled && penalty::cost(message) > 0
    }

    /// The turn goes on with a message of the queue: it is charged, and delayed where that takes
    /// the penalty over the threshold.
    pub open spec fn to_message(
        self,
        message: MessageView,
        enabled: bool,
        now: nat,
    ) -> (OutgoingView, Action<MessageView>) {
        let taken = OutgoingView { held: Some(message), ..self };
        if self.charges(message, enabled) {
            let penalty = taken.drained(now).penalty + penalty::cost(message);
            let charged = OutgoingView { penalty, ..taken.drained(now) };
            if penalty > self.threshold {
                (
                    OutgoingView { delayed: true, ..charged }.at(Stage::StartDelay),
                    Action::StartDelay((penalty - self.threshold) as u64),
                )
            } else {
                (charged.at(Stage::Ready(Lane::Fresh)), Action::PollReady)
            }
        } else {
            (taken.at(Stage::Ready(Lane::Fresh)), Action::PollReady)
        }
    }

    /// What the writer does next: once it is told of `event` at the time `now`, where `enabled`
    /// says whether the limit is in force.
    pub open spec fn next(
        self,
        event: Event<MessageView>,
        enabled: bool,
        now: nat,
    ) -> (OutgoingView, Action<MessageView>) {
        match (self.stage, event) {
            (Stage::Idle, Event::Turn) => if enabled {
                self.to_priority(false)
            } else {
                self.released(now).to_priority(false)
            },
            (Stage::Priority { .. }, Event::Priority(Some(m))) => (
                OutgoingView { priority_held: Some(m), ..self }.at(Stage::Ready(Lane::Priority)),
                Action::PollReady,
            ),
            (Stage::Priority { second }, Event::Priority(None)) => if second {
                (self.at(Stage::Queue), Action::PollQueue)
            } else if self.delayed {
                (self.at(Stage::Delay), Action::PollDelay)
            } else {
                self.to_held()
            },
            (Stage::Delay, Event::Delay(passed)) => if passed {
                OutgoingView { delayed: false, ..self }.drained(now).to_held()
            } else {
                (self.at(Stage::Idle), Action::Wait)
            },
            (Stage::Ready(lane), Event::Ready(answer)) => match answer {
                Answer::Done => (
                    self.without(lane).at(Stage::Start(lane)),
                    Action::StartSend(self.slot(lane)->0),
                ),
                Answer::Pending => (self.at(Stage::Idle), Action::Wait),
                Answer::Failed => (self.without(lane).at(Stage::Idle), Action::Fail),
            },
            (Stage::Start(lane), Event::Started(done)) => if !done {
                (self.at(Stage::Idle), Action::Fail)
            } else {
                match lane {
                    Lane::Priority => (self.at(Stage::Flush(Reason::Priority)), Action::Flush),
                    Lane::Held => (self.at(Stage::Flush(Reason::Held)), Action::Flush),
                    Lane::Fresh => (self.at(Stage::Queue), Action::PollQueue),
                }
            },
            (Stage::Flush(reason), Event::Flushed(answer)) => match answer {
                Answer::Done => match reason {
                    Reason::Priority => (self.at(Stage::Idle), Action::WaitAwake),
                    Reason::Held => self.to_priority(true),
                    Reason::Delayed => (self.at(Stage::Idle), Action::Wait),
                    Reason::Empty => (self.at(Stage::Idle), Action::Wait),
                    Reason::Closed => (self.at(Stage::Idle), Action::Finish),
                },
                Answer::Pending => (self.at(Stage::Idle), Action::Wait),
                Answer::Failed => (self.at(Stage::Idle), Action::Fail),
            },
            (Stage::StartDelay, Event::DelayStarted) => (
                self.at(Stage::Flush(Reason::Delayed)),
                Action::Flush,
            ),
            (Stage::Queue, Event::Queue(received)) => match received {
                Received::Message(m) => self.to_message(m, enabled, now),
                Received::Empty => (self.at(Stage::Flush(Reason::Empty)), Action::Flush),
                Received::Closed => (self.at(Stage::Flush(Reason::Closed)), Action::Flush),
            },
            _ => (self, Action::Wait),
        }
    }

    /// Whether the writer can take in `event`: what it costs has to fit.
    pub open spec fn fits(self, event: Event<MessageView>, enabled: bool) -> bool {
        match event {
            Event::Queue(Received::Message(m)) => self.charges(m, enabled) ==> self.penalty
                + penalty::cost(m) <= u64::MAX,
            _ => true,
        }
    }
}

/// A writer stays valid.
pub proof fn stays_valid(s: OutgoingView, event: Event<MessageView>, enabled: bool, now: nat)
    requires
        s.valid(),
        expected(s.stage, event),
        s.fits(event, enabled),
    ensures
        s.next(event, enabled, now).0.valid(),
{
}

impl Outgoing {
    /// A writer for a connection, which delays messages over a penalty of `penalty_threshold`
    /// milliseconds.
    pub fn new(penalty_threshold: u32) -> (r: Outgoing)
        ensures
            r@ == OutgoingView::fresh(penalty_threshold as nat),
            r@.valid(),
    {
        Outgoing {
            stage: Stage::Idle,
            priority_buffered: None,
            buffered: None,
            penalty: 0,
            penalty_threshold: penalty_threshold as u64,
            last_penalty_check: 0,
            delayed: false,
            origin: present(),
        }
    }

    /// Whether the message that is held back waits for a delay to pass.
    pub fn is_delayed(&self) -> (r: bool)
        ensures
            r == self@.delayed,
    {
        self.delayed
    }

    /// What the writer waits to be told.
    pub fn stage(&self) -> (r: Stage)
        ensures
            r == self@.stage,
    {
        self.stage
    }

    /// What the messages so far have cost, in milliseconds.
    pub fn penalty(&self) -> (r: u64)
        ensures
            r == self@.penalty,
    {
        self.penalty
    }

    /// The writer never ends: it may be given another turn.
    pub fn is_terminated(&self) -> (r: bool)
        ensures
            !r,
    {
        false
    }

    /// Whether the writer can take in a message: what it costs has to fit.
    pub fn fits(&self, message: &Message, enabled: bool) -> (r: bool)
        ensures
            r == self@.fits(Event::Queue(Received::Message(message@)), enabled),
    {
        let command: u64 = penalty::command_penalty(&message.command);
        if self.penalty_threshold == 0 || !enabled || command == 0 {
            return true;
        }
        let len: u128 = crate::text::size(message.write().as_str()) as u128;
        let length: u128 = (1 + len / 100) * 1000;
        self.penalty as u128 + length + command as u128 <= u64::MAX as u128
    }

    /// Brings the penalty up to date.
    fn drain_penalty(&mut self, now: u64)
        ensures
            final(self)@ == old(self)@.drained(now as nat),
    {
        self.penalty = penalty::drain(self.penalty, self.last_penalty_check, now);
        self.last_penalty_check = now;
    }

    /// Goes on with the priority queue.
    fn poll_priority_message(&mut self, second: bool) -> (r: Action<Message>)
        ensures
            (final(self)@, r@) == old(self)@.to_priority(second),
    {
        if self.priority_buffered.is_some() {
            self.stage = Stage::Ready(Lane::Priority);
            Action::PollReady
        } else {
            self.stage = Stage::Priority { second };
            Action::PollPriority
        }
    }

    /// Goes on with the message that is held back.
    fn poll_buffered(&mut self) -> (r: Action<Message>)
        ensures
            (final(self)@, r@) == old(self)@.to_held(),
    {
        if self.buffered.is_some() {
            self.stage = Stage::Ready(Lane::Held);
            Action::PollReady
        } else {
            self.poll_priority_message(true)
        }
    }

    /// Goes on with the sink's answer to whether it is ready.
    fn try_start_send(&mut self, lane: Lane, answer: Answer) -> (r: Action<Message>)
        requires
            old(self)@.slot(lane) is Some,
            old(self)@.stage == Stage::Ready(lane),
        ensures
            (final(self)@, r@) == old(self)@.next(Event::Ready(answer), true, 0),
    {
        match answer {
            Answer::Pending => {
                self.stage = Stage::Idle;
                Action::Wait
            },
            Answer::Failed => {
                match lane {
                    Lane::Priority => {
                        self.priority_buffered = None;
                    },
                    _ => {
                        self.buffered = None;
                    },
                }
                self.stage = Stage::Idle;
                Action::Fail
            },
            Answer::Done => {
                let message = match lane {
                    Lane::Priority => self.priority_buffered.take(),
                    _ => self.buffered.take(),
                };
                self.stage = Stage::Start(lane);
                match message {
                    Some(m) => Action::StartSend(m),
                    None => Action::Wait,
                }
            },
        }
    }

    /// Goes on with a message of the queue.
    fn take_message(&mut self, message: Message, enabled: bool, now: u64) -> (r: Action<Message>)
        requires
            old(self)@.valid(),
            old(self)@.stage is Queue,
            old(self)@.fits(Event::Queue(Received::Message(message@)), enabled),
        ensures
            (final(self)@, r@) == old(self)@.to_message(message@, enabled, now as nat),
    {
        if self.penalty_threshold > 0 && enabled {
            let command: u64 = penalty::command_penalty(&message.command);
            if command > 0 {
                let cost: u64 = penalty::length_penalty(&message) + command;
                self.drain_penalty(now);
                self.penalty = self.penalty + cost;
                if self.penalty > self.penalty_threshold {
                    let excess: u64 = self.penalty - self.penalty_threshold;
                    self.delayed = true;
                    self.buffered = Some(message);
                    self.stage = Stage::StartDelay;
                    return Action::StartDelay(excess);
                }
            }
        }
        self.buffered = Some(message);
        self.stage = Stage::Ready(Lane::Fresh);
        Action::PollReady
    }

    /// Goes on once everything is written.
    fn flushed(&mut self, reason: Reason, answer: Answer) -> (r: Action<Message>)
        requires
            old(self)@.stage == Stage::Flush(reason),
        ensures
            (final(self)@, r@) == old(self)@.next(Event::Flushed(answer), true, 0),
    {
        match answer {
            Answer::Pending => {
                self.stage = Stage::Idle;
                Action::Wait
            },
            Answer::Failed => {
                self.stage = Stage::Idle;
                Action::Fail
            },
            Answer::Done => match reason {
                Reason::Priority => {
                    self.stage = Stage::Idle;
                    Action::WaitAwake
                },
                Reason::Held => self.poll_priority_message(true),
                Reason::Delayed | Reason::Empty => {
                    self.stage = Stage::Idle;
                    Action::Wait
                },
                Reason::Closed => {
                    self.stage = Stage::Idle;
                    Action::Finish
                },
            },
        }
    }

    /// Takes in what came of the last action at the time `now`, in nanoseconds, and answers with
    /// the next one. `enabled` says whether the limit is in force.
    pub fn step_at(&mut self, event: Event<Message>, enabled: bool, now: u64) -> (r: Action<
        Message,
    >)
        requires
            old(self)@.valid(),
            expected(old(self)@.stage, event@),
            old(self)@.fits(event@, enabled),
        ensures
            (final(self)@, r@) == old(self)@.next(event@, enabled, now as nat),
            final(self)@.valid(),
    {
        let ghost before = self@;
        proof {
            stays_valid(before, event@, enabled, now as nat);
        }
        match event {
            Event::Turn => {
                if !enabled {
                    self.delayed = false;
                    self.penalty = 0;
                    self.last_penalty_check = now;
                }
                self.poll_priority_message(false)
            },
            Event::Priority(message) => match message {
                Some(m) => {
                    self.priority_buffered = Some(m);
                    self.stage = Stage::Ready(Lane::Priority);
                    Action::PollReady
                },
                None => {
                    let second = match self.stage {
                        Stage::Priority { second } => second,
                        _ => false,
                    };
                    if second {
                        self.stage = Stage::Queue;
                        Action::PollQueue
                    } else if self.delayed {
                        self.stage = Stage::Delay;
                        Action::PollDelay
                    } else {
                        self.poll_buffered()
                    }
                },
            },
            Event::Delay(passed) => {
                if passed {
                    self.delayed = false;
                    self.drain_penalty(now);
                    self.poll_buffered()
                } else {
                    self.stage = Stage::Idle;
                    Action::Wait
                }
            },
            Event::Ready(answer) => match self.stage {
                Stage::Ready(lane) => self.try_start_send(lane, answer),
                _ => Action::Wait,
            },
            Event::Started(done) => {
                if !done {
                    self.stage = Stage::Idle;
                    Action::Fail
                } else {
                    match self.stage {
                        Stage::Start(Lane::Priority) => {
                            self.stage = Stage::Flush(Reason::Priority);
                            Action::Flush
                        },
                        Stage::Start(Lane::Held) => {
                            self.stage = Stage::Flush(Reason::Held);
                            Action::Flush
                        },
                        _ => {
                            self.stage = Stage::Queue;
                            Action::PollQueue
                        },
                    }
                }
            },
            Event::Flushed(answer) => match self.stage {
                Stage::Flush(reason) => self.flushed(reason, answer),
                _ => Action::Wait,
            },
            Event::DelayStarted => {
                self.stage = Stage::Flush(Reason::Delayed);
                Action::Flush
            },
            Event::Queue(received) => match received {
                Received::Message(m) => self.take_message(m, enabled, now),
                Received::Empty => {
                    self.stage = Stage::Flush(Reason::Empty);
                    Action::Flush
                },
                Received::Closed => {
                    self.stage = Stage::Flush(Reason::Closed);
                    Action::Flush
                },
            },
        }
    }

    /// Takes in what came of the last action, and answers with the next one. `enabled` says
    /// whether the limit is in force.
    pub fn step(&mut self, event: Event<Message>, enabled: bool) -> (r: Action<Message>)
        requires
            old(self)@.valid(),
            expected(old(self)@.stage, event@),
            old(self)@.fits(event@, enabled),
        ensures
            exists|now: nat|
                (final(self)@, r@) == #[trigger] old(self)@.next(event@, enabled, now),
            final(self)@.valid(),
    {
        let now: u64 = nanos_since(&self.origin);
        self.step_at(event, enabled, now)
    }
}

} // verus!
