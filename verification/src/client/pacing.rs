//! What the writer of a connection does, turn by turn.

use crate::client::data::config::ConfigView;
use crate::client::flow::{self, Step};
use crate::client::outgoing::{
    self, Action, Answer, Event, Lane, OutgoingView, Reason, Received, Stage,
};
use crate::client::penalty;
use crate::proto::message::{Message, MessageView};
use vstd::prelude::*;

verus! {

/// What the writer asks for in the last of some steps.
pub open spec fn last_action(s: OutgoingView, steps: Seq<Step>) -> Action<MessageView> {
    let last = steps.last();
    flow::end(s, steps.drop_last()).next(last.event, last.enabled, last.now).1
}

/// Whether an action ends the turn.
pub open spec fn ends_the_turn(action: Action<MessageView>) -> bool {
    action is Wait || action is WaitAwake || action is Finish || action is Fail
}

/// Whether the sink has taken a message since it last wrote everything, and has meanwhile neither
/// put the writer off nor failed.
pub open spec fn owes_a_flush(steps: Seq<Step>) -> bool
    decreases steps.len(),
{
    if steps.len() == 0 {
        false
    } else {
        match steps.last().event {
            Event::Started(taken) => taken,
            Event::Flushed(_) => false,
            Event::Ready(Answer::Pending) => false,
            Event::Ready(Answer::Failed) => false,
            _ => owes_a_flush(steps.drop_last()),
        }
    }
}

/// Where a flush is owed, the turn goes on.
proof fn flushes_are_under_way(s: OutgoingView, steps: Seq<Step>)
    requires
        s.valid(),
        flow::legal(s, steps),
    ensures
        owes_a_flush(steps) ==> {
            let stage = flow::end(s, steps).stage;
            ||| stage is Flush
            ||| stage is Queue
            ||| stage == Stage::Ready(Lane::Fresh)
            ||| stage == Stage::Start(Lane::Fresh)
            ||| stage is StartDelay
        },
    decreases steps.len(),
{
    if steps.len() > 0 {
        flushes_are_under_way(s, steps.drop_last());
        flow::threshold_stays(s, steps.drop_last());
    }
}

/// No message that the sink has taken is left unwritten while the writer waits: before a turn ends,
/// however it ends and whatever was sent in it, the sink has been asked to write everything and has
/// said that it did, unless the sink itself put the writer off or failed.
pub proof fn nothing_is_left_unwritten(s: OutgoingView, steps: Seq<Step>)
    requires
        s.valid(),
        flow::legal(s, steps),
        steps.len() > 0,
        ends_the_turn(last_action(s, steps)),
    ensures
        !owes_a_flush(steps),
{
    flow::threshold_stays(s, steps.drop_last());
    flushes_are_under_way(s, steps);
}

/// A message of the priority queue is given to the sink and written at once, in the turn that finds
/// it and whether or not another message is delayed; then another turn is asked for. It is not
/// charged, and leaves the message that is held back, and its delay, as they are.
pub proof fn priority_messages_are_written_at_once(
    s: OutgoingView,
    m: MessageView,
    enabled: bool,
    now: nat,
)
    requires
        s.valid(),
        s.stage is Priority,
    ensures
        ({
            let (s1, a1) = s.next(Event::Priority(Some(m)), enabled, now);
            let (s2, a2) = s1.next(Event::Ready(Answer::Done), enabled, now);
            let (s3, a3) = s2.next(Event::Started(true), enabled, now);
            let (s4, a4) = s3.next(Event::Flushed(Answer::Done), enabled, now);
            &&& a1 == Action::<MessageView>::PollReady
            &&& a2 == Action::StartSend(m)
            &&& a3 == Action::<MessageView>::Flush
            &&& a4 == Action::<MessageView>::WaitAwake
            &&& s4.penalty == s.penalty
            &&& s4.checked == s.checked
            &&& s4.delayed == s.delayed
            &&& s4.held == s.held
        }),
{
}

/// A message of the priority queue that the sink was not ready for goes first in the next turn, and
/// is written at once.
pub proof fn priority_messages_are_tried_again(
    s: OutgoingView,
    m: MessageView,
    enabled: bool,
    now: nat,
)
    requires
        s.valid(),
        s.stage is Idle,
        s.priority_held == Some(m),
    ensures
        ({
            let (s1, a1) = s.next(Event::Turn, enabled, now);
            let (s2, a2) = s1.next(Event::Ready(Answer::Done), enabled, now);
            let (s3, a3) = s2.next(Event::Started(true), enabled, now);
            let (s4, a4) = s3.next(Event::Flushed(Answer::Done), enabled, now);
            &&& a1 == Action::<MessageView>::PollReady
            &&& a2 == Action::StartSend(m)
            &&& a3 == Action::<MessageView>::Flush
            &&& a4 == Action::<MessageView>::WaitAwake
            &&& s4.held == s.held
        }),
{
}

/// A message that was held back and waits for no delay is given to the sink and written before
/// anything else of the queue; then both queues are looked into.
pub proof fn held_messages_are_written_first(
    s: OutgoingView,
    m: MessageView,
    enabled: bool,
    now: nat,
)
    requires
        s.valid(),
        s.stage is Idle,
        s.priority_held is None,
        s.held == Some(m),
        !s.delayed,
    ensures
        ({
            let (s1, a1) = s.next(Event::Turn, enabled, now);
            let (s2, a2) = s1.next(Event::Priority(None), enabled, now);
            let (s3, a3) = s2.next(Event::Ready(Answer::Done), enabled, now);
            let (s4, a4) = s3.next(Event::Started(true), enabled, now);
            let (s5, a5) = s4.next(Event::Flushed(Answer::Done), enabled, now);
            let (s6, a6) = s5.next(Event::Priority(None), enabled, now);
            &&& a1 == Action::<MessageView>::PollPriority
            &&& a2 == Action::<MessageView>::PollReady
            &&& a3 == Action::StartSend(m)
            &&& a4 == Action::<MessageView>::Flush
            &&& a5 == Action::<MessageView>::PollPriority
            &&& a6 == Action::<MessageView>::PollQueue
        }),
{
}

/// A message that waits for a delay keeps waiting while it runs, and nothing of the queue is looked
/// at; it goes to the sink, and is written, when the delay has passed.
pub proof fn delayed_messages_wait(s: OutgoingView, m: MessageView, now: nat)
    requires
        s.valid(),
        s.stage is Idle,
        s.priority_held is None,
        s.held == Some(m),
        s.delayed,
    ensures
        ({
            let (s1, a1) = s.next(Event::Turn, true, now);
            let (s2, a2) = s1.next(Event::Priority(None), true, now);
            let (s3, a3) = s2.next(Event::Delay(false), true, now);
            let (t3, b3) = s2.next(Event::Delay(true), true, now);
            let (t4, b4) = t3.next(Event::Ready(Answer::Done), true, now);
            let (t5, b5) = t4.next(Event::Started(true), true, now);
            &&& a1 == Action::<MessageView>::PollPriority
            &&& a2 == Action::<MessageView>::PollDelay
            &&& a3 == Action::<MessageView>::Wait
            &&& s3 == s
            &&& b3 == Action::<MessageView>::PollReady
            &&& b4 == Action::StartSend(m)
            &&& b5 == Action::<MessageView>::Flush
            &&& t5.penalty == penalty::drained(s.penalty, s.checked, now)
            &&& t5.checked == now
        }),
{
    let s3 = s.next(Event::Turn, true, now).0.next(Event::Priority(None), true, now).0.next(
        Event::Delay(false),
        true,
        now,
    ).0;
    assert(s3 =~= s);
}

/// Where nothing is held back a turn goes through the priority queue to the queue. Where that is
/// empty everything is written and the writer waits; where it is closed everything is written and
/// the writer ends.
pub proof fn turns_go_through_both_queues(s: OutgoingView, enabled: bool, now: nat)
    requires
        s.valid(),
        s.stage is Idle,
        s.priority_held is None,
        s.held is None,
    ensures
        ({
            let (s1, a1) = s.next(Event::Turn, enabled, now);
            let (s2, a2) = s1.next(Event::Priority(None), enabled, now);
            let (s3, a3) = s2.next(Event::Priority(None), enabled, now);
            let (e4, b4) = s3.next(Event::Queue(Received::Empty), enabled, now);
            let (e5, b5) = e4.next(Event::Flushed(Answer::Done), enabled, now);
            let (c4, d4) = s3.next(Event::Queue(Received::Closed), enabled, now);
            let (c5, d5) = c4.next(Event::Flushed(Answer::Done), enabled, now);
            &&& a1 == Action::<MessageView>::PollPriority
            &&& a2 == Action::<MessageView>::PollPriority
            &&& a3 == Action::<MessageView>::PollQueue
            &&& b4 == Action::<MessageView>::Flush
            &&& b5 == Action::<MessageView>::Wait
            &&& d4 == Action::<MessageView>::Flush
            &&& d5 == Action::<MessageView>::Finish
        }),
{
}

/// A message of the queue that is not delayed is given to the sink at once, and the next one is
/// looked for. One that is delayed is held back, a delay begins, what the sink has is written, and
/// the writer waits.
pub proof fn messages_of_the_queue(
    s: OutgoingView,
    m: MessageView,
    enabled: bool,
    now: nat,
)
    requires
        s.valid(),
        s.stage is Queue,
        s.fits(Event::Queue(Received::Message(m)), enabled),
    ensures
        ({
            let due = penalty::drained(s.penalty, s.checked, now) + penalty::cost(m);
            let late = enabled && s.threshold > 0 && penalty::cost(m) > 0 && due > s.threshold;
            let (s1, a1) = s.next(Event::Queue(Received::Message(m)), enabled, now);
            let (s2, a2) = s1.next(Event::Ready(Answer::Done), enabled, now);
            let (s3, a3) = s2.next(Event::Started(true), enabled, now);
            let (d2, b2) = s1.next(Event::DelayStarted, enabled, now);
            let (d3, b3) = d2.next(Event::Flushed(Answer::Done), enabled, now);
            &&& !late ==> {
                &&& a1 == Action::<MessageView>::PollReady
                &&& a2 == Action::StartSend(m)
                &&& a3 == Action::<MessageView>::PollQueue
            }
            &&& late ==> {
                &&& a1 == Action::<MessageView>::StartDelay((due - s.threshold) as u64)
                &&& s1.delayed
                &&& s1.held == Some(m)
                &&& b2 == Action::<MessageView>::Flush
                &&& b3 == Action::<MessageView>::Wait
                &&& d3.held == Some(m)
                &&& d3.delayed
            }
        }),
{
}

/// Whether the turn that is under way, or has just ended, last found the queue as `like` says.
pub open spec fn found(steps: Seq<Step>, like: Received<()>) -> bool
    decreases steps.len(),
{
    if steps.len() == 0 {
        false
    } else {
        match steps.last().event {
            Event::Turn => false,
            Event::Queue(Received::Message(_)) => like is Message,
            Event::Queue(Received::Empty) => like is Empty,
            Event::Queue(Received::Closed) => like is Closed,
            _ => found(steps.drop_last(), like),
        }
    }
}

/// Whether a delay has begun in the turn that is under way, or has just ended.
pub open spec fn has_begun_a_delay(steps: Seq<Step>) -> bool
    decreases steps.len(),
{
    if steps.len() == 0 {
        false
    } else {
        match steps.last().event {
            Event::Turn => false,
            Event::DelayStarted => true,
            _ => has_begun_a_delay(steps.drop_last()),
        }
    }
}

/// Why the sink is to write everything.
proof fn reasons_to_flush(s: OutgoingView, steps: Seq<Step>)
    requires
        s.valid(),
        s.stage is Idle,
        flow::legal(s, steps),
    ensures
        flow::end(s, steps).stage == Stage::Flush(Reason::Empty) ==> found(steps, Received::Empty),
        flow::end(s, steps).stage == Stage::Flush(Reason::Closed) ==> found(
            steps,
            Received::Closed,
        ),
        flow::end(s, steps).stage == Stage::Flush(Reason::Delayed) ==> has_begun_a_delay(steps),
    decreases steps.len(),
{
    if steps.len() > 0 {
        reasons_to_flush(s, steps.drop_last());
        flow::threshold_stays(s, steps.drop_last());
    }
}

/// The writer waits only where it has reason to: the sink put it off, the delay still runs, one has
/// begun, or the queue was found empty. It ends only where the queue was found closed, and fails
/// exactly where the sink did.
pub proof fn reasons_to_stop(s: OutgoingView, steps: Seq<Step>)
    requires
        s.valid(),
        s.stage is Idle,
        flow::legal(s, steps),
        steps.len() > 0,
    ensures
        ({
            let event = steps.last().event;
            let action = last_action(s, steps);
            &&& action is Wait ==> {
                ||| event == Event::<MessageView>::Ready(Answer::Pending)
                ||| event == Event::<MessageView>::Flushed(Answer::Pending)
                ||| event == Event::<MessageView>::Delay(false)
                ||| event == Event::<MessageView>::Flushed(Answer::Done) && has_begun_a_delay(steps)
                ||| event == Event::<MessageView>::Flushed(Answer::Done) && found(
                    steps,
                    Received::Empty,
                )
            }
            &&& action is Finish ==> event == Event::<MessageView>::Flushed(Answer::Done) && found(
                steps,
                Received::Closed,
            )
            &&& action is Fail <==> {
                ||| event == Event::<MessageView>::Ready(Answer::Failed)
                ||| event == Event::<MessageView>::Started(false)
                ||| event == Event::<MessageView>::Flushed(Answer::Failed)
            }
            &&& event == Event::<MessageView>::Ready(Answer::Pending) || event == Event::<
                MessageView,
            >::Flushed(Answer::Pending) ==> action is Wait
        }),
{
    flow::threshold_stays(s, steps.drop_last());
    reasons_to_flush(s, steps.drop_last());
}

/// Where the writer asks for something it waits to be told what came of it, and where it ends the
/// turn it waits for the next.
pub proof fn actions_and_events(
    s: OutgoingView,
    event: Event<MessageView>,
    enabled: bool,
    now: nat,
)
    requires
        s.valid(),
        outgoing::expected(s.stage, event),
    ensures
        ({
            let (after, action) = s.next(event, enabled, now);
            let next = match action {
                Action::PollPriority => Event::<MessageView>::Priority(None),
                Action::PollReady => Event::Ready(Answer::Done),
                Action::StartSend(_) => Event::Started(true),
                Action::Flush => Event::Flushed(Answer::Done),
                Action::PollDelay => Event::Delay(true),
                Action::StartDelay(_) => Event::DelayStarted,
                Action::PollQueue => Event::Queue(Received::Empty),
                _ => Event::Turn,
            };
            outgoing::expected(after.stage, next)
        }),
{
}

/// A sink that puts the writer off costs nothing: all messages stay where they are. One that fails
/// costs the message that it was to get ready for, and no other.
pub proof fn what_a_sink_costs(s: OutgoingView, enabled: bool, now: nat)
    requires
        s.valid(),
        s.stage is Ready,
    ensures
        ({
            let later = s.next(Event::Ready(Answer::Pending), enabled, now).0;
            let failed = s.next(Event::Ready(Answer::Failed), enabled, now).0;
            let first = s.stage == Stage::Ready(Lane::Priority);
            &&& later.held == s.held && later.priority_held == s.priority_held
            &&& later.delayed == s.delayed
            &&& first ==> failed.held == s.held && failed.priority_held is None
            &&& !first ==> failed.held is None && failed.priority_held == s.priority_held
        }),
{
}

/// The penalty changes on three occasions only: it is gone where a turn begins while the limit is
/// lifted; it is brought up to date when a delay has passed; and it is brought up to date and goes
/// up by what a message costs, where the limit is in force and the message is not free. A delay
/// ends on the first two occasions and begins on the third.
pub proof fn when_the_penalty_changes(
    s: OutgoingView,
    event: Event<MessageView>,
    enabled: bool,
    now: nat,
)
    requires
        s.valid(),
        outgoing::expected(s.stage, event),
    ensures
        ({
            let after = s.next(event, enabled, now).0;
            let drained = penalty::drained(s.penalty, s.checked, now);
            &&& after.threshold == s.threshold
            &&& match event {
                Event::Turn => if enabled {
                    after.penalty == s.penalty && after.checked == s.checked && after.delayed
                        == s.delayed
                } else {
                    after.penalty == 0 && after.checked == now && !after.delayed
                },
                Event::Delay(true) => after.penalty == drained && after.checked == now
                    && !after.delayed,
                Event::Queue(Received::Message(m)) => if s.threshold > 0 && enabled
                    && penalty::cost(m) > 0 {
                    &&& after.penalty == drained + penalty::cost(m)
                    &&& after.checked == now
                    &&& after.delayed <==> after.penalty > s.threshold
                } else {
                    after.penalty == s.penalty && after.checked == s.checked && !after.delayed
                },
                _ => after.penalty == s.penalty && after.checked == s.checked && after.delayed
                    == s.delayed,
            }
        }),
{
}

/// A new writer has no penalty, no delay and no message, and keeps to the threshold it is given.
pub proof fn new_writers(threshold: nat)
    ensures
        ({
            let w = OutgoingView::fresh(threshold);
            &&& w.threshold == threshold
            &&& w.penalty == 0
            &&& !w.delayed
            &&& w.held is None
            &&& w.priority_held is None
            &&& w.stage is Idle
        }),
{
}

/// Where no threshold is configured it is ten seconds: the writer of such a client, whatever it was
/// told before, delays a message that is not free exactly where its cost takes the penalty over ten
/// seconds, and by what it is over. Where one is configured, it is that one.
pub proof fn limits_go_by_the_configuration(
    config: ConfigView,
    limit: nat,
    steps: Seq<Step>,
    m: MessageView,
    now: nat,
)
    requires
        config.flood_penalty_threshold is None ==> limit == 10_000,
        config.flood_penalty_threshold matches Some(n) ==> limit == n,
        flow::legal(OutgoingView::fresh(config.threshold() as nat), steps),
        flow::end(OutgoingView::fresh(config.threshold() as nat), steps).stage is Queue,
        flow::end(OutgoingView::fresh(config.threshold() as nat), steps).fits(
            Event::Queue(Received::Message(m)),
            true,
        ),
    ensures
        ({
            let before = flow::end(OutgoingView::fresh(config.threshold() as nat), steps);
            let (after, action) = before.next(Event::Queue(Received::Message(m)), true, now);
            let due = penalty::drained(before.penalty, before.checked, now) + penalty::cost(m);
            &&& after.threshold == limit
            &&& limit > 0 && penalty::cost(m) > 0 && due > limit <==> action is StartDelay
            &&& action is StartDelay ==> action == Action::<MessageView>::StartDelay(
                (due - limit) as u64,
            )
        }),
{
    flow::threshold_stays(OutgoingView::fresh(config.threshold() as nat), steps);
}

/// What contracts say of events and actions they say of all that these hold.
pub proof fn events_are_shown_in_full(e: Event<Message>, a: Action<Message>)
    ensures
        match e {
            Event::Turn => e@ is Turn,
            Event::Priority(Some(m)) => e@ == Event::Priority(Some(m@)),
            Event::Priority(None) => e@ == Event::<MessageView>::Priority(None),
            Event::Ready(x) => e@ == Event::<MessageView>::Ready(x),
            Event::Started(b) => e@ == Event::<MessageView>::Started(b),
            Event::Flushed(x) => e@ == Event::<MessageView>::Flushed(x),
            Event::Delay(b) => e@ == Event::<MessageView>::Delay(b),
            Event::DelayStarted => e@ is DelayStarted,
            Event::Queue(Received::Message(m)) => e@ == Event::Queue(Received::Message(m@)),
            Event::Queue(Received::Empty) => e@ == Event::<MessageView>::Queue(Received::Empty),
            Event::Queue(Received::Closed) => e@ == Event::<MessageView>::Queue(Received::Closed),
        },
        match a {
            Action::PollPriority => a@ is PollPriority,
            Action::PollReady => a@ is PollReady,
            Action::StartSend(m) => a@ == Action::StartSend(m@),
            Action::Flush => a@ is Flush,
            Action::PollDelay => a@ is PollDelay,
            Action::StartDelay(d) => a@ == Action::<MessageView>::StartDelay(d),
            Action::PollQueue => a@ is PollQueue,
            Action::Wait => a@ is Wait,
            Action::WaitAwake => a@ is WaitAwake,
            Action::Finish => a@ is Finish,
            Action::Fail => a@ is Fail,
        },
{
}

} // verus!
