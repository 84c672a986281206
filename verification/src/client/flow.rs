//! What holds of the writer over any number of steps.

use crate::client::outgoing::{Action, Answer, Event, Lane, OutgoingView, Received, Stage};
use crate::client::penalty;
use crate::client::sender::SenderView;
use crate::proto::message::MessageView;
use vstd::prelude::*;

verus! {

/// What the writer is told in one step.
pub struct Step {
    /// What came of the last action.
    pub event: Event<MessageView>,
    /// Whether the limit is in force.
    pub enabled: bool,
    /// The time, in nanoseconds.
    pub now: nat,
}

/// The writer after some steps.
pub open spec fn end(s: OutgoingView, steps: Seq<Step>) -> OutgoingView
    decreases steps.len(),
{
    if steps.len() == 0 {
        s
    } else {
        let last = steps.last();
        end(s, steps.drop_last()).next(last.event, last.enabled, last.now).0
    }
}

/// Whether each step answers what the writer waits for.
pub open spec fn legal(s: OutgoingView, steps: Seq<Step>) -> bool
    decreases steps.len(),
{
    steps.len() > 0 ==> {
        let before = end(s, steps.drop_last());
        &&& legal(s, steps.drop_last())
        &&& crate::client::outgoing::expected(before.stage, steps.last().event)
        &&& before.fits(steps.last().event, steps.last().enabled)
    }
}

/// A message, if there is one.
pub open spec fn at_most_one(o: Option<MessageView>) -> Seq<MessageView> {
    match o {
        Some(m) => seq![m],
        None => seq![],
    }
}

/// The message of the queue that an event brings.
pub open spec fn brought(event: Event<MessageView>) -> Seq<MessageView> {
    match event {
        Event::Queue(Received::Message(m)) => seq![m],
        _ => seq![],
    }
}

/// The message of the priority queue that an event brings.
pub open spec fn brought_first(event: Event<MessageView>) -> Seq<MessageView> {
    match event {
        Event::Priority(Some(m)) => seq![m],
        _ => seq![],
    }
}

/// The message that an action gives to the sink.
pub open spec fn given(action: Action<MessageView>) -> Seq<MessageView> {
    match action {
        Action::StartSend(m) => seq![m],
        _ => seq![],
    }
}

/// Whether the sink failed while it got ready.
pub open spec fn sink_failed(event: Event<MessageView>) -> bool {
    event == Event::<MessageView>::Ready(Answer::Failed)
}

/// The messages of the queue that some steps bring.
pub open spec fn all_brought(steps: Seq<Step>) -> Seq<MessageView>
    decreases steps.len(),
{
    if steps.len() == 0 {
        seq![]
    } else {
        all_brought(steps.drop_last()) + brought(steps.last().event)
    }
}

/// The messages of the priority queue that some steps bring.
pub open spec fn all_brought_first(steps: Seq<Step>) -> Seq<MessageView>
    decreases steps.len(),
{
    if steps.len() == 0 {
        seq![]
    } else {
        all_brought_first(steps.drop_last()) + brought_first(steps.last().event)
    }
}

/// The messages that the writer gives to the sink over some steps: those of the priority queue,
/// or the others.
pub open spec fn all_given(s: OutgoingView, steps: Seq<Step>, first: bool) -> Seq<MessageView>
    decreases steps.len(),
{
    if steps.len() == 0 {
        seq![]
    } else {
        let before = end(s, steps.drop_last());
        let last = steps.last();
        let (_, action) = before.next(last.event, last.enabled, last.now);
        all_given(s, steps.drop_last(), first) + if (before.stage == Stage::Ready(Lane::Priority))
            == first {
            given(action)
        } else {
            seq![]
        }
    }
}

/// Whether the sink fails in none of the steps.
pub open spec fn sink_holds(steps: Seq<Step>) -> bool {
    forall|i: int| 0 <= i < steps.len() ==> !sink_failed(#[trigger] steps[i].event)
}

/// A writer stays valid, and keeps its threshold, whatever it is told and whether the limit is
/// lifted and put in force again meanwhile.
pub proof fn threshold_stays(s: OutgoingView, steps: Seq<Step>)
    requires
        s.valid(),
        legal(s, steps),
    ensures
        end(s, steps).valid(),
        end(s, steps).threshold == s.threshold,
    decreases steps.len(),
{
    if steps.len() > 0 {
        threshold_stays(s, steps.drop_last());
        let last = steps.last();
        crate::client::outgoing::stays_valid(
            end(s, steps.drop_last()),
            last.event,
            last.enabled,
            last.now,
        );
    }
}

/// Messages of the queue go to the sink in the order in which they came, and none is lost,
/// repeated or made up: those given to the sink and the one that is held back are those that came,
/// as long as the sink does not fail.
pub proof fn messages_keep_their_order(s: OutgoingView, steps: Seq<Step>)
    requires
        s.valid(),
        legal(s, steps),
        sink_holds(steps),
    ensures
        at_most_one(s.held) + all_brought(steps) == all_given(s, steps, false) + at_most_one(
            end(s, steps).held,
        ),
    decreases steps.len(),
{
    if steps.len() > 0 {
        let front = steps.drop_last();
        let last = steps.last();
        assert(forall|i: int| 0 <= i < front.len() ==> front[i] == steps[i]);
        assert(!sink_failed(steps[steps.len() - 1].event));
        messages_keep_their_order(s, front);
        threshold_stays(s, front);
        let before = end(s, front);
        let (after, action) = before.next(last.event, last.enabled, last.now);
        let out = if before.stage == Stage::Ready(Lane::Priority) {
            seq![]
        } else {
            given(action)
        };
        assert(at_most_one(before.held) + brought(last.event) =~= out + at_most_one(after.held));
        assert(at_most_one(s.held) + all_brought(steps) =~= (at_most_one(s.held) + all_brought(
            front,
        )) + brought(last.event));
        assert((all_given(s, front, false) + at_most_one(before.held)) + brought(last.event)
            =~= all_given(s, front, false) + (at_most_one(before.held) + brought(last.event)));
        assert(all_given(s, front, false) + (out + at_most_one(after.held)) =~= (all_given(
            s,
            front,
            false,
        ) + out) + at_most_one(after.held));
    } else {
        assert(at_most_one(s.held) + all_brought(steps) =~= all_given(s, steps, false)
            + at_most_one(end(s, steps).held));
    }
}

/// The same of the priority queue.
pub proof fn priority_messages_keep_their_order(s: OutgoingView, steps: Seq<Step>)
    requires
        s.valid(),
        legal(s, steps),
        sink_holds(steps),
    ensures
        at_most_one(s.priority_held) + all_brought_first(steps) == all_given(s, steps, true)
            + at_most_one(end(s, steps).priority_held),
    decreases steps.len(),
{
    if steps.len() > 0 {
        let front = steps.drop_last();
        let last = steps.last();
        assert(forall|i: int| 0 <= i < front.len() ==> front[i] == steps[i]);
        assert(!sink_failed(steps[steps.len() - 1].event));
        priority_messages_keep_their_order(s, front);
        threshold_stays(s, front);
        let before = end(s, front);
        let (after, action) = before.next(last.event, last.enabled, last.now);
        let out = if before.stage == Stage::Ready(Lane::Priority) {
            given(action)
        } else {
            seq![]
        };
        assert(at_most_one(before.priority_held) + brought_first(last.event) =~= out + at_most_one(
            after.priority_held,
        ));
        assert(at_most_one(s.priority_held) + all_brought_first(steps) =~= (at_most_one(
            s.priority_held,
        ) + all_brought_first(front)) + brought_first(last.event));
        assert((all_given(s, front, true) + at_most_one(before.priority_held)) + brought_first(
            last.event,
        ) =~= all_given(s, front, true) + (at_most_one(before.priority_held) + brought_first(
            last.event,
        )));
        assert(all_given(s, front, true) + (out + at_most_one(after.priority_held)) =~= (all_given(
            s,
            front,
            true,
        ) + out) + at_most_one(after.priority_held));
    } else {
        assert(at_most_one(s.priority_held) + all_brought_first(steps) =~= all_given(
            s,
            steps,
            true,
        ) + at_most_one(end(s, steps).priority_held));
    }
}

/// A writer whose threshold is zero delays nothing and charges nothing, whether or not the limit
/// is in force.
pub proof fn zero_threshold_never_delays(steps: Seq<Step>)
    requires
        legal(OutgoingView::fresh(0), steps),
    ensures
        !end(OutgoingView::fresh(0), steps).delayed,
        end(OutgoingView::fresh(0), steps).penalty == 0,
    decreases steps.len(),
{
    let s = OutgoingView::fresh(0);
    if steps.len() > 0 {
        zero_threshold_never_delays(steps.drop_last());
        threshold_stays(s, steps.drop_last());
    }
}

/// No delay begins while the limit is lifted.
pub proof fn lifted_limit_never_delays(
    s: OutgoingView,
    event: Event<MessageView>,
    now: nat,
)
    requires
        s.valid(),
        crate::client::outgoing::expected(s.stage, event),
    ensures
        !(s.next(event, false, now).1 is StartDelay),
        s.next(event, false, now).0.delayed ==> s.delayed,
        s.next(event, false, now).0.penalty <= s.penalty,
{
}

/// To lift the limit releases the message that waits for a delay: in the next turn it goes to the
/// sink as soon as the priority queue is empty and the sink is ready, and no penalty is left.
pub proof fn lifting_the_limit_releases(s: OutgoingView, m: MessageView, enabled: bool, now: nat)
    requires
        s.valid(),
        s.stage is Idle,
        s.held == Some(m),
        s.priority_held is None,
    ensures
        ({
            let (s1, a1) = s.next(Event::Turn, false, now);
            let (s2, a2) = s1.next(Event::Priority(None), enabled, now);
            let (s3, a3) = s2.next(Event::Ready(Answer::Done), enabled, now);
            &&& a1 == Action::<MessageView>::PollPriority
            &&& a2 == Action::<MessageView>::PollReady
            &&& a3 == Action::StartSend(m)
            &&& s3.penalty == 0
            &&& !s3.delayed
        }),
{
}

/// A turn begins with the priority queue, whether or not a message is delayed.
pub proof fn turns_begin_with_priority(s: OutgoingView, enabled: bool, now: nat)
    requires
        s.valid(),
        s.stage is Idle,
    ensures
        ({
            let (after, action) = s.next(Event::Turn, enabled, now);
            ||| after.stage == (Stage::Priority { second: false }) && action is PollPriority
            ||| after.stage == Stage::Ready(Lane::Priority) && action is PollReady
        }),
{
}

/// A message of the priority queue goes to the sink at once: it waits for no delay, and is not
/// charged.
pub proof fn priority_skips_the_delay(
    s: OutgoingView,
    m: MessageView,
    enabled: bool,
    now: nat,
    later: nat,
)
    requires
        s.valid(),
        s.stage is Priority,
    ensures
        ({
            let (s1, a1) = s.next(Event::Priority(Some(m)), enabled, now);
            let (s2, a2) = s1.next(Event::Ready(Answer::Done), enabled, later);
            &&& a1 == Action::<MessageView>::PollReady
            &&& a2 == Action::StartSend(m)
            &&& s2.penalty == s.penalty
            &&& s2.delayed == s.delayed
            &&& s2.held == s.held
        }),
{
}

/// The delay is looked at only once the priority queue has been found empty in the same turn.
pub proof fn delays_come_after_priority(
    s: OutgoingView,
    event: Event<MessageView>,
    enabled: bool,
    now: nat,
)
    requires
        s.valid(),
        crate::client::outgoing::expected(s.stage, event),
        s.next(event, enabled, now).1 is PollDelay,
    ensures
        s.stage == (Stage::Priority { second: false }),
        event == Event::<MessageView>::Priority(None),
{
}

/// When a delay has passed, the message that waited for it goes to the sink as soon as that is
/// ready.
pub proof fn passed_delays_release(
    s: OutgoingView,
    m: MessageView,
    enabled: bool,
    now: nat,
    later: nat,
)
    requires
        s.valid(),
        s.stage is Delay,
        s.held == Some(m),
    ensures
        ({
            let (s1, a1) = s.next(Event::Delay(true), enabled, now);
            let (s2, a2) = s1.next(Event::Ready(Answer::Done), enabled, later);
            &&& a1 == Action::<MessageView>::PollReady
            &&& a2 == Action::StartSend(m)
            &&& s2.penalty == penalty::drained(s.penalty, s.checked, now)
            &&& !s2.delayed
        }),
{
}

/// When a message is delayed, and for how long: the limit is in force, its cost takes the penalty
/// over the threshold, and when the delay has passed the penalty is back at the threshold.
pub proof fn delays_drain_the_excess(
    s: OutgoingView,
    m: MessageView,
    enabled: bool,
    now: nat,
)
    requires
        s.valid(),
        s.stage is Queue,
        s.fits(Event::Queue(Received::Message(m)), enabled),
    ensures
        ({
            let (after, action) = s.next(Event::Queue(Received::Message(m)), enabled, now);
            let due = penalty::drained(s.penalty, s.checked, now) + penalty::cost(m);
            &&& action is StartDelay <==> s.charges(m, enabled) && due > s.threshold
            &&& action is StartDelay ==> {
                &&& after.held == Some(m)
                &&& after.penalty == due
                &&& action == Action::<MessageView>::StartDelay((due - s.threshold) as u64)
                &&& penalty::drained(
                    after.penalty,
                    after.checked,
                    (now + (due - s.threshold) * 1_000_000) as nat,
                ) == s.threshold
            }
            &&& !(action is StartDelay) && s.charges(m, enabled) ==> after.penalty == due
                && after.penalty <= s.threshold
            &&& !s.charges(m, enabled) ==> after.penalty == s.penalty
        }),
{
}

/// Whether no delay is reported to have passed before its time: before as many milliseconds as
/// the penalty is over the threshold.
pub open spec fn timely(s: OutgoingView, steps: Seq<Step>) -> bool
    decreases steps.len(),
{
    steps.len() > 0 ==> {
        let before = end(s, steps.drop_last());
        let last = steps.last();
        &&& timely(s, steps.drop_last())
        &&& last.event == Event::<MessageView>::Delay(true) ==> last.now >= before.checked + (
        before.penalty - before.threshold) * 1_000_000
    }
}

/// After every step of a writer, and so after every turn:
/// - the threshold is the configured one, and where that is zero no delay runs and there is no
///   penalty;
/// - a delay runs only while the penalty is over the threshold, and holds a message back;
/// - the penalty is over the threshold only while a delay runs, unless the timer reported one to
///   have passed before its time.
pub proof fn delays_run_while_the_penalty_is_too_high(threshold: nat, steps: Seq<Step>)
    requires
        threshold <= u64::MAX,
        legal(OutgoingView::fresh(threshold), steps),
    ensures
        ({
            let after = end(OutgoingView::fresh(threshold), steps);
            &&& after.threshold == threshold
            &&& threshold == 0 ==> after.penalty == 0 && !after.delayed
            &&& after.delayed ==> after.penalty > threshold && after.held is Some
            &&& timely(OutgoingView::fresh(threshold), steps) ==> (after.delayed <==> after.penalty
                > threshold)
        }),
    decreases steps.len(),
{
    let s = OutgoingView::fresh(threshold);
    threshold_stays(s, steps);
    if threshold == 0 {
        zero_threshold_never_delays(steps);
    }
    if steps.len() > 0 {
        delays_run_while_the_penalty_is_too_high(threshold, steps.drop_last());
        threshold_stays(s, steps.drop_last());
        let before = end(s, steps.drop_last());
        let last = steps.last();
        if timely(s, steps) && last.event == Event::<MessageView>::Delay(true) {
            let over = before.penalty - threshold;
            assert((last.now - before.checked) / 1_000_000 >= over) by (nonlinear_arith)
                requires
                    last.now >= before.checked + over * 1_000_000,
            ;
        }
    }
}

/// Whether each step is taken with the limit as the sender's switch has it.
pub open spec fn switched_by(sender: SenderView, steps: Seq<Step>) -> bool {
    forall|i: int|
        0 <= i < steps.len() ==> (#[trigger] steps[i]).enabled == sender.flood_protection
}

/// From the first turn after the limit is lifted, no delay runs and no penalty is left.
proof fn no_delay_while_switched_off(sender: SenderView, s: OutgoingView, steps: Seq<Step>)
    requires
        s.valid(),
        s.stage is Idle,
        steps.len() > 0,
        legal(s, steps),
        switched_by(sender, steps),
        !sender.flood_protection,
    ensures
        !end(s, steps).delayed,
        end(s, steps).penalty == 0,
    decreases steps.len(),
{
    let front = steps.drop_last();
    let last = steps[steps.len() - 1];
    threshold_stays(s, front);
    assert(!last.enabled);
    if front.len() > 0 {
        assert forall|i: int| 0 <= i < front.len() implies (#[trigger] front[i]).enabled
            == sender.flood_protection by {
            assert(front[i] == steps[i]);
        }
        no_delay_while_switched_off(sender, s, front);
    } else {
        assert(end(s, front) == s);
    }
}

/// To switch the limit off sends nothing, changes no other switch and asks for the writer to be
/// woken. From the next turn on, for as long as it stays off:
/// - no delay runs or begins, and no penalty is left;
/// - a message that was held back, delayed or not, is the first to go to the sink, and is held
///   until then, as long as the sink does not fail;
/// - it goes in any turn in which the priority queue is found empty and the sink is ready, and so
///   in the next turn where no message of the priority queue is ahead of it.
pub proof fn switching_the_limit_off(
    sender: SenderView,
    s: OutgoingView,
    m: MessageView,
    steps: Seq<Step>,
    now: nat,
    later: nat,
)
    requires
        s.valid(),
        s.stage is Idle,
        steps.len() > 0,
        legal(s, steps),
        switched_by(sender.with_flood_protection(false), steps),
    ensures
        ({
            let off = sender.with_flood_protection(false);
            let after = end(s, steps);
            let before = end(s, steps.drop_last());
            let last = steps.last();
            let action = before.next(last.event, last.enabled, last.now).1;
            let given = all_given(s, steps, false);
            let (ready, a1) = after.next(Event::Priority(None), off.flood_protection, now);
            let (_, a2) = ready.next(Event::Ready(Answer::Done), off.flood_protection, later);
            &&& off.wake_writer
            &&& off.offered == sender.offered
            &&& off.autojoin == sender.autojoin
            &&& !after.delayed
            &&& after.penalty == 0
            &&& !(action is StartDelay)
            &&& !(action is PollDelay)
            &&& s.held == Some(m) && sink_holds(steps) ==> {
                &&& given.len() == 0 ==> after.held == Some(m)
                &&& given.len() > 0 ==> given[0] == m
            }
            &&& after.stage == (Stage::Priority { second: false }) && after.held == Some(m) ==> {
                &&& a1 == Action::<MessageView>::PollReady
                &&& a2 == Action::StartSend(m)
            }
        }),
        s.held == Some(m) && s.priority_held is None ==> {
            let off = sender.with_flood_protection(false).flood_protection;
            let (s1, a1) = s.next(Event::Turn, off, now);
            let (s2, a2) = s1.next(Event::Priority(None), off, now);
            let (_, a3) = s2.next(Event::Ready(Answer::Done), off, later);
            &&& a1 == Action::<MessageView>::PollPriority
            &&& a2 == Action::<MessageView>::PollReady
            &&& a3 == Action::StartSend(m)
        },
{
    let off = sender.with_flood_protection(false);
    let front = steps.drop_last();
    let last = steps[steps.len() - 1];
    no_delay_while_switched_off(off, s, steps);
    threshold_stays(s, front);
    threshold_stays(s, steps);
    assert(!last.enabled);
    if front.len() > 0 {
        assert forall|i: int| 0 <= i < front.len() implies (#[trigger] front[i]).enabled
            == off.flood_protection by {
            assert(front[i] == steps[i]);
        }
        no_delay_while_switched_off(off, s, front);
    } else {
        assert(end(s, front) == s);
    }
    if s.held == Some(m) && sink_holds(steps) {
        messages_keep_their_order(s, steps);
        let given = all_given(s, steps, false);
        let all = seq![m] + all_brought(steps);
        let held = at_most_one(end(s, steps).held);
        assert(all == given + held);
        assert(all[0] == m);
        if given.len() == 0 {
            assert(given + held =~= held);
            assert(held[0] == m);
        } else {
            assert((given + held)[0] == given[0]);
        }
    }
}

/// To switch the limit on sends nothing, changes no other switch and asks for the writer to be
/// woken. Whatever the writer was told before, and however often the switch was turned, it is the
/// configured limit that applies again:
/// a message that is not free is delayed exactly where its cost takes the penalty over the
/// threshold, and by what it is over. Where the threshold is zero, nothing is ever delayed.
pub proof fn switching_the_limit_on(
    sender: SenderView,
    threshold: nat,
    steps: Seq<Step>,
    m: MessageView,
    now: nat,
)
    requires
        threshold <= u64::MAX,
        legal(OutgoingView::fresh(threshold), steps),
        end(OutgoingView::fresh(threshold), steps).stage is Queue,
        end(OutgoingView::fresh(threshold), steps).fits(Event::Queue(Received::Message(m)), true),
    ensures
        ({
            let on = sender.with_flood_protection(true);
            let before = end(OutgoingView::fresh(threshold), steps);
            let (after, action) = before.next(
                Event::Queue(Received::Message(m)),
                on.flood_protection,
                now,
            );
            let due = penalty::drained(before.penalty, before.checked, now) + penalty::cost(m);
            &&& on.wake_writer
            &&& on.offered == sender.offered
            &&& on.autojoin == sender.autojoin
            &&& after.threshold == threshold
            &&& action is StartDelay <==> threshold > 0 && penalty::cost(m) > 0 && due > threshold
            &&& action is StartDelay ==> action == Action::<MessageView>::StartDelay(
                (due - threshold) as u64,
            )
            &&& threshold == 0 ==> !after.delayed && after.penalty == 0
        }),
{
    let s = OutgoingView::fresh(threshold);
    threshold_stays(s, steps);
    let before = end(s, steps);
    delays_drain_the_excess(before, m, true, now);
    if threshold == 0 {
        zero_threshold_never_delays(steps);
    }
}

} // verus!
