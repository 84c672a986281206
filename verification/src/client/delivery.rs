//! What becomes of the messages that a client sends.

use crate::client::connection::ClientView;
use crate::client::sender::{self, LineKind, SenderView};
use crate::client::state::{self, Script, StateView};
use crate::error::{Error, ErrorView};
use crate::proto::command::CommandView;
use crate::proto::message::MessageView;
use crate::text;
use vstd::prelude::*;

verus! {

/// Whether a queue to which `before` was offered was then offered `plan`, message by message, and
/// took `n` of them, and was offered nothing behind one that it refused.
pub open spec fn offered_in_turn(
    before: Seq<(MessageView, bool)>,
    plan: Seq<MessageView>,
    n: nat,
    after: Seq<(MessageView, bool)>,
) -> bool {
    &&& n <= plan.len()
    &&& after.len() == before.len() + n + if n < plan.len() {
        1int
    } else {
        0int
    }
    &&& forall|i: int| 0 <= i < before.len() ==> #[trigger] after[i] == before[i]
    &&& forall|i: int| 0 <= i < n ==> after[before.len() + i] == (#[trigger] plan[i], true)
    &&& n < plan.len() ==> after.last() == (plan[n as int], false)
}

/// What was sent by a sender: the messages, in their order, each once, up to the first that the
/// queue refused. It is an error if one was refused, and that error alone. No switch is touched.
pub proof fn sending_in_turn(
    s: SenderView,
    plan: Seq<MessageView>,
    t: SenderView,
    r: Result<(), Error>,
) -> (n: nat)
    requires
        s.delivers(plan, t, r),
    ensures
        offered_in_turn(s.offered, plan, n, t.offered),
        r is Ok <==> n == plan.len(),
        r is Err ==> r->Err_0 is AsyncChannelClosed,
        t.flood_protection == s.flood_protection,
        t.wake_writer == s.wake_writer,
        t.autojoin == s.autojoin,
{
    let n = choose|n: nat|
        n <= plan.len() && t == #[trigger] s.after(plan, n) && crate::error::outcome(r)
            == sender::result_of(plan.len(), n);
    assert forall|i: int| 0 <= i < n implies t.offered[s.offered.len() + i] == (
        #[trigger] plan[i],
        true,
    ) by {
        assert(sender::offers(plan, n)[i] == (plan[i], true));
    }
    n
}

/// The same of a connection and of a client, of which nothing else changes.
pub proof fn sending_changes_nothing_else<I, H>(
    s: ClientView<I, H>,
    plan: Seq<MessageView>,
    t: ClientView<I, H>,
    r: Result<(), Error>,
) -> (n: nat)
    requires
        s.delivers(plan, t, r),
    ensures
        offered_in_turn(s.state.sender.offered, plan, n, t.state.sender.offered),
        r is Ok <==> n == plan.len(),
        r is Err ==> r->Err_0 is AsyncChannelClosed,
        t.state.sender.flood_protection == s.state.sender.flood_protection,
        t.state.sender.autojoin == s.state.sender.autojoin,
        t.state.config == s.state.config,
        t.state.features == s.state.features,
        t.state.lists == s.state.lists,
        t.state.index == s.state.index,
        t.incoming == s.incoming,
        t.outgoing == s.outgoing,
        t.outgoing_handle == s.outgoing_handle,
{
    sending_in_turn(s.state.sender, plan, t.state.sender, r)
}

/// What a script comes to: its messages, in their order, each once, up to the first that the queue
/// refused; its own end where none was; and the nickname that it turns to, if it got so far.
pub proof fn performing_in_turn(
    s: StateView,
    script: Script,
    t: StateView,
    r: Result<(), Error>,
) -> (n: nat)
    requires
        s.performs(script, t, r),
    ensures
        offered_in_turn(s.sender.offered, script.plan, n, t.sender.offered),
        n < script.plan.len() ==> r is Err && r->Err_0 is AsyncChannelClosed,
        n == script.plan.len() ==> match script.end {
            Ok(()) => r is Ok,
            Err(e) => r is Err && r->Err_0@ == e,
        },
        t.index == match script.turn {
            Some((at, index)) => if at <= n {
                index
            } else {
                s.index
            },
            None => s.index,
        },
        t.sender.flood_protection == s.sender.flood_protection,
        t.sender.autojoin == s.sender.autojoin,
        t.config == s.config,
        t.features == s.features,
        t.lists == s.lists,
{
    let n = choose|n: nat|
        n <= script.plan.len() && t == #[trigger] s.after(script, n) && crate::error::outcome(r)
            == script.outcome(n);
    let plan = script.plan;
    assert forall|i: int| 0 <= i < n implies t.sender.offered[s.sender.offered.len() + i] == (
        #[trigger] plan[i],
        true,
    ) by {
        assert(sender::offers(plan, n)[i] == (plan[i], true));
    }
    n
}

/// An answer to a message that was received is a script at some time of day, performed on a state
/// in which nothing but the tracked channels has changed.
pub proof fn answering_in_turn(
    s: StateView,
    msg: MessageView,
    t: StateView,
    r: Result<(), Error>,
) -> (answer: (Seq<char>, nat))
    requires
        s.answers(msg, t, r),
    ensures
        ({
            let (time, n) = answer;
            let script = state::script(s, msg, time);
            &&& offered_in_turn(s.sender.offered, script.plan, n, t.sender.offered)
            &&& n < script.plan.len() ==> r is Err && r->Err_0 is AsyncChannelClosed
            &&& n == script.plan.len() ==> match script.end {
                Ok(()) => r is Ok,
                Err(e) => r is Err && r->Err_0@ == e,
            }
            &&& t.lists == state::lists_after(s, msg)
            &&& t.config == s.config
            &&& t.features == s.features
            &&& t.sender.autojoin == s.sender.autojoin
            &&& t.sender.flood_protection == s.sender.flood_protection
        }),
{
    let time = choose|time: Seq<char>|
        state::received(s, msg).performs(#[trigger] state::script(s, msg, time), t, r);
    let n = performing_in_turn(state::received(s, msg), state::script(s, msg, time), t, r);
    (time, n)
}

/// Whether no line ends within a text.
pub open spec fn has_no_break(s: Seq<char>) -> bool {
    forall|k: int| 0 <= k < s.len() - 1 && #[trigger] s[k] == '\r' ==> s[k + 1] != '\n'
}

/// A text is sent line by line: there are as many messages as lines, each with one line, to the
/// target, marked where it is to be. The lines, with the breaks between them, are the text, and
/// none of them holds a break.
pub proof fn texts_go_line_by_line(kind: LineKind, target: Seq<char>, s: Seq<char>) -> (lines: Seq<
    Seq<char>,
>)
    ensures
        lines.len() > 0,
        text::joined(lines, seq!['\r', '\n']) == s,
        forall|i: int| 0 <= i < lines.len() ==> has_no_break(#[trigger] lines[i]),
        kind.messages(target, s).len() == lines.len(),
        forall|i: int|
            0 <= i < lines.len() ==> {
                let m = #[trigger] kind.messages(target, s)[i];
                &&& m.prefix is None
                &&& m.command == match kind {
                    LineKind::Message => CommandView::PRIVMSG(target, lines[i]),
                    LineKind::Notice => CommandView::NOTICE(target, lines[i]),
                    LineKind::Marked => CommandView::PRIVMSG(
                        target,
                        lines[i].insert(0, '\u{1}').push('\u{1}'),
                    ),
                }
            },
{
    let lines = text::pieces(s, seq!['\r', '\n']);
    let end = seq!['\r', '\n'];
    text::splitting_loses_nothing(s, end);
    assert forall|i: int| 0 <= i < lines.len() implies has_no_break(#[trigger] lines[i]) by {
        let line = lines[i];
        assert forall|k: int| 0 <= k < line.len() - 1 && #[trigger] line[k] == '\r' implies line[k
            + 1] != '\n' by {
            assert(!text::occurs_at(line, end, k));
            text::occurring(line, end, k);
        }
    }
    assert forall|i: int| 0 <= i < lines.len() implies {
        let m = #[trigger] kind.messages(target, s)[i];
        &&& m.prefix is None
        &&& m.command == match kind {
            LineKind::Message => CommandView::PRIVMSG(target, lines[i]),
            LineKind::Notice => CommandView::NOTICE(target, lines[i]),
            LineKind::Marked => CommandView::PRIVMSG(
                target,
                lines[i].insert(0, '\u{1}').push('\u{1}'),
            ),
        }
    } by {
        assert(sender::marked(lines[i]) =~= lines[i].insert(0, '\u{1}').push('\u{1}'));
    }
    lines
}

/// A text without a break is sent in one message.
pub proof fn a_line_goes_in_one_message(kind: LineKind, target: Seq<char>, s: Seq<char>)
    requires
        has_no_break(s),
    ensures
        kind.messages(target, s) == seq![
            MessageView {
                prefix: None,
                command: match kind {
                    LineKind::Message => CommandView::PRIVMSG(target, s),
                    LineKind::Notice => CommandView::NOTICE(target, s),
                    LineKind::Marked => CommandView::PRIVMSG(
                        target,
                        s.insert(0, '\u{1}').push('\u{1}'),
                    ),
                },
            },
        ],
{
    let end = seq!['\r', '\n'];
    text::found_first(s, end, 0);
    if let Some(j) = text::find_from(s, end, 0) {
        text::occurring(s, end, j);
        assert(s[j + 0] == end[0] && s[j + 1] == end[1]);
    }
    assert(text::pieces(s, seq!['\r', '\n']) == seq![s]);
    let lines = texts_go_line_by_line(kind, target, s);
    assert(sender::marked(s) =~= s.insert(0, '\u{1}').push('\u{1}'));
    assert(kind.messages(target, s) =~= seq![MessageView::of(kind.command(target, s))]);
}

/// A command is issued in one message without a source. An argument that is left empty, where it
/// may be, is left out.
pub proof fn commands_go_in_one_message(command: CommandView, argument: Seq<char>)
    ensures
        sender::one(command) == seq![MessageView { prefix: None, command }],
        argument.len() == 0 ==> sender::unless_empty(argument) is None,
        argument.len() > 0 ==> sender::unless_empty(argument) == Some(argument),
{
}

/// What the client keeps track of when it sends a message: a channel that it leaves is forgotten
/// and the others stay as they are, and no other message changes anything.
pub proof fn sending_tracks_parts_only(s: StateView, msg: MessageView, i: int)
    requires
        s.valid(),
        0 <= i < s.lists.len(),
    ensures
        state::sending(s, msg).sender == s.sender,
        state::sending(s, msg).config == s.config,
        state::sending(s, msg).features == s.features,
        state::sending(s, msg).index == s.index,
        !(msg.command is PART) ==> state::sending(s, msg).lists == s.lists,
        msg.command is PART ==> {
            let chan = msg.command->PART_0;
            state::sending(s, msg).lists.contains(s.lists[i]) <==> s.lists[i].name != chan
        },
{
    if msg.command is PART {
        let chan = msg.command->PART_0;
        let keep = |c: crate::client::channels::ChannelView| c.name != chan;
        let after = s.lists.filter(keep);
        if s.lists[i].name != chan {
            s.lists.lemma_filter_contains(keep, i);
        }
        if after.contains(s.lists[i]) {
            let k = choose|k: int| 0 <= k < after.len() && after[k] == s.lists[i];
            s.lists.lemma_filter_pred(keep, k);
        }
    }
}

} // verus!
