//! What a message costs: servers charge clients for messages, and disconnect those that run up
//! too much.

use crate::proto::command::{Command, CommandView};
use crate::proto::message::{Message, MessageView};
use crate::text;
use vstd::prelude::*;

verus! {

/// Whether a request is about nothing in particular.
pub open spec fn unrestricted(mask: Option<Seq<char>>) -> bool {
    match mask {
        Some(m) => m.len() == 0,
        None => true,
    }
}

/// What a command costs, in milliseconds, beside its length. A command that keeps up or sets up
/// the connection is free.
pub open spec fn command_cost(command: CommandView) -> nat {
    match command {
        CommandView::PONG(..) | CommandView::QUIT(..) | CommandView::PASS(..) => 0,
        CommandView::CAP(..) | CommandView::AUTHENTICATE(..) => 0,
        CommandView::NICK(..) => 3000,
        CommandView::PART(..) => 4000,
        CommandView::WHO(mask, _) => if unrestricted(mask) {
            10_000
        } else {
            2000
        },
        CommandView::LIST(mask, _) => if unrestricted(mask) {
            10_000
        } else {
            2000
        },
        CommandView::NAMES(mask, _) => if unrestricted(mask) {
            10_000
        } else {
            2000
        },
        CommandView::WHOIS(..) | CommandView::WHOWAS(..) => 3000,
        CommandView::LINKS(..) | CommandView::STATS(..) => 3000,
        CommandView::USERS(..) | CommandView::MOTD(..) | CommandView::INFO(..) => 5000,
        _ => 2000,
    }
}

/// What the length of a message costs, in milliseconds: a second, and one more for every hundred
/// bytes.
pub open spec fn length_cost(message: MessageView) -> nat {
    ((1 + text::byte_len(message.written()) / 100) * 1000) as nat
}

/// What a message costs, in milliseconds.
pub open spec fn cost(message: MessageView) -> nat {
    if command_cost(message.command) == 0 {
        0
    } else {
        length_cost(message) + command_cost(message.command)
    }
}

/// The whole milliseconds from one time to another, both in nanoseconds. There are none where
/// the other is not later.
pub open spec fn elapsed(last: nat, now: nat) -> nat {
    if now <= last {
        0
    } else {
        ((now - last) / 1_000_000) as nat
    }
}

/// What is left of a penalty, which goes down by one for every millisecond.
pub open spec fn drained(penalty: nat, last: nat, now: nat) -> nat {
    let gone = elapsed(last, now);
    if gone >= penalty {
        0
    } else {
        (penalty - gone) as nat
    }
}

/// Whether a request is about nothing in particular.
fn is_unrestricted(mask: &Option<String>) -> (r: bool)
    ensures
        r == unrestricted(text::opt_text(*mask)),
{
    match mask {
        Some(m) => m.as_str().is_empty(),
        None => true,
    }
}

/// What a command costs, in milliseconds, beside its length.
pub fn command_penalty(command: &Command) -> (r: u64)
    ensures
        r == command_cost(command@),
{
    match command {
        Command::PONG(..) | Command::QUIT(..) | Command::PASS(..) => 0,
        Command::CAP(..) | Command::AUTHENTICATE(..) => 0,
        Command::NICK(..) => 3000,
        Command::PART(..) => 4000,
        Command::WHO(mask, _) => if is_unrestricted(mask) {
            10_000
        } else {
            2000
        },
        Command::LIST(mask, _) | Command::NAMES(mask, _) => if is_unrestricted(mask) {
            10_000
        } else {
            2000
        },
        Command::WHOIS(..) | Command::WHOWAS(..) => 3000,
        Command::LINKS(..) | Command::STATS(..) => 3000,
        Command::USERS(..) | Command::MOTD(..) | Command::INFO(..) => 5000,
        _ => 2000,
    }
}

/// What the length of a message costs, in milliseconds.
pub fn length_penalty(message: &Message) -> (r: u64)
    requires
        length_cost(message@) <= u64::MAX,
    ensures
        r == length_cost(message@),
{
    let len: u64 = text::size(message.write().as_str()) as u64;
    (1 + len / 100) * 1000
}

/// What is left of a penalty.
pub fn drain(penalty: u64, last: u64, now: u64) -> (r: u64)
    ensures
        r == drained(penalty as nat, last as nat, now as nat),
{
    let gone: u64 = if now <= last {
        0
    } else {
        (now - last) / 1_000_000
    };
    penalty.saturating_sub(gone)
}

/// Only commands that keep up or set up the connection are free.
pub proof fn free_commands(message: MessageView)
    ensures
        cost(message) == 0 <==> {
            ||| message.command is PONG
            ||| message.command is QUIT
            ||| message.command is PASS
            ||| message.command is CAP
            ||| message.command is AUTHENTICATE
        },
{
}

/// A message that is not free costs a second, one more for every hundred bytes of its line, and
/// what its command costs: three seconds or more in all.
pub proof fn cost_of_a_message(message: MessageView)
    requires
        cost(message) != 0,
    ensures
        cost(message) == (1 + text::byte_len(message.written()) / 100) * 1000 + command_cost(
            message.command,
        ),
        2000 <= command_cost(message.command) <= 10_000,
        cost(message) >= 3000,
{
}

/// A penalty drains by one for every millisecond and never below zero. To drain it twice is to
/// drain it once over whole milliseconds.
pub proof fn draining(penalty: nat, last: nat, now: nat, later: nat)
    requires
        last <= now <= later,
    ensures
        drained(penalty, last, now) <= penalty,
        drained(penalty, last, last) == penalty,
        now - last >= penalty * 1_000_000 ==> drained(penalty, last, now) == 0,
        drained(penalty, last, later) <= drained(penalty, last, now),
        (now - last) % 1_000_000 == 0 ==> drained(drained(penalty, last, now), now, later)
            == drained(penalty, last, later),
{
    let a = (now - last) / 1_000_000;
    let b = (later - now) / 1_000_000;
    let c = (later - last) / 1_000_000;
    if (now - last) % 1_000_000 == 0 {
        assert(a + b == c);
    }
}

/// What the commands cost beside their length: nothing where they keep up or set up the
/// connection; ten seconds where they ask about everything; else three, four or five seconds where
/// servers charge more, and two for all the rest.
pub proof fn costs_of_commands(command: CommandView)
    ensures
        ({
            let all = {
                ||| command matches CommandView::WHO(mask, _) && (mask matches Some(m) ==> m.len()
                    == 0)
                ||| command matches CommandView::LIST(mask, _) && (mask matches Some(m) ==> m.len()
                    == 0)
                ||| command matches CommandView::NAMES(mask, _) && (mask matches Some(m) ==> m.len()
                    == 0)
            };
            let free = command is PONG || command is QUIT || command is PASS || command is CAP
                || command is AUTHENTICATE;
            let three = command is NICK || command is WHOIS || command is WHOWAS || command is LINKS
                || command is STATS;
            let four = command is PART;
            let five = command is USERS || command is MOTD || command is INFO;
            &&& all <==> command_cost(command) == 10_000
            &&& free <==> command_cost(command) == 0
            &&& three <==> command_cost(command) == 3000
            &&& four <==> command_cost(command) == 4000
            &&& five <==> command_cost(command) == 5000
            &&& !all && !free && !three && !four && !five <==> command_cost(command) == 2000
        }),
{
}

/// What the length of a message costs: a second, and another for each complete hundred of bytes of
/// its line, the end of the line among them.
pub proof fn costs_of_lengths(message: MessageView, hundreds: nat)
    requires
        hundreds * 100 <= text::byte_len(message.written()) < (hundreds + 1) * 100,
    ensures
        length_cost(message) == (hundreds + 1) * 1000,
{
}

/// What is left of a penalty after so many whole milliseconds: that much less, and never less than
/// nothing. Time that runs backwards changes nothing.
pub proof fn penalties_by_the_millisecond(penalty: nat, last: nat, now: nat, ms: nat)
    ensures
        now <= last ==> drained(penalty, last, now) == penalty,
        last + ms * 1_000_000 <= now < last + (ms + 1) * 1_000_000 ==> drained(penalty, last, now)
            == if penalty <= ms {
            0int
        } else {
            penalty - ms
        },
{
}

} // verus!
