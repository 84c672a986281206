//! How a client answers requests of the client-to-client protocol.

use crate::client::sender::LineKind;
use crate::client::state::{self, Script, StateView};
use crate::proto::command::CommandView;
use crate::proto::message::{MessageView, PrefixView};
use crate::text;
use vstd::prelude::*;

verus! {

/// Whether nothing is sent, and nothing comes of it.
pub open spec fn stays_silent(script: Script) -> bool {
    &&& script.plan.len() == 0
    &&& script.end is Ok
    &&& script.turn is None
}

/// Whether `answer` is sent to `to`, as notices, between the marks.
pub open spec fn answers_with(script: Script, to: Seq<char>, answer: Seq<char>) -> bool {
    &&& script.plan == LineKind::Notice.messages(to, answer.insert(0, '\u{1}').push('\u{1}'))
    &&& script.end is Ok
    &&& script.turn is None
}

/// Whether a message asks, between marks, of which the second may be missing, for `inner`.
pub open spec fn asks(body: Seq<char>, inner: Seq<char>) -> bool {
    ||| body == inner.insert(0, '\u{1}').push('\u{1}')
    ||| body == inner.insert(0, '\u{1}') && (inner.len() == 0 || inner.last() != '\u{1}')
}

/// Whether the answer to a message goes to `to`: to the channel that it was sent to, or else to the
/// user that it came from.
pub open spec fn is_answered_to(msg: MessageView, to: Seq<char>) -> bool {
    let target = msg.command->PRIVMSG_0;
    if target.len() > 0 && target[0] == '#' {
        to == target
    } else {
        msg.prefix matches Some(PrefixView::Nickname(n, _, _)) && n == to
    }
}

/// A message that does not begin with the mark is no request, and is not answered. Nor is one whose
/// answer would have nowhere to go, nor any where the feature is off.
pub proof fn what_is_not_answered(s: StateView, msg: MessageView, time: Seq<char>)
    requires
        msg.command is PRIVMSG,
        ({
            let target = msg.command->PRIVMSG_0;
            let body = msg.command->PRIVMSG_1;
            ||| !s.features.ctcp
            ||| body.len() == 0
            ||| body[0] != '\u{1}'
            ||| !(target.len() > 0 && target[0] == '#') && !(msg.prefix matches Some(
                PrefixView::Nickname(_, _, _),
            ))
        }),
    ensures
        stays_silent(state::script(s, msg, time)),
{
}

/// Words that begin with different letters, or are of different lengths, are not the same.
proof fn words_differ(word: Seq<char>)
    ensures
        text::same_letters(word, "FINGER"@) ==> word.len() == 6 && (word[0] == 'F' || word[0]
            == 'f'),
        text::same_letters(word, "VERSION"@) ==> word.len() == 7,
        text::same_letters(word, "SOURCE"@) ==> word.len() == 6 && (word[0] == 'S' || word[0]
            == 's'),
        text::same_letters(word, "PING"@) ==> word.len() == 4 && (word[0] == 'P' || word[0] == 'p'),
        text::same_letters(word, "TIME"@) ==> word.len() == 4 && (word[0] == 'T' || word[0] == 't'),
        text::same_letters(word, "USERINFO"@) ==> word.len() == 8,
{
    reveal_strlit("FINGER");
    reveal_strlit("VERSION");
    reveal_strlit("SOURCE");
    reveal_strlit("PING");
    reveal_strlit("TIME");
    reveal_strlit("USERINFO");
    if word.len() > 0 {
        assert(text::same_letters(word, "FINGER"@) ==> text::same_letter(word[0], 'F'));
        assert(text::same_letters(word, "SOURCE"@) ==> text::same_letter(word[0], 'S'));
        assert(text::same_letters(word, "PING"@) ==> text::same_letter(word[0], 'P'));
        assert(text::same_letters(word, "TIME"@) ==> text::same_letter(word[0], 'T'));
    }
}

/// What stands between the marks is what is asked.
proof fn asked(body: Seq<char>, inner: Seq<char>)
    requires
        asks(body, inner),
    ensures
        body.len() > 0,
        body[0] == '\u{1}',
        state::between_marks(body) == inner,
{
    if body == inner.insert(0, '\u{1}').push('\u{1}') {
        assert(body.subrange(1, body.len() - 1) =~= inner);
    } else {
        assert(body.skip(1) =~= inner);
        if body.len() > 1 {
            assert(body.last() == inner.last());
        }
    }
}

/// A request is answered by its first word, whatever its case: with who the user is, with the
/// version, with the source, with the word behind a PING, with the time, with what is known of the
/// user. A PING without another word is not answered, nor is any other request.
pub proof fn requests_are_answered(
    s: StateView,
    msg: MessageView,
    time: Seq<char>,
    inner: Seq<char>,
    to: Seq<char>,
    words: Seq<Seq<char>>,
)
    requires
        s.features.ctcp,
        msg.command is PRIVMSG,
        asks(msg.command->PRIVMSG_1, inner),
        is_answered_to(msg, to),
        words == text::pieces(inner, " "@),
    ensures
        ({
            let script = state::script(s, msg, time);
            let word = words[0];
            let known = {
                ||| text::same_letters(word, "FINGER"@)
                ||| text::same_letters(word, "VERSION"@)
                ||| text::same_letters(word, "SOURCE"@)
                ||| text::same_letters(word, "PING"@) && words.len() > 1
                ||| text::same_letters(word, "TIME"@)
                ||| text::same_letters(word, "USERINFO"@)
            };
            &&& words.len() > 0
            &&& text::same_letters(word, "FINGER"@) ==> answers_with(
                script,
                to,
                "FINGER :"@ + s.config.real_name() + " ("@ + s.config.user_name() + ")"@,
            )
            &&& text::same_letters(word, "VERSION"@) ==> answers_with(
                script,
                to,
                "VERSION "@ + s.config.version_answer(),
            )
            &&& text::same_letters(word, "SOURCE"@) ==> answers_with(
                script,
                to,
                "SOURCE "@ + s.config.source_answer(),
            )
            &&& text::same_letters(word, "PING"@) && words.len() > 1 ==> answers_with(
                script,
                to,
                "PING "@ + words[1],
            )
            &&& text::same_letters(word, "TIME"@) ==> answers_with(script, to, "TIME :"@ + time)
            &&& text::same_letters(word, "USERINFO"@) ==> answers_with(
                script,
                to,
                "USERINFO :"@ + s.config.user_info_answer(),
            )
            &&& !known ==> stays_silent(script)
        }),
{
    reveal_strlit(" ");
    text::splitting_loses_nothing(inner, " "@);
    asked(msg.command->PRIVMSG_1, inner);
    words_differ(words[0]);
    if let Some(answer) = state::ctcp_answer(s.config, words, time) {
        assert(crate::client::sender::marked(answer) =~= answer.insert(0, '\u{1}').push('\u{1}'));
    }
}

} // verus!
