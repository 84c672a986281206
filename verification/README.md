# irc_repartee

The core of an IRC client, written in Verus: what the client sends, how it answers what it
receives, and how fast it writes. Every function states its behaviour in `requires` and `ensures`,
and Verus proves it.

- `src/text.rs`: strings as sequences of characters.
- `src/proto`: messages, commands, modes and replies, and how they are written.
- `src/client/sender.rs`: the commands that a client issues, and the queue they go to.
- `src/client/state.rs`: the state of a connection, and the answer to each message.
- `src/client/channels.rs`: the users of each channel.
- `src/client/joins.rs`: `JOIN` commands that fit a line.
- `src/client/outgoing.rs`, `src/client/penalty.rs`: the writer, and what messages cost.
- `src/client/connection.rs`: the client, and the stream of what it receives.
- `src/client/conduct.rs`, `src/client/flow.rs`: what holds of the client and of the writer as a
  whole.
- `app`: the client on tokio, with its tasks, timers and locks.

The library performs no input or output. What it calls in other crates stands behind functions
marked `#[verifier::external_body]`: the clock of chrono and of tokio, and the queue of tokio. Of
the standard library it takes two contracts on trust, that of `String::push` and that of the
conversion of a type to itself.
