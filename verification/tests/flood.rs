use irc_repartee::client::data::config::Config;
use irc_repartee::client::outgoing::{Action, Answer, Event, Received, Stage};
use irc_repartee::client::penalty::{command_penalty, drain, length_penalty};
use irc_repartee::client::{Client, Features, Outgoing};
use irc_repartee::proto::command::Command;
use irc_repartee::proto::message::Message;
use std::collections::VecDeque;
use tokio::sync::mpsc::error::TryRecvError;
use tokio::sync::mpsc::{unbounded_channel, UnboundedReceiver, UnboundedSender};

const MS: u64 = 1_000_000;

#[derive(Debug, PartialEq, Clone, Copy)]
enum End {
    Wait,
    Awake,
    Finish,
    Fail,
}

/// A connection whose clock and sink are under control.
struct Wire {
    client: Client<(), ()>,
    out: Outgoing,
    tx: Option<UnboundedSender<Message>>,
    rx: UnboundedReceiver<Message>,
    priority: VecDeque<Message>,
    now: u64,
    deadline: Option<u64>,
    ready: Answer,
    flush: Answer,
    sent: VecDeque<Message>,
    flushed: usize,
}

impl Wire {
    fn connect(threshold: u32) -> Wire {
        let (tx, rx) = unbounded_channel();
        let config = Config {
            nickname: Some("test".into()),
            flood_penalty_threshold: Some(threshold),
            ..Config::default()
        };
        let features = Features {
            channel_lists: true,
            ctcp: true,
        };
        let mut client = Client::from_config(config, features, tx.clone(), ());
        let out = client.outgoing().unwrap();
        assert!(client.outgoing().is_none());
        Wire {
            client,
            out,
            tx: Some(tx),
            rx,
            priority: VecDeque::new(),
            now: 0,
            deadline: None,
            ready: Answer::Done,
            flush: Answer::Done,
            sent: VecDeque::new(),
            flushed: 0,
        }
    }

    fn send(&mut self, text: &str) {
        self.client.sender().send_privmsg("#test", text).unwrap();
    }

    /// One turn of the writer.
    fn turn(&mut self) -> End {
        let mut event = Event::Turn;
        loop {
            let enabled = self.client.sender().flood_protection_enabled();
            let action = self.out.step_at(event, enabled, self.now);
            if !self.out.is_delayed() {
                self.deadline = None;
            }
            event = match action {
                Action::PollPriority => Event::Priority(self.priority.pop_front()),
                Action::PollReady => Event::Ready(self.ready),
                Action::StartSend(m) => {
                    self.sent.push_back(m);
                    Event::Started(true)
                }
                Action::Flush => {
                    if self.flush == Answer::Done {
                        self.flushed = self.sent.len();
                    }
                    Event::Flushed(self.flush)
                }
                Action::PollDelay => Event::Delay(self.now >= self.deadline.unwrap()),
                Action::StartDelay(ms) => {
                    self.deadline = Some(self.now + ms * MS);
                    Event::DelayStarted
                }
                Action::PollQueue => Event::Queue(match self.rx.try_recv() {
                    Ok(m) => Received::Message(m),
                    Err(TryRecvError::Empty) => Received::Empty,
                    Err(TryRecvError::Disconnected) => Received::Closed,
                }),
                Action::Wait => return End::Wait,
                Action::WaitAwake => return End::Awake,
                Action::Finish => return End::Finish,
                Action::Fail => return End::Fail,
            };
        }
    }

    /// Turns of the writer, until there is nothing left to do at this time.
    fn run(&mut self) -> End {
        loop {
            let end = self.turn();
            if end != End::Awake {
                return end;
            }
        }
    }

    fn expect(&mut self, text: &str) {
        self.run();
        let message = self.sent.pop_front().unwrap();
        assert_eq!(
            message.command,
            Command::PRIVMSG("#test".into(), text.into())
        );
    }

    fn expect_delayed(&mut self) {
        self.run();
        self.now += 120 * MS;
        self.run();
        assert!(self.sent.is_empty());
    }
}

fn privmsg(text: &str) -> Message {
    Command::PRIVMSG("#test".to_owned(), text.to_owned()).into()
}

#[test]
fn priority_message_skips_throttle_delay() {
    let mut wire = Wire::connect(10_000);
    let payload = "x".repeat(350);
    wire.send(&payload);
    wire.send(&payload);
    wire.run();
    wire.now += 20 * MS;
    assert_eq!(wire.sent.len(), 1);
    assert!(wire.out.is_delayed());
    wire.priority
        .push_back(Command::PING("priority".to_owned(), None).into());
    wire.run();
    assert!(wire
        .sent
        .iter()
        .any(|m| matches!(&m.command, Command::PING(..))));
    assert_eq!(wire.sent.len(), 2);
    assert!(wire.out.is_delayed());
}

#[test]
fn paste_burst_does_not_starve_ping() {
    let mut wire = Wire::connect(10_000);
    let payload = "x".repeat(350);
    for _ in 0..50 {
        wire.send(&payload);
    }
    wire.run();
    wire.now += 1_000 * MS;
    wire.priority
        .push_back(Command::PING("irc.test.net".to_owned(), None).into());
    wire.run();
    let ping = wire.sent.back().unwrap().write();
    assert!(ping.starts_with("PING "));
    assert!(wire.sent.len() < 50);
}

#[test]
fn flood_bypass_wakes_delayed_writer_and_restores_configured_limit() {
    let mut wire = Wire::connect(1_000);
    wire.send("delayed");
    wire.expect_delayed();
    wire.client.sender().set_flood_protection_enabled(false);
    wire.expect("delayed");
    for i in 0..12 {
        wire.send(&format!("burst {i}"));
    }
    for i in 0..12 {
        wire.expect(&format!("burst {i}"));
    }
    wire.client.sender().set_flood_protection_enabled(true);
    wire.send("limited again");
    wire.expect_delayed();
    wire.client.sender().set_flood_protection_enabled(false);
    wire.expect("limited again");
}

#[test]
fn flood_bypass_is_connection_local_and_preserves_disabled_config() {
    let mut limited = Wire::connect(1_000);
    let mut disabled = Wire::connect(0);
    disabled.client.sender().set_flood_protection_enabled(false);
    disabled.client.sender().set_flood_protection_enabled(true);
    limited.send("still limited");
    for i in 0..12 {
        disabled.send(&format!("unlimited {i}"));
    }
    for i in 0..12 {
        disabled.expect(&format!("unlimited {i}"));
    }
    limited.expect_delayed();
    limited.client.sender().set_flood_protection_enabled(false);
    limited.expect("still limited");
}

#[test]
fn costs_of_commands() {
    let s = || "x".to_owned();
    let cost = |c: Command| command_penalty(&c);
    assert_eq!(cost(Command::PONG(s(), None)), 0);
    assert_eq!(cost(Command::QUIT(None)), 0);
    assert_eq!(cost(Command::PASS(s())), 0);
    assert_eq!(cost(Command::AUTHENTICATE(s())), 0);
    assert_eq!(cost(Command::NICK(s())), 3000);
    assert_eq!(cost(Command::PART(s(), None)), 4000);
    assert_eq!(cost(Command::WHO(None, None)), 10_000);
    assert_eq!(cost(Command::WHO(Some(String::new()), None)), 10_000);
    assert_eq!(cost(Command::WHO(Some(s()), None)), 2000);
    assert_eq!(cost(Command::LIST(None, None)), 10_000);
    assert_eq!(cost(Command::NAMES(Some(s()), None)), 2000);
    assert_eq!(cost(Command::WHOIS(None, s())), 3000);
    assert_eq!(cost(Command::WHOWAS(s(), None, None)), 3000);
    assert_eq!(cost(Command::LINKS(None, None)), 3000);
    assert_eq!(cost(Command::STATS(None, None)), 3000);
    assert_eq!(cost(Command::LUSERS(None, None)), 2000);
    assert_eq!(cost(Command::TRACE(None)), 2000);
    assert_eq!(cost(Command::USERS(None)), 5000);
    assert_eq!(cost(Command::MOTD(None)), 5000);
    assert_eq!(cost(Command::INFO(None)), 5000);
    assert_eq!(cost(Command::PRIVMSG(s(), s())), 2000);
    assert_eq!(cost(Command::Raw(s(), vec![])), 2000);
}

#[test]
fn costs_of_lengths() {
    // "PRIVMSG #test " and the line end take sixteen bytes.
    assert_eq!(length_penalty(&privmsg(&"x".repeat(83))), 1000);
    assert_eq!(length_penalty(&privmsg(&"x".repeat(84))), 2000);
    assert_eq!(length_penalty(&privmsg(&"\u{e4}".repeat(42))), 2000);
    assert_eq!(length_penalty(&privmsg(&"x".repeat(350))), 4000);
}

#[test]
fn draining_of_penalties() {
    assert_eq!(drain(5000, 0, 1_999_999), 4999);
    assert_eq!(drain(5000, 0, 2_000_000), 4998);
    assert_eq!(drain(5000, 7 * MS, 6 * MS), 5000);
    assert_eq!(drain(5000, 0, 6000 * MS), 0);
}

#[test]
fn a_message_is_delayed_by_the_excess() {
    let mut wire = Wire::connect(10_000);
    for i in 0..4 {
        wire.send(&format!("{i}"));
    }
    wire.run();
    // Each costs three seconds, so that the fourth is two too many.
    assert_eq!(wire.sent.len(), 3);
    assert_eq!(wire.flushed, 3);
    assert_eq!(wire.out.penalty(), 12_000);
    assert_eq!(wire.deadline, Some(2_000 * MS));
    wire.now = 1_999 * MS;
    wire.run();
    assert_eq!(wire.sent.len(), 3);
    wire.now = 2_000 * MS;
    wire.run();
    assert_eq!(wire.sent.len(), 4);
    assert_eq!(wire.flushed, 4);
    assert_eq!(wire.out.penalty(), 10_000);
    let texts: Vec<String> = wire.sent.iter().map(|m| m.write()).collect();
    assert_eq!(texts[3], "PRIVMSG #test 3\r\n");
}

#[test]
fn free_commands_are_not_charged() {
    let mut wire = Wire::connect(1_000);
    for _ in 0..20 {
        wire.client.send_pong("irc.test.net").unwrap();
    }
    wire.client.send_quit("").unwrap();
    wire.run();
    assert_eq!(wire.sent.len(), 21);
    assert_eq!(wire.out.penalty(), 0);
    assert_eq!(wire.sent[20].write(), "QUIT :Powered by Rust.\r\n");
}

#[test]
fn a_sink_that_is_not_ready_gets_the_message_later() {
    let mut wire = Wire::connect(0);
    wire.send("one");
    wire.send("two");
    wire.ready = Answer::Pending;
    assert_eq!(wire.run(), End::Wait);
    wire.priority
        .push_back(Command::PING("x".to_owned(), None).into());
    assert_eq!(wire.run(), End::Wait);
    assert!(wire.sent.is_empty());
    wire.ready = Answer::Done;
    assert_eq!(wire.run(), End::Wait);
    let texts: Vec<String> = wire.sent.iter().map(|m| m.write()).collect();
    assert_eq!(
        texts,
        vec!["PING x\r\n", "PRIVMSG #test one\r\n", "PRIVMSG #test two\r\n"]
    );
}

#[test]
fn a_sink_that_fails_ends_the_writer() {
    let mut wire = Wire::connect(0);
    wire.send("one");
    wire.ready = Answer::Failed;
    assert_eq!(wire.run(), End::Fail);
    let mut wire = Wire::connect(0);
    wire.flush = Answer::Failed;
    assert_eq!(wire.run(), End::Fail);
}

#[test]
fn the_writer_finishes_when_the_queue_is_closed() {
    let mut wire = Wire::connect(0);
    wire.send("last");
    wire.tx = None;
    assert_eq!(wire.run(), End::Wait);
    let (tx, _) = unbounded_channel();
    let config = Config::default();
    let features = Features {
        channel_lists: true,
        ctcp: true,
    };
    wire.client = Client::from_config(config, features, tx, ());
    assert_eq!(wire.run(), End::Finish);
    assert_eq!(wire.sent.len(), 1);
    assert_eq!(wire.flushed, 1);
    assert!(!wire.out.is_terminated());
}

#[test]
fn the_writer_reads_the_clock() {
    let mut wire = Wire::connect(1_000);
    assert_eq!(wire.out.stage(), Stage::Idle);
    assert!(matches!(
        wire.out.step(Event::Turn, true),
        Action::PollPriority
    ));
    assert!(matches!(
        wire.out.step(Event::Priority(None), true),
        Action::PollPriority
    ));
    assert!(matches!(
        wire.out.step(Event::Priority(None), true),
        Action::PollQueue
    ));
    let message = privmsg("hello");
    assert!(wire.out.fits(&message, true));
    let event = Event::Queue(Received::Message(message));
    assert!(matches!(
        wire.out.step(event, true),
        Action::StartDelay(2000)
    ));
    assert_eq!(wire.out.penalty(), 3000);
}

#[test]
fn time_that_passes_drains_the_penalty() {
    let mut wire = Wire::connect(3_000);
    wire.send("one");
    wire.run();
    assert_eq!(wire.out.penalty(), 3_000);
    let begun = std::time::Instant::now();
    while begun.elapsed() < std::time::Duration::from_millis(15) {}
    assert!(matches!(
        wire.out.step(Event::Turn, true),
        Action::PollPriority
    ));
    wire.out.step(Event::Priority(None), true);
    wire.out.step(Event::Priority(None), true);
    let action = wire
        .out
        .step(Event::Queue(Received::Message(privmsg("two"))), true);
    match action {
        Action::StartDelay(ms) => assert!(ms < 3_000 && ms > 0),
        _ => panic!("no delay"),
    }
}

#[test]
fn a_delay_runs_while_the_penalty_is_over_the_threshold() {
    let mut wire = Wire::connect(10_000);
    for i in 0..9 {
        wire.send(&format!("{i}"));
    }
    for tick in 0..40 {
        wire.now = tick * 500 * MS;
        wire.client
            .sender()
            .set_flood_protection_enabled(tick != 20);
        wire.run();
        assert_eq!(wire.out.is_delayed(), wire.out.penalty() > 10_000);
    }
    assert_eq!(wire.sent.len(), 9);
}

#[test]
fn the_limit_is_lifted_behind_priority_messages() {
    let mut wire = Wire::connect(1_000);
    wire.send("held");
    wire.expect_delayed();
    wire.client.sender().set_flood_protection_enabled(false);
    for name in ["a", "b"] {
        wire.priority
            .push_back(Command::PING(name.to_owned(), None).into());
    }
    assert_eq!(wire.turn(), End::Awake);
    assert_eq!(wire.turn(), End::Awake);
    assert_eq!(wire.turn(), End::Wait);
    let texts: Vec<String> = wire.sent.iter().map(|m| m.write()).collect();
    assert_eq!(
        texts,
        vec!["PING a\r\n", "PING b\r\n", "PRIVMSG #test held\r\n"]
    );
    assert_eq!(wire.out.penalty(), 0);
}

#[test]
fn the_switch_asks_for_the_writer_to_be_woken() {
    let mut wire = Wire::connect(1_000);
    assert!(!wire.client.sender().take_wake());
    for enabled in [false, true] {
        wire.client.sender().set_flood_protection_enabled(enabled);
        // Another handle on the connection finds the same.
        assert_eq!(wire.client.sender().flood_protection_enabled(), enabled);
        assert!(wire.client.sender().take_wake());
        assert!(!wire.client.sender().take_wake());
    }
    assert!(wire.rx.try_recv().is_err());
}
