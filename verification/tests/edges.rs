use irc_repartee::client::data::config::Config;
use irc_repartee::client::data::user::{AccessLevel, User};
use irc_repartee::client::{Client, Features, StreamError};
use irc_repartee::proto::caps::CapSubCommand;
use irc_repartee::proto::command::Command;
use irc_repartee::proto::message::{Message, Prefix};
use irc_repartee::proto::mode::{ChannelMode, Mode, ModeParseError, MessageParseError};
use irc_repartee::proto::response::Response;
use irc_repartee::error::Error;
use irc_repartee::proto::caps::{Capability, NegotiationVersion};
use irc_repartee::text;
use tokio::sync::mpsc::{unbounded_channel, UnboundedReceiver};

type TestClient = Client<Vec<Result<Message, String>>, ()>;

fn test_config() -> Config {
    Config {
        nickname: Some("test".to_string()),
        alt_nicks: vec!["test2".to_string()],
        channels: vec!["#test".to_string(), "#test2".to_string()],
        user_info: Some("Testing.".to_string()),
        flood_penalty_threshold: Some(0),
        ..Default::default()
    }
}

fn all_features() -> Features {
    Features {
        channel_lists: true,
        ctcp: true,
    }
}

/// Reads one line, as far as these tests need it.
fn read_line(line: &str) -> Message {
    let (prefix, rest) = match line.strip_prefix(':') {
        Some(s) => {
            let (from, rest) = s.split_once(' ').unwrap();
            let prefix = match from.split_once('!') {
                Some((nick, more)) => {
                    let (user, host) = more.split_once('@').unwrap();
                    Prefix::Nickname(nick.to_owned(), user.to_owned(), host.to_owned())
                }
                None => Prefix::ServerName(from.to_owned()),
            };
            (Some(prefix), rest)
        }
        None => (None, line),
    };
    let (head, last) = match rest.split_once(" :") {
        Some((head, last)) => (head, Some(last.to_owned())),
        None => (rest, None),
    };
    let mut words = head.split(' ').map(|w| w.to_owned());
    let word = words.next().unwrap();
    let mut args: Vec<String> = words.collect();
    args.extend(last);
    let command = match word.as_str() {
        "PRIVMSG" => Command::PRIVMSG(args[0].clone(), args[1].clone()),
        "JOIN" => Command::JOIN(args[0].clone(), None, None),
        "PART" => Command::PART(args[0].clone(), args.get(1).cloned()),
        "KICK" => Command::KICK(args[0].clone(), args[1].clone(), args.get(2).cloned()),
        "NICK" => Command::NICK(args[0].clone()),
        "QUIT" => Command::QUIT(args.first().cloned()),
        "CAP" => {
            let target = Some(args[0].clone());
            Command::CAP(target, CapSubCommand::LS, None, Some(args[2].clone()))
        }
        "MODE" => {
            let mode = match &args[1][1..] {
                "o" => ChannelMode::Oper,
                "v" => ChannelMode::Voice,
                _ => panic!("mode"),
            };
            let who = args.get(2).cloned();
            let mode = if args[1].starts_with('+') {
                Mode::Plus(mode, who)
            } else {
                Mode::Minus(mode, who)
            };
            Command::ChannelMODE(args[0].clone(), vec![mode])
        }
        number => Command::Response(Response::from_number(number.parse().unwrap()), args),
    };
    Message { prefix, command }
}

/// A client to which the lines of `value` arrive.
fn connect(config: Config, value: &str) -> (TestClient, UnboundedReceiver<Message>) {
    connect_with(config, all_features(), value)
}

fn connect_with(
    config: Config,
    features: Features,
    value: &str,
) -> (TestClient, UnboundedReceiver<Message>) {
    let (tx, rx) = unbounded_channel();
    let incoming = value
        .split_terminator("\r\n")
        .map(|line| Ok(read_line(line)))
        .collect();
    (Client::from_config(config, features, tx, incoming), rx)
}

/// Has the client answer everything that arrives.
fn collect(client: &mut TestClient) -> Result<Vec<Message>, StreamError<String>> {
    let (stream, _) = client.stream().unwrap();
    stream.collect(client)
}

/// A line as it goes out: nothing behind its first line break is sent.
fn sanitize(mut line: String) -> String {
    let first = ["\r\n", "\r", "\n"]
        .iter()
        .flat_map(|end| line.find(end).map(|pos| (pos, end.len())))
        .min_by_key(|&(pos, _)| pos);
    if let Some((pos, len)) = first {
        line.truncate(pos + len);
    }
    line
}

/// Everything that the client has queued, as it goes out.
fn sent(rx: &mut UnboundedReceiver<Message>) -> String {
    let mut all = String::new();
    while let Ok(message) = rx.try_recv() {
        all.push_str(&sanitize(message.write()));
    }
    all
}

#[test]
fn the_stream_can_be_taken_once() {
    let (mut client, _rx) = connect(test_config(), "");
    assert!(client.has_stream());
    let (stream, writer) = client.stream().unwrap();
    assert!(stream.stream.is_empty());
    assert!(writer.is_some());
    assert!(!client.has_stream());
}

#[test]
fn a_message_is_sent_as_it_is() {
    let (mut client, mut rx) = connect(test_config(), "");
    let message = read_line(":a!b@c PRIVMSG #test :Hi there!");
    client.send(message.clone()).unwrap();
    client.sender().send(message.clone()).unwrap();
    assert_eq!(rx.try_recv().unwrap(), message);
    assert_eq!(rx.try_recv().unwrap(), message);
    assert!(rx.try_recv().is_err());
}

#[test]
fn operations_do_not_bring_the_stream_back() {
    let (mut client, mut rx) = connect(test_config(), "");
    client.stream().unwrap();
    client.identify().unwrap();
    client.send_join("#a").unwrap();
    client.sender().set_autojoin_enabled(false);
    client.outgoing_handle = Some(());
    client.abort_outgoing();
    client.outgoing();
    assert!(!client.has_stream());
    assert!(sent(&mut rx).ends_with("JOIN #a\r\n"));
}

#[test]
fn a_writer_that_was_taken_is_not_run() {
    let (mut client, _rx) = connect(test_config(), "");
    assert!(client.outgoing().is_some());
    let (_, writer) = client.stream().unwrap();
    assert!(writer.is_none());
}

#[test]
fn the_task_that_writes_can_be_taken_once() {
    let (mut client, _rx) = connect(test_config(), "");
    assert_eq!(client.abort_outgoing(), None);
    client.outgoing_handle = Some(());
    assert_eq!(client.abort_outgoing(), Some(()));
    assert_eq!(client.abort_outgoing(), None);
}

#[test]
fn a_closed_queue_is_reported() {
    let (mut client, rx) = connect(test_config(), "");
    drop(rx);
    assert_eq!(client.send_pong("x"), Err(Error::AsyncChannelClosed));
    assert_eq!(
        client.send_privmsg("#a", "one\r\ntwo"),
        Err(Error::AsyncChannelClosed)
    );
    assert_eq!(client.identify(), Err(Error::AsyncChannelClosed));
}

#[test]
fn a_closed_queue_keeps_the_nickname() {
    let value = ":irc.test.net 433 * test :Nickname is already in use.\r\n";
    let (mut client, rx) = connect(test_config(), value);
    drop(rx);
    assert!(matches!(
        collect(&mut client),
        Err(StreamError::Client(Error::AsyncChannelClosed))
    ));
    assert_eq!(client.current_nickname(), "test");
}

#[test]
fn no_nickname_is_an_error() {
    let (mut client, mut rx) = connect(
        Config {
            nickname: None,
            password: Some("secret".to_string()),
            ..test_config()
        },
        "",
    );
    assert!(!client.has_nickname());
    assert_eq!(client.identify(), Err(Error::NicknameNotSpecified));
    assert_eq!(sent(&mut rx), "CAP END\r\nPASS secret\r\n");
}

#[test]
fn no_nickname_to_reclaim_is_an_error() {
    let value = ":irc.test.net 433 * test :Nickname is already in use.\r\n\
                 :irc.test.net 376 test2 :End of /MOTD command.\r\n";
    let config = |sequence| Config {
        nickname: None,
        nick_password: Some("password".to_string()),
        should_ghost: true,
        ghost_sequence: sequence,
        ..test_config()
    };
    let (mut client, mut rx) = connect(config(None), value);
    assert!(matches!(
        collect(&mut client),
        Err(StreamError::Client(Error::NicknameNotSpecified))
    ));
    assert_eq!(sent(&mut rx), "NICK test2\r\n");
    assert_eq!(client.current_nickname(), "test2");
    let (mut client, _rx) = connect(config(Some(vec![])), value);
    assert!(matches!(
        collect(&mut client),
        Err(StreamError::Client(Error::NicknameNotSpecified))
    ));
    assert!(!client.has_nickname());
}

#[test]
fn user_modes_need_a_sign() {
    let value = ":irc.test.net 376 test :End of /MOTD command.\r\n";
    let (mut client, mut rx) = connect(
        Config {
            umodes: Some("i x".to_string()),
            ..test_config()
        },
        value,
    );
    match collect(&mut client) {
        Err(StreamError::Client(Error::InvalidMessage { string, cause })) => {
            assert_eq!(string, "MODE test i x");
            assert_eq!(
                cause,
                MessageParseError::InvalidModeString {
                    string: "i x".to_string(),
                    cause: ModeParseError::InvalidModeModifier { modifier: 'i' },
                }
            );
        }
        _ => panic!("expected an error"),
    }
    assert_eq!(sent(&mut rx), "");
}

#[test]
fn an_error_of_the_transport_is_handed_on() {
    let (tx, _rx) = unbounded_channel();
    let incoming: Vec<Result<Message, String>> = vec![
        Ok(read_line("PRIVMSG test :Hi!")),
        Err("broken".to_string()),
        Ok(read_line("PRIVMSG test :Lost!")),
    ];
    let mut client: TestClient = Client::from_config(test_config(), all_features(), tx, incoming);
    match collect(&mut client) {
        Err(StreamError::Transport(e)) => assert_eq!(e, "broken"),
        _ => panic!("expected an error"),
    }
}

#[test]
fn alternative_nicknames_are_tried_in_turn() {
    let value = ":s 433 * test :taken\r\n:s 432 * a :erroneous\r\n:s 433 * b :taken\r\n";
    let (mut client, mut rx) = connect(
        Config {
            alt_nicks: vec!["a".to_string(), "b".to_string(), "c".to_string()],
            ..test_config()
        },
        value,
    );
    assert_eq!(client.current_nickname(), "test");
    collect(&mut client).ok().unwrap();
    assert_eq!(sent(&mut rx), "NICK a\r\nNICK b\r\nNICK c\r\n");
    assert_eq!(client.current_nickname(), "c");
}

#[test]
fn refusals_count_whatever_else_is_received() {
    let value = ":s 433 * test :taken\r\n:x!x@x PRIVMSG test :hello\r\n\
                 :s 376 a :End of /MOTD command.\r\n:s 353 a = #c :a\r\n\
                 :s 433 * a :taken\r\n:s 432 * b :erroneous\r\n";
    let (mut client, mut rx) = connect(
        Config {
            alt_nicks: vec!["a".to_string(), "b".to_string()],
            channels: vec![],
            ..test_config()
        },
        value,
    );
    assert!(matches!(
        collect(&mut client),
        Err(StreamError::Client(Error::NoUsableNick))
    ));
    assert_eq!(sent(&mut rx), "NICK a\r\nNICK b\r\n");
    assert_eq!(client.current_nickname(), "b");
}

#[test]
fn without_ghosting_the_alternative_is_identified() {
    let value = ":s 433 * test :taken\r\n:s 376 test2 :End of /MOTD command.\r\n";
    let (mut client, mut rx) = connect(
        Config {
            nick_password: Some("password".to_string()),
            umodes: Some("+i-w".to_string()),
            channels: vec![],
            ..test_config()
        },
        value,
    );
    collect(&mut client).ok().unwrap();
    assert_eq!(
        sent(&mut rx),
        "NICK test2\r\nNICKSERV IDENTIFY password\r\nMODE test2 +i-w\r\n"
    );
}

#[test]
fn requests_in_a_channel_are_answered_there() {
    let value = ":a!b@c PRIVMSG #test :\u{001}ping 17 4\u{001}\r\n\
                 :a!b@c PRIVMSG test :\u{001}version\r\n\
                 :a!b@c PRIVMSG test :VERSION\r\n\
                 :server PRIVMSG test :\u{001}VERSION\u{001}\r\n\
                 :a!b@c PRIVMSG test :\u{001}CLIENTINFO\u{001}\r\n";
    let (mut client, mut rx) = connect(
        Config {
            version: Some("mine".to_string()),
            ..test_config()
        },
        value,
    );
    collect(&mut client).ok().unwrap();
    assert_eq!(
        sent(&mut rx),
        "NOTICE #test :\u{001}PING 17\u{001}\r\nNOTICE a :\u{001}VERSION mine\u{001}\r\n"
    );
}

#[test]
fn requests_are_not_answered_without_the_feature() {
    let features = Features {
        channel_lists: true,
        ctcp: false,
    };
    let value = ":a!b@c PRIVMSG test :\u{001}VERSION\u{001}\r\n";
    let (mut client, mut rx) = connect_with(test_config(), features, value);
    collect(&mut client).ok().unwrap();
    assert_eq!(sent(&mut rx), "");
}

#[test]
fn the_time_is_that_of_the_clock() {
    let value = ":a!b@c PRIVMSG test :\u{001}TIME\u{001}\r\n";
    let (mut client, mut rx) = connect(test_config(), value);
    collect(&mut client).ok().unwrap();
    let line = sent(&mut rx);
    let time = line
        .strip_prefix("NOTICE a :\u{001}TIME :")
        .unwrap()
        .strip_suffix("\u{001}\r\n")
        .unwrap();
    let read = chrono::DateTime::parse_from_rfc2822(time).unwrap();
    let age = chrono::Local::now().timestamp() - read.timestamp();
    assert!((0..60).contains(&age));
}

#[test]
fn pings_carry_the_time() {
    let (mut client, mut rx) = connect(test_config(), "");
    client.send_ctcp_ping_at("test", -12).unwrap();
    assert_eq!(sent(&mut rx), "PRIVMSG test :\u{001}PING -12\u{001}\r\n");
    client.send_ctcp_ping("test").unwrap();
    let line = sent(&mut rx);
    let seconds: i64 = line
        .strip_prefix("PRIVMSG test :\u{001}PING ")
        .unwrap()
        .strip_suffix("\u{001}\r\n")
        .unwrap()
        .parse()
        .unwrap();
    let age = chrono::Local::now().timestamp() - seconds;
    assert!((0..60).contains(&age));
}

#[test]
fn texts_are_sent_line_by_line() {
    let (mut client, mut rx) = connect(test_config(), "");
    client.send_privmsg("#a", "one\r\n\r\ntwo\n").unwrap();
    let mut lines = Vec::new();
    while let Ok(message) = rx.try_recv() {
        lines.push(message.write());
    }
    assert_eq!(
        lines,
        vec!["PRIVMSG #a one\r\n", "PRIVMSG #a :\r\n", "PRIVMSG #a two\n\r\n"]
    );
    client.sender().send_notice("#a", "1\r\n2").unwrap();
    assert_eq!(sent(&mut rx), "NOTICE #a 1\r\nNOTICE #a 2\r\n");
}

#[test]
fn capabilities_are_negotiated() {
    let (mut client, mut rx) = connect(test_config(), "");
    client.send_cap_ls(NegotiationVersion::V301).unwrap();
    client.send_cap_ls(NegotiationVersion::V302).unwrap();
    client
        .send_cap_req(&[Capability::MultiPrefix, Capability::ServerTime])
        .unwrap();
    client.send_sasl_plain().unwrap();
    client.send_sasl_external().unwrap();
    client.send_sasl("Zm9v").unwrap();
    client.send_sasl_abort().unwrap();
    assert_eq!(
        sent(&mut rx),
        "CAP LS\r\nCAP LS 302\r\nCAP REQ :multi-prefix server-time\r\n\
         AUTHENTICATE PLAIN\r\nAUTHENTICATE EXTERNAL\r\nAUTHENTICATE Zm9v\r\nAUTHENTICATE *\r\n"
    );
}

#[test]
fn quitting_says_why() {
    let (mut client, mut rx) = connect(test_config(), "");
    client.send_quit("").unwrap();
    client.send_quit("Gone.").unwrap();
    assert_eq!(sent(&mut rx), "QUIT :Powered by Rust.\r\nQUIT Gone.\r\n");
}

#[test]
fn users_who_quit_or_change_nickname_are_followed() {
    let value = ":s 353 test = #a :x y z\r\n:s 353 test = #b :y\r\n\
                 :x!x@x NICK w\r\n:y!y@y QUIT :bye\r\n:z!z@z MODE #a -o z\r\n";
    let (mut client, _rx) = connect(test_config(), value);
    collect(&mut client).ok().unwrap();
    assert_eq!(
        client.list_channels(),
        Some(vec!["#a".to_string(), "#b".to_string()])
    );
    assert_eq!(
        client.list_users("#a").unwrap(),
        vec![User::new("w"), User::new("z")]
    );
    assert_eq!(client.list_users("#b").unwrap(), vec![]);
    assert!(client.list_users("#c").is_none());
}

#[test]
fn leaving_undoes_joining() {
    let value = ":s 353 test = #a :x\r\n:y!y@y JOIN #a\r\n:y!y@y JOIN #unknown\r\n:y!y@y PART #a\r\n";
    let (mut client, _rx) = connect(test_config(), value);
    collect(&mut client).ok().unwrap();
    assert_eq!(client.list_users("#a").unwrap(), vec![User::new("x")]);
    assert_eq!(client.list_channels(), Some(vec!["#a".to_string()]));
}

#[test]
fn lists_of_names_have_four_arguments() {
    let value = ":s 353 test #a :x\r\n:s 353 test = #b :\r\n:s 353 test = #b :y @z\r\n";
    let (mut client, _rx) = connect(test_config(), value);
    collect(&mut client).ok().unwrap();
    assert_eq!(client.list_channels(), Some(vec!["#b".to_string()]));
    assert_eq!(
        client.list_users("#b").unwrap(),
        vec![User::new(""), User::new("y"), User::new("@z")]
    );
}

#[test]
fn texts_are_split_and_joined() {
    assert_eq!(text::split("a\r\nb\r\n", "\r\n"), vec!["a", "b", ""]);
    assert_eq!(text::split("", " "), vec![""]);
    assert_eq!(text::split("aaa", "aa"), vec!["", "a"]);
    let parts = text::split("x,y,,z", ",");
    assert_eq!(text::join(&parts, ","), "x,y,,z");
    assert!(text::same_ignoring_case("Finger", "FINGER"));
    assert!(!text::same_ignoring_case("finge", "FINGER"));
    assert!(!text::same_ignoring_case("[", "{"));
    assert_eq!(text::decimal_of(i64::MIN), "-9223372036854775808");
    assert_eq!(text::decimal_of(1024), "1024");
    assert_eq!(text::size("\u{e4}\u{1f600}"), 6);
}

#[test]
fn modes_raise_and_lower_users() {
    let value = ":s 353 test = #a :x\r\n:x!x@x MODE #a +v x\r\n:x!x@x MODE #a +o x\r\n\
                 :x!x@x MODE #a -v x\r\n:x!x@x MODE #a +o nobody\r\n:x!x@x MODE #b +o x\r\n";
    let (mut client, _rx) = connect(test_config(), value);
    collect(&mut client).ok().unwrap();
    let users = client.list_users("#a").unwrap();
    assert_eq!(
        users[0].highest_access_level(),
        User::new("@x").highest_access_level()
    );
    assert_eq!(
        users[0].access_levels(),
        vec![AccessLevel::Member, AccessLevel::Oper]
    );
}
