use irc_repartee::client::data::config::Config;
use irc_repartee::client::keys::ChannelKeys;
use irc_repartee::client::{Client, ClientStream, Features, StreamError};
use irc_repartee::proto::caps::CapSubCommand;
use irc_repartee::proto::command::Command;
use irc_repartee::proto::message::{Message, Prefix};
use irc_repartee::proto::mode::{ChannelMode, Mode};
use irc_repartee::proto::response::Response;
use tokio::sync::mpsc::{unbounded_channel, UnboundedReceiver};

type TestClient = Client<Vec<Result<Message, String>>, ()>;

fn test_config() -> Config {
    Config {
        nickname: Some("test".to_string()),
        alt_nicks: vec!["test2".to_string()],
        channels: vec!["#test".to_string(), "#test2".to_string()],
        user_info: Some("Testing.".to_string()),
        flood_penalty_threshold: Some(0),
        ..Default::default()
    }
}

fn all_features() -> Features {
    Features {
        channel_lists: true,
        ctcp: true,
    }
}

/// Reads one line, as far as these tests need it.
fn read_line(line: &str) -> Message {
    let (prefix, rest) = match line.strip_prefix(':') {
        Some(s) => {
            let (from, rest) = s.split_once(' ').unwrap();
            let prefix = match from.split_once('!') {
                Some((nick, more)) => {
                    let (user, host) = more.split_once('@').unwrap();
                    Prefix::Nickname(nick.to_owned(), user.to_owned(), host.to_owned())
                }
                None => Prefix::ServerName(from.to_owned()),
            };
            (Some(prefix), rest)
        }
        None => (None, line),
    };
    let (head, last) = match rest.split_once(" :") {
        Some((head, last)) => (head, Some(last.to_owned())),
        None => (rest, None),
    };
    let mut words = head.split(' ').map(|w| w.to_owned());
    let word = words.next().unwrap();
    let mut args: Vec<String> = words.collect();
    args.extend(last);
    let command = match word.as_str() {
        "PRIVMSG" => Command::PRIVMSG(args[0].clone(), args[1].clone()),
        "JOIN" => Command::JOIN(args[0].clone(), None, None),
        "PART" => Command::PART(args[0].clone(), args.get(1).cloned()),
        "KICK" => Command::KICK(args[0].clone(), args[1].clone(), args.get(2).cloned()),
        "NICK" => Command::NICK(args[0].clone()),
        "QUIT" => Command::QUIT(args.first().cloned()),
        "CAP" => {
            let target = Some(args[0].clone());
            Command::CAP(target, CapSubCommand::LS, None, Some(args[2].clone()))
        }
        "MODE" => {
            let mode = match &args[1][1..] {
                "o" => ChannelMode::Oper,
                "v" => ChannelMode::Voice,
                _ => panic!("mode"),
            };
            let who = args.get(2).cloned();
            let mode = if args[1].starts_with('+') {
                Mode::Plus(mode, who)
            } else {
                Mode::Minus(mode, who)
            };
            Command::ChannelMODE(args[0].clone(), vec![mode])
        }
        number => Command::Response(Response::from_number(number.parse().unwrap()), args),
    };
    Message { prefix, command }
}

/// A client to which the lines of `value` arrive.
fn connect(config: Config, value: &str) -> (TestClient, UnboundedReceiver<Message>) {
    connect_with(config, all_features(), value)
}

fn connect_with(
    config: Config,
    features: Features,
    value: &str,
) -> (TestClient, UnboundedReceiver<Message>) {
    let (tx, rx) = unbounded_channel();
    let incoming = value
        .split_terminator("\r\n")
        .map(|line| Ok(read_line(line)))
        .collect();
    (Client::from_config(config, features, tx, incoming), rx)
}

/// Has the client answer everything that arrives.
fn collect(client: &mut TestClient) -> Result<Vec<Message>, StreamError<String>> {
    let (stream, _) = client.stream().unwrap();
    stream.collect(client)
}

/// A line as it goes out: nothing behind its first line break is sent.
fn sanitize(mut line: String) -> String {
    let first = ["\r\n", "\r", "\n"]
        .iter()
        .flat_map(|end| line.find(end).map(|pos| (pos, end.len())))
        .min_by_key(|&(pos, _)| pos);
    if let Some((pos, len)) = first {
        line.truncate(pos + len);
    }
    line
}

/// Everything that the client has queued, as it goes out.
fn sent(rx: &mut UnboundedReceiver<Message>) -> String {
    let mut all = String::new();
    while let Ok(message) = rx.try_recv() {
        all.push_str(&sanitize(message.write()));
    }
    all
}

/// Has the client answer the next message that arrives.
fn next(client: &mut TestClient, incoming: &mut Vec<Message>) -> Message {
    let item: Option<Result<Message, String>> = Some(Ok(incoming.remove(0)));
    match ClientStream::<()>::poll_next(client, item) {
        Some(Ok(message)) => message,
        _ => panic!("no message"),
    }
}

fn arriving(value: &str) -> Vec<Message> {
    value.split_terminator("\r\n").map(read_line).collect()
}

#[test]
fn capability_discovery_can_disable_configured_and_remembered_joins() {
    for ending in ["376 test :End of MOTD", "422 test :No MOTD"] {
        let mut keys = ChannelKeys::new();
        keys.insert("#test2".into(), "disposable-key".into());
        let (mut client, mut rx) = connect(
            Config {
                nick_password: Some("disposable-secret".into()),
                umodes: Some("+i".into()),
                channel_keys: keys,
                ..test_config()
            },
            "",
        );
        let mut incoming = arriving(&format!(
            ":server CAP * LS :soju.im/bouncer-networks\r\n:test!user@host JOIN #remembered\r\n:server 353 test = #remembered :test\r\n:server {ending}\r\n"
        ));
        assert!(matches!(
            next(&mut client, &mut incoming).command,
            Command::CAP(_, CapSubCommand::LS, _, _)
        ));
        client.sender().set_autojoin_enabled(false);
        next(&mut client, &mut incoming);
        next(&mut client, &mut incoming);
        assert!(client
            .list_channels()
            .unwrap()
            .contains(&"#remembered".to_string()));
        client.sender().send_join("#manual").unwrap();
        while !incoming.is_empty() {
            next(&mut client, &mut incoming);
        }
        assert_eq!(
            sent(&mut rx),
            "JOIN #manual\r\nNICKSERV IDENTIFY disposable-secret\r\nMODE test +i\r\n"
        );
    }
}

#[test]
fn reenabling_applies_at_the_next_motd_without_changing_other_connections() {
    let (mut client, mut rx) = connect(test_config(), "");
    let (mut other, mut other_rx) = connect(test_config(), ":server 376 test :End of MOTD\r\n");
    let mut incoming =
        arriving(":server 422 test :No MOTD\r\n:server 376 test :End of MOTD\r\n");
    client.sender().set_autojoin_enabled(false);
    next(&mut client, &mut incoming);
    client.sender().set_autojoin_enabled(true);
    assert_eq!(sent(&mut rx), "");
    next(&mut client, &mut incoming);
    collect(&mut other).ok().unwrap();
    assert_eq!(sent(&mut rx), "JOIN #test,#test2\r\n");
    assert_eq!(sent(&mut other_rx), "JOIN #test,#test2\r\n");
}

#[test]
fn remembered_channels_are_joined_again() {
    let value = ":server 353 test = #kept :test\r\n:server 353 test = #test :test\r\n\
                 :server 353 test = #left :test\r\n";
    let (mut client, mut rx) = connect(test_config(), value);
    collect(&mut client).ok().unwrap();
    client.send_part("#left").unwrap();
    assert_eq!(sent(&mut rx), "PART #left\r\n");
    let mut incoming = arriving(":server 376 test :End of MOTD\r\n");
    next(&mut client, &mut incoming);
    assert_eq!(sent(&mut rx), "JOIN #test,#test2\r\nJOIN #kept\r\n");
}

#[test]
fn joins_with_keys_stay_available_while_autojoin_is_off() {
    let (mut client, mut rx) = connect(test_config(), ":server 376 test :End of MOTD\r\n");
    assert!(client.sender().autojoin_enabled());
    client.sender().set_autojoin_enabled(false);
    assert!(!client.sender().autojoin_enabled());
    client.send_join_with_keys("#a,#b", "k").unwrap();
    client.sender().send_join_with_keys("#c", "l").unwrap();
    collect(&mut client).ok().unwrap();
    assert_eq!(sent(&mut rx), "JOIN #a,#b k\r\nJOIN #c l\r\n");
}

#[test]
fn switching_off_keeps_what_is_queued() {
    let (mut client, mut rx) = connect(test_config(), ":server 376 test :End of MOTD\r\n");
    collect(&mut client).ok().unwrap();
    client.sender().set_autojoin_enabled(false);
    assert_eq!(sent(&mut rx), "JOIN #test,#test2\r\n");
}
