use irc_repartee::client::data::config::Config;
use irc_repartee::client::data::config::VERSION_STR;
use irc_repartee::client::data::user::User;
use irc_repartee::client::keys::ChannelKeys;
use irc_repartee::client::{Client, Features, StreamError};
use irc_repartee::proto::caps::CapSubCommand;
use irc_repartee::proto::command::Command;
use irc_repartee::proto::message::{Message, Prefix};
use irc_repartee::proto::mode::{ChannelMode, Mode, UserMode};
use irc_repartee::proto::response::Response;
use irc_repartee::error::Error;
use tokio::sync::mpsc::{unbounded_channel, UnboundedReceiver};

type TestClient = Client<Vec<Result<Message, String>>, ()>;

fn test_config() -> Config {
    Config {
        nickname: Some("test".to_string()),
        alt_nicks: vec!["test2".to_string()],
        channels: vec!["#test".to_string(), "#test2".to_string()],
        user_info: Some("Testing.".to_string()),
        flood_penalty_threshold: Some(0),
        ..Default::default()
    }
}

fn all_features() -> Features {
    Features {
        channel_lists: true,
        ctcp: true,
    }
}

/// Reads one line, as far as these tests need it.
fn read_line(line: &str) -> Message {
    let (prefix, rest) = match line.strip_prefix(':') {
        Some(s) => {
            let (from, rest) = s.split_once(' ').unwrap();
            let prefix = match from.split_once('!') {
                Some((nick, more)) => {
                    let (user, host) = more.split_once('@').unwrap();
                    Prefix::Nickname(nick.to_owned(), user.to_owned(), host.to_owned())
                }
                None => Prefix::ServerName(from.to_owned()),
            };
            (Some(prefix), rest)
        }
        None => (None, line),
    };
    let (head, last) = match rest.split_once(" :") {
        Some((head, last)) => (head, Some(last.to_owned())),
        None => (rest, None),
    };
    let mut words = head.split(' ').map(|w| w.to_owned());
    let word = words.next().unwrap();
    let mut args: Vec<String> = words.collect();
    args.extend(last);
    let command = match word.as_str() {
        "PRIVMSG" => Command::PRIVMSG(args[0].clone(), args[1].clone()),
        "JOIN" => Command::JOIN(args[0].clone(), None, None),
        "PART" => Command::PART(args[0].clone(), args.get(1).cloned()),
        "KICK" => Command::KICK(args[0].clone(), args[1].clone(), args.get(2).cloned()),
        "NICK" => Command::NICK(args[0].clone()),
        "QUIT" => Command::QUIT(args.first().cloned()),
        "CAP" => {
            let target = Some(args[0].clone());
            Command::CAP(target, CapSubCommand::LS, None, Some(args[2].clone()))
        }
        "MODE" => {
            let mode = match &args[1][1..] {
                "o" => ChannelMode::Oper,
                "v" => ChannelMode::Voice,
                _ => panic!("mode"),
            };
            let who = args.get(2).cloned();
            let mode = if args[1].starts_with('+') {
                Mode::Plus(mode, who)
            } else {
                Mode::Minus(mode, who)
            };
            Command::ChannelMODE(args[0].clone(), vec![mode])
        }
        number => Command::Response(Response::from_number(number.parse().unwrap()), args),
    };
    Message { prefix, command }
}

/// A client to which the lines of `value` arrive.
fn connect(config: Config, value: &str) -> (TestClient, UnboundedReceiver<Message>) {
    connect_with(config, all_features(), value)
}

fn connect_with(
    config: Config,
    features: Features,
    value: &str,
) -> (TestClient, UnboundedReceiver<Message>) {
    let (tx, rx) = unbounded_channel();
    let incoming = value
        .split_terminator("\r\n")
        .map(|line| Ok(read_line(line)))
        .collect();
    (Client::from_config(config, features, tx, incoming), rx)
}

/// Has the client answer everything that arrives.
fn collect(client: &mut TestClient) -> Result<Vec<Message>, StreamError<String>> {
    let (stream, _) = client.stream().unwrap();
    stream.collect(client)
}

/// A line as it goes out: nothing behind its first line break is sent.
fn sanitize(mut line: String) -> String {
    let first = ["\r\n", "\r", "\n"]
        .iter()
        .flat_map(|end| line.find(end).map(|pos| (pos, end.len())))
        .min_by_key(|&(pos, _)| pos);
    if let Some((pos, len)) = first {
        line.truncate(pos + len);
    }
    line
}

/// Everything that the client has queued, as it goes out.
fn sent(rx: &mut UnboundedReceiver<Message>) -> String {
    let mut all = String::new();
    while let Ok(message) = rx.try_recv() {
        all.push_str(&sanitize(message.write()));
    }
    all
}

#[test]
fn stream() {
    let exp = "PRIVMSG test :Hi!\r\nPRIVMSG test :This is a test!\r\n\
               :test!test@test JOIN #test\r\n";
    let (mut client, _rx) = connect(test_config(), exp);
    let messages = collect(&mut client).ok().unwrap();
    let lines: String = messages.iter().map(|m| m.write()).collect();
    assert_eq!(
        lines,
        "PRIVMSG test Hi!\r\nPRIVMSG test :This is a test!\r\n:test!test@test JOIN #test\r\n"
    );
}

#[test]
fn handle_message() {
    let (mut client, mut rx) = connect(
        test_config(),
        ":irc.test.net 376 test :End of /MOTD command.\r\n",
    );
    collect(&mut client).ok().unwrap();
    assert_eq!(sent(&mut rx), "JOIN #test,#test2\r\n");
}

#[test]
fn handle_end_motd_with_nick_password() {
    let (mut client, mut rx) = connect(
        Config {
            nick_password: Some("password".to_string()),
            channels: vec!["#test".to_string(), "#test2".to_string()],
            ..test_config()
        },
        ":irc.test.net 376 test :End of /MOTD command.\r\n",
    );
    collect(&mut client).ok().unwrap();
    assert_eq!(sent(&mut rx), "NICKSERV IDENTIFY password\r\nJOIN #test,#test2\r\n");
}

#[test]
fn handle_end_motd_with_chan_keys() {
    let mut keys = ChannelKeys::new();
    keys.insert("#test2".to_string(), "password".to_string());
    let (mut client, mut rx) = connect(
        Config {
            nickname: Some("test".to_string()),
            channels: vec!["#test".to_string(), "#test2".to_string()],
            channel_keys: keys,
            ..test_config()
        },
        ":irc.test.net 376 test :End of /MOTD command\r\n",
    );
    collect(&mut client).ok().unwrap();
    assert_eq!(sent(&mut rx), "JOIN #test2,#test password\r\n");
}

#[test]
fn handle_end_motd_with_ghost() {
    let (mut client, mut rx) = connect(
        Config {
            nickname: Some("test".to_string()),
            alt_nicks: vec!["test2".to_string()],
            nick_password: Some("password".to_string()),
            channels: vec!["#test".to_string(), "#test2".to_string()],
            should_ghost: true,
            ..test_config()
        },
        ":irc.test.net 433 * test :Nickname is already in use.\r\n\
         :irc.test.net 376 test2 :End of /MOTD command.\r\n",
    );
    collect(&mut client).ok().unwrap();
    assert_eq!(sent(&mut rx), "NICK test2\r\nNICKSERV GHOST test password\r\n\
         NICK test\r\nNICKSERV IDENTIFY password\r\nJOIN #test,#test2\r\n");
}

#[test]
fn handle_end_motd_with_ghost_seq() {
    let (mut client, mut rx) = connect(
        Config {
            nickname: Some("test".to_string()),
            alt_nicks: vec!["test2".to_string()],
            nick_password: Some("password".to_string()),
            channels: vec!["#test".to_string(), "#test2".to_string()],
            should_ghost: true,
            ghost_sequence: Some(vec!["RECOVER".to_string(), "RELEASE".to_string()]),
            ..test_config()
        },
        ":irc.test.net 433 * test :Nickname is already in use.\r\n\
         :irc.test.net 376 test2 :End of /MOTD command.\r\n",
    );
    collect(&mut client).ok().unwrap();
    assert_eq!(sent(&mut rx), "NICK test2\r\nNICKSERV RECOVER test password\
         \r\nNICKSERV RELEASE test password\r\nNICK test\r\nNICKSERV IDENTIFY password\
         \r\nJOIN #test,#test2\r\n");
}

#[test]
fn handle_end_motd_with_umodes() {
    let (mut client, mut rx) = connect(
        Config {
            nickname: Some("test".to_string()),
            umodes: Some("+B".to_string()),
            channels: vec!["#test".to_string(), "#test2".to_string()],
            ..test_config()
        },
        ":irc.test.net 376 test :End of /MOTD command.\r\n",
    );
    collect(&mut client).ok().unwrap();
    assert_eq!(sent(&mut rx), "MODE test +B\r\nJOIN #test,#test2\r\n");
}

#[test]
fn nickname_in_use() {
    let (mut client, mut rx) = connect(
        test_config(),
        ":irc.test.net 433 * test :Nickname is already in use.\r\n",
    );
    collect(&mut client).ok().unwrap();
    assert_eq!(sent(&mut rx), "NICK test2\r\n");
}

#[test]
fn ran_out_of_nicknames() {
    let value = ":irc.test.net 433 * test :Nickname is already in use.\r\n\
                 :irc.test.net 433 * test2 :Nickname is already in use.\r\n";
    let (mut client, _rx) = connect(test_config(), value);
    let res = collect(&mut client);
    if let Err(StreamError::Client(Error::NoUsableNick)) = res {
    } else {
        panic!("expected error when no valid nicks were specified")
    }
}

#[test]
fn send() {
    let (mut client, mut rx) = connect(test_config(), "");
    assert!(client
        .send(Command::PRIVMSG("#test".to_string(), "Hi there!".to_string()))
        .is_ok());
    collect(&mut client).ok().unwrap();
    assert_eq!(sent(&mut rx), "PRIVMSG #test :Hi there!\r\n");
}

#[test]
fn send_no_newline_injection() {
    let (mut client, mut rx) = connect(test_config(), "");
    assert!(client
        .send(Command::PRIVMSG(
            "#test".to_string(),
            "Hi there!\r\nJOIN #bad".to_string()
        ))
        .is_ok());
    collect(&mut client).ok().unwrap();
    assert_eq!(sent(&mut rx), "PRIVMSG #test :Hi there!\r\n");
}

#[test]
fn send_raw_is_really_raw() {
    let (mut client, mut rx) = connect(test_config(), "");
    assert!(client
        .send(Command::Raw("PASS".to_owned(), vec!["password".to_owned()]))
        .is_ok());
    assert!(client
        .send(Command::Raw("NICK".to_owned(), vec!["test".to_owned()]))
        .is_ok());
    collect(&mut client).ok().unwrap();
    assert_eq!(sent(&mut rx), "PASS password\r\nNICK test\r\n");
}

#[test]
fn channel_tracking_names() {
    let value = ":irc.test.net 353 test = #test :test ~owner &admin\r\n";
    let (mut client, _rx) = connect(test_config(), value);
    collect(&mut client).ok().unwrap();
    assert_eq!(client.list_channels().unwrap(), vec!["#test".to_owned()]);
}

#[test]
fn channel_tracking_names_part() {
    let value = ":irc.test.net 353 test = #test :test ~owner &admin\r\n";
    let (mut client, rx) = connect(test_config(), value);
    collect(&mut client).ok().unwrap();
    assert_eq!(client.list_channels(), Some(vec!["#test".to_owned()]));
    // The channel is forgotten even where the queue takes no message any more.
    drop(rx);
    let r = client.send(Command::PART("#test".to_string(), None));
    assert_eq!(r, Err(Error::AsyncChannelClosed));
    assert_eq!(client.list_channels(), Some(vec![]));
}

#[test]
fn user_tracking_names() {
    let value = ":irc.test.net 353 test = #test :test ~owner &admin\r\n";
    let (mut client, _rx) = connect(test_config(), value);
    collect(&mut client).ok().unwrap();
    assert_eq!(
        client.list_users("#test").unwrap(),
        vec![User::new("test"), User::new("~owner"), User::new("&admin")]
    );
}

#[test]
fn user_tracking_names_join() {
    let value = ":irc.test.net 353 test = #test :test ~owner &admin\r\n\
                 :test2!test@test JOIN #test\r\n";
    let (mut client, _rx) = connect(test_config(), value);
    collect(&mut client).ok().unwrap();
    assert_eq!(
        client.list_users("#test").unwrap(),
        vec![
            User::new("test"),
            User::new("~owner"),
            User::new("&admin"),
            User::new("test2"),
        ]
    );
}

#[test]
fn user_tracking_names_kick() {
    let value = ":irc.test.net 353 test = #test :test ~owner &admin\r\n\
                 :owner!test@test KICK #test test\r\n";
    let (mut client, _rx) = connect(test_config(), value);
    collect(&mut client).ok().unwrap();
    assert_eq!(
        client.list_users("#test").unwrap(),
        vec![User::new("&admin"), User::new("~owner"),]
    );
}

#[test]
fn user_tracking_names_part() {
    let value = ":irc.test.net 353 test = #test :test ~owner &admin\r\n\
                 :owner!test@test PART #test\r\n";
    let (mut client, _rx) = connect(test_config(), value);
    collect(&mut client).ok().unwrap();
    assert_eq!(
        client.list_users("#test").unwrap(),
        vec![User::new("test"), User::new("&admin")]
    );
}

#[test]
fn user_tracking_names_mode() {
    let value = ":irc.test.net 353 test = #test :+test ~owner &admin\r\n\
                 :test!test@test MODE #test +o test\r\n";
    let (mut client, _rx) = connect(test_config(), value);
    collect(&mut client).ok().unwrap();
    assert_eq!(
        client.list_users("#test").unwrap(),
        vec![User::new("@test"), User::new("~owner"), User::new("&admin")]
    );
    let mut exp = User::new("@test");
    exp.update_access_level(&Mode::Plus(ChannelMode::Voice, None));
    assert_eq!(
        client.list_users("#test").unwrap()[0].highest_access_level(),
        exp.highest_access_level()
    );
    // The same levels, in whatever order.
    let mut levels = client.list_users("#test").unwrap()[0].access_levels();
    levels.retain(|l| exp.access_levels().contains(l));
    assert_eq!(levels.len(), exp.access_levels().len());
}

#[test]
fn no_user_tracking() {
    let value = ":irc.test.net 353 test = #test :test ~owner &admin\r\n";
    let features = Features {
        channel_lists: false,
        ctcp: true,
    };
    let (mut client, _rx) = connect_with(test_config(), features, value);
    collect(&mut client).ok().unwrap();
    assert!(client.list_users("#test").is_none());
    assert!(client.list_channels().is_none());
}

#[test]
fn handle_single_soh() {
    let value = ":test!test@test PRIVMSG #test :\u{001}\r\n";
    let (mut client, mut rx) = connect(
        Config {
            nickname: Some("test".to_string()),
            channels: vec!["#test".to_string(), "#test2".to_string()],
            ..test_config()
        },
        value,
    );
    collect(&mut client).ok().unwrap();
    assert_eq!(sent(&mut rx), "");
}

#[test]
fn finger_response() {
    let (mut client, mut rx) = connect(
        test_config(),
        ":test!test@test PRIVMSG test :\u{001}FINGER\u{001}\r\n",
    );
    collect(&mut client).ok().unwrap();
    assert_eq!(sent(&mut rx), "NOTICE test :\u{001}FINGER :test (test)\u{001}\r\n");
}

#[test]
fn version_response() {
    let value = ":test!test@test PRIVMSG test :\u{001}VERSION\u{001}\r\n";
    let (mut client, mut rx) = connect(test_config(), value);
    collect(&mut client).ok().unwrap();
    assert_eq!(
        sent(&mut rx),
        format!("NOTICE test :\u{001}VERSION {}\u{001}\r\n", VERSION_STR)
    );
}

#[test]
fn source_response() {
    let (mut client, mut rx) = connect(
        test_config(),
        ":test!test@test PRIVMSG test :\u{001}SOURCE\u{001}\r\n",
    );
    collect(&mut client).ok().unwrap();
    assert_eq!(sent(&mut rx), "NOTICE test :\u{001}SOURCE https://github.com/aatxe/irc\u{001}\r\n");
}

#[test]
fn ctcp_ping_response() {
    let (mut client, mut rx) = connect(
        test_config(),
        ":test!test@test PRIVMSG test :\u{001}PING test\u{001}\r\n",
    );
    collect(&mut client).ok().unwrap();
    assert_eq!(sent(&mut rx), "NOTICE test :\u{001}PING test\u{001}\r\n");
}

#[test]
fn time_response() {
    let value = ":test!test@test PRIVMSG test :\u{001}TIME\u{001}\r\n";
    let (mut client, mut rx) = connect(test_config(), value);
    collect(&mut client).ok().unwrap();
    let val = sent(&mut rx);
    assert!(val.starts_with("NOTICE test :\u{001}TIME :"));
    assert!(val.ends_with("\u{001}\r\n"));
}

#[test]
fn user_info_response() {
    let (mut client, mut rx) = connect(
        test_config(),
        ":test!test@test PRIVMSG test :\u{001}USERINFO\u{001}\r\n",
    );
    collect(&mut client).ok().unwrap();
    assert_eq!(sent(&mut rx), "NOTICE test :\u{001}USERINFO :Testing.\u{001}\r\n");
}

#[test]
fn ctcp_ping_no_timestamp() {
    let (mut client, mut rx) = connect(
        test_config(),
        ":test!test@test PRIVMSG test \u{001}PING\u{001}\r\n",
    );
    collect(&mut client).ok().unwrap();
    assert_eq!(sent(&mut rx), "");
}

#[test]
fn identify() {
    let (mut client, mut rx) = connect(test_config(), "");
    client.identify().unwrap();
    collect(&mut client).ok().unwrap();
    assert_eq!(sent(&mut rx), "CAP END\r\nNICK test\r\nUSER test 0 * test\r\n");
}

#[test]
fn identify_with_password() {
    let (mut client, mut rx) = connect(
        Config {
            nickname: Some("test".to_string()),
            password: Some("password".to_string()),
            ..test_config()
        },
        "",
    );
    client.identify().unwrap();
    collect(&mut client).ok().unwrap();
    assert_eq!(
        sent(&mut rx),
        "CAP END\r\nPASS password\r\nNICK test\r\nUSER test 0 * test\r\n"
    );
}

#[test]
fn send_pong() {
    let (mut client, mut rx) = connect(test_config(), "");
    client.send_pong("irc.test.net").unwrap();
    collect(&mut client).ok().unwrap();
    assert_eq!(sent(&mut rx), "PONG irc.test.net\r\n");
}

#[test]
fn send_join() {
    let (mut client, mut rx) = connect(test_config(), "");
    client.send_join("#test,#test2,#test3").unwrap();
    collect(&mut client).ok().unwrap();
    assert_eq!(sent(&mut rx), "JOIN #test,#test2,#test3\r\n");
}

#[test]
fn send_part() {
    let (mut client, mut rx) = connect(test_config(), "");
    client.send_part("#test").unwrap();
    collect(&mut client).ok().unwrap();
    assert_eq!(sent(&mut rx), "PART #test\r\n");
}

#[test]
fn send_oper() {
    let (mut client, mut rx) = connect(test_config(), "");
    client.send_oper("test", "test").unwrap();
    collect(&mut client).ok().unwrap();
    assert_eq!(sent(&mut rx), "OPER test test\r\n");
}

#[test]
fn send_privmsg() {
    let (mut client, mut rx) = connect(test_config(), "");
    client.send_privmsg("#test", "Hi, everybody!").unwrap();
    collect(&mut client).ok().unwrap();
    assert_eq!(sent(&mut rx), "PRIVMSG #test :Hi, everybody!\r\n");
}

#[test]
fn send_notice() {
    let (mut client, mut rx) = connect(test_config(), "");
    client.send_notice("#test", "Hi, everybody!").unwrap();
    collect(&mut client).ok().unwrap();
    assert_eq!(sent(&mut rx), "NOTICE #test :Hi, everybody!\r\n");
}

#[test]
fn send_topic_no_topic() {
    let (mut client, mut rx) = connect(test_config(), "");
    client.send_topic("#test", "").unwrap();
    collect(&mut client).ok().unwrap();
    assert_eq!(sent(&mut rx), "TOPIC #test\r\n");
}

#[test]
fn send_topic() {
    let (mut client, mut rx) = connect(test_config(), "");
    client.send_topic("#test", "Testing stuff.").unwrap();
    collect(&mut client).ok().unwrap();
    assert_eq!(sent(&mut rx), "TOPIC #test :Testing stuff.\r\n");
}

#[test]
fn send_kill() {
    let (mut client, mut rx) = connect(test_config(), "");
    client.send_kill("test", "Testing kills.").unwrap();
    collect(&mut client).ok().unwrap();
    assert_eq!(sent(&mut rx), "KILL test :Testing kills.\r\n");
}

#[test]
fn send_kick_no_message() {
    let (mut client, mut rx) = connect(test_config(), "");
    client.send_kick("#test", "test", "").unwrap();
    collect(&mut client).ok().unwrap();
    assert_eq!(sent(&mut rx), "KICK #test test\r\n");
}

#[test]
fn send_kick() {
    let (mut client, mut rx) = connect(test_config(), "");
    client.send_kick("#test", "test", "Testing kicks.").unwrap();
    collect(&mut client).ok().unwrap();
    assert_eq!(sent(&mut rx), "KICK #test test :Testing kicks.\r\n");
}

#[test]
fn send_mode_no_modeparams() {
    let (mut client, mut rx) = connect(test_config(), "");
    client
        .send_mode("#test", &[Mode::Plus(ChannelMode::InviteOnly, None)])
        .unwrap();
    collect(&mut client).ok().unwrap();
    assert_eq!(sent(&mut rx), "MODE #test +i\r\n");
}

#[test]
fn send_mode() {
    let (mut client, mut rx) = connect(test_config(), "");
    client
        .send_mode(
            "#test",
            &[
                Mode::Plus(ChannelMode::Oper, Some("test".to_owned())),
                Mode::Minus(ChannelMode::Oper, Some("test2".to_owned())),
            ],
        )
        .unwrap();
    collect(&mut client).ok().unwrap();
    assert_eq!(sent(&mut rx), "MODE #test +o-o test test2\r\n");
}

#[test]
fn send_umode() {
    let (mut client, mut rx) = connect(test_config(), "");
    client
        .send_mode(
            "test",
            &[
                Mode::Plus(UserMode::Invisible, None),
                Mode::Plus(UserMode::MaskedHost, None),
            ],
        )
        .unwrap();
    collect(&mut client).ok().unwrap();
    assert_eq!(sent(&mut rx), "MODE test +i+x\r\n");
}

#[test]
fn send_samode_no_modeparams() {
    let (mut client, mut rx) = connect(test_config(), "");
    client.send_samode("#test", "+i", "").unwrap();
    collect(&mut client).ok().unwrap();
    assert_eq!(sent(&mut rx), "SAMODE #test +i\r\n");
}

#[test]
fn send_samode() {
    let (mut client, mut rx) = connect(test_config(), "");
    client.send_samode("#test", "+o", "test").unwrap();
    collect(&mut client).ok().unwrap();
    assert_eq!(sent(&mut rx), "SAMODE #test +o test\r\n");
}

#[test]
fn send_sanick() {
    let (mut client, mut rx) = connect(test_config(), "");
    client.send_sanick("test", "test2").unwrap();
    collect(&mut client).ok().unwrap();
    assert_eq!(sent(&mut rx), "SANICK test test2\r\n");
}

#[test]
fn send_invite() {
    let (mut client, mut rx) = connect(test_config(), "");
    client.send_invite("test", "#test").unwrap();
    collect(&mut client).ok().unwrap();
    assert_eq!(sent(&mut rx), "INVITE test #test\r\n");
}

#[test]
fn send_ctcp() {
    let (mut client, mut rx) = connect(test_config(), "");
    client
        .send_ctcp("test", "LINE1\r\nLINE2\r\nLINE3")
        .unwrap();
    collect(&mut client).ok().unwrap();
    assert_eq!(sent(&mut rx), "PRIVMSG test \u{001}LINE1\u{001}\r\nPRIVMSG test \u{001}LINE2\u{001}\r\nPRIVMSG test \u{001}LINE3\u{001}\r\n");
}

#[test]
fn send_action() {
    let (mut client, mut rx) = connect(test_config(), "");
    client.send_action("test", "tests.").unwrap();
    collect(&mut client).ok().unwrap();
    assert_eq!(sent(&mut rx), "PRIVMSG test :\u{001}ACTION tests.\u{001}\r\n");
}

#[test]
fn send_finger() {
    let (mut client, mut rx) = connect(test_config(), "");
    client.send_finger("test").unwrap();
    collect(&mut client).ok().unwrap();
    assert_eq!(sent(&mut rx), "PRIVMSG test \u{001}FINGER\u{001}\r\n");
}

#[test]
fn send_version() {
    let (mut client, mut rx) = connect(test_config(), "");
    client.send_version("test").unwrap();
    collect(&mut client).ok().unwrap();
    assert_eq!(sent(&mut rx), "PRIVMSG test \u{001}VERSION\u{001}\r\n");
}

#[test]
fn send_source() {
    let (mut client, mut rx) = connect(test_config(), "");
    client.send_source("test").unwrap();
    collect(&mut client).ok().unwrap();
    assert_eq!(sent(&mut rx), "PRIVMSG test \u{001}SOURCE\u{001}\r\n");
}

#[test]
fn send_user_info() {
    let (mut client, mut rx) = connect(test_config(), "");
    client.send_user_info("test").unwrap();
    collect(&mut client).ok().unwrap();
    assert_eq!(sent(&mut rx), "PRIVMSG test \u{001}USERINFO\u{001}\r\n");
}

#[test]
fn send_time() {
    let (mut client, mut rx) = connect(test_config(), "");
    client.send_time("test").unwrap();
    collect(&mut client).ok().unwrap();
    assert_eq!(sent(&mut rx), "PRIVMSG test \u{001}TIME\u{001}\r\n");
}

#[test]
fn send_ctcp_ping() {
    let (mut client, mut rx) = connect(test_config(), "");
    client.send_ctcp_ping("test").unwrap();
    collect(&mut client).ok().unwrap();
    let val = sent(&mut rx);
    println!("{}", val);
    assert!(val.starts_with("PRIVMSG test :\u{001}PING "));
    assert!(val.ends_with("\u{001}\r\n"));
}
