use irc_repartee::client::keys::ChannelKeys;
use irc_repartee::client::ClientState;

#[test]
fn batch_joins_all_keyless() {
    let chans: Vec<String> = vec!["#a".into(), "#b".into(), "#c".into()];
    let keys = ChannelKeys::new();
    let batches = ClientState::build_batched_joins(&chans, &keys);
    assert_eq!(batches.len(), 1);
    assert_eq!(batches[0].0, "#a,#b,#c");
    assert!(batches[0].1.is_none());
}

#[test]
fn batch_joins_keyed_first() {
    let chans: Vec<String> = vec!["#plain".into(), "#secret".into(), "#open".into()];
    let mut keys = ChannelKeys::new();
    keys.insert("#secret".to_string(), "pass".to_string());
    let batches = ClientState::build_batched_joins(&chans, &keys);
    assert_eq!(batches.len(), 1);
    assert_eq!(batches[0].0, "#secret,#plain,#open");
    assert_eq!(batches[0].1.as_deref(), Some("pass"));
}

#[test]
fn batch_joins_multiple_keys() {
    let chans: Vec<String> = vec!["#a".into(), "#b".into(), "#c".into(), "#d".into()];
    let mut keys = ChannelKeys::new();
    keys.insert("#b".to_string(), "kb".to_string());
    keys.insert("#d".to_string(), "kd".to_string());
    let batches = ClientState::build_batched_joins(&chans, &keys);
    assert_eq!(batches.len(), 1);
    // Those with a key first, in the order in which they are listed.
    assert_eq!(batches[0].0, "#b,#d,#a,#c");
    assert_eq!(batches[0].1.as_deref(), Some("kb,kd"));
}

#[test]
fn batch_joins_empty() {
    let chans: Vec<String> = Vec::new();
    let keys = ChannelKeys::new();
    let batches = ClientState::build_batched_joins(&chans, &keys);
    assert!(batches.is_empty());
}

#[test]
fn batch_joins_respects_line_limit() {
    let chans: Vec<String> = (0..15)
        .map(|i| format!("#channel-with-a-long-name-for-testing-{:02}", i))
        .collect();
    let keys = ChannelKeys::new();
    let batches = ClientState::build_batched_joins(&chans, &keys);
    assert!(batches.len() > 1, "should split into multiple batches");
    for (chanlist, keylist) in &batches {
        let line_len = 5 + chanlist.len() + 2;
        assert!(line_len <= 512, "batch line too long: {} bytes", line_len);
        assert!(keylist.is_none());
    }
    let all_chans: Vec<&str> = batches.iter().flat_map(|(cl, _)| cl.split(',')).collect();
    assert_eq!(all_chans.len(), 15);
}

#[test]
fn batch_joins_keyed_with_line_limit() {
    let chans: Vec<String> = (0..15)
        .map(|i| format!("#keyed-channel-long-name-{:02}", i))
        .collect();
    let mut keys = ChannelKeys::new();
    for c in &chans {
        keys.insert(c.clone(), "a-somewhat-long-key-value".to_string());
    }
    let batches = ClientState::build_batched_joins(&chans, &keys);
    assert!(batches.len() > 1, "should split into multiple batches");
    for (chanlist, keylist) in &batches {
        let kl = keylist.as_ref().expect("all keyed");
        let line_len: usize = 5 + chanlist.len() + 1 + kl.len() + 2;
        assert!(line_len <= 512, "batch line too long: {} bytes", line_len);
    }
}

#[test]
fn a_full_line_is_filled_to_the_last_byte() {
    // 252 + 1 + 252 bytes are 505: they fit one line; one byte more does not.
    let a = format!("#{}", "a".repeat(251));
    let b = format!("#{}", "b".repeat(251));
    let keys = ChannelKeys::new();
    let one = ClientState::build_batched_joins(&[a.clone(), b.clone()], &keys);
    assert_eq!(one.len(), 1);
    assert_eq!(one[0].0.len(), 505);
    let two = ClientState::build_batched_joins(&[a.clone(), format!("{}b", b)], &keys);
    assert_eq!(two.len(), 2);
    assert_eq!(two[0].0, a);
}

#[test]
fn keyless_channels_fill_up_the_last_keyed_line() {
    let mut keys = ChannelKeys::new();
    keys.insert("#k".to_string(), "x".repeat(490));
    // "#k" and the key take 493 bytes, so that twelve more are left.
    let chans = vec!["#p".to_string(), "#k".to_string(), "#12345678".to_string()];
    let batches = ClientState::build_batched_joins(&chans, &keys);
    assert_eq!(batches.len(), 2);
    assert_eq!(batches[0].0, "#k,#p");
    assert_eq!(batches[0].1, Some("x".repeat(490)));
    assert_eq!(batches[1], ("#12345678".to_string(), None));
}

#[test]
fn a_channel_that_fits_no_line_has_one_of_its_own() {
    let long = format!("#{}", "z".repeat(600));
    let chans = vec!["#a".to_string(), long.clone(), "#b".to_string()];
    let batches = ClientState::build_batched_joins(&chans, &ChannelKeys::new());
    let lists: Vec<&str> = batches.iter().map(|b| b.0.as_str()).collect();
    assert_eq!(lists, vec!["#a", long.as_str(), "#b"]);
}

#[test]
fn lengths_are_those_of_the_bytes() {
    // Each letter takes two bytes.
    let a = format!("#{}", "\u{e4}".repeat(126));
    let chans = vec![a.clone(), a.clone()];
    let batches = ClientState::build_batched_joins(&chans, &ChannelKeys::new());
    assert_eq!(a.len(), 253);
    assert_eq!(batches.len(), 2);
}

#[test]
fn the_last_key_that_is_set_counts() {
    let mut keys = ChannelKeys::new();
    keys.insert("#a".to_string(), "one".to_string());
    keys.insert("#a".to_string(), "two".to_string());
    assert_eq!(keys.get("#a"), Some(&"two".to_string()));
    assert_eq!(keys.get("#b"), None);
    let batches = ClientState::build_batched_joins(&["#a".to_string()], &keys);
    assert_eq!(batches, vec![("#a".to_string(), Some("two".to_string()))]);
}
