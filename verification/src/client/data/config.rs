//! The configuration of a client.

use crate::client::keys::ChannelKeys;
use crate::error::Error;
use crate::text;
use vstd::prelude::*;

verus! {

/// What the client answers to a question about its version, where nothing else is configured.
pub const VERSION_STR: &'static str = "irc_repartee:1.5.2:Compiled with rustc";

/// What the client answers to a question about its source, where nothing else is configured.
pub const SOURCE_STR: &'static str = "https://github.com/aatxe/irc";

/// The configuration of a client.
pub struct Config {
    /// The nickname to ask for.
    pub nickname: Option<String>,
    /// The password to identify the nickname with.
    pub nick_password: Option<String>,
    /// The nicknames to ask for where the first is taken.
    pub alt_nicks: Vec<String>,
    /// The user name.
    pub username: Option<String>,
    /// The real name.
    pub realname: Option<String>,
    /// The password of the server.
    pub password: Option<String>,
    /// The channels to join.
    pub channels: Vec<String>,
    /// The keys of those channels that have one.
    pub channel_keys: ChannelKeys,
    /// The modes to set on the user.
    pub umodes: Option<String>,
    /// What to answer to a question about the user.
    pub user_info: Option<String>,
    /// What to answer to a question about the version.
    pub version: Option<String>,
    /// What to answer to a question about the source.
    pub source: Option<String>,
    /// Whether to reclaim the nickname from whoever holds it.
    pub should_ghost: bool,
    /// The commands with which to reclaim it.
    pub ghost_sequence: Option<Vec<String>>,
    /// The penalty, in milliseconds, over which outgoing messages are delayed. Zero: never.
    pub flood_penalty_threshold: Option<u32>,
}

/// What a [`Config`] holds.
pub struct ConfigView {
    pub nickname: Option<Seq<char>>,
    pub nick_password: Option<Seq<char>>,
    pub alt_nicks: Seq<Seq<char>>,
    pub username: Option<Seq<char>>,
    pub realname: Option<Seq<char>>,
    pub password: Option<Seq<char>>,
    pub channels: Seq<Seq<char>>,
    pub channel_keys: Map<Seq<char>, Seq<char>>,
    pub umodes: Option<Seq<char>>,
    pub user_info: Option<Seq<char>>,
    pub version: Option<Seq<char>>,
    pub source: Option<Seq<char>>,
    pub should_ghost: bool,
    pub ghost_sequence: Option<Seq<Seq<char>>>,
    pub flood_penalty_threshold: Option<u32>,
}

impl View for Config {
    type V = ConfigView;

    open spec fn view(&self) -> ConfigView {
        ConfigView {
            nickname: text::opt_text(self.nickname),
            nick_password: text::opt_text(self.nick_password),
            alt_nicks: text::texts(self.alt_nicks@),
            username: text::opt_text(self.username),
            realname: text::opt_text(self.realname),
            password: text::opt_text(self.password),
            channels: text::texts(self.channels@),
            channel_keys: self.channel_keys@,
            umodes: text::opt_text(self.umodes),
            user_info: text::opt_text(self.user_info),
            version: text::opt_text(self.version),
            source: text::opt_text(self.source),
            should_ghost: self.should_ghost,
            ghost_sequence: text::opt_texts(self.ghost_sequence),
            flood_penalty_threshold: self.flood_penalty_threshold,
        }
    }
}

/// The text, or `otherwise` where there is none.
pub open spec fn text_or(o: Option<Seq<char>>, otherwise: Seq<char>) -> Seq<char> {
    match o {
        Some(s) => s,
        None => otherwise,
    }
}

impl ConfigView {
    /// A configuration with nothing in it.
    pub open spec fn empty() -> ConfigView {
        ConfigView {
            nickname: None,
            nick_password: None,
            alt_nicks: seq![],
            username: None,
            realname: None,
            password: None,
            channels: seq![],
            channel_keys: Map::empty(),
            umodes: None,
            user_info: None,
            version: None,
            source: None,
            should_ghost: false,
            ghost_sequence: None,
            flood_penalty_threshold: None,
        }
    }

    /// The password of the nickname; empty where there is none.
    pub open spec fn nick_password_or_none(self) -> Seq<char> {
        text_or(self.nick_password, seq![])
    }

    /// The password of the server; empty where there is none.
    pub open spec fn password_or_none(self) -> Seq<char> {
        text_or(self.password, seq![])
    }

    /// The user modes to set; empty where there are none.
    pub open spec fn umodes_or_none(self) -> Seq<char> {
        text_or(self.umodes, seq![])
    }

    /// The user name, which is the nickname where no other is configured.
    pub open spec fn user_name(self) -> Seq<char> {
        text_or(self.username, text_or(self.nickname, "user"@))
    }

    /// The real name, which is the nickname where no other is configured.
    pub open spec fn real_name(self) -> Seq<char> {
        text_or(self.realname, text_or(self.nickname, "irc"@))
    }

    /// The answer to a question about the version.
    pub open spec fn version_answer(self) -> Seq<char> {
        text_or(self.version, VERSION_STR@)
    }

    /// The answer to a question about the source.
    pub open spec fn source_answer(self) -> Seq<char> {
        text_or(self.source, SOURCE_STR@)
    }

    /// The answer to a question about the user.
    pub open spec fn user_info_answer(self) -> Seq<char> {
        text_or(self.user_info, seq![])
    }

    /// The penalty, in milliseconds, over which messages are delayed.
    pub open spec fn threshold(self) -> u32 {
        match self.flood_penalty_threshold {
            Some(n) => n,
            None => 10_000,
        }
    }
}

/// The text, or `otherwise` where there is none.
fn or_else<'a>(o: &'a Option<String>, otherwise: &'a str) -> (r: &'a str)
    ensures
        r@ == text_or(text::opt_text(*o), otherwise@),
{
    match o {
        Some(s) => s.as_str(),
        None => otherwise,
    }
}

impl Default for Config {
    fn default() -> (r: Config)
        ensures
            r@ == ConfigView::empty(),
    {
        let r = Config {
            nickname: None,
            nick_password: None,
            alt_nicks: Vec::new(),
            username: None,
            realname: None,
            password: None,
            channels: Vec::new(),
            channel_keys: ChannelKeys::new(),
            umodes: None,
            user_info: None,
            version: None,
            source: None,
            should_ghost: false,
            ghost_sequence: None,
            flood_penalty_threshold: None,
        };
        assert(r@.alt_nicks =~= seq![]);
        assert(r@.channels =~= seq![]);
        r
    }
}

impl Config {
    /// The nickname to ask for.
    pub fn nickname(&self) -> (r: Result<&str, Error>)
        ensures
            match r {
                Ok(n) => self@.nickname == Some(n@),
                Err(e) => self@.nickname is None && e is NicknameNotSpecified,
            },
    {
        match &self.nickname {
            Some(n) => Ok(n.as_str()),
            None => Err(Error::NicknameNotSpecified),
        }
    }

    /// The password of the nickname; empty where there is none.
    pub fn nick_password(&self) -> (r: &str)
        ensures
            r@ == self@.nick_password_or_none(),
    {
        proof {
            reveal_strlit("");
            assert(""@ =~= seq![]);
        }
        or_else(&self.nick_password, "")
    }

    /// The nicknames to ask for where the first is taken.
    pub fn alternate_nicknames(&self) -> (r: &[String])
        ensures
            text::texts(r@) == self@.alt_nicks,
    {
        self.alt_nicks.as_slice()
    }

    /// The user name, which is the nickname where no other is configured.
    pub fn username(&self) -> (r: &str)
        ensures
            r@ == self@.user_name(),
    {
        or_else(&self.username, or_else(&self.nickname, "user"))
    }

    /// The real name, which is the nickname where no other is configured.
    pub fn real_name(&self) -> (r: &str)
        ensures
            r@ == self@.real_name(),
    {
        or_else(&self.realname, or_else(&self.nickname, "irc"))
    }

    /// The password of the server; empty where there is none.
    pub fn password(&self) -> (r: &str)
        ensures
            r@ == self@.password_or_none(),
    {
        proof {
            reveal_strlit("");
            assert(""@ =~= seq![]);
        }
        or_else(&self.password, "")
    }

    /// The channels to join.
    pub fn channels(&self) -> (r: &[String])
        ensures
            text::texts(r@) == self@.channels,
    {
        self.channels.as_slice()
    }

    /// The modes to set on the user; empty where there are none.
    pub fn umodes(&self) -> (r: &str)
        ensures
            r@ == self@.umodes_or_none(),
    {
        proof {
            reveal_strlit("");
            assert(""@ =~= seq![]);
        }
        or_else(&self.umodes, "")
    }

    /// The answer to a question about the user.
    pub fn user_info(&self) -> (r: &str)
        ensures
            r@ == self@.user_info_answer(),
    {
        proof {
            reveal_strlit("");
            assert(""@ =~= seq![]);
        }
        or_else(&self.user_info, "")
    }

    /// The answer to a question about the version.
    pub fn version(&self) -> (r: &str)
        ensures
            r@ == self@.version_answer(),
    {
        or_else(&self.version, VERSION_STR)
    }

    /// The answer to a question about the source.
    pub fn source(&self) -> (r: &str)
        ensures
            r@ == self@.source_answer(),
    {
        or_else(&self.source, SOURCE_STR)
    }

    /// Whether to reclaim the nickname from whoever holds it.
    pub fn should_ghost(&self) -> (r: bool)
        ensures
            r == self@.should_ghost,
    {
        self.should_ghost
    }

    /// The commands with which to reclaim the nickname.
    pub fn ghost_sequence(&self) -> (r: Option<&[String]>)
        ensures
            match r {
                Some(s) => self@.ghost_sequence == Some(text::texts(s@)),
                None => self@.ghost_sequence is None,
            },
    {
        match &self.ghost_sequence {
            Some(s) => Some(s.as_slice()),
            None => None,
        }
    }

    /// The penalty, in milliseconds, over which outgoing messages are delayed.
    pub fn flood_penalty_threshold(&self) -> (r: u32)
        ensures
            r == self@.threshold(),
            self.flood_penalty_threshold is None ==> r == 10_000,
            self.flood_penalty_threshold matches Some(n) ==> r == n,
    {
        match self.flood_penalty_threshold {
            Some(n) => n,
            None => 10_000,
        }
    }
}

/// What is configured is what holds: each setting, as it was given, and no other in its place.
pub proof fn settings_are_as_given(c: Config)
    ensures
        c.nickname matches Some(s) ==> c@.nickname == Some(s@),
        c.nickname is None ==> c@.nickname is None,
        c.nick_password matches Some(s) ==> c@.nick_password_or_none() == s@,
        c.nick_password is None ==> c@.nick_password_or_none().len() == 0,
        c.password matches Some(s) ==> c@.password_or_none() == s@,
        c.password is None ==> c@.password_or_none().len() == 0,
        c.umodes matches Some(s) ==> c@.umodes_or_none() == s@,
        c.umodes is None ==> c@.umodes_or_none().len() == 0,
        c.username matches Some(s) ==> c@.user_name() == s@,
        c.realname matches Some(s) ==> c@.real_name() == s@,
        c.version matches Some(s) ==> c@.version_answer() == s@,
        c.source matches Some(s) ==> c@.source_answer() == s@,
        c.user_info matches Some(s) ==> c@.user_info_answer() == s@,
        c.user_info is None ==> c@.user_info_answer().len() == 0,
        c@.alt_nicks.len() == c.alt_nicks.len(),
        forall|i: int| 0 <= i < c.alt_nicks.len() ==> #[trigger] c@.alt_nicks[i] == c.alt_nicks[i]@,
        c@.channels.len() == c.channels.len(),
        forall|i: int| 0 <= i < c.channels.len() ==> #[trigger] c@.channels[i] == c.channels[i]@,
        c@.channel_keys == c.channel_keys@,
        c@.should_ghost == c.should_ghost,
        c.ghost_sequence is None ==> c@.ghost_sequence is None,
        c.ghost_sequence matches Some(v) ==> {
            &&& c@.ghost_sequence matches Some(w)
            &&& w.len() == v.len()
            &&& forall|i: int| 0 <= i < v.len() ==> #[trigger] w[i] == v[i]@
        },
        c@.flood_penalty_threshold == c.flood_penalty_threshold,
{
}

/// What holds where nothing is configured: the user is known by the nickname, the client tells its
/// own version and source, and the penalty may come to ten seconds.
pub proof fn settings_by_default(c: ConfigView, nick: Seq<char>)
    ensures
        c.username is None && c.nickname == Some(nick) ==> c.user_name() == nick,
        c.realname is None && c.nickname == Some(nick) ==> c.real_name() == nick,
        c.username is None && c.nickname is None ==> c.user_name() == "user"@,
        c.realname is None && c.nickname is None ==> c.real_name() == "irc"@,
        c.version is None ==> c.version_answer() == VERSION_STR@,
        c.source is None ==> c.source_answer() == "https://github.com/aatxe/irc"@,
        c.flood_penalty_threshold is None ==> c.threshold() == 10_000,
        c.flood_penalty_threshold matches Some(n) ==> c.threshold() == n,
{
}

/// A configuration with nothing in it gives nothing: no name, password, channel, key or mode, no
/// threshold of its own, and nothing to reclaim.
pub proof fn nothing_is_configured()
    ensures
        ({
            let c = ConfigView::empty();
            &&& c.nickname is None && c.username is None && c.realname is None
            &&& c.nick_password is None && c.password is None && c.umodes is None
            &&& c.user_info is None && c.version is None && c.source is None
            &&& c.alt_nicks.len() == 0 && c.channels.len() == 0
            &&& forall|chan: Seq<char>| !#[trigger] c.channel_keys.contains_key(chan)
            &&& !c.should_ghost && c.ghost_sequence is None
            &&& c.flood_penalty_threshold is None
        }),
{
}

} // verus!
