//! The configuration of one network instance, as the dispatcher reads it.

use crate::http::{HttpError, Retriever, RetrieverBuilder};
use crate::plugins::PluginConfig;
use crate::text::{opt_view, same_text};
use vstd::prelude::*;

verus! {

/// The views of the strings of `v`.
pub open spec fn texts(v: Seq<String>) -> Seq<Seq<char>> {
    Seq::new(v.len(), |i: int| v[i]@)
}

/// Whether a string equal to `name` is among `list`.
pub fn contains_text(list: &Vec<String>, name: &str) -> (r: bool)
    ensures
        r == texts(list@).contains(name@),
{
    let mut i: usize = 0;
    while i < list.len()
        invariant
            i <= list.len(),
            forall|j: int| 0 <= j < i ==> texts(list@)[j] != name@,
        decreases list.len() - i,
    {
        if same_text(list[i].as_str(), name) {
            assert(texts(list@)[i as int] == name@);
            return true;
        }
        i += 1;
    }
    false
}

/// The network an instance connects to.
#[derive(Clone, Debug)]
pub struct Network {
    pub name: String,
    pub enable: bool,
}

impl Default for Network {
    fn default() -> (r: Self)
        ensures
            r.name@ == "default"@,
            r.enable,
    {
        Network { name: "default".to_owned(), enable: true }
    }
}

/// The switches of the dispatcher.
#[derive(Clone, Copy, Debug)]
pub struct Features {
    pub report_metadata: bool,
    pub report_mime: bool,
    pub mask_highlights: bool,
    pub send_notice: bool,
    pub history: bool,
    pub cross_channel_history: bool,
    pub invite: bool,
    pub autosave: bool,
    pub send_errors_to_poster: bool,
    pub reply_with_errors: bool,
    pub partial_urls: bool,
    pub nick_response: bool,
    pub reconnect: bool,
}

impl Features {
    /// All switches off.
    pub open spec fn all_off() -> Features {
        Features {
            report_metadata: false,
            report_mime: false,
            mask_highlights: false,
            send_notice: false,
            history: false,
            cross_channel_history: false,
            invite: false,
            autosave: false,
            send_errors_to_poster: false,
            reply_with_errors: false,
            partial_urls: false,
            nick_response: false,
            reconnect: false,
        }
    }
}

impl Default for Features {
    fn default() -> (r: Self)
        ensures
            r == Features::all_off(),
    {
        Features {
            report_metadata: false,
            report_mime: false,
            mask_highlights: false,
            send_notice: false,
            history: false,
            cross_channel_history: false,
            invite: false,
            autosave: false,
            send_errors_to_poster: false,
            reply_with_errors: false,
            partial_urls: false,
            nick_response: false,
            reconnect: false,
        }
    }
}

/// Where the history of announced links is kept.
#[derive(Clone, Copy, Debug, PartialEq, Eq, Structural)]
pub enum DbType {
    InMemory,
    Sqlite,
}

impl Default for DbType {
    fn default() -> (r: Self)
        ensures
            r == DbType::InMemory,
    {
        DbType::InMemory
    }
}

/// The history store's kind and place.
#[derive(Clone, Debug)]
pub struct Database {
    pub db_type: DbType,
    pub path: Option<String>,
}

impl Default for Database {
    fn default() -> (r: Self)
        ensures
            r.db_type == DbType::InMemory,
            r.path.is_none(),
    {
        Database { db_type: DbType::InMemory, path: None }
    }
}

/// The numeric and textual parameters of the dispatcher.
#[derive(Clone, Debug)]
pub struct Parameters {
    pub url_limit: u8,
    pub status_channels: Vec<String>,
    pub nick_response_str: String,
    pub reconnect_timeout: u64,
}

impl Default for Parameters {
    fn default() -> (r: Self)
        ensures
            r.url_limit == 10,
            r.status_channels@.len() == 0,
            r.nick_response_str@.len() == 0,
            r.reconnect_timeout == 10,
    {
        Parameters {
            url_limit: 10,
            status_channels: Vec::new(),
            nick_response_str: String::new(),
            reconnect_timeout: 10,
        }
    }
}

/// The limits and headers of the HTTP retriever.
#[derive(Clone, Debug)]
pub struct Http {
    pub timeout_s: u64,
    pub max_redirections: u8,
    pub max_retries: u8,
    pub retry_delay_s: u64,
    pub accept_lang: String,
    pub user_agent: Option<String>,
}

impl Default for Http {
    fn default() -> (r: Self)
        ensures
            r.timeout_s == 10,
            r.max_redirections == 10,
            r.max_retries == 3,
            r.retry_delay_s == 5,
            r.accept_lang@ == "en"@,
            r.user_agent.is_none(),
    {
        Http {
            timeout_s: 10,
            max_redirections: 10,
            max_retries: 3,
            retry_delay_s: 5,
            accept_lang: "en".to_owned(),
            user_agent: None,
        }
    }
}

/// The places on disk an instance was given.
#[derive(Clone, Debug)]
pub struct Paths {
    pub db: Option<String>,
}

impl Default for Paths {
    fn default() -> (r: Self)
        ensures
            r.db.is_none(),
    {
        Paths { db: None }
    }
}

/// How an instance presents itself to its chat server.
#[derive(Clone, Debug)]
pub struct Connection {
    pub nickname: Option<String>,
    pub alt_nicks: Option<Vec<String>>,
    pub nick_password: Option<String>,
    pub username: Option<String>,
    pub realname: Option<String>,
    pub server: Option<String>,
    pub port: Option<u16>,
    pub password: Option<String>,
    pub use_ssl: Option<bool>,
    pub channels: Option<Vec<String>>,
    pub user_info: Option<String>,
    pub version: Option<String>,
}

/// The view of an optional list of strings.
pub open spec fn opt_texts(list: Option<Vec<String>>) -> Option<Seq<Seq<char>>> {
    match list {
        Some(l) => Some(texts(l@)),
        None => None,
    }
}

impl Connection {
    /// Whether these are the settings of a bot that has been told nothing:
    /// it is called `url-bot-rs`, connects to this machine without
    /// encryption or passwords, and joins `#url-bot-rs`.
    pub open spec fn is_default(self) -> bool {
        &&& opt_view(self.nickname) == Some("url-bot-rs"@)
        &&& opt_texts(self.alt_nicks) == Some(seq!["url-bot-rs_"@])
        &&& opt_view(self.nick_password) == Some(Seq::<char>::empty())
        &&& opt_view(self.username) == Some("url-bot-rs"@)
        &&& opt_view(self.realname) == Some("url-bot-rs"@)
        &&& opt_view(self.server) == Some("127.0.0.1"@)
        &&& self.port == Some(6667u16)
        &&& opt_view(self.password) == Some(Seq::<char>::empty())
        &&& self.use_ssl == Some(false)
        &&& opt_texts(self.channels) == Some(seq!["#url-bot-rs"@])
        &&& opt_view(self.user_info) == Some("Feed me URLs."@)
        &&& self.version.is_none()
    }
}

impl Default for Connection {
    fn default() -> (r: Self)
        ensures
            r.is_default(),
    {
        let mut alt_nicks: Vec<String> = Vec::new();
        alt_nicks.push("url-bot-rs_".to_owned());
        let mut channels: Vec<String> = Vec::new();
        channels.push("#url-bot-rs".to_owned());
        assert(texts(alt_nicks@) =~= seq!["url-bot-rs_"@]);
        assert(texts(channels@) =~= seq!["#url-bot-rs"@]);
        Connection {
            nickname: Some("url-bot-rs".to_owned()),
            alt_nicks: Some(alt_nicks),
            nick_password: Some(String::new()),
            username: Some("url-bot-rs".to_owned()),
            realname: Some("url-bot-rs".to_owned()),
            server: Some("127.0.0.1".to_owned()),
            port: Some(6667),
            password: Some(String::new()),
            use_ssl: Some(false),
            channels: Some(channels),
            user_info: Some("Feed me URLs.".to_owned()),
            version: None,
        }
    }
}

/// The configuration of one network instance.
#[derive(Clone, Debug)]
pub struct Conf {
    pub plugins: PluginConfig,
    pub network: Network,
    pub features: Features,
    pub params: Parameters,
    pub http_params: Http,
    pub database: Database,
    pub client: Connection,
    pub path: Option<String>,
}

impl Conf {
    /// Whether this is the configuration of a bot that has been told
    /// nothing: every switch is off, every parameter has its default, no
    /// plugin has a key, and the connection is the default one.
    pub open spec fn is_default(self) -> bool {
        &&& self.features == Features::all_off()
        &&& self.network.name@ == "default"@
        &&& self.network.enable
        &&& self.params.url_limit == 10
        &&& self.params.status_channels@.len() == 0
        &&& self.params.nick_response_str@.len() == 0
        &&& self.params.reconnect_timeout == 10
        &&& self.http_params.timeout_s == 10
        &&& self.http_params.max_redirections == 10
        &&& self.http_params.max_retries == 3
        &&& self.http_params.retry_delay_s == 5
        &&& self.http_params.accept_lang@ == "en"@
        &&& self.http_params.user_agent.is_none()
        &&& self.database.db_type == DbType::InMemory
        &&& self.database.path.is_none()
        &&& self.plugins.imgur.api_key@.len() == 0
        &&& self.plugins.youtube.api_key@.len() == 0
        &&& self.plugins.vimeo.api_key@.len() == 0
        &&& self.client.is_default()
        &&& self.path.is_none()
    }
}

impl Default for Conf {
    fn default() -> (r: Self)
        ensures
            r.is_default(),
    {
        Conf {
            plugins: PluginConfig::default(),
            network: Network::default(),
            features: Features::default(),
            params: Parameters::default(),
            http_params: Http::default(),
            database: Database::default(),
            client: Connection::default(),
            path: None,
        }
    }
}

/// Whether `i` is the place of the first string of `list` that equals
/// `name`.
pub open spec fn is_first_at(list: Seq<Seq<char>>, name: Seq<char>, i: int) -> bool {
    0 <= i < list.len() && list[i] == name && forall|j: int| 0 <= j < i ==> list[j] != name
}

/// The place of the first string of `list` that equals `name`, where there
/// is one.
pub open spec fn first_place(list: Seq<Seq<char>>, name: Seq<char>) -> int {
    choose|i: int| is_first_at(list, name, i)
}

/// `list` without the first of its strings that equals `name`; `list`
/// itself where none does.
pub open spec fn without_first(list: Seq<Seq<char>>, name: Seq<char>) -> Seq<Seq<char>> {
    if list.contains(name) {
        list.remove(first_place(list, name))
    } else {
        list
    }
}

/// `list` with `name` at its end, unless it holds `name` already.
pub open spec fn with_added(list: Seq<Seq<char>>, name: Seq<char>) -> Seq<Seq<char>> {
    if list.contains(name) {
        list
    } else {
        list.push(name)
    }
}

/// The place of the first string of `list` that equals `name`.
pub fn first_index_of(list: &Vec<String>, name: &str) -> (r: Option<usize>)
    ensures
        r matches Some(i) ==> is_first_at(texts(list@), name@, i as int),
        r.is_none() ==> !texts(list@).contains(name@),
{
    let mut i: usize = 0;
    while i < list.len()
        invariant
            i <= list.len(),
            forall|j: int| 0 <= j < i ==> texts(list@)[j] != name@,
        decreases list.len() - i,
    {
        if same_text(list[i].as_str(), name) {
            assert(texts(list@)[i as int] == name@);
            return Some(i);
        }
        i += 1;
    }
    None
}

impl Conf {
    /// The channels to join, if the list is set.
    pub open spec fn channel_names(self) -> Option<Seq<Seq<char>>> {
        match self.client.channels {
            Some(c) => Some(texts(c@)),
            None => None,
        }
    }

    /// Adds a channel to the list of channels to join, unless the list is
    /// unset or holds the channel already. Nothing else changes.
    pub fn add_channel(&mut self, name: String)
        ensures
            final(self).channel_names() == match old(self).channel_names() {
                Some(c) => Some(with_added(c, name@)),
                None => None,
            },
            *final(self) == (Conf {
                client: Connection { channels: final(self).client.channels, ..old(self).client },
                ..*old(self)
            }),
    {
        match &mut self.client.channels {
            Some(c) => {
                if !contains_text(c, name.as_str()) {
                    let ghost before = texts(c@);
                    c.push(name);
                    assert(texts(c@) =~= before.push(name@));
                }
            },
            None => {},
        }
    }

    /// Takes the first entry that equals `name` out of the list of channels
    /// to join. Nothing else changes.
    pub fn remove_channel(&mut self, name: &str)
        ensures
            final(self).channel_names() == match old(self).channel_names() {
                Some(c) => Some(without_first(c, name@)),
                None => None,
            },
            *final(self) == (Conf {
                client: Connection { channels: final(self).client.channels, ..old(self).client },
                ..*old(self)
            }),
    {
        let found = match &self.client.channels {
            Some(c) => first_index_of(c, name),
            None => None,
        };
        match found {
            Some(i) => {
                match &mut self.client.channels {
                    Some(c) => {
                        let ghost before = texts(c@);
                        c.remove(i);
                        assert(texts(c@) =~= before.remove(i as int));
                        assert(is_first_at(before, name@, i as int));
                        assert(first_place(before, name@) == i);
                    },
                    None => {},
                }
            },
            None => {},
        }
    }
}

/// Configurations by name, in the order they were added.
#[derive(Clone, Debug)]
pub struct ConfSet {
    pub configs: Vec<(String, Conf)>,
}

impl ConfSet {
    /// The empty set.
    pub fn new() -> (r: Self)
        ensures
            r.configs@.len() == 0,
    {
        ConfSet { configs: Vec::new() }
    }
}

/// Where the history of an instance is kept.
#[derive(Clone, Debug)]
pub enum DbPath {
    /// In memory only.
    Memory,
    /// In the file at this path.
    File(String),
    /// In a file of this name in the default data directory.
    DefaultDir(String),
}

/// What an instance runs on: its paths, its configuration, its retriever.
#[derive(Clone, Debug)]
pub struct Rtd {
    /// paths
    pub paths: Paths,
    /// configuration file data
    pub conf: Conf,
    /// the HTTP retriever
    pub client: Option<Retriever>,
}

impl Default for Rtd {
    fn default() -> (r: Self)
        ensures
            r.paths.db.is_none(),
            r.client.is_none(),
            r.conf.is_default(),
    {
        Rtd { paths: Paths::default(), conf: Conf::default(), client: None }
    }
}

impl Rtd {
    /// Run-time data with the default configuration and no retriever.
    pub fn new() -> (r: Self)
        ensures
            r.paths.db.is_none(),
            r.client.is_none(),
            r.conf.is_default(),
    {
        Rtd::default()
    }

    /// Sets the configuration.
    pub fn conf(self, c: Conf) -> (r: Self)
        ensures
            r.conf == c,
            r.paths == self.paths,
            r.client == self.client,
    {
        let mut r = self;
        r.conf = c;
        r
    }

    /// Sets the path of the history file that was asked for from outside the
    /// configuration.
    pub fn db(self, path: Option<&str>) -> (r: Self)
        ensures
            path.is_some() == r.paths.db.is_some(),
            path matches Some(p) ==> r.paths.db matches Some(q) && q@ == p@,
            r.conf == self.conf,
            r.client == self.client,
    {
        let mut r = self;
        r.paths.db = match path {
            Some(p) => Some(p.to_owned()),
            None => None,
        };
        r
    }

    /// The retriever that the HTTP parameters of the configuration ask for.
    pub open spec fn wanted_retriever(self) -> crate::http::BuilderView {
        crate::http::BuilderView {
            timeout: Some(self.conf.http_params.timeout_s),
            retry_limit: self.conf.http_params.max_retries as nat,
            retry_delay: Some(self.conf.http_params.retry_delay_s),
            user_agent: match self.conf.http_params.user_agent {
                Some(u) => Some(u@),
                None => None,
            },
            accept_lang: self.conf.http_params.accept_lang@,
            redirect_limit: Some(self.conf.http_params.max_redirections as nat),
        }
    }

    /// Builds the retriever from the HTTP parameters of the configuration.
    /// It fails exactly when a configured header value cannot be sent.
    pub fn init_http_client(self) -> (r: Result<Self, HttpError>)
        ensures
            self.wanted_retriever().buildable() ==> (r matches Ok(d) && d.conf == self.conf
                && d.paths == self.paths && (d.client matches Some(c) && c@
                == self.wanted_retriever().built())),
            !self.wanted_retriever().buildable() ==> (r matches Err(HttpError::InvalidHeader)),
    {
        let mut builder = RetrieverBuilder::new().retry(
            self.conf.http_params.max_retries as usize,
            self.conf.http_params.retry_delay_s,
        ).timeout(self.conf.http_params.timeout_s).accept_lang(
            self.conf.http_params.accept_lang.as_str(),
        ).redirect_limit(self.conf.http_params.max_redirections as usize);
        match &self.conf.http_params.user_agent {
            Some(u) => {
                builder = builder.user_agent(u.as_str());
            },
            None => {},
        }
        match builder.build() {
            Ok(c) => {
                let mut d = self;
                d.client = Some(c);
                Ok(d)
            },
            Err(e) => Err(e),
        }
    }

    /// The retriever, or an error where none has been built.
    pub fn get_client(&self) -> (r: Result<&Retriever, HttpError>)
        ensures
            self.client matches Some(c) ==> r == Ok::<&Retriever, HttpError>(&c),
            self.client.is_none() ==> (r matches Err(HttpError::NoClient)),
    {
        match &self.client {
            Some(c) => Ok(c),
            None => Err(HttpError::NoClient),
        }
    }

    /// Where the history is kept: nowhere but in memory unless the history
    /// is switched on and set to a file; then at the configured path if one
    /// is given and not empty, else at the path asked for from outside, else
    /// in the default directory under a name made from the network's.
    pub fn get_db_path(&self) -> (r: DbPath)
        ensures
            !self.conf.features.history || self.conf.database.db_type == DbType::InMemory ==> r
                == DbPath::Memory,
            self.conf.features.history && self.conf.database.db_type == DbType::Sqlite ==> {
                if self.conf.database.path matches Some(p) && p@.len() > 0 {
                    r matches DbPath::File(q) && q@ == self.conf.database.path.unwrap()@
                } else if self.paths.db matches Some(p) {
                    r matches DbPath::File(q) && q@ == self.paths.db.unwrap()@
                } else {
                    r matches DbPath::DefaultDir(n) && n@ == "history."@ + self.conf.network.name@
                        + ".db"@
                }
            },
    {
        if !self.conf.features.history {
            return DbPath::Memory;
        }
        match self.conf.database.db_type {
            DbType::InMemory => DbPath::Memory,
            DbType::Sqlite => {
                match &self.conf.database.path {
                    Some(p) => {
                        if !p.as_str().is_empty() {
                            return DbPath::File(p.clone());
                        }
                    },
                    None => {},
                }
                match &self.paths.db {
                    Some(p) => DbPath::File(p.clone()),
                    None => {
                        let mut name = "history.".to_owned();
                        name.append(self.conf.network.name.as_str());
                        name.append(".db");
                        DbPath::DefaultDir(name)
                    },
                }
            },
        }
    }
}

/// What an instance does when its connection is lost.
#[derive(Clone, Copy, Debug, PartialEq, Eq, Structural)]
pub enum Reconnect {
    /// It stops.
    Stop,
    /// It connects again after this many seconds.
    After(u64),
}

impl Conf {
    /// Whether the configuration, which was read from a file, is to be
    /// passed over because its network is switched off.
    pub fn is_ignored(&self) -> (r: bool)
        ensures
            r == (self.path.is_some() && !self.network.enable),
    {
        self.path.is_some() && !self.network.enable
    }
}

impl Rtd {
    /// What the instance does when its connection is lost: it connects
    /// again after the configured time where it is to reconnect, and else
    /// stops.
    pub fn after_disconnect(&self) -> (r: Reconnect)
        ensures
            r == if self.conf.features.reconnect {
                Reconnect::After(self.conf.params.reconnect_timeout)
            } else {
                Reconnect::Stop
            },
    {
        if self.conf.features.reconnect {
            Reconnect::After(self.conf.params.reconnect_timeout)
        } else {
            Reconnect::Stop
        }
    }
}

} // verus!
