//! The server's configuration: the loaded settings with their defaults, and
//! the redirect table that belongs to them.
use crate::decimal::{parse_number, parse_unsigned};
use crate::redirect::{
    find, loaded_views, refreshed, reloaded, stale, EntryView, RedirectEntry, RedirectTable,
    TableView, DEFAULT_REDIRECTS_TTL,
};
use crate::text::str_eq;
use vstd::prelude::*;

verus! {

/// Key of the file that holds the private key.
pub const PRIVATE_KEY_FILE: &'static str = "private_key_file";

/// Key of the file that holds the certificate chain.
pub const CERT_CHAIN_FILE: &'static str = "cert_chain_file";

/// Key of the directory that all content is served from.
pub const CONTENT_FOLDER: &'static str = "content_root";

/// Key of the host name that requests must name.
pub const HOSTNAME: &'static str = "hostname";

/// Key of the port to listen on.
pub const PORT: &'static str = "port";

/// Key of the file served for a directory.
pub const INDEX: &'static str = "index";

/// Key of the file that holds the redirect document.
pub const REDIRECTS_FILE: &'static str = "redirects_file";

/// Key of the seconds a loaded redirect table stays fresh.
pub const REDIRECTS_TTL: &'static str = "redirects_ttl";

/// Key, within a section of the redirect document, of where to send the
/// request.
pub const REDIRECT_DESTINATION: &'static str = "destination";

/// Key, within a section of the redirect document, of the permanence flag.
pub const REDIRECT_IS_PERMANENT: &'static str = "permanent";

/// The port to listen on where the settings name none.
pub const DEFAULT_PORT: u16 = 1965;

/// The file served for a directory where the settings name none.
pub const DEFAULT_INDEX: &'static str = "index.gmi";

/// The content root where the settings name none.
pub const DEFAULT_CONTENT_FOLDER: &'static str = "content";

/// The certificate chain file where the settings name none.
pub const DEFAULT_CERT: &'static str = "cert.pem";

/// The private key file where the settings name none.
pub const DEFAULT_KEY: &'static str = "key.pem";

/// The host name where the settings name none.
pub const DEFAULT_HOSTNAME: &'static str = "localhost";

/// The pairs of `pairs` as a map; of two pairs with one key the later one
/// counts.
spec fn map_of(pairs: Seq<(String, String)>) -> Map<Seq<char>, Seq<char>>
    decreases pairs.len(),
{
    if pairs.len() == 0 {
        Map::empty()
    } else {
        map_of(pairs.drop_last()).insert(pairs.last().0@, pairs.last().1@)
    }
}

/// The settings as they were loaded: texts by key.
#[derive(Debug)]
pub struct Settings {
    pairs: Vec<(String, String)>,
}

impl View for Settings {
    type V = Map<Seq<char>, Seq<char>>;

    closed spec fn view(&self) -> Map<Seq<char>, Seq<char>> {
        map_of(self.pairs@)
    }
}

impl Settings {
    /// No settings at all.
    pub fn new() -> (settings: Settings)
        ensures
            settings@ == Map::<Seq<char>, Seq<char>>::empty(),
    {
        Settings { pairs: Vec::new() }
    }

    /// Sets `key` to `value`, in place of any value it had.
    pub fn insert(&mut self, key: &str, value: &str)
        ensures
            final(self)@ == old(self)@.insert(key@, value@),
    {
        self.pairs.push((key.to_owned(), value.to_owned()));
        assert(self.pairs@.drop_last() =~= old(self).pairs@);
    }

    /// The value of `key`, if it has one.
    pub fn get(&self, key: &str) -> (value: Option<&str>)
        ensures
            match value {
                Some(text) => self@.contains_key(key@) && self@[key@] == text@,
                None => !self@.contains_key(key@),
            },
    {
        let mut i: usize = self.pairs.len();
        assert(self.pairs@.take(i as int) =~= self.pairs@);
        while i > 0
            invariant
                i <= self.pairs.len(),
                map_of(self.pairs@).contains_key(key@) == map_of(
                    self.pairs@.take(i as int),
                ).contains_key(key@),
                map_of(self.pairs@).contains_key(key@) ==> map_of(self.pairs@)[key@] == map_of(
                    self.pairs@.take(i as int),
                )[key@],
            decreases i,
        {
            let ghost seen = self.pairs@.take(i as int);
            proof {
                assert(seen.drop_last() =~= self.pairs@.take(i - 1));
                assert(seen.last() == self.pairs@[i - 1]);
            }
            i -= 1;
            if str_eq(self.pairs[i].0.as_str(), key) {
                return Some(self.pairs[i].1.as_str());
            }
        }
        None
    }
}

/// The text that `settings` give for `key`, or `default` where they give
/// none.
pub open spec fn setting_or(
    settings: Map<Seq<char>, Seq<char>>,
    key: Seq<char>,
    default: Seq<char>,
) -> Seq<char> {
    if settings.contains_key(key) {
        settings[key]
    } else {
        default
    }
}

/// The number that `settings` give for `key`: `default` where they give no
/// text, and `None` where the text is not an unsigned decimal number of at
/// most `max`.
pub open spec fn number_or(
    settings: Map<Seq<char>, Seq<char>>,
    key: Seq<char>,
    default: nat,
    max: nat,
) -> Option<nat> {
    if settings.contains_key(key) {
        parse_unsigned(settings[key], max)
    } else {
        Some(default)
    }
}

/// The port that `settings` ask for, if they are in order.
pub open spec fn port_of(settings: Map<Seq<char>, Seq<char>>) -> Option<nat> {
    number_or(settings, PORT@, DEFAULT_PORT as nat, u16::MAX as nat)
}

/// The redirect table's time to live that `settings` ask for, if they are
/// in order.
pub open spec fn ttl_of(settings: Map<Seq<char>, Seq<char>>) -> Option<nat> {
    number_or(settings, REDIRECTS_TTL@, DEFAULT_REDIRECTS_TTL as nat, u64::MAX as nat)
}

/// The host name that requests must name.
pub open spec fn hostname_of(settings: Map<Seq<char>, Seq<char>>) -> Seq<char> {
    setting_or(settings, HOSTNAME@, DEFAULT_HOSTNAME@)
}

/// The directory that all content is served from.
pub open spec fn content_folder_of(settings: Map<Seq<char>, Seq<char>>) -> Seq<char> {
    setting_or(settings, CONTENT_FOLDER@, DEFAULT_CONTENT_FOLDER@)
}

/// The file served for a directory.
pub open spec fn index_of(settings: Map<Seq<char>, Seq<char>>) -> Seq<char> {
    setting_or(settings, INDEX@, DEFAULT_INDEX@)
}

/// The file of the redirect document, where one is configured.
pub open spec fn redirects_file_of(settings: Map<Seq<char>, Seq<char>>) -> Option<Seq<char>> {
    if settings.contains_key(REDIRECTS_FILE@) {
        Some(settings[REDIRECTS_FILE@])
    } else {
        None
    }
}

/// What is wrong with settings that give no configuration.
#[derive(Debug, PartialEq, Eq, Clone, Copy)]
pub enum ConfigError {
    /// The port is not a number from 0 to 65535.
    Port,
    /// The redirect table's time to live is not a number of seconds.
    RedirectsTtl,
}

/// What a configuration holds.
pub ghost struct ConfigView {
    pub settings: Map<Seq<char>, Seq<char>>,
    pub port: u16,
    pub redirects: TableView,
}

/// The file of the redirect document, if `config` names one and its table
/// is due for a reload at `now`.
pub open spec fn reload_due(config: ConfigView, now: u64) -> Option<Seq<char>> {
    if stale(config.redirects, now) {
        redirects_file_of(config.settings)
    } else {
        None
    }
}

/// The configuration after a lookup at `now` that came with the outcome
/// `loaded` of a reload: without a redirect source nothing changes; with
/// one, the table is refreshed.
pub open spec fn consulted(
    config: ConfigView,
    loaded: Option<Seq<EntryView>>,
    now: u64,
) -> ConfigView {
    if redirects_file_of(config.settings) is Some {
        ConfigView { redirects: refreshed(config.redirects, loaded, now), ..config }
    } else {
        config
    }
}

/// Where `config` sends a request for `path`: nowhere without a redirect
/// source, else where its table says.
pub open spec fn redirect_of(config: ConfigView, path: Seq<char>) -> Option<(Seq<char>, bool)> {
    if redirects_file_of(config.settings) is Some {
        find(config.redirects.entries, path)
    } else {
        None
    }
}

/// The server's configuration. All of it is fixed once built, but for the
/// redirect table.
#[derive(Debug)]
pub struct GeminiConfig {
    settings: Settings,
    port: u16,
    redirects: RedirectTable,
}

impl View for GeminiConfig {
    type V = ConfigView;

    closed spec fn view(&self) -> ConfigView {
        ConfigView { settings: self.settings@, port: self.port, redirects: self.redirects@ }
    }
}

impl GeminiConfig {
    /// The configuration that `settings` describe, with an empty redirect
    /// table that counts as loaded at `now`.
    pub fn new(settings: Settings, now: u64) -> (config: Result<GeminiConfig, ConfigError>)
        ensures
            match config {
                Ok(c) => {
                    &&& c@.settings == settings@
                    &&& port_of(settings@) == Some(c@.port as nat)
                    &&& ttl_of(settings@) == Some(c@.redirects.ttl as nat)
                    &&& c@.redirects.entries == Seq::<EntryView>::empty()
                    &&& c@.redirects.last_load == now
                },
                Err(ConfigError::Port) => port_of(settings@) is None,
                Err(ConfigError::RedirectsTtl) => port_of(settings@) is Some && ttl_of(settings@)
                    is None,
            },
    {
        let port: u16 = match settings.get(PORT) {
            Some(text) => match parse_number(text, 65535) {
                Some(n) => n as u16,
                None => {
                    return Err(ConfigError::Port);
                },
            },
            None => DEFAULT_PORT,
        };
        let ttl: u64 = match settings.get(REDIRECTS_TTL) {
            Some(text) => match parse_number(text, u64::MAX) {
                Some(n) => n,
                None => {
                    return Err(ConfigError::RedirectsTtl);
                },
            },
            None => DEFAULT_REDIRECTS_TTL,
        };
        Ok(GeminiConfig { settings, port, redirects: RedirectTable::new(ttl, now) })
    }

    /// The port to listen on.
    pub fn port(&self) -> (port: u16)
        ensures
            port == self@.port,
    {
        self.port
    }

    /// The directory that all content is served from.
    pub fn content_folder(&self) -> (folder: &str)
        ensures
            folder@ == content_folder_of(self@.settings),
    {
        match self.settings.get(CONTENT_FOLDER) {
            Some(text) => text,
            None => DEFAULT_CONTENT_FOLDER,
        }
    }

    /// The file that holds the certificate chain.
    pub fn certificate_file(&self) -> (file: &str)
        ensures
            file@ == setting_or(self@.settings, CERT_CHAIN_FILE@, DEFAULT_CERT@),
    {
        match self.settings.get(CERT_CHAIN_FILE) {
            Some(text) => text,
            None => DEFAULT_CERT,
        }
    }

    /// The file that holds the private key.
    pub fn private_key_file(&self) -> (file: &str)
        ensures
            file@ == setting_or(self@.settings, PRIVATE_KEY_FILE@, DEFAULT_KEY@),
    {
        match self.settings.get(PRIVATE_KEY_FILE) {
            Some(text) => text,
            None => DEFAULT_KEY,
        }
    }

    /// The host name that requests must name.
    pub fn hostname(&self) -> (name: &str)
        ensures
            name@ == hostname_of(self@.settings),
    {
        match self.settings.get(HOSTNAME) {
            Some(text) => text,
            None => DEFAULT_HOSTNAME,
        }
    }

    /// The file served for a directory.
    pub fn index(&self) -> (file: &str)
        ensures
            file@ == index_of(self@.settings),
    {
        match self.settings.get(INDEX) {
            Some(text) => text,
            None => DEFAULT_INDEX,
        }
    }

    /// The file of the redirect document, where one is configured.
    pub fn redirects_file(&self) -> (file: Option<&str>)
        ensures
            match file {
                Some(name) => redirects_file_of(self@.settings) == Some(name@),
                None => redirects_file_of(self@.settings) is None,
            },
    {
        self.settings.get(REDIRECTS_FILE)
    }

    /// The file to re-read before a lookup at `now`: the redirect document,
    /// if one is configured and the table is stale.
    pub fn redirects_due(&self, now: u64) -> (file: Option<&str>)
        ensures
            match file {
                Some(name) => reload_due(self@, now) == Some(name@),
                None => reload_due(self@, now) is None,
            },
    {
        if self.redirects.is_stale(now) {
            self.redirects_file()
        } else {
            None
        }
    }

    /// Takes in the outcome of loading the redirect document at `now`,
    /// stale or not: the entries that were loaded, or `None` where the
    /// document could not be read or understood.
    pub fn update_redirects(&mut self, loaded: Option<Vec<RedirectEntry>>, now: u64)
        ensures
            final(self)@ == (ConfigView {
                redirects: reloaded(old(self)@.redirects, loaded_views(loaded), now),
                ..old(self)@
            }),
    {
        self.redirects.reload(loaded, now);
    }

    /// Where a request for `path` is sent at `now`, and whether for good.
    /// Without a redirect source the answer is `None` and nothing is looked
    /// at. With one, a stale table first takes in `loaded`, the outcome of
    /// re-reading the source: entries that were loaded replace the table,
    /// and `None`, a reload that failed or was not tried, leaves it as it
    /// is. The answer then comes from the table as it stands.
    pub fn check_redirect(
        &mut self,
        path: &str,
        now: u64,
        loaded: Option<Vec<RedirectEntry>>,
    ) -> (target: Option<(String, bool)>)
        ensures
            final(self)@ == consulted(old(self)@, loaded_views(loaded), now),
            match target {
                Some((destination, permanent)) => redirect_of(final(self)@, path@) == Some(
                    (destination@, permanent),
                ),
                None => redirect_of(final(self)@, path@) is None,
            },
    {
        if self.redirects_file().is_none() {
            return None;
        }
        self.redirects.refresh(loaded, now);
        self.redirects.lookup(path)
    }
}

} // verus!
