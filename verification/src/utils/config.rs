use crate::headers::{
    add_missing_headers, apply_header_lines, header_views, with_defaults, with_lines, HeaderView,
};
use crate::pattern::texts;
use crate::text::{
    push_str, string_from_chars, trim_end_char, trim_end_matches,
};
use crate::types::text_of;
use crate::utils::args::Cli;
use crate::utils::common::is_online;
use crate::utils::logger::LogLevel;
use vstd::prelude::*;

verus! {

/// How the downloader works.
#[derive(Debug, Clone)]
pub struct SystemConfig {
    /// How many segments are fetched at the same time.
    pub workers: u32,
    /// How often the fetch of one segment is tried.
    pub retry: u32,
    /// Proxy endpoints, each with its weight.
    pub proxies: Vec<(String, u32)>,
    pub log_level: LogLevel,
    /// The base against which relative segment URLs are resolved.
    pub base_url: Option<String>,
}

impl Default for SystemConfig {
    fn default() -> (c: Self)
        ensures
            c.workers == 10,
            c.retry == 3,
            c.proxies@.len() == 0,
            c.log_level == LogLevel::Info,
            c.base_url is None,
    {
        Self {
            workers: 10,
            retry: 3,
            proxies: Vec::new(),
            log_level: LogLevel::Info,
            base_url: None,
        }
    }
}

/// By what advertisements are told from content.
#[derive(Debug, Clone)]
pub struct AdFilterConfig {
    /// Regular expressions; a segment is an advertisement where one of them
    /// matches its URL.
    pub url_patterns: Vec<String>,
    /// Whether segments are also to be told apart by their picture size.
    pub resolution: bool,
}

impl Default for AdFilterConfig {
    fn default() -> (c: Self)
        ensures
            c.url_patterns@.len() == 0,
            !c.resolution,
    {
        Self { url_patterns: Vec::new(), resolution: false }
    }
}

/// The configuration of the program.
#[derive(Debug, Clone)]
pub struct AppConfig {
    pub system: SystemConfig,
    /// The headers that go with every request, each name once.
    pub headers: Vec<(String, String)>,
    pub filters: AdFilterConfig,
}

/// What a configuration holds, as plain values.
pub struct ConfigView {
    pub workers: u32,
    pub retry: u32,
    pub proxies: Seq<(Seq<char>, u32)>,
    pub log_level: LogLevel,
    pub base_url: Option<Seq<char>>,
    pub headers: Seq<HeaderView>,
    pub url_patterns: Seq<Seq<char>>,
    pub resolution: bool,
}

impl View for AppConfig {
    type V = ConfigView;

    open spec fn view(&self) -> ConfigView {
        ConfigView {
            workers: self.system.workers,
            retry: self.system.retry,
            proxies: self.system.proxies@.map_values(|p: (String, u32)| (p.0@, p.1)),
            log_level: self.system.log_level,
            base_url: text_of(self.system.base_url),
            headers: header_views(self.headers@),
            url_patterns: texts(self.filters.url_patterns@),
            resolution: self.filters.resolution,
        }
    }
}

/// The headers that go with every request unless the configuration says
/// otherwise.
pub open spec fn default_headers() -> Seq<HeaderView> {
    seq![
        (
            "User-Agent"@,
            "Mozilla/5.0 (Windows NT 10.0; Win64; x64) AppleWebKit/537.36 (KHTML, like Gecko) Chrome/120.0.0.0 Safari/537.36"@,
        ),
        ("Accept"@, "*/*"@),
        ("Accept-Encoding"@, "gzip, deflate, br"@),
        ("Connection"@, "keep-alive"@),
    ]
}

/// The configuration that holds where no file says otherwise.
pub open spec fn default_config() -> ConfigView {
    ConfigView {
        workers: 10,
        retry: 3,
        proxies: Seq::empty(),
        log_level: LogLevel::Info,
        base_url: None,
        headers: default_headers(),
        url_patterns: Seq::empty(),
        resolution: false,
    }
}

/// The base URL as it is used: with `https://` in front where it names no
/// scheme of HTTP, and without slashes at its end.
pub open spec fn normal_base(base: Seq<char>) -> Seq<char> {
    trim_end_matches(
        if is_online(base) {
            base
        } else {
            "https://"@ + base
        },
        '/',
    )
}

/// The configuration as it is used. No workers means ten; no retry limit
/// means as many tries as a `u32` counts; the headers that are not set take
/// their defaults.
pub open spec fn normalized(c: ConfigView) -> ConfigView {
    ConfigView {
        workers: if c.workers == 0 {
            10
        } else {
            c.workers
        },
        retry: if c.retry == 0 {
            u32::MAX
        } else {
            c.retry
        },
        base_url: match c.base_url {
            Some(b) => Some(normal_base(b)),
            None => None,
        },
        headers: with_defaults(c.headers, default_headers(), default_headers().len() as int),
        ..c
    }
}

/// The configuration after the command line was taken in: its base URL is
/// used where it gives one, and its headers are set in turn.
pub open spec fn with_cli(c: ConfigView, base_url: Option<Seq<char>>, headers: Seq<Seq<char>>) -> ConfigView {
    ConfigView {
        base_url: match base_url {
            Some(b) => Some(b),
            None => c.base_url,
        },
        headers: with_lines(c.headers, headers, headers.len() as int),
        ..c
    }
}

/// Builds the default headers.
pub fn make_default_headers() -> (h: Vec<(String, String)>)
    ensures
        header_views(h@) == default_headers(),
{
    let mut h: Vec<(String, String)> = Vec::new();
    h.push(
        (
            "User-Agent".to_owned(),
            "Mozilla/5.0 (Windows NT 10.0; Win64; x64) AppleWebKit/537.36 (KHTML, like Gecko) Chrome/120.0.0.0 Safari/537.36".to_owned(),
        ),
    );
    h.push(("Accept".to_owned(), "*/*".to_owned()));
    h.push(("Accept-Encoding".to_owned(), "gzip, deflate, br".to_owned()));
    h.push(("Connection".to_owned(), "keep-alive".to_owned()));
    assert(header_views(h@) =~= default_headers());
    h
}

/// Brings a base URL into the form in which it is used.
pub fn normalize_base(base: &str) -> (r: String)
    ensures
        r@ == normal_base(base@),
{
    let mut text: Vec<char> = Vec::new();
    if !crate::utils::common::Funcs::is_online_resource(base) {
        push_str(&mut text, "https://");
    }
    push_str(&mut text, base);
    assert(text@ =~= if is_online(base@) {
        base@
    } else {
        "https://"@ + base@
    });
    let trimmed = trim_end_char(text.as_slice(), '/');
    string_from_chars(trimmed.as_slice())
}

impl Default for AppConfig {
    fn default() -> (c: Self)
        ensures
            c@ == default_config(),
    {
        let c = Self {
            system: SystemConfig::default(),
            headers: make_default_headers(),
            filters: AdFilterConfig::default(),
        };
        assert(c@.proxies =~= Seq::empty());
        assert(c@.url_patterns =~= Seq::empty());
        c
    }
}

impl AppConfig {
    /// The configuration to use: the loaded one, brought into the form in
    /// which it is used, or the default one where none was loaded.
    pub fn parse(loaded: Option<AppConfig>) -> (c: Self)
        ensures
            c@ == match loaded {
                Some(l) => normalized(l@),
                None => default_config(),
            },
    {
        match loaded {
            Some(l) => {
                let mut config = l;
                if config.system.workers == 0 {
                    config.system.workers = 10;
                }
                if config.system.retry == 0 {
                    config.system.retry = 0xFFFF_FFFF;
                }
                let base_url = match &config.system.base_url {
                    Some(b) => Some(normalize_base(b.as_str())),
                    None => None,
                };
                config.system.base_url = base_url;
                add_missing_headers(&mut config.headers, make_default_headers());
                config
            },
            None => AppConfig::default(),
        }
    }

    /// Takes in what the command line says: its base URL replaces that of the
    /// configuration, and its headers are set in turn, those that are no
    /// header being passed over.
    pub fn accept_cli(&mut self, cli: &Cli)
        ensures
            final(self)@ == with_cli(old(self)@, text_of(cli.base_url), texts(cli.headers@)),
    {
        match &cli.base_url {
            Some(b) => {
                self.system.base_url = Some(b.clone());
            },
            None => {},
        }
        apply_header_lines(&mut self.headers, &cli.headers);
    }
}

} // verus!
