//! Application configuration: defaults, and the deep merge of configuration
//! documents (see `json`).

use vstd::prelude::*;
use crate::models::message_with;
use crate::text::{chars_of, eq_lit, lower, to_lower, trim, trim_str};

verus! {

/// A configuration file that could not be read or understood.
#[derive(Debug)]
pub enum ConfigError {
    Io(String),
    Json(String),
}

pub open spec fn config_error_text(e: ConfigError) -> Seq<char> {
    match e {
        ConfigError::Io(s) => "io: "@ + s@,
        ConfigError::Json(s) => "json: "@ + s@,
    }
}

impl ConfigError {
    pub fn message(&self) -> (r: String)
        ensures
            r@ == config_error_text(*self),
    {
        match self {
            ConfigError::Io(s) => message_with("io: ", chars_of(s.as_str()).as_slice()),
            ConfigError::Json(s) => message_with("json: ", chars_of(s.as_str()).as_slice()),
        }
    }
}

pub fn default_db_name() -> (r: String)
    ensures
        r@ == "getrich.db"@,
{
    String::from_str("getrich.db")
}

pub fn default_log_file() -> (r: String)
    ensures
        r@ == "getrich.log"@,
{
    String::from_str("getrich.log")
}

pub fn default_log_level() -> (r: String)
    ensures
        r@ == "INFO"@,
{
    String::from_str("INFO")
}

pub fn default_batch() -> (r: u32)
    ensures
        r == 500,
{
    500
}

pub fn default_bind() -> (r: String)
    ensures
        r@ == "127.0.0.1:7878"@,
{
    String::from_str("127.0.0.1:7878")
}

pub fn default_market() -> (r: String)
    ensures
        r@ == "US"@,
{
    String::from_str("US")
}

pub fn default_timeframe() -> (r: String)
    ensures
        r@ == "1d"@,
{
    String::from_str("1d")
}

pub fn default_timeout() -> (r: u64)
    ensures
        r == 15_000,
{
    15_000
}

pub fn default_retries() -> (r: u32)
    ensures
        r == 3,
{
    3
}

pub fn default_backoff() -> (r: u64)
    ensures
        r == 500,
{
    500
}

/// The HTTP workstation's settings.
#[derive(Debug, Clone)]
pub struct HttpConfig {
    pub bind: String,
}

impl Default for HttpConfig {
    fn default() -> (r: HttpConfig)
        ensures
            r.bind@ == "127.0.0.1:7878"@,
    {
        HttpConfig { bind: default_bind() }
    }
}

/// One entry of the watchlist.
#[derive(Debug, Clone)]
pub struct WatchItem {
    pub symbol: String,
    pub market: String,
    pub name: Option<String>,
}

/// The instruments the user follows.
#[derive(Debug, Clone)]
pub struct UniverseConfig {
    pub watchlist: Vec<WatchItem>,
}

pub open spec fn watch_is(w: WatchItem, symbol: Seq<char>, market: Seq<char>, name: Seq<char>) -> bool {
    &&& w.symbol@ == symbol
    &&& w.market@ == market
    &&& w.name matches Some(n) && n@ == name
}

impl Default for UniverseConfig {
    /// Apple, Kweichow Moutai and Tencent.
    fn default() -> (r: UniverseConfig)
        ensures
            r.watchlist@.len() == 3,
            watch_is(r.watchlist@[0], "AAPL"@, "US"@, "Apple Inc."@),
            watch_is(r.watchlist@[1], "600519"@, "CN.SH"@, "贵州茅台"@),
            watch_is(r.watchlist@[2], "00700"@, "HK"@, "腾讯控股"@),
    {
        let mut watchlist: Vec<WatchItem> = Vec::new();
        watchlist.push(
            WatchItem {
                symbol: String::from_str("AAPL"),
                market: String::from_str("US"),
                name: Some(String::from_str("Apple Inc.")),
            },
        );
        watchlist.push(
            WatchItem {
                symbol: String::from_str("600519"),
                market: String::from_str("CN.SH"),
                name: Some(String::from_str("贵州茅台")),
            },
        );
        watchlist.push(
            WatchItem {
                symbol: String::from_str("00700"),
                market: String::from_str("HK"),
                name: Some(String::from_str("腾讯控股")),
            },
        );
        UniverseConfig { watchlist }
    }
}

/// Data-reading settings.
#[derive(Debug, Clone)]
pub struct DataConfig {
    pub default_timeframe: String,
    pub read_retries: u32,
    pub read_retry_backoff_ms: u64,
    pub read_timeout_ms: u64,
}

impl Default for DataConfig {
    fn default() -> (r: DataConfig)
        ensures
            r.default_timeframe@ == "1d"@,
            r.read_retries == 3,
            r.read_retry_backoff_ms == 500,
            r.read_timeout_ms == 15_000,
    {
        DataConfig {
            default_timeframe: default_timeframe(),
            read_retries: default_retries(),
            read_retry_backoff_ms: default_backoff(),
            read_timeout_ms: default_timeout(),
        }
    }
}

/// The log filter a configured level stands for: one of `trace`, `debug`,
/// `info`, `warn`, `error`; `warning` is `warn`, `fatal` is `error`, anything
/// else `info`.
pub open spec fn log_filter(level: Seq<char>) -> Seq<char> {
    let l = lower(trim(level));
    if l == "trace"@ || l == "debug"@ || l == "info"@ || l == "warn"@ || l == "error"@ {
        l
    } else if l == "warning"@ {
        "warn"@
    } else if l == "fatal"@ {
        "error"@
    } else {
        "info"@
    }
}

pub fn normalize_level(level: &str) -> (r: String)
    ensures
        r@ == log_filter(level@),
{
    let t = trim_str(level);
    let l = to_lower(t.as_slice());
    let ls = l.as_slice();
    if eq_lit(ls, "trace") || eq_lit(ls, "debug") || eq_lit(ls, "info") || eq_lit(ls, "warn")
        || eq_lit(ls, "error") {
        crate::text::string_of(ls)
    } else if eq_lit(ls, "warning") {
        String::from_str("warn")
    } else if eq_lit(ls, "fatal") {
        String::from_str("error")
    } else {
        String::from_str("info")
    }
}

} // verus!
