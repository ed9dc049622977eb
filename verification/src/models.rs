//! Domain types of the stock foundation store.

use vstd::prelude::*;
use crate::text::{chars_of, eq_lit, extend_chars, extend_str, lower, string_of, to_lower, to_upper, trim, trim_str, upper};

verus! {

/// A market an instrument is listed on.
#[derive(Debug, Clone, Copy, PartialEq, Eq, Structural, Hash)]
pub enum Market {
    Us,
    Hk,
    CnSh,
    CnSz,
    CnBj,
}

/// The canonical code of a market (`US`, `HK`, `CN.SH`, `CN.SZ`, `CN.BJ`).
pub open spec fn market_code(m: Market) -> Seq<char> {
    match m {
        Market::Us => "US"@,
        Market::Hk => "HK"@,
        Market::CnSh => "CN.SH"@,
        Market::CnSz => "CN.SZ"@,
        Market::CnBj => "CN.BJ"@,
    }
}

pub open spec fn market_currency(m: Market) -> Seq<char> {
    match m {
        Market::Us => "USD"@,
        Market::Hk => "HKD"@,
        Market::CnSh | Market::CnSz | Market::CnBj => "CNY"@,
    }
}

pub open spec fn market_exchange(m: Market) -> Seq<char> {
    match m {
        Market::Us => "US"@,
        Market::Hk => "HKEX"@,
        Market::CnSh => "SSE"@,
        Market::CnSz => "SZSE"@,
        Market::CnBj => "BSE"@,
    }
}

pub open spec fn market_label(m: Market) -> Seq<char> {
    match m {
        Market::Us => "美股"@,
        Market::Hk => "港股"@,
        Market::CnSh => "沪市"@,
        Market::CnSz => "深市"@,
        Market::CnBj => "北证"@,
    }
}

/// The market that an upper-cased, trimmed market name denotes, if any.
pub open spec fn market_named(u: Seq<char>) -> Option<Market> {
    if u == "US"@ || u == "USA"@ || u == "NASDAQ"@ || u == "NYSE"@ || u == "AMEX"@ {
        Some(Market::Us)
    } else if u == "HK"@ || u == "HKG"@ || u == "HKEX"@ {
        Some(Market::Hk)
    } else if u == "CN.SH"@ || u == "SH"@ || u == "SSE"@ || u == "SHA"@ || u == "XSHG"@ {
        Some(Market::CnSh)
    } else if u == "CN.SZ"@ || u == "SZ"@ || u == "SZSE"@ || u == "SHE"@ || u == "XSHE"@ {
        Some(Market::CnSz)
    } else if u == "CN.BJ"@ || u == "BJ"@ || u == "BSE"@ || u == "BSEJ"@ || u == "NEEQ"@ {
        Some(Market::CnBj)
    } else {
        None
    }
}

/// What parsing a market name gives: the market, or the error message.
pub open spec fn market_parse(s: Seq<char>) -> Result<Market, Seq<char>> {
    let u = upper(trim(s));
    match market_named(u) {
        Some(m) => Ok(m),
        None => if u == "CN"@ {
            Err("ambiguous market CN; use CN.SH, CN.SZ, or CN.BJ"@)
        } else {
            Err("unknown market: "@ + u)
        },
    }
}

/// Relates an executable parse result to its specification.
pub open spec fn same_result<T>(r: Result<T, String>, s: Result<T, Seq<char>>) -> bool {
    match r {
        Ok(v) => s == Ok::<T, Seq<char>>(v),
        Err(e) => s == Err::<T, Seq<char>>(e@),
    }
}

/// Builds the `String` holding `prefix` followed by `rest`.
pub fn message_with(prefix: &str, rest: &[char]) -> (r: String)
    ensures
        r@ == prefix@ + rest@,
{
    let mut v = chars_of(prefix);
    extend_chars(&mut v, rest);
    string_of(v.as_slice())
}

impl Market {
    pub fn as_str(self) -> (r: &'static str)
        ensures
            r@ == market_code(self),
    {
        match self {
            Market::Us => "US",
            Market::Hk => "HK",
            Market::CnSh => "CN.SH",
            Market::CnSz => "CN.SZ",
            Market::CnBj => "CN.BJ",
        }
    }

    pub fn default_currency(self) -> (r: &'static str)
        ensures
            r@ == market_currency(self),
    {
        match self {
            Market::Us => "USD",
            Market::Hk => "HKD",
            Market::CnSh | Market::CnSz | Market::CnBj => "CNY",
        }
    }

    pub fn default_exchange(self) -> (r: &'static str)
        ensures
            r@ == market_exchange(self),
    {
        match self {
            Market::Us => "US",
            Market::Hk => "HKEX",
            Market::CnSh => "SSE",
            Market::CnSz => "SZSE",
            Market::CnBj => "BSE",
        }
    }

    pub fn label_zh(self) -> (r: &'static str)
        ensures
            r@ == market_label(self),
    {
        match self {
            Market::Us => "美股",
            Market::Hk => "港股",
            Market::CnSh => "沪市",
            Market::CnSz => "深市",
            Market::CnBj => "北证",
        }
    }

    /// The market an upper-cased, trimmed name denotes.
    pub fn named(u: &[char]) -> (r: Option<Market>)
        ensures
            r == market_named(u@),
    {
        if eq_lit(u, "US") || eq_lit(u, "USA") || eq_lit(u, "NASDAQ") || eq_lit(u, "NYSE")
            || eq_lit(u, "AMEX") {
            Some(Market::Us)
        } else if eq_lit(u, "HK") || eq_lit(u, "HKG") || eq_lit(u, "HKEX") {
            Some(Market::Hk)
        } else if eq_lit(u, "CN.SH") || eq_lit(u, "SH") || eq_lit(u, "SSE") || eq_lit(u, "SHA")
            || eq_lit(u, "XSHG") {
            Some(Market::CnSh)
        } else if eq_lit(u, "CN.SZ") || eq_lit(u, "SZ") || eq_lit(u, "SZSE") || eq_lit(u, "SHE")
            || eq_lit(u, "XSHE") {
            Some(Market::CnSz)
        } else if eq_lit(u, "CN.BJ") || eq_lit(u, "BJ") || eq_lit(u, "BSE") || eq_lit(u, "BSEJ")
            || eq_lit(u, "NEEQ") {
            Some(Market::CnBj)
        } else {
            None
        }
    }

    /// Parses a market name (case-insensitive, surrounding whitespace ignored).
    pub fn parse(s: &str) -> (r: Result<Market, String>)
        ensures
            same_result(r, market_parse(s@)),
    {
        let t = trim_str(s);
        let u = to_upper(t.as_slice());
        match Market::named(u.as_slice()) {
            Some(m) => Ok(m),
            None => {
                if eq_lit(u.as_slice(), "CN") {
                    Err(String::from_str("ambiguous market CN; use CN.SH, CN.SZ, or CN.BJ"))
                } else {
                    Err(message_with("unknown market: ", u.as_slice()))
                }
            },
        }
    }
}

impl core::str::FromStr for Market {
    type Err = String;

    fn from_str(s: &str) -> (r: Result<Market, String>)
        ensures
            same_result(r, market_parse(s@)),
    {
        Market::parse(s)
    }
}

/// A bar interval.
#[derive(Debug, Clone, Copy, PartialEq, Eq, Structural, Hash)]
pub enum Timeframe {
    M1,
    M5,
    M15,
    M30,
    H1,
    D1,
    W1,
    Mo1,
}

pub open spec fn timeframe_code(t: Timeframe) -> Seq<char> {
    match t {
        Timeframe::M1 => "1m"@,
        Timeframe::M5 => "5m"@,
        Timeframe::M15 => "15m"@,
        Timeframe::M30 => "30m"@,
        Timeframe::H1 => "1h"@,
        Timeframe::D1 => "1d"@,
        Timeframe::W1 => "1w"@,
        Timeframe::Mo1 => "1mo"@,
    }
}

pub open spec fn intraday(t: Timeframe) -> bool {
    t is M1 || t is M5 || t is M15 || t is M30 || t is H1
}

/// The timeframe that a lower-cased, trimmed name denotes, if any.
pub open spec fn timeframe_named(l: Seq<char>) -> Option<Timeframe> {
    if l == "1m"@ || l == "1min"@ {
        Some(Timeframe::M1)
    } else if l == "5m"@ || l == "5min"@ {
        Some(Timeframe::M5)
    } else if l == "15m"@ || l == "15min"@ {
        Some(Timeframe::M15)
    } else if l == "30m"@ || l == "30min"@ {
        Some(Timeframe::M30)
    } else if l == "1h"@ || l == "60m"@ || l == "60min"@ {
        Some(Timeframe::H1)
    } else if l == "1d"@ || l == "d"@ || l == "day"@ || l == "daily"@ {
        Some(Timeframe::D1)
    } else if l == "1w"@ || l == "1wk"@ || l == "w"@ || l == "week"@ || l == "weekly"@ {
        Some(Timeframe::W1)
    } else if l == "1mo"@ || l == "1mth"@ || l == "month"@ || l == "monthly"@ {
        Some(Timeframe::Mo1)
    } else {
        None
    }
}

pub open spec fn timeframe_parse(s: Seq<char>) -> Result<Timeframe, Seq<char>> {
    let l = lower(trim(s));
    match timeframe_named(l) {
        Some(t) => Ok(t),
        None => Err("unknown timeframe: "@ + l),
    }
}

impl Timeframe {
    pub fn as_str(self) -> (r: &'static str)
        ensures
            r@ == timeframe_code(self),
    {
        match self {
            Timeframe::M1 => "1m",
            Timeframe::M5 => "5m",
            Timeframe::M15 => "15m",
            Timeframe::M30 => "30m",
            Timeframe::H1 => "1h",
            Timeframe::D1 => "1d",
            Timeframe::W1 => "1w",
            Timeframe::Mo1 => "1mo",
        }
    }

    pub fn is_intraday(self) -> (r: bool)
        ensures
            r == intraday(self),
    {
        match self {
            Timeframe::M1 | Timeframe::M5 | Timeframe::M15 | Timeframe::M30 | Timeframe::H1 => true,
            _ => false,
        }
    }

    /// The freshness dataset key of bars of this timeframe (`bars:<code>`).
    pub fn dataset_key(self) -> (r: String)
        ensures
            r@ == "bars:"@ + timeframe_code(self),
    {
        let code = chars_of(self.as_str());
        message_with("bars:", code.as_slice())
    }

    /// The timeframe a lower-cased, trimmed name denotes.
    pub fn named(l: &[char]) -> (r: Option<Timeframe>)
        ensures
            r == timeframe_named(l@),
    {
        if eq_lit(l, "1m") || eq_lit(l, "1min") {
            Some(Timeframe::M1)
        } else if eq_lit(l, "5m") || eq_lit(l, "5min") {
            Some(Timeframe::M5)
        } else if eq_lit(l, "15m") || eq_lit(l, "15min") {
            Some(Timeframe::M15)
        } else if eq_lit(l, "30m") || eq_lit(l, "30min") {
            Some(Timeframe::M30)
        } else if eq_lit(l, "1h") || eq_lit(l, "60m") || eq_lit(l, "60min") {
            Some(Timeframe::H1)
        } else if eq_lit(l, "1d") || eq_lit(l, "d") || eq_lit(l, "day") || eq_lit(l, "daily") {
            Some(Timeframe::D1)
        } else if eq_lit(l, "1w") || eq_lit(l, "1wk") || eq_lit(l, "w") || eq_lit(l, "week")
            || eq_lit(l, "weekly") {
            Some(Timeframe::W1)
        } else if eq_lit(l, "1mo") || eq_lit(l, "1mth") || eq_lit(l, "month") || eq_lit(
            l,
            "monthly",
        ) {
            Some(Timeframe::Mo1)
        } else {
            None
        }
    }

    /// Parses a timeframe name (case-insensitive, surrounding whitespace ignored).
    pub fn parse(s: &str) -> (r: Result<Timeframe, String>)
        ensures
            same_result(r, timeframe_parse(s@)),
    {
        let t = trim_str(s);
        let l = to_lower(t.as_slice());
        match Timeframe::named(l.as_slice()) {
            Some(tf) => Ok(tf),
            None => Err(message_with("unknown timeframe: ", l.as_slice())),
        }
    }
}

impl core::str::FromStr for Timeframe {
    type Err = String;

    fn from_str(s: &str) -> (r: Result<Timeframe, String>)
        ensures
            same_result(r, timeframe_parse(s@)),
    {
        Timeframe::parse(s)
    }
}

/// The identity of an instrument: canonical symbol and market.
#[derive(Debug, Clone, PartialEq, Eq, Hash)]
pub struct InstrumentKey {
    pub symbol: String,
    pub market: Market,
}

/// `MARKET:SYMBOL`.
pub open spec fn key_display(k: InstrumentKey) -> Seq<char> {
    market_code(k.market) + ":"@ + k.symbol@
}

impl InstrumentKey {
    pub fn new(symbol: String, market: Market) -> (r: InstrumentKey)
        ensures
            r.symbol == symbol,
            r.market == market,
    {
        InstrumentKey { symbol, market }
    }

    /// `MARKET:SYMBOL`, as `US:AAPL`.
    pub fn display(&self) -> (r: String)
        ensures
            r@ == key_display(*self),
    {
        let mut v = chars_of(self.market.as_str());
        extend_str(&mut v, ":");
        extend_str(&mut v, self.symbol.as_str());
        string_of(v.as_slice())
    }

    /// A copy of this key.
    pub fn copy(&self) -> (r: InstrumentKey)
        ensures
            r == *self,
    {
        InstrumentKey { symbol: self.symbol.clone(), market: self.market }
    }
}

/// A stored listing.
#[derive(Debug, Clone)]
pub struct Instrument {
    pub id: i64,
    pub key: InstrumentKey,
    pub exchange: Option<String>,
    pub name: Option<String>,
    pub name_en: Option<String>,
    pub currency: Option<String>,
    pub instrument_type: String,
    pub isin: Option<String>,
    pub listing_date: Option<String>,
    pub delisting_date: Option<String>,
    pub status: String,
    pub sector: Option<String>,
    pub industry: Option<String>,
    pub lot_size: Option<i64>,
    pub source: Option<String>,
    pub source_symbol: Option<String>,
    pub extra_json: Option<String>,
    pub created_at: String,
    pub updated_at: String,
}

/// One metadata entry of a listing.
#[derive(Debug, Clone)]
pub struct MetadataEntry {
    pub key: String,
    pub value: Option<String>,
    pub source: Option<String>,
    pub as_of: Option<String>,
}

/// A listing as it is written to the store.
#[derive(Debug, Clone)]
pub struct ListingSnapshot {
    pub key: InstrumentKey,
    pub exchange: Option<String>,
    pub name: Option<String>,
    pub name_en: Option<String>,
    pub currency: Option<String>,
    pub instrument_type: String,
    pub isin: Option<String>,
    pub listing_date: Option<String>,
    pub status: String,
    pub sector: Option<String>,
    pub industry: Option<String>,
    pub lot_size: Option<i64>,
    pub source: String,
    pub source_symbol: String,
    pub metadata: Vec<MetadataEntry>,
}

pub open spec fn opt_view(o: Option<String>) -> Option<Seq<char>> {
    match o {
        Some(s) => Some(s@),
        None => None,
    }
}

impl ListingSnapshot {
    /// An active equity listing with the market's default exchange and currency
    /// and nothing else known.
    pub fn equity(key: InstrumentKey, source: String, source_symbol: String) -> (r: ListingSnapshot)
        ensures
            r.key == key,
            opt_view(r.exchange) == Some(market_exchange(key.market)),
            opt_view(r.currency) == Some(market_currency(key.market)),
            r.name is None,
            r.name_en is None,
            r.instrument_type@ == "equity"@,
            r.isin is None,
            r.listing_date is None,
            r.status@ == "active"@,
            r.sector is None,
            r.industry is None,
            r.lot_size is None,
            r.source == source,
            r.source_symbol == source_symbol,
            r.metadata@.len() == 0,
    {
        let market = key.market;
        ListingSnapshot {
            key,
            exchange: Some(String::from_str(market.default_exchange())),
            name: None,
            name_en: None,
            currency: Some(String::from_str(market.default_currency())),
            instrument_type: String::from_str("equity"),
            isin: None,
            listing_date: None,
            status: String::from_str("active"),
            sector: None,
            industry: None,
            lot_size: None,
            source,
            source_symbol,
            metadata: Vec::new(),
        }
    }
}

/// Freshness of one dataset of one instrument.
#[derive(Debug, Clone)]
pub struct FreshnessRow {
    pub instrument_id: i64,
    pub symbol: String,
    pub market: String,
    pub dataset: String,
    pub source: String,
    pub last_attempt_at: Option<String>,
    pub last_success_at: Option<String>,
    pub watermark_ts: Option<String>,
    pub status: String,
    pub error: Option<String>,
}

/// A recorded import run.
#[derive(Debug, Clone)]
pub struct IngestRun {
    pub id: i64,
    pub kind: String,
    pub source: String,
    pub status: String,
    pub started_at: String,
    pub finished_at: Option<String>,
    pub instruments_upserted: i64,
    pub bars_upserted: i64,
    pub quotes_upserted: i64,
    pub error: Option<String>,
}

/// What an import did.
#[derive(Debug, Clone)]
pub struct IngestReport {
    pub run_id: i64,
    pub kind: String,
    pub source: String,
    pub status: String,
    pub instruments_upserted: u32,
    pub bars_upserted: u32,
    pub quotes_upserted: u32,
    pub errors: Vec<String>,
}

/// Every market's code parses back to that market.
pub proof fn law_market_code_roundtrip(m: Market)
    ensures
        market_parse(market_code(m)) == Ok::<Market, Seq<char>>(m),
{
    reveal_strlit("US");
    reveal_strlit("USA");
    reveal_strlit("NASDAQ");
    reveal_strlit("NYSE");
    reveal_strlit("AMEX");
    reveal_strlit("HK");
    reveal_strlit("HKG");
    reveal_strlit("HKEX");
    reveal_strlit("CN.SH");
    reveal_strlit("SH");
    reveal_strlit("SSE");
    reveal_strlit("SHA");
    reveal_strlit("XSHG");
    reveal_strlit("CN.SZ");
    reveal_strlit("SZ");
    reveal_strlit("SZSE");
    reveal_strlit("SHE");
    reveal_strlit("XSHE");
    reveal_strlit("CN.BJ");
    let c = market_code(m);
    assert forall|i: int| 0 <= i < c.len() implies !crate::text::is_ws(#[trigger] c[i]) by {}
    crate::text::lemma_no_ws_trim(c);
    assert(upper(c) =~= c);
}

/// Every timeframe's code parses back to that timeframe.
pub proof fn law_timeframe_code_roundtrip(t: Timeframe)
    ensures
        timeframe_parse(timeframe_code(t)) == Ok::<Timeframe, Seq<char>>(t),
{
    reveal_strlit("1m");
    reveal_strlit("1min");
    reveal_strlit("5m");
    reveal_strlit("5min");
    reveal_strlit("15m");
    reveal_strlit("15min");
    reveal_strlit("30m");
    reveal_strlit("30min");
    reveal_strlit("1h");
    reveal_strlit("60m");
    reveal_strlit("60min");
    reveal_strlit("1d");
    reveal_strlit("d");
    reveal_strlit("day");
    reveal_strlit("daily");
    reveal_strlit("1w");
    reveal_strlit("1wk");
    reveal_strlit("w");
    reveal_strlit("week");
    reveal_strlit("weekly");
    reveal_strlit("1mo");
    let c = timeframe_code(t);
    assert forall|i: int| 0 <= i < c.len() implies !crate::text::is_ws(#[trigger] c[i]) by {}
    crate::text::lemma_no_ws_trim(c);
    assert(lower(c) =~= c);
}

} // verus!
