//! Read models of the quote board and stock detail that hold no prices:
//! store statistics, bar statistics and the empty states.

use vstd::prelude::*;
use crate::models::{market_code, market_label, opt_view, Instrument};
use crate::symbol::{board_id, board_label, board_label_zh, board_of};
use crate::text::{chars_of, extend_str, int_decimal, push_i64, string_of};

verus! {

/// Bar statistics of one timeframe of one instrument.
#[derive(Debug, Clone)]
pub struct BarStats {
    pub timeframe: String,
    pub count: i64,
    pub from: Option<String>,
    pub to: Option<String>,
}

/// What a stock detail lacks.
#[derive(Debug, Clone, Copy)]
pub struct DetailEmpty {
    pub no_quote: bool,
    pub no_bars: bool,
}

/// Row counts of the store, and what to tell the user about them.
#[derive(Debug, Clone)]
pub struct StoreStats {
    pub listings: i64,
    pub quotes: i64,
    pub bars: i64,
    pub empty: bool,
    pub message: String,
}

pub open spec fn empty_store_text() -> Seq<char> {
    "数据库为空。导入 listings 后即可在行情列表中查看；导入 quotes / bars 后显示报价与 K 线。"@
}

/// The statistics of a store known to hold nothing.
pub fn empty_store_stats() -> (r: StoreStats)
    ensures
        r.listings == 0,
        r.quotes == 0,
        r.bars == 0,
        r.empty,
        r.message@ == empty_store_text(),
{
    StoreStats {
        listings: 0,
        quotes: 0,
        bars: 0,
        empty: true,
        message: String::from_str(
            "数据库为空。导入 listings 后即可在行情列表中查看；导入 quotes / bars 后显示报价与 K 线。",
        ),
    }
}

/// What the statistics say for the given counts.
pub open spec fn stats_text(listings: int, quotes: int, bars: int) -> Seq<char> {
    if listings == 0 {
        "数据库为空。请按导入约定写入 listings / quotes / bars 后再查看。"@
    } else if quotes == 0 {
        "已有 "@ + int_decimal(listings) + " 只股票，但尚无报价。导入 quotes 后行情列表将显示最新价与涨跌。"@
    } else {
        "listings="@ + int_decimal(listings) + " quotes="@ + int_decimal(quotes) + " bars="@
            + int_decimal(bars)
    }
}

/// The statistics of a store holding the given numbers of rows; it counts as
/// empty exactly when it holds no listing.
pub fn store_stats_from_counts(listings: i64, quotes: i64, bars: i64) -> (r: StoreStats)
    ensures
        r.listings == listings,
        r.quotes == quotes,
        r.bars == bars,
        r.empty == (listings == 0),
        r.message@ == stats_text(listings as int, quotes as int, bars as int),
{
    let empty = listings == 0;
    let message = if empty {
        String::from_str("数据库为空。请按导入约定写入 listings / quotes / bars 后再查看。")
    } else if quotes == 0 {
        let mut v = chars_of("已有 ");
        push_i64(&mut v, listings);
        extend_str(&mut v, " 只股票，但尚无报价。导入 quotes 后行情列表将显示最新价与涨跌。");
        string_of(v.as_slice())
    } else {
        let mut v = chars_of("listings=");
        push_i64(&mut v, listings);
        extend_str(&mut v, " quotes=");
        push_i64(&mut v, quotes);
        extend_str(&mut v, " bars=");
        push_i64(&mut v, bars);
        string_of(v.as_slice())
    };
    StoreStats { listings, quotes, bars, empty, message }
}

/// The empty state of the quote board: `no_data` for an empty store,
/// `no_match` where the filter left nothing, `ok` otherwise.
pub open spec fn board_empty(stats_empty: bool, filtered_empty: bool) -> (Seq<char>, Seq<char>) {
    if stats_empty {
        ("no_data"@, "暂无股票数据。后续导入 listings 后将出现在此列表。"@)
    } else if filtered_empty {
        ("no_match"@, "当前板块或搜索条件下没有股票。尝试切换「全部」或清空搜索。"@)
    } else {
        ("ok"@, Seq::empty())
    }
}

pub fn board_empty_message(stats: &StoreStats, filtered_empty: bool) -> (r: (String, String))
    ensures
        (r.0@, r.1@) == board_empty(stats.empty, filtered_empty),
{
    if stats.empty {
        (
            String::from_str("no_data"),
            String::from_str("暂无股票数据。后续导入 listings 后将出现在此列表。"),
        )
    } else if filtered_empty {
        (
            String::from_str("no_match"),
            String::from_str("当前板块或搜索条件下没有股票。尝试切换「全部」或清空搜索。"),
        )
    } else {
        (String::from_str("ok"), String::new())
    }
}

/// The columns of a quote-board row that hold no price: identity, labels,
/// name, exchange, currency and status.
#[derive(Debug, Clone)]
pub struct RowHead {
    pub instrument_id: i64,
    pub symbol: String,
    pub market: String,
    pub market_label: String,
    pub board: String,
    pub board_label: String,
    pub name: Option<String>,
    pub exchange: Option<String>,
    pub currency: Option<String>,
    pub status: String,
    pub has_quote: bool,
}

fn copy_opt(o: &Option<String>) -> (r: Option<String>)
    ensures
        opt_view(r) == opt_view(*o),
{
    match o {
        Some(s) => Some(s.clone()),
        None => None,
    }
}

/// The price-free columns of the row of listing `inst`: its board and the
/// Chinese labels of market and board, its name (the English name where it
/// has no other), and its currency (the quote's where the listing has none
/// and a quote exists).
pub fn row_head(inst: &Instrument, quote: Option<&Option<String>>) -> (r: RowHead)
    ensures
        r.instrument_id == inst.id,
        r.symbol@ == inst.key.symbol@,
        r.market@ == market_code(inst.key.market),
        r.market_label@ == market_label(inst.key.market),
        r.board@ == board_of(inst.key),
        r.board_label@ == board_label(board_of(inst.key)),
        opt_view(r.name) == if inst.name is Some {
            opt_view(inst.name)
        } else {
            opt_view(inst.name_en)
        },
        opt_view(r.exchange) == opt_view(inst.exchange),
        opt_view(r.currency) == match quote {
            Some(qc) => if inst.currency is None {
                opt_view(*qc)
            } else {
                opt_view(inst.currency)
            },
            None => opt_view(inst.currency),
        },
        r.status@ == inst.status@,
        r.has_quote == quote is Some,
{
    let board = board_id(&inst.key);
    let name = if inst.name.is_some() {
        copy_opt(&inst.name)
    } else {
        copy_opt(&inst.name_en)
    };
    let currency = match quote {
        Some(qc) => if inst.currency.is_none() {
            copy_opt(qc)
        } else {
            copy_opt(&inst.currency)
        },
        None => copy_opt(&inst.currency),
    };
    RowHead {
        instrument_id: inst.id,
        symbol: inst.key.symbol.clone(),
        market: String::from_str(inst.key.market.as_str()),
        market_label: String::from_str(inst.key.market.label_zh()),
        board: String::from_str(board),
        board_label: String::from_str(board_label_zh(board)),
        name,
        exchange: copy_opt(&inst.exchange),
        currency,
        status: inst.status.clone(),
        has_quote: quote.is_some(),
    }
}

/// The sign of a number, where one is known.
#[derive(Debug, Clone, Copy, PartialEq, Eq, Structural)]
pub enum Sign {
    Positive,
    Negative,
    Zero,
}

/// The direction of a row: by the sign of its change, else by the sign of
/// its change percentage, else `none`.
pub open spec fn direction_of(change: Option<Sign>, change_pct: Option<Sign>) -> Seq<char> {
    let s = match change {
        Some(c) => Some(c),
        None => change_pct,
    };
    match s {
        Some(Sign::Positive) => "up"@,
        Some(Sign::Negative) => "down"@,
        Some(Sign::Zero) => "flat"@,
        None => "none"@,
    }
}

pub fn direction(change: Option<Sign>, change_pct: Option<Sign>) -> (r: &'static str)
    ensures
        r@ == direction_of(change, change_pct),
{
    let s = match change {
        Some(c) => Some(c),
        None => change_pct,
    };
    match s {
        Some(Sign::Positive) => "up",
        Some(Sign::Negative) => "down",
        Some(Sign::Zero) => "flat",
        None => "none",
    }
}

} // verus!
