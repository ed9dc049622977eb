//! Decisions of the application service that do not touch the database:
//! how a board filter reads the store, which rows a page keeps, what an empty
//! page or an empty chart says, how failures map to errors, and when a busy
//! database is tried again.

use vstd::prelude::*;
use crate::config::WatchItem;
use crate::db::{sort_named, ListingQuery, QuoteBoardQuery, QuoteSort};
use crate::error::AppError;
use crate::models::{
    key_display, market_code, market_label, market_parse, message_with, timeframe_code, InstrumentKey, Market,
    Timeframe,
};
use crate::symbol::{
    board_matches, in_board, instrument, lemma_board_literal, on_board, parse_instrument,
};
use crate::text::{lemma_upper_trim_normal, chars_of, eq_ignore_ascii_case, eq_lit, string_of, to_upper, trim, trim_str, upper, extend_str};
use crate::view::{board_empty, board_empty_message, StoreStats};

verus! {

// ---------------------------------------------------------------------------
// Board filters
// ---------------------------------------------------------------------------

/// Boards that the store cannot select by market alone: their rows are read
/// without a market filter and filtered afterwards.
pub open spec fn post_filtered(board: Seq<char>) -> bool {
    let b = upper(trim(board));
    ||| b == "STAR"@
    ||| b == "KCB"@
    ||| b == "科创板"@
    ||| b == "CHINEXT"@
    ||| b == "CYB"@
    ||| b == "创业板"@
    ||| b == "WATCH"@
    ||| b == "WATCHLIST"@
    ||| b == "自选"@
    ||| b == "CN"@
    ||| b == "A"@
    ||| b == "沪深京"@
}

pub fn needs_post_filter(board: &str) -> (r: bool)
    ensures
        r == post_filtered(board@),
{
    let t = trim_str(board);
    let u = to_upper(t.as_slice());
    let b = u.as_slice();
    eq_lit(b, "STAR") || eq_lit(b, "KCB") || eq_lit(b, "科创板") || eq_lit(b, "CHINEXT")
        || eq_lit(b, "CYB") || eq_lit(b, "创业板") || eq_lit(b, "WATCH") || eq_lit(b, "WATCHLIST")
        || eq_lit(b, "自选") || eq_lit(b, "CN") || eq_lit(b, "A") || eq_lit(b, "沪深京")
}

/// The market that a board filter selects in the store, if it is one market.
pub open spec fn board_market(board: Seq<char>) -> Option<Market> {
    let b = upper(trim(board));
    if b == "US"@ || b == "美股"@ {
        Some(Market::Us)
    } else if b == "HK"@ || b == "港股"@ {
        Some(Market::Hk)
    } else if b == "CN.SH"@ || b == "SH"@ || b == "沪市"@ {
        Some(Market::CnSh)
    } else if b == "CN.SZ"@ || b == "SZ"@ || b == "深市"@ {
        Some(Market::CnSz)
    } else if b == "CN.BJ"@ || b == "BJ"@ || b == "北证"@ {
        Some(Market::CnBj)
    } else {
        None
    }
}

pub fn market_for_board(board: &str) -> (r: Option<Market>)
    ensures
        r == board_market(board@),
{
    let t = trim_str(board);
    let u = to_upper(t.as_slice());
    let b = u.as_slice();
    if eq_lit(b, "US") || eq_lit(b, "美股") {
        Some(Market::Us)
    } else if eq_lit(b, "HK") || eq_lit(b, "港股") {
        Some(Market::Hk)
    } else if eq_lit(b, "CN.SH") || eq_lit(b, "SH") || eq_lit(b, "沪市") {
        Some(Market::CnSh)
    } else if eq_lit(b, "CN.SZ") || eq_lit(b, "SZ") || eq_lit(b, "深市") {
        Some(Market::CnSz)
    } else if eq_lit(b, "CN.BJ") || eq_lit(b, "BJ") || eq_lit(b, "北证") {
        Some(Market::CnBj)
    } else {
        None
    }
}

/// The read of the store for a quote-board page: boards filtered afterwards
/// read up to 2000 rows from the start; others read the page itself (200
/// rows where no limit is given). A blank search is no search.
pub open spec fn board_read_is(
    q: QuoteBoardQuery,
    board: Seq<char>,
    query: Seq<char>,
    sort: Seq<char>,
    limit: usize,
    offset: usize,
) -> bool {
    &&& q.market == board_market(board)
    &&& (if trim(query).len() == 0 {
        q.query is None
    } else {
        q.query matches Some(s) && s@ == query
    })
    &&& q.status is None
    &&& q.limit == if post_filtered(board) {
        2000
    } else if limit == 0 {
        200
    } else {
        limit
    }
    &&& q.offset == if post_filtered(board) {
        0
    } else {
        offset
    }
    &&& q.sort == sort_named(sort)
}

/// The read of the store behind a quote-board page.
pub fn board_read(board: &str, query: &str, sort: &str, limit: usize, offset: usize) -> (r:
    QuoteBoardQuery)
    ensures
        board_read_is(r, board@, query@, sort@, limit, offset),
{
    let post = needs_post_filter(board);
    let fetch_limit = if post {
        2000
    } else if limit == 0 {
        200
    } else {
        limit
    };
    let t = trim_str(query);
    QuoteBoardQuery {
        market: market_for_board(board),
        query: if t.len() == 0 {
            None
        } else {
            Some(String::from_str(query))
        },
        status: None,
        limit: fetch_limit,
        offset: if post {
            0
        } else {
            offset
        },
        sort: QuoteSort::parse(sort),
    }
}

/// The instruments of the watchlist whose entries parse, in order.
pub open spec fn watch_parsed(ws: Seq<WatchItem>) -> Seq<(Seq<char>, Market)>
    decreases ws.len(),
{
    if ws.len() == 0 {
        Seq::empty()
    } else {
        let w = ws.last();
        let prev = watch_parsed(ws.drop_last());
        match instrument(w.symbol@, Some(w.market@)) {
            Ok(k) => prev.push(k),
            Err(_) => prev,
        }
    }
}

/// The keys of the watchlist; entries that do not parse are left out.
pub fn watch_keys(watchlist: &[WatchItem]) -> (r: Vec<InstrumentKey>)
    ensures
        r@.len() == watch_parsed(watchlist@).len(),
        forall|i: int|
            0 <= i < r@.len() ==> (#[trigger] r@[i]).symbol@ == watch_parsed(watchlist@)[i].0
                && r@[i].market == watch_parsed(watchlist@)[i].1,
{
    let mut out: Vec<InstrumentKey> = Vec::new();
    let mut i: usize = 0;
    while i < watchlist.len()
        invariant
            0 <= i <= watchlist.len(),
            out@.len() == watch_parsed(watchlist@.take(i as int)).len(),
            forall|j: int|
                0 <= j < out@.len() ==> (#[trigger] out@[j]).symbol@ == watch_parsed(
                    watchlist@.take(i as int),
                )[j].0 && out@[j].market == watch_parsed(watchlist@.take(i as int))[j].1,
        decreases watchlist.len() - i,
    {
        let w = &watchlist[i];
        assert(watchlist@.take(i + 1).drop_last() =~= watchlist@.take(i as int));
        assert(watchlist@.take(i + 1).last() == watchlist@[i as int]);
        match parse_instrument(w.symbol.as_str(), Some(w.market.as_str())) {
            Ok(k) => {
                out.push(k);
            },
            Err(_) => {},
        }
        i += 1;
    }
    assert(watchlist@.take(watchlist.len() as int) =~= watchlist@);
    out
}

/// Whether a row (by symbol and market code) belongs on a board filtered
/// after the read: the watchlist boards hold the watched keys; any other
/// board holds the rows whose key parses and is on it.
pub open spec fn row_on_board(
    symbol: Seq<char>,
    market: Seq<char>,
    board: Seq<char>,
    watch: Seq<InstrumentKey>,
) -> bool {
    let b = upper(trim(board));
    if b == "WATCH"@ || b == "WATCHLIST"@ || trim(board) == "自选"@ {
        exists|i: int|
            0 <= i < watch.len() && #[trigger] watch[i].symbol@ == symbol && market_code(
                watch[i].market,
            ) == market
    } else {
        match instrument(symbol, Some(market)) {
            Ok((s, m)) => in_board(s, m, board),
            Err(_) => false,
        }
    }
}

pub fn row_matches_board(symbol: &str, market: &str, board: &str, watch: &[InstrumentKey]) -> (r:
    bool)
    ensures
        r == row_on_board(symbol@, market@, board@, watch@),
{
    let t = trim_str(board);
    let u = to_upper(t.as_slice());
    if eq_lit(u.as_slice(), "WATCH") || eq_lit(u.as_slice(), "WATCHLIST") || eq_lit(
        t.as_slice(),
        "自选",
    ) {
        let sc = chars_of(symbol);
        let mc = chars_of(market);
        let mut i: usize = 0;
        while i < watch.len()
            invariant
                0 <= i <= watch.len(),
                sc@ == symbol@,
                mc@ == market@,
                upper(trim(board@)) == "WATCH"@ || upper(trim(board@)) == "WATCHLIST"@ || trim(
                    board@,
                ) == "自选"@,
                forall|j: int|
                    0 <= j < i ==> !(#[trigger] watch@[j].symbol@ == symbol@ && market_code(
                        watch@[j].market,
                    ) == market@),
            decreases watch.len() - i,
        {
            let ks = chars_of(watch[i].symbol.as_str());
            let km = chars_of(watch[i].market.as_str());
            if crate::text::eq_chars(ks.as_slice(), sc.as_slice()) && crate::text::eq_chars(
                km.as_slice(),
                mc.as_slice(),
            ) {
                assert(watch@[i as int].symbol@ == symbol@);
                assert(market_code(watch@[i as int].market) == market@);
                return true;
            }
            i += 1;
        }
        false
    } else {
        match parse_instrument(symbol, Some(market)) {
            Ok(k) => board_matches(&k, board),
            Err(_) => false,
        }
    }
}

// ---------------------------------------------------------------------------
// Pages
// ---------------------------------------------------------------------------

/// The positions `i` with `m[i]`, in order.
pub open spec fn matching(m: Seq<bool>) -> Seq<int>
    decreases m.len(),
{
    if m.len() == 0 {
        Seq::empty()
    } else if m.last() {
        matching(m.drop_last()).push(m.len() - 1)
    } else {
        matching(m.drop_last())
    }
}

/// The number of rows a page holds at most: 200 where no limit is given.
pub open spec fn page_size(limit: usize) -> int {
    if limit == 0 {
        200
    } else {
        limit as int
    }
}

/// The positions of the rows that a filtered page shows: the matching rows,
/// from the `offset`-th on, at most `page_size(limit)` of them.
pub open spec fn page_of(m: Seq<bool>, offset: usize, limit: usize) -> Seq<int> {
    let all = matching(m);
    let start = if offset < all.len() {
        offset as int
    } else {
        all.len() as int
    };
    let end = if start + page_size(limit) < all.len() {
        start + page_size(limit)
    } else {
        all.len() as int
    };
    all.subrange(start, end)
}

proof fn lemma_matching(m: Seq<bool>)
    ensures
        matching(m).len() <= m.len(),
        forall|i: int|
            0 <= i < matching(m).len() ==> 0 <= #[trigger] matching(m)[i] < m.len() && m[matching(
                m,
            )[i]],
        forall|i: int, j: int|
            0 <= i < j < matching(m).len() ==> matching(m)[i] < matching(m)[j],
    decreases m.len(),
{
    if m.len() > 0 {
        lemma_matching(m.drop_last());
        let p = matching(m.drop_last());
        assert forall|i: int| 0 <= i < p.len() implies m[p[i]] by {
            assert(m.drop_last()[p[i]] == m[p[i]]);
        }
    }
}

/// The positions of the rows on a page of a filtered board, given which rows
/// pass the filter.
pub fn page_indices(matches: &[bool], offset: usize, limit: usize) -> (r: Vec<usize>)
    ensures
        r@.len() == page_of(matches@, offset, limit).len(),
        forall|i: int| 0 <= i < r@.len() ==> #[trigger] r@[i] == page_of(matches@, offset, limit)[i],
{
    let mut all: Vec<usize> = Vec::new();
    let mut i: usize = 0;
    while i < matches.len()
        invariant
            0 <= i <= matches.len(),
            all@.len() == matching(matches@.take(i as int)).len(),
            forall|j: int|
                0 <= j < all@.len() ==> #[trigger] all@[j] == matching(matches@.take(i as int))[j],
        decreases matches.len() - i,
    {
        assert(matches@.take(i + 1).drop_last() =~= matches@.take(i as int));
        assert(matches@.take(i + 1).last() == matches@[i as int]);
        if matches[i] {
            all.push(i);
        }
        i += 1;
    }
    assert(matches@.take(matches.len() as int) =~= matches@);
    let take: usize = if limit == 0 {
        200
    } else {
        limit
    };
    let start: usize = if offset < all.len() {
        offset
    } else {
        all.len()
    };
    let end: usize = if take < all.len() - start {
        start + take
    } else {
        all.len()
    };
    let mut r: Vec<usize> = Vec::new();
    let mut k: usize = start;
    while k < end
        invariant
            start <= k <= end <= all.len(),
            r@.len() == k - start,
            forall|j: int| 0 <= j < r@.len() ==> #[trigger] r@[j] == all@[start + j],
        decreases end - k,
    {
        r.push(all[k]);
        k += 1;
    }
    r
}

/// The empty state of a quote-board page: the kind, and the message (the
/// store's own message where the store is empty).
pub open spec fn page_empty_state(stats_empty: bool, stats_message: Seq<char>, rows_empty: bool) -> (
    Seq<char>,
    Seq<char>,
) {
    let (kind, message) = board_empty(stats_empty, rows_empty && !stats_empty);
    (kind, if stats_empty {
        stats_message
    } else {
        message
    })
}

pub fn board_page_empty(stats: &StoreStats, rows_empty: bool) -> (r: (String, String))
    ensures
        (r.0@, r.1@) == page_empty_state(stats.empty, stats.message@, rows_empty),
{
    let (kind, message) = board_empty_message(stats, rows_empty && !stats.empty);
    let message = if stats.empty {
        stats.message.clone()
    } else {
        message
    };
    (kind, message)
}

/// What an empty chart of timeframe `tf` says.
pub open spec fn bars_empty_text(tf: Timeframe) -> Seq<char> {
    "暂无 "@ + timeframe_code(tf) + " K 线。导入 bars（timeframe="@ + timeframe_code(tf)
        + "）后将在此绘制。"@
}

/// The message of a bar page: empty where there are bars.
pub fn bars_empty_message(tf: Timeframe, empty: bool) -> (r: String)
    ensures
        r@ == if empty {
            bars_empty_text(tf)
        } else {
            Seq::empty()
        },
{
    if empty {
        let mut v = chars_of("暂无 ");
        extend_str(&mut v, tf.as_str());
        extend_str(&mut v, " K 线。导入 bars（timeframe=");
        extend_str(&mut v, tf.as_str());
        extend_str(&mut v, "）后将在此绘制。");
        string_of(v.as_slice())
    } else {
        String::new()
    }
}

// ---------------------------------------------------------------------------
// Errors
// ---------------------------------------------------------------------------

/// The message of a read whose instrument is not in the store.
pub fn not_found_message(key: &InstrumentKey) -> (r: String)
    ensures
        r@ == "not found: "@ + key_display(*key),
{
    let d = key.display();
    let dc = chars_of(d.as_str());
    message_with("not found: ", dc.as_slice())
}

/// A database message that starts with `not found:` becomes a not-found
/// error; any other error is kept.
pub fn as_not_found(e: AppError) -> (r: AppError)
    ensures
        match e {
            AppError::Db(crate::db::DbError::Message(m)) => if crate::http::starts_with(
                m@,
                "not found:"@,
            ) {
                r matches AppError::NotFound(n) && n@ == m@
            } else {
                r == e
            },
            _ => r == e,
        },
{
    match e {
        AppError::Db(crate::db::DbError::Message(m)) => {
            let mc = chars_of(m.as_str());
            if crate::text::starts_with_lit(mc.as_slice(), "not found:") {
                AppError::NotFound(m)
            } else {
                AppError::Db(crate::db::DbError::Message(m))
            }
        },
        other => other,
    }
}

/// The market a listing read filters on: none for a blank name or `ALL`
/// (any case), else the market the name parses to.
pub open spec fn listing_market_of(m: Option<Seq<char>>) -> Result<Option<Market>, Seq<char>> {
    match m {
        Some(s) => if trim(s).len() > 0 && !crate::text::eq_ignore_case(s, "ALL"@) {
            match market_parse(s) {
                Ok(x) => Ok(Some(x)),
                Err(e) => Err(e),
            }
        } else {
            Ok(None)
        },
        None => Ok(None),
    }
}

pub fn listing_market(market: Option<&str>) -> (r: Result<Option<Market>, AppError>)
    ensures
        match listing_market_of(
            match market {
                Some(s) => Some(s@),
                None => None,
            },
        ) {
            Ok(x) => r == Ok::<Option<Market>, AppError>(x),
            Err(e) => r matches Err(AppError::InvalidArg(m)) && m@ == e,
        },
{
    match market {
        Some(s) => {
            let t = trim_str(s);
            let c = chars_of(s);
            let all = chars_of("ALL");
            if t.len() > 0 && !eq_ignore_ascii_case(c.as_slice(), all.as_slice()) {
                match Market::parse(s) {
                    Ok(x) => Ok(Some(x)),
                    Err(e) => Err(AppError::InvalidArg(e)),
                }
            } else {
                Ok(None)
            }
        },
        None => Ok(None),
    }
}

/// The read of the listings: the market filter, the search unless it is
/// blank, no status filter, the limit, from the first row.
pub fn listing_read(market: Option<Market>, query: Option<&str>, limit: usize) -> (r: ListingQuery)
    ensures
        r.market == market,
        match query {
            Some(q) => if trim(q@).len() == 0 {
                r.query is None
            } else {
                r.query matches Some(s) && s@ == q@
            },
            None => r.query is None,
        },
        r.status is None,
        r.limit == limit,
        r.offset == 0,
{
    let q = match query {
        Some(s) => {
            let t = trim_str(s);
            if t.len() == 0 {
                None
            } else {
                Some(String::from_str(s))
            }
        },
        None => None,
    };
    ListingQuery { market, query: q, status: None, limit, offset: 0 }
}

// ---------------------------------------------------------------------------
// Retries
// ---------------------------------------------------------------------------

/// How many times a read or an import is tried: the configured number, at
/// least once.
pub fn retry_attempts(retries: u32) -> (r: u32)
    ensures
        r == if retries == 0 {
            1
        } else {
            retries
        },
        r >= 1,
{
    if retries == 0 {
        1
    } else {
        retries
    }
}

/// What follows the failure of try number `attempt` of `attempts`: another
/// try after `backoff_ms * attempt` milliseconds where the database was busy
/// and tries are left, else the failure is final (`None`).
pub fn retry_delay(busy: bool, attempt: u32, attempts: u32, backoff_ms: u64) -> (r: Option<u64>)
    requires
        busy && attempt < attempts ==> backoff_ms * attempt <= u64::MAX,
    ensures
        r matches Some(d) ==> busy && attempt < attempts && d == backoff_ms * attempt,
        r is None ==> !(busy && attempt < attempts),
{
    if busy && attempt < attempts {
        Some(backoff_ms * (attempt as u64))
    } else {
        None
    }
}

/// A page of a filtered board holds at most one page size of rows, each of
/// them a row that passes the filter, in the order of the read.
pub proof fn law_page_rows(m: Seq<bool>, offset: usize, limit: usize)
    ensures
        page_of(m, offset, limit).len() <= page_size(limit),
        forall|i: int|
            0 <= i < page_of(m, offset, limit).len() ==> 0 <= #[trigger] page_of(m, offset, limit)[i]
                < m.len() && m[page_of(m, offset, limit)[i]],
        forall|i: int, j: int|
            0 <= i < j < page_of(m, offset, limit).len() ==> page_of(m, offset, limit)[i] < page_of(
                m,
                offset,
                limit,
            )[j],
{
    lemma_matching(m);
    let all = matching(m);
    let p = page_of(m, offset, limit);
    let start = if offset < all.len() {
        offset as int
    } else {
        all.len() as int
    };
    assert forall|i: int| 0 <= i < p.len() implies 0 <= #[trigger] p[i] < m.len() && m[p[i]] by {
        assert(p[i] == all[start + i]);
    }
    assert forall|i: int, j: int| 0 <= i < j < p.len() implies p[i] < p[j] by {
        assert(p[i] == all[start + i]);
        assert(p[j] == all[start + j]);
    }
}

/// On an empty store the quote board is in the `no_data` state and says what
/// the store statistics say, whatever the filter.
pub proof fn law_empty_store_page(stats_message: Seq<char>, rows_empty: bool)
    ensures
        page_empty_state(true, stats_message, rows_empty) == ("no_data"@, stats_message),
{
}

/// The store read of a board: each market's code and Chinese label select
/// that market; a board that selects a market holds exactly the keys of that
/// market, so the rows read need no further filter; the short names `SH`,
/// `SZ`, `BJ` select their markets and `ALL` selects none; and the board is
/// read the same after trimming it and folding it to upper case.
pub proof fn law_board_market(board: Seq<char>, k: InstrumentKey)
    ensures
        forall|m: Market| #[trigger] board_market(market_code(m)) == Some(m),
        forall|m: Market| #[trigger] board_market(market_label(m)) == Some(m),
        board_market(board) matches Some(m) ==> (on_board(k, board) <==> k.market == m),
        board_market(board) == board_market(upper(trim(board))),
        board_market("SH"@) == Some(Market::CnSh),
        board_market("SZ"@) == Some(Market::CnSz),
        board_market("BJ"@) == Some(Market::CnBj),
        board_market("ALL"@) is None,
        board_market("全部"@) is None,
{
    reveal_strlit("ALL");
    reveal_strlit("全部");
    reveal_strlit("US");
    reveal_strlit("美股");
    reveal_strlit("HK");
    reveal_strlit("港股");
    reveal_strlit("CN.SH");
    reveal_strlit("SH");
    reveal_strlit("沪市");
    reveal_strlit("CN.SZ");
    reveal_strlit("SZ");
    reveal_strlit("深市");
    reveal_strlit("CN.BJ");
    reveal_strlit("BJ");
    reveal_strlit("北证");
    lemma_upper_trim_normal(board);
    assert forall|m: Market| #[trigger] board_market(market_code(m)) == Some(m) by {
        lemma_board_literal(market_code(m));
    }
    assert forall|m: Market| #[trigger] board_market(market_label(m)) == Some(m) by {
        lemma_board_literal(market_label(m));
    }
    lemma_board_literal("SH"@);
    lemma_board_literal("SZ"@);
    lemma_board_literal("BJ"@);
    lemma_board_literal("ALL"@);
    lemma_board_literal("全部"@);
}

} // verus!
