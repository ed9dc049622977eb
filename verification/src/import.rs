//! File import: kinds of import, listing rows to snapshots, the kind of a
//! bundle, where a JSON document holds its rows, and timestamps.

use vstd::prelude::*;
use crate::csv::ListingImport;
use crate::error::AppError;
use crate::json::{arr_model, entry, key_pos, lemma_arr_model, obj_model, object, JsonValue, Json};
use crate::models::{
    key_display, market_currency, market_exchange, message_with, opt_view, timeframe_parse,
    IngestReport, InstrumentKey, ListingSnapshot, Market, MetadataEntry, Timeframe,
};
use crate::symbol::{canonical, instrument, law_parsed_symbol_canonical, parse_instrument};
use crate::text::{chars_of, eq_lit, extend_str, lower, string_of, to_lower, trim, trim_str};
use crate::time::{date_start, datetime_instant, instant_of, parse_ts, rfc3339_instant, Timestamp};

verus! {

/// What a file or a JSON document holds.
#[derive(Debug, Clone, Copy, PartialEq, Eq, Structural)]
pub enum ImportKind {
    Bundle,
    Listings,
    Quotes,
    Bars,
}

pub open spec fn kind_name(k: ImportKind) -> Seq<char> {
    match k {
        ImportKind::Bundle => "bundle"@,
        ImportKind::Listings => "listings"@,
        ImportKind::Quotes => "quotes"@,
        ImportKind::Bars => "bars"@,
    }
}

impl ImportKind {
    pub fn as_str(self) -> (r: &'static str)
        ensures
            r@ == kind_name(self),
    {
        match self {
            ImportKind::Bundle => "bundle",
            ImportKind::Listings => "listings",
            ImportKind::Quotes => "quotes",
            ImportKind::Bars => "bars",
        }
    }
}

/// The import kind a name asks for (singular or plural, any case).
pub open spec fn kind_named(s: Seq<char>) -> Result<ImportKind, Seq<char>> {
    let l = lower(trim(s));
    if l == "bundle"@ {
        Ok(ImportKind::Bundle)
    } else if l == "listings"@ || l == "listing"@ {
        Ok(ImportKind::Listings)
    } else if l == "quotes"@ || l == "quote"@ {
        Ok(ImportKind::Quotes)
    } else if l == "bars"@ || l == "bar"@ {
        Ok(ImportKind::Bars)
    } else {
        Err("unknown import kind: "@ + l)
    }
}

pub fn parse_kind(s: &str) -> (r: Result<ImportKind, AppError>)
    ensures
        match kind_named(s@) {
            Ok(k) => r == Ok::<ImportKind, AppError>(k),
            Err(m) => r matches Err(AppError::InvalidArg(e)) && e@ == m,
        },
{
    let t = trim_str(s);
    let l = to_lower(t.as_slice());
    let ls = l.as_slice();
    if eq_lit(ls, "bundle") {
        Ok(ImportKind::Bundle)
    } else if eq_lit(ls, "listings") || eq_lit(ls, "listing") {
        Ok(ImportKind::Listings)
    } else if eq_lit(ls, "quotes") || eq_lit(ls, "quote") {
        Ok(ImportKind::Quotes)
    } else if eq_lit(ls, "bars") || eq_lit(ls, "bar") {
        Ok(ImportKind::Bars)
    } else {
        Err(AppError::InvalidArg(message_with("unknown import kind: ", ls)))
    }
}

/// The kind an import run records: the one kind of rows a bundle holds, or
/// `bundle` where it holds several kinds or none.
pub open spec fn run_kind(listings: nat, quotes: nat, bars: nat) -> Seq<char> {
    if listings > 0 && quotes == 0 && bars == 0 {
        "listings"@
    } else if listings == 0 && quotes > 0 && bars == 0 {
        "quotes"@
    } else if listings == 0 && quotes == 0 && bars > 0 {
        "bars"@
    } else {
        "bundle"@
    }
}

pub fn bundle_kind(listings: usize, quotes: usize, bars: usize) -> (r: &'static str)
    ensures
        r@ == run_kind(listings as nat, quotes as nat, bars as nat),
{
    if listings > 0 && quotes == 0 && bars == 0 {
        "listings"
    } else if listings == 0 && quotes > 0 && bars == 0 {
        "quotes"
    } else if listings == 0 && quotes == 0 && bars > 0 {
        "bars"
    } else {
        "bundle"
    }
}

/// The status an import run ends with: `ok` without errors, else `partial`.
pub fn run_status(errors: usize) -> (r: &'static str)
    ensures
        r@ == if errors == 0 {
            "ok"@
        } else {
            "partial"@
        },
{
    if errors == 0 {
        "ok"
    } else {
        "partial"
    }
}

/// The key of the rows of a kind in a JSON document.
pub open spec fn rows_key(kind: ImportKind) -> Seq<char> {
    match kind {
        ImportKind::Listings => "listings"@,
        ImportKind::Quotes => "quotes"@,
        _ => "bars"@,
    }
}

/// Where a JSON document holds the rows of a kind: a bundle is the whole
/// document; rows of one kind are the document itself where it is an array,
/// else its entry under the kind's key, else the document.
pub open spec fn payload(v: Json, kind: ImportKind) -> Json {
    match kind {
        ImportKind::Bundle => v,
        _ => match v {
            Json::Arr(_) => v,
            Json::Obj(es) => match key_pos(es, rows_key(kind)) {
                Some(i) => es[i].1,
                None => v,
            },
            _ => v,
        },
    }
}

/// The part of a JSON document that holds the rows of `kind`.
pub fn import_payload(value: &JsonValue, kind: ImportKind) -> (r: JsonValue)
    ensures
        r@ == payload(value@, kind),
{
    match kind {
        ImportKind::Bundle => value.copy(),
        _ => match value {
            JsonValue::Array(_) => value.copy(),
            _ => {
                let key = match kind {
                    ImportKind::Listings => "listings",
                    ImportKind::Quotes => "quotes",
                    _ => "bars",
                };
                match value.get(key) {
                    Some(v) => v.copy(),
                    None => value.copy(),
                }
            },
        },
    }
}

pub fn copy_opt(o: &Option<String>) -> (r: Option<String>)
    ensures
        r == *o,
{
    match o {
        Some(s) => Some(s.clone()),
        None => None,
    }
}

/// Copies of metadata entries.
pub fn copy_metadata(m: &Vec<MetadataEntry>) -> (r: Vec<MetadataEntry>)
    ensures
        r@ == m@,
{
    let mut r: Vec<MetadataEntry> = Vec::new();
    let mut i: usize = 0;
    while i < m.len()
        invariant
            0 <= i <= m.len(),
            r@ == m@.take(i as int),
        decreases m.len() - i,
    {
        let e = &m[i];
        r.push(
            MetadataEntry {
                key: e.key.clone(),
                value: copy_opt(&e.value),
                source: copy_opt(&e.source),
                as_of: copy_opt(&e.as_of),
            },
        );
        assert(m@.take(i + 1) =~= m@.take(i as int).push(m@[i as int]));
        i += 1;
    }
    assert(m@.take(m.len() as int) =~= m@);
    r
}

pub open spec fn hint_of(m: Option<String>) -> Option<Seq<char>> {
    opt_view(m)
}

/// The snapshot a listing row describes: its key normalized, the defaults of
/// an equity listing on that market where the row is silent, the row's
/// source or `default_source`.
pub open spec fn snapshot_of(
    s: ListingSnapshot,
    row: ListingImport,
    default_source: Seq<char>,
) -> bool {
    let k = instrument(row.symbol@, hint_of(row.market))->Ok_0;
    &&& s.key.symbol@ == k.0
    &&& s.key.market == k.1
    &&& opt_view(s.exchange) == match row.exchange {
        Some(e) => Some(e@),
        None => Some(market_exchange(k.1)),
    }
    &&& s.name == row.name
    &&& s.name_en == row.name_en
    &&& opt_view(s.currency) == match row.currency {
        Some(c) => Some(c@),
        None => Some(market_currency(k.1)),
    }
    &&& s.instrument_type@ == match row.instrument_type {
        Some(t) => t@,
        None => "equity"@,
    }
    &&& s.isin == row.isin
    &&& s.listing_date == row.listing_date
    &&& s.status@ == match row.status {
        Some(t) => t@,
        None => "active"@,
    }
    &&& s.sector == row.sector
    &&& s.industry == row.industry
    &&& s.lot_size == row.lot_size
    &&& s.source@ == match row.source {
        Some(t) => t@,
        None => default_source,
    }
    &&& s.source_symbol@ == match row.source_symbol {
        Some(t) => t@,
        None => k.0,
    }
    &&& s.metadata@ == row.metadata@
}

/// The snapshot of a listing row, or why its symbol is not one.
pub fn listing_snapshot(row: &ListingImport, default_source: &str) -> (r: Result<
    ListingSnapshot,
    String,
>)
    ensures
        match instrument(row.symbol@, hint_of(row.market)) {
            Ok(_) => r matches Ok(s) && snapshot_of(s, *row, default_source@),
            Err(e) => r matches Err(m) && m@ == e,
        },
        r matches Ok(s) ==> s.name == row.name && s.name_en == row.name_en && s.isin == row.isin
            && s.listing_date == row.listing_date && s.sector == row.sector && s.industry
            == row.industry && s.lot_size == row.lot_size && s.metadata@ == row.metadata@,
{
    let hint = match &row.market {
        Some(m) => Some(m.as_str()),
        None => None,
    };
    let key = match parse_instrument(row.symbol.as_str(), hint) {
        Ok(k) => k,
        Err(e) => return Err(e),
    };
    let source = match &row.source {
        Some(s) => s.clone(),
        None => String::from_str(default_source),
    };
    let source_symbol = match &row.source_symbol {
        Some(s) => s.clone(),
        None => key.symbol.clone(),
    };
    let mut snap = ListingSnapshot::equity(key, source, source_symbol);
    snap.exchange = match &row.exchange {
        Some(e) => Some(e.clone()),
        None => snap.exchange,
    };
    snap.name = copy_opt(&row.name);
    snap.name_en = copy_opt(&row.name_en);
    snap.currency = match &row.currency {
        Some(c) => Some(c.clone()),
        None => snap.currency,
    };
    if let Some(t) = &row.instrument_type {
        snap.instrument_type = t.clone();
    }
    snap.isin = copy_opt(&row.isin);
    snap.listing_date = copy_opt(&row.listing_date);
    if let Some(s) = &row.status {
        snap.status = s.clone();
    }
    snap.sector = copy_opt(&row.sector);
    snap.industry = copy_opt(&row.industry);
    snap.lot_size = row.lot_size;
    snap.metadata = copy_metadata(&row.metadata);
    Ok(snap)
}

/// A listing row's own fields reach its snapshot unchanged: its name is the
/// row's name and its English name the row's English name, and so for the
/// ISIN, listing date, sector, industry, lot size and metadata; the row's
/// source, exchange, currency, type and status where it gives them, and the
/// defaults (the given source, `equity`, `active`) where it does not; and the
/// key is the row's symbol in canonical form.
pub proof fn law_listing_row_fields(
    s: ListingSnapshot,
    row: ListingImport,
    default_source: Seq<char>,
)
    requires
        snapshot_of(s, row, default_source),
        instrument(row.symbol@, hint_of(row.market)) is Ok,
    ensures
        s.name == row.name,
        s.name_en == row.name_en,
        s.isin == row.isin,
        s.listing_date == row.listing_date,
        s.sector == row.sector,
        s.industry == row.industry,
        s.lot_size == row.lot_size,
        s.metadata@ == row.metadata@,
        row.source matches Some(t) ==> s.source@ == t@,
        row.source is None ==> s.source@ == default_source,
        row.exchange matches Some(e) ==> s.exchange matches Some(x) && x@ == e@,
        row.currency matches Some(c) ==> s.currency matches Some(x) && x@ == c@,
        row.instrument_type matches Some(t) ==> s.instrument_type@ == t@,
        row.instrument_type is None ==> s.instrument_type@ == "equity"@,
        row.status matches Some(t) ==> s.status@ == t@,
        row.status is None ==> s.status@ == "active"@,
        row.source_symbol is None ==> s.source_symbol@ == s.key.symbol@,
        canonical(s.key.symbol@, s.key.market) == Ok::<Seq<char>, Seq<char>>(s.key.symbol@),
{
    law_parsed_symbol_canonical(row.symbol@, hint_of(row.market));
}

/// Where a quote row's instant and source come from, and which key it is
/// for: the symbol first, then the timestamp.
pub open spec fn quote_meta_of(
    symbol: Seq<char>,
    market: Option<Seq<char>>,
    ts: Result<Timestamp, Seq<char>>,
    source: Option<Seq<char>>,
    default_source: Seq<char>,
) -> Result<((Seq<char>, Market), Timestamp, Seq<char>), Seq<char>> {
    match instrument(symbol, market) {
        Err(e) => Err(e),
        Ok(k) => match ts {
            Err(e) => Err(e),
            Ok(t) => Ok(
                (
                    k,
                    t,
                    match source {
                        Some(s) => s,
                        None => default_source,
                    },
                ),
            ),
        },
    }
}

/// The key, instant and source of a quote row (its prices are copied as
/// they are), or why the row is refused.
pub fn quote_meta(
    symbol: &str,
    market: &Option<String>,
    ts: &str,
    source: &Option<String>,
    default_source: &str,
) -> (r: Result<(InstrumentKey, Timestamp, String), String>)
    ensures
        ({
            let tsr = match instant_of(
                trim(ts@),
                rfc3339_instant(trim(ts@)),
                date_start(trim(ts@), "%Y-%m-%d"@),
                datetime_instant(trim(ts@), "%Y-%m-%d %H:%M:%S"@),
            ) {
                Ok(t) => Ok(t),
                Err(e) => Err(e),
            };
            match quote_meta_of(symbol@, opt_view(*market), tsr, opt_view(*source), default_source@) {
                Ok((k, t, s)) => r matches Ok((rk, rt, rs)) && rk.symbol@ == k.0 && rk.market == k.1
                    && rt == t && rs@ == s,
                Err(e) => r matches Err(m) && m@ == e,
            }
        }),
{
    let hint = match market {
        Some(m) => Some(m.as_str()),
        None => None,
    };
    let key = match parse_instrument(symbol, hint) {
        Ok(k) => k,
        Err(e) => {
            return Err(e);
        },
    };
    let t = match parse_ts(ts) {
        Ok(t) => t,
        Err(e) => {
            return Err(e);
        },
    };
    let src = match source {
        Some(s) => s.clone(),
        None => String::from_str(default_source),
    };
    Ok((key, t, src))
}

/// Where a bar row's timeframe, instant and source come from: the symbol
/// first, then the timeframe (`1d` where the row names none), then the
/// timestamp.
pub open spec fn bar_meta_of(
    symbol: Seq<char>,
    market: Option<Seq<char>>,
    timeframe: Option<Seq<char>>,
    ts: Result<Timestamp, Seq<char>>,
    source: Option<Seq<char>>,
    default_source: Seq<char>,
) -> Result<((Seq<char>, Market), Timeframe, Timestamp, Seq<char>), Seq<char>> {
    match instrument(symbol, market) {
        Err(e) => Err(e),
        Ok(k) => match timeframe_parse(
            match timeframe {
                Some(t) => t,
                None => "1d"@,
            },
        ) {
            Err(e) => Err(e),
            Ok(tf) => match ts {
                Err(e) => Err(e),
                Ok(t) => Ok(
                    (
                        k,
                        tf,
                        t,
                        match source {
                            Some(s) => s,
                            None => default_source,
                        },
                    ),
                ),
            },
        },
    }
}

/// The key, timeframe, instant and source of a bar row (its prices are
/// copied as they are), or why the row is refused.
pub fn bar_meta(
    symbol: &str,
    market: &Option<String>,
    timeframe: &Option<String>,
    ts: &str,
    source: &Option<String>,
    default_source: &str,
) -> (r: Result<(InstrumentKey, Timeframe, Timestamp, String), String>)
    ensures
        ({
            let tsr = match instant_of(
                trim(ts@),
                rfc3339_instant(trim(ts@)),
                date_start(trim(ts@), "%Y-%m-%d"@),
                datetime_instant(trim(ts@), "%Y-%m-%d %H:%M:%S"@),
            ) {
                Ok(t) => Ok(t),
                Err(e) => Err(e),
            };
            match bar_meta_of(
                symbol@,
                opt_view(*market),
                opt_view(*timeframe),
                tsr,
                opt_view(*source),
                default_source@,
            ) {
                Ok((k, tf, t, s)) => r matches Ok((rk, rtf, rt, rs)) && rk.symbol@ == k.0
                    && rk.market == k.1 && rtf == tf && rt == t && rs@ == s,
                Err(e) => r matches Err(m) && m@ == e,
            }
        }),
{
    let hint = match market {
        Some(m) => Some(m.as_str()),
        None => None,
    };
    let key = match parse_instrument(symbol, hint) {
        Ok(k) => k,
        Err(e) => {
            return Err(e);
        },
    };
    let tf = match timeframe {
        Some(t) => Timeframe::parse(t.as_str()),
        None => Timeframe::parse("1d"),
    };
    let tf = match tf {
        Ok(t) => t,
        Err(e) => {
            return Err(e);
        },
    };
    let t = match parse_ts(ts) {
        Ok(t) => t,
        Err(e) => {
            return Err(e);
        },
    };
    let src = match source {
        Some(s) => s.clone(),
        None => String::from_str(default_source),
    };
    Ok((key, tf, t, src))
}

/// CSV files hold one kind of rows: a bundle cannot be read from CSV.
pub fn csv_kind(kind: ImportKind) -> (r: Result<ImportKind, AppError>)
    ensures
        kind is Bundle ==> (r matches Err(AppError::InvalidArg(m))
            && m@ == "CSV import requires listings, quotes, or bars (not bundle)"@),
        !(kind is Bundle) ==> (r matches Ok(k) && k == kind),
{
    match kind {
        ImportKind::Bundle => Err(
            AppError::InvalidArg(
                String::from_str("CSV import requires listings, quotes, or bars (not bundle)"),
            ),
        ),
        _ => Ok(kind),
    }
}

/// The error recorded for a row whose write failed: `MARKET:SYMBOL: error`.
pub fn keyed_error(key: &InstrumentKey, error: &str) -> (r: String)
    ensures
        r@ == key_display(*key) + ": "@ + error@,
{
    let mut v = chars_of(key.display().as_str());
    extend_str(&mut v, ": ");
    extend_str(&mut v, error);
    string_of(v.as_slice())
}

/// The distinct values of `ids`, in order of first occurrence.
pub open spec fn distinct_in_order(ids: Seq<i64>) -> Seq<i64>
    decreases ids.len(),
{
    if ids.len() == 0 {
        Seq::empty()
    } else {
        let prev = distinct_in_order(ids.drop_last());
        if prev.contains(ids.last()) {
            prev
        } else {
            prev.push(ids.last())
        }
    }
}

/// The positions of `id` in `ids`, in order.
pub open spec fn positions_of(ids: Seq<i64>, id: i64) -> Seq<int>
    decreases ids.len(),
{
    if ids.len() == 0 {
        Seq::empty()
    } else if ids.last() == id {
        positions_of(ids.drop_last(), id).push(ids.len() - 1)
    } else {
        positions_of(ids.drop_last(), id)
    }
}

/// Groups rows by listing: one group per distinct listing id, in order of
/// first occurrence, each with the positions of its rows in order.
pub fn group_by_listing(ids: &[i64]) -> (r: Vec<(i64, Vec<usize>)>)
    ensures
        r@.len() == distinct_in_order(ids@).len(),
        forall|g: int|
            0 <= g < r@.len() ==> (#[trigger] r@[g]).0 == distinct_in_order(ids@)[g] && r@[g].1@.len()
                == positions_of(ids@, r@[g].0).len() && forall|j: int|
                0 <= j < r@[g].1@.len() ==> r@[g].1@[j] == positions_of(ids@, r@[g].0)[j],
{
    let mut groups: Vec<(i64, Vec<usize>)> = Vec::new();
    let mut i: usize = 0;
    while i < ids.len()
        invariant
            0 <= i <= ids.len(),
            groups@.len() == distinct_in_order(ids@.take(i as int)).len(),
            forall|g: int|
                0 <= g < groups@.len() ==> (#[trigger] groups@[g]).0 == distinct_in_order(
                    ids@.take(i as int),
                )[g] && groups@[g].1@.len() == positions_of(ids@.take(i as int), groups@[g].0).len()
                    && forall|j: int|
                    0 <= j < groups@[g].1@.len() ==> groups@[g].1@[j] == positions_of(
                        ids@.take(i as int),
                        groups@[g].0,
                    )[j],
            forall|a: int, b: int|
                0 <= a < b < groups@.len() ==> groups@[a].0 != groups@[b].0,
        decreases ids.len() - i,
    {
        let id = ids[i];
        let ghost pre = ids@.take(i as int);
        let ghost post = ids@.take(i + 1);
        assert(post.drop_last() =~= pre);
        assert(post.last() == id);
        let found = find_group(&groups, id);
        proof {
            assert forall|x: i64| #[trigger] distinct_in_order(pre).contains(x) <==> exists|h: int|
                0 <= h < groups@.len() && groups@[h].0 == x by {
                if distinct_in_order(pre).contains(x) {
                    let h = choose|h: int|
                        0 <= h < distinct_in_order(pre).len() && distinct_in_order(pre)[h] == x;
                    assert(groups@[h].0 == x);
                }
            }
        }
        if let Some(g) = found {
            let ghost old_groups = groups@;
            let mut entry = groups.remove(g);
            entry.1.push(i);
            groups.insert(g, entry);
            proof {
                assert(distinct_in_order(pre).contains(id));
                assert forall|h: int| 0 <= h < groups@.len() implies (#[trigger] groups@[h]).0
                    == distinct_in_order(post)[h] && groups@[h].1@.len() == positions_of(
                    post,
                    groups@[h].0,
                ).len() && forall|j: int|
                    0 <= j < groups@[h].1@.len() ==> groups@[h].1@[j] == positions_of(
                        post,
                        groups@[h].0,
                    )[j] by {
                    if h == g {
                        assert(groups@[h].1@ =~= old_groups[h].1@.push(i));
                    } else {
                        assert(groups@[h] == old_groups[h]);
                        assert(old_groups[h].0 != id);
                    }
                }
            }
        } else {
            let mut v: Vec<usize> = Vec::new();
            v.push(i);
            groups.push((id, v));
            proof {
                assert(!distinct_in_order(pre).contains(id));
                assert(positions_of(pre, id).len() == 0) by {
                    lemma_positions_absent(pre, id);
                }
            }
        }
        i += 1;
    }
    assert(ids@.take(ids.len() as int) =~= ids@);
    groups
}

fn find_group(groups: &Vec<(i64, Vec<usize>)>, id: i64) -> (r: Option<usize>)
    ensures
        r matches Some(g) ==> g < groups@.len() && groups@[g as int].0 == id,
        r is None ==> forall|h: int| 0 <= h < groups@.len() ==> (#[trigger] groups@[h]).0 != id,
{
    let mut g: usize = 0;
    while g < groups.len()
        invariant
            0 <= g <= groups.len(),
            forall|h: int| 0 <= h < g ==> (#[trigger] groups@[h]).0 != id,
        decreases groups.len() - g,
    {
        if groups[g].0 == id {
            return Some(g);
        }
        g += 1;
    }
    None
}

proof fn lemma_positions_absent(ids: Seq<i64>, id: i64)
    requires
        !distinct_in_order(ids).contains(id),
    ensures
        positions_of(ids, id).len() == 0,
    decreases ids.len(),
{
    if ids.len() > 0 {
        let prev = distinct_in_order(ids.drop_last());
        if !prev.contains(id) {
            lemma_positions_absent(ids.drop_last(), id);
        } else {
            assert(distinct_in_order(ids).contains(id)) by {
                let k = choose|k: int| 0 <= k < prev.len() && prev[k] == id;
                if prev.contains(ids.last()) {
                    assert(distinct_in_order(ids)[k] == id);
                } else {
                    assert(distinct_in_order(ids)[k] == id);
                }
            }
        }
        if ids.last() == id {
            assert(distinct_in_order(ids).contains(id)) by {
                if prev.contains(ids.last()) {
                } else {
                    assert(distinct_in_order(ids)[prev.len() as int] == id);
                }
            }
        }
    }
}

/// The report of an import run: `ok` without errors, else `partial`.
pub fn ingest_report(
    run_id: i64,
    kind: &str,
    source: &str,
    instruments: u32,
    bars: u32,
    quotes: u32,
    errors: Vec<String>,
) -> (r: IngestReport)
    ensures
        r.run_id == run_id,
        r.kind@ == kind@,
        r.source@ == source@,
        r.status@ == if errors@.len() == 0 {
            "ok"@
        } else {
            "partial"@
        },
        r.instruments_upserted == instruments,
        r.bars_upserted == bars,
        r.quotes_upserted == quotes,
        r.errors@ == errors@,
{
    let status = run_status(errors.len());
    IngestReport {
        run_id,
        kind: String::from_str(kind),
        source: String::from_str(source),
        status: String::from_str(status),
        instruments_upserted: instruments,
        bars_upserted: bars,
        quotes_upserted: quotes,
        errors,
    }
}

/// What became of one step of an import: a listing or a quote stored, a batch
/// of bars stored, or an error message.
pub enum RowOutcome {
    ListingStored,
    QuoteStored,
    BarsStored(u32),
    Failed(String),
}

/// The running counts and errors of an import.
pub struct IngestTally {
    pub instruments: u32,
    pub quotes: u32,
    pub bars: u32,
    pub errors: Vec<String>,
}

/// Whether the counts of `t` have room for outcome `o`.
pub open spec fn tally_has_room(t: IngestTally, o: RowOutcome) -> bool {
    match o {
        RowOutcome::ListingStored => t.instruments < u32::MAX,
        RowOutcome::QuoteStored => t.quotes < u32::MAX,
        RowOutcome::BarsStored(n) => t.bars + n <= u32::MAX,
        RowOutcome::Failed(_) => true,
    }
}

/// The counts and errors after outcome `o`: the matching count grows by what
/// was stored, and a failure adds its message at the end of the errors.
pub open spec fn tally_after(t: IngestTally, o: RowOutcome) -> (int, int, int, Seq<String>) {
    match o {
        RowOutcome::ListingStored => (t.instruments + 1, t.quotes as int, t.bars as int, t.errors@),
        RowOutcome::QuoteStored => (t.instruments as int, t.quotes + 1, t.bars as int, t.errors@),
        RowOutcome::BarsStored(n) => (t.instruments as int, t.quotes as int, t.bars + n, t.errors@),
        RowOutcome::Failed(e) => (
            t.instruments as int,
            t.quotes as int,
            t.bars as int,
            t.errors@.push(e),
        ),
    }
}

impl IngestTally {
    /// Nothing stored, no errors.
    pub fn new() -> (r: IngestTally)
        ensures
            r.instruments == 0,
            r.quotes == 0,
            r.bars == 0,
            r.errors@.len() == 0,
    {
        IngestTally { instruments: 0, quotes: 0, bars: 0, errors: Vec::new() }
    }

    /// Counts one outcome.
    pub fn record(&mut self, o: RowOutcome)
        requires
            tally_has_room(*old(self), o),
        ensures
            final(self).instruments == tally_after(*old(self), o).0,
            final(self).quotes == tally_after(*old(self), o).1,
            final(self).bars == tally_after(*old(self), o).2,
            final(self).errors@ == tally_after(*old(self), o).3,
    {
        match o {
            RowOutcome::ListingStored => {
                self.instruments = self.instruments + 1;
            },
            RowOutcome::QuoteStored => {
                self.quotes = self.quotes + 1;
            },
            RowOutcome::BarsStored(n) => {
                self.bars = self.bars + n;
            },
            RowOutcome::Failed(e) => {
                self.errors.push(e);
            },
        }
    }

    /// The report of the run `run_id` with these counts and errors.
    pub fn report(self, run_id: i64, kind: &str, source: &str) -> (r: IngestReport)
        ensures
            r.run_id == run_id,
            r.kind@ == kind@,
            r.source@ == source@,
            r.status@ == if self.errors@.len() == 0 {
                "ok"@
            } else {
                "partial"@
            },
            r.instruments_upserted == self.instruments,
            r.bars_upserted == self.bars,
            r.quotes_upserted == self.quotes,
            r.errors@ == self.errors@,
    {
        ingest_report(run_id, kind, source, self.instruments, self.bars, self.quotes, self.errors)
    }
}

/// The detail recorded with a run: `{"errors": [...]}`.
pub fn errors_detail(errors: &Vec<String>) -> (r: JsonValue)
    ensures
        r@ == Json::Obj(seq![("errors"@, Json::Arr(errors@.map_values(|e: String| Json::Str(e@))))]),
{
    let mut a: Vec<JsonValue> = Vec::new();
    let mut i: usize = 0;
    while i < errors.len()
        invariant
            0 <= i <= errors.len(),
            a@.len() == i,
            forall|j: int| 0 <= j < i ==> (#[trigger] a@[j])@ == Json::Str(errors@[j]@),
        decreases errors.len() - i,
    {
        a.push(JsonValue::Str(errors[i].clone()));
        i += 1;
    }
    proof {
        lemma_arr_model(a@);
        assert(arr_model(a@) =~= errors@.map_values(|e: String| Json::Str(e@)));
    }
    let mut e: Vec<(String, JsonValue)> = Vec::new();
    e.push(entry("errors", JsonValue::Array(a)));
    let ghost es = e@;
    let r = object(e);
    assert(obj_model(es) =~= seq![("errors"@, Json::Arr(errors@.map_values(|e: String| Json::Str(e@))))]);
    r
}

proof fn lemma_distinct_grows(ids: Seq<i64>, x: i64)
    requires
        distinct_in_order(ids.drop_last()).contains(x),
        ids.len() > 0,
    ensures
        distinct_in_order(ids).contains(x),
{
    let prev = distinct_in_order(ids.drop_last());
    let k = choose|k: int| 0 <= k < prev.len() && prev[k] == x;
    assert(distinct_in_order(ids)[k] == x);
}

proof fn lemma_positions_grow(ids: Seq<i64>, x: i64, p: int)
    requires
        positions_of(ids.drop_last(), x).contains(p),
        ids.len() > 0,
    ensures
        positions_of(ids, x).contains(p),
{
    let prev = positions_of(ids.drop_last(), x);
    let k = choose|k: int| 0 <= k < prev.len() && prev[k] == p;
    assert(positions_of(ids, x)[k] == p);
}

/// Grouping rows by listing loses no row: every row's listing has a group,
/// and the row is among that group's positions.
pub proof fn law_group_covers(ids: Seq<i64>, i: int)
    requires
        0 <= i < ids.len(),
    ensures
        distinct_in_order(ids).contains(ids[i]),
        positions_of(ids, ids[i]).contains(i),
    decreases ids.len(),
{
    let x = ids[i];
    if i == ids.len() - 1 {
        let prev = distinct_in_order(ids.drop_last());
        if prev.contains(x) {
            lemma_distinct_grows(ids, x);
        } else {
            assert(distinct_in_order(ids)[prev.len() as int] == x);
        }
        let pp = positions_of(ids.drop_last(), x);
        assert(positions_of(ids, x)[pp.len() as int] == i);
    } else {
        let t = ids.drop_last();
        assert(t[i] == x);
        law_group_covers(t, i);
        lemma_distinct_grows(ids, x);
        lemma_positions_grow(ids, x, i);
    }
}

} // verus!
