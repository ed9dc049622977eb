//! Decisions of the SQLite foundation store: errors, query shapes, limits
//! and the ordered schema migrations.

use vstd::prelude::*;
use crate::models::{market_code, message_with, Market};
use crate::text::{chars_of, eq_lit, extend_chars, lower, string_of, to_lower, trim, trim_str};

verus! {

/// The kind of an SQLite failure that the library tells apart.
#[derive(Debug, Clone, Copy, PartialEq, Eq, Structural)]
pub enum SqliteCode {
    /// `SQLITE_BUSY`.
    Busy,
    /// `SQLITE_LOCKED`.
    Locked,
    Other,
}

/// A storage error.
#[derive(Debug)]
pub enum DbError {
    /// A failure reported by SQLite, with its kind and text.
    Sqlite(SqliteCode, String),
    Schema(String),
    Message(String),
}

pub open spec fn db_error_text(e: DbError) -> Seq<char> {
    match e {
        DbError::Sqlite(_, s) => s@,
        DbError::Schema(s) => "schema: "@ + s@,
        DbError::Message(s) => s@,
    }
}

/// Whether the error is the database being busy or locked.
pub open spec fn busy(e: DbError) -> bool {
    match e {
        DbError::Sqlite(c, _) => c == SqliteCode::Busy || c == SqliteCode::Locked,
        _ => false,
    }
}

impl DbError {
    pub fn message(&self) -> (r: String)
        ensures
            r@ == db_error_text(*self),
    {
        match self {
            DbError::Sqlite(_, s) => s.clone(),
            DbError::Schema(s) => message_with("schema: ", chars_of(s.as_str()).as_slice()),
            DbError::Message(s) => s.clone(),
        }
    }
}

pub fn is_busy_db(err: &DbError) -> (r: bool)
    ensures
        r == busy(*err),
{
    match err {
        DbError::Sqlite(c, _) => *c == SqliteCode::Busy || *c == SqliteCode::Locked,
        _ => false,
    }
}

/// Where the store lies.
#[derive(Debug, Clone)]
pub struct Database {
    pub path: String,
}

impl Database {
    /// The store named by the configuration (see `paths::db_path`).
    pub fn from_config(env_db: Option<&str>, root: &str, db_name: &str) -> (r: Database)
        ensures
            r.path@ == match env_db {
                Some(p) => if p@.len() > 0 {
                    p@
                } else {
                    crate::paths::under_root(root@, db_name@)
                },
                None => crate::paths::under_root(root@, db_name@),
            },
    {
        Database { path: crate::paths::db_path(env_db, root, db_name) }
    }

    /// The store at `path`.
    pub fn at(path: &str) -> (r: Database)
        ensures
            r.path@ == path@,
    {
        Database { path: String::from_str(path) }
    }
}

/// The order of the quote board.
#[derive(Debug, Clone, Copy, PartialEq, Eq, Structural)]
pub enum QuoteSort {
    Symbol,
    ChangePct,
    Volume,
    Turnover,
}

/// The sort a name asks for (English or Chinese; symbol order otherwise).
pub open spec fn sort_named(s: Seq<char>) -> QuoteSort {
    let l = lower(trim(s));
    if l == "change"@ || l == "change_pct"@ || l == "pct"@ || l == "涨跌幅"@ {
        QuoteSort::ChangePct
    } else if l == "volume"@ || l == "vol"@ || l == "成交量"@ {
        QuoteSort::Volume
    } else if l == "turnover"@ || l == "amount"@ || l == "成交额"@ {
        QuoteSort::Turnover
    } else {
        QuoteSort::Symbol
    }
}

pub open spec fn sort_clause(s: QuoteSort) -> Seq<char> {
    match s {
        QuoteSort::Symbol => "l.market ASC, l.symbol ASC"@,
        QuoteSort::ChangePct => "q.change_pct IS NULL, q.change_pct DESC, l.symbol ASC"@,
        QuoteSort::Volume => "q.volume IS NULL, q.volume DESC, l.symbol ASC"@,
        QuoteSort::Turnover => "q.turnover IS NULL, q.turnover DESC, l.symbol ASC"@,
    }
}

impl QuoteSort {
    pub fn parse(s: &str) -> (r: QuoteSort)
        ensures
            r == sort_named(s@),
    {
        let t = trim_str(s);
        let l = to_lower(t.as_slice());
        let l = l.as_slice();
        if eq_lit(l, "change") || eq_lit(l, "change_pct") || eq_lit(l, "pct") || eq_lit(l, "涨跌幅") {
            QuoteSort::ChangePct
        } else if eq_lit(l, "volume") || eq_lit(l, "vol") || eq_lit(l, "成交量") {
            QuoteSort::Volume
        } else if eq_lit(l, "turnover") || eq_lit(l, "amount") || eq_lit(l, "成交额") {
            QuoteSort::Turnover
        } else {
            QuoteSort::Symbol
        }
    }

    /// The SQL `ORDER BY` clause of this order: rows without the sorted value
    /// last, ties by symbol.
    pub fn sql(self) -> (r: &'static str)
        ensures
            r@ == sort_clause(self),
    {
        match self {
            QuoteSort::Symbol => "l.market ASC, l.symbol ASC",
            QuoteSort::ChangePct => "q.change_pct IS NULL, q.change_pct DESC, l.symbol ASC",
            QuoteSort::Volume => "q.volume IS NULL, q.volume DESC, l.symbol ASC",
            QuoteSort::Turnover => "q.turnover IS NULL, q.turnover DESC, l.symbol ASC",
        }
    }
}

/// A read of the quote board (listings with their latest quote).
#[derive(Debug, Clone)]
pub struct QuoteBoardQuery {
    pub market: Option<Market>,
    pub query: Option<String>,
    pub status: Option<String>,
    pub limit: usize,
    pub offset: usize,
    pub sort: QuoteSort,
}

impl Default for QuoteBoardQuery {
    fn default() -> (r: QuoteBoardQuery)
        ensures
            r.market is None,
            r.query is None,
            r.status is None,
            r.limit == 0,
            r.offset == 0,
            r.sort == QuoteSort::Symbol,
    {
        QuoteBoardQuery {
            market: None,
            query: None,
            status: None,
            limit: 0,
            offset: 0,
            sort: QuoteSort::Symbol,
        }
    }
}

/// A read of the listings.
#[derive(Debug, Clone)]
pub struct ListingQuery {
    pub market: Option<Market>,
    pub query: Option<String>,
    pub status: Option<String>,
    pub limit: usize,
    pub offset: usize,
}

impl Default for ListingQuery {
    fn default() -> (r: ListingQuery)
        ensures
            r.market is None,
            r.query is None,
            r.status is None,
            r.limit == 0,
            r.offset == 0,
    {
        ListingQuery { market: None, query: None, status: None, limit: 0, offset: 0 }
    }
}

/// The number of rows a read returns at most: `default` where none is asked
/// for (`limit == 0`).
pub fn limit_or(limit: usize, default: usize) -> (r: usize)
    ensures
        r == if limit == 0 {
            default
        } else {
            limit
        },
{
    if limit == 0 {
        default
    } else {
        limit
    }
}

/// The quote board returns 200 rows where none is asked for, and never more
/// than 2000.
pub fn board_limit(limit: usize) -> (r: usize)
    ensures
        r == if limit == 0 {
            200
        } else if limit > 2000 {
            2000
        } else {
            limit
        },
        1 <= r <= 2000,
{
    if limit == 0 {
        200
    } else if limit > 2000 {
        2000
    } else {
        limit
    }
}

/// `%text%`.
pub open spec fn like(t: Seq<char>) -> Seq<char> {
    seq!['%'] + t + seq!['%']
}

fn like_string(t: &[char]) -> (r: String)
    ensures
        r@ == like(t@),
{
    let mut v: Vec<char> = Vec::new();
    v.push('%');
    extend_chars(&mut v, t);
    v.push('%');
    assert(v@ =~= like(t@));
    string_of(v.as_slice())
}

/// The `LIKE` pattern of a quote-board search: none for a blank query, else
/// the trimmed query between `%` wildcards.
pub fn board_pattern(query: &Option<String>) -> (r: Option<String>)
    ensures
        match query {
            Some(q) => if trim(q@).len() == 0 {
                r is None
            } else {
                r matches Some(p) && p@ == like(trim(q@))
            },
            None => r is None,
        },
{
    match query {
        Some(q) => {
            let t = trim_str(q.as_str());
            if t.len() == 0 {
                None
            } else {
                Some(like_string(t.as_slice()))
            }
        },
        None => None,
    }
}

/// The `LIKE` pattern of a listing search: the trimmed query between `%`
/// wildcards (a blank query matches every listing).
pub fn listing_pattern(query: &Option<String>) -> (r: Option<String>)
    ensures
        match query {
            Some(q) => r matches Some(p) && p@ == like(trim(q@)),
            None => r is None,
        },
{
    match query {
        Some(q) => {
            let t = trim_str(q.as_str());
            Some(like_string(t.as_slice()))
        },
        None => None,
    }
}

/// The market code a query filters on.
pub fn market_filter(m: Option<Market>) -> (r: Option<String>)
    ensures
        match m {
            Some(m) => r matches Some(s) && s@ == market_code(m),
            None => r is None,
        },
{
    match m {
        Some(m) => Some(String::from_str(m.as_str())),
        None => None,
    }
}

/// A schema migration that has been applied.
#[derive(Debug, Clone)]
pub struct AppliedMigration {
    pub version: i64,
    pub name: String,
    pub applied_at: String,
}

/// Where the schema stands.
#[derive(Debug, Clone)]
pub struct MigrationStatus {
    pub current_version: i64,
    pub pending: Vec<String>,
    pub applied: Vec<AppliedMigration>,
}

/// The schema migrations, in the order they apply: version and name.
pub open spec fn migrations() -> Seq<(int, Seq<char>)> {
    seq![(1int, "001_init"@), (2int, "002_quote_turnover"@)]
}

/// The migrations newer than `current`, in the order they apply.
pub open spec fn pending_migrations(current: int) -> Seq<(int, Seq<char>)> {
    migrations().filter(|m: (int, Seq<char>)| m.0 > current)
}

/// The names of the migrations newer than `current`, in order.
pub open spec fn pending_after(current: int) -> Seq<Seq<char>> {
    pending_migrations(current).map_values(|m: (int, Seq<char>)| m.1)
}

/// The migrations newer than `current`, in the order they apply: version and name.
pub fn migrations_after(current: i64) -> (r: Vec<(i64, String)>)
    ensures
        r@.len() == pending_migrations(current as int).len(),
        forall|i: int|
            0 <= i < r@.len() ==> (#[trigger] r@[i]).0 == pending_migrations(current as int)[i].0
                && r@[i].1@ == pending_migrations(current as int)[i].1,
        r@.len() == pending_after(current as int).len(),
        forall|i: int|
            0 <= i < r@.len() ==> (#[trigger] r@[i]).1@ == pending_after(current as int)[i],
{
    let mut r: Vec<(i64, String)> = Vec::new();
    reveal_with_fuel(Seq::filter, 3);
    let ghost all = migrations();
    assert(all.take(0) =~= Seq::<(int, Seq<char>)>::empty());
    if 1 > current {
        r.push((1, String::from_str("001_init")));
    }
    assert(all.take(1) =~= seq![(1int, "001_init"@)]);
    if 2 > current {
        r.push((2, String::from_str("002_quote_turnover")));
    }
    assert(all.take(2) =~= all);
    assert(all.take(2).drop_last() =~= all.take(1));
    assert(all.take(1).drop_last() =~= all.take(0));
    r
}

/// The names of the migrations newer than `current`.
pub fn pending_names(current: i64) -> (r: Vec<String>)
    ensures
        r@.len() == pending_after(current as int).len(),
        forall|i: int| 0 <= i < r@.len() ==> (#[trigger] r@[i])@ == pending_after(current as int)[i],
{
    let all = migrations_after(current);
    let mut r: Vec<String> = Vec::new();
    let mut i: usize = 0;
    while i < all.len()
        invariant
            0 <= i <= all.len(),
            all@.len() == pending_after(current as int).len(),
            forall|j: int|
                0 <= j < all@.len() ==> (#[trigger] all@[j]).1@ == pending_after(current as int)[j],
            r@.len() == i,
            forall|j: int| 0 <= j < i ==> (#[trigger] r@[j])@ == pending_after(current as int)[j],
        decreases all.len() - i,
    {
        r.push(all[i].1.clone());
        i += 1;
    }
    r
}

/// Where the schema stands, given the applied migrations in version order:
/// the current version is the last one applied (0 for none), pending are the
/// newer migrations.
pub fn migration_status_of(applied: Vec<AppliedMigration>) -> (r: MigrationStatus)
    ensures
        r.current_version == if applied@.len() == 0 {
            0
        } else {
            applied@.last().version
        },
        r.pending@.len() == pending_after(r.current_version as int).len(),
        forall|i: int|
            0 <= i < r.pending@.len() ==> (#[trigger] r.pending@[i])@ == pending_after(
                r.current_version as int,
            )[i],
        r.applied@ == applied@,
{
    let current_version = if applied.len() == 0 {
        0
    } else {
        applied[applied.len() - 1].version
    };
    let pending = pending_names(current_version);
    MigrationStatus { current_version, pending, applied }
}

/// Once every migration is applied, none is pending.
pub proof fn law_latest_schema_has_nothing_pending(current: int)
    requires
        current >= 2,
    ensures
        pending_after(current).len() == 0,
{
    reveal_with_fuel(Seq::filter, 3);
    let all = migrations();
    assert(all.take(2) =~= all);
    assert(all.take(2).drop_last() =~= all.take(1));
    assert(all.take(1).drop_last() =~= all.take(0));
    assert(all.filter(|m: (int, Seq<char>)| m.0 > current) =~= Seq::<(int, Seq<char>)>::empty());
}

} // verus!
