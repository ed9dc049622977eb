//! The JSON method interface shared by the CLI and the HTTP API: which call
//! a method name and its parameters ask for, checked before anything runs.

use vstd::prelude::*;
use crate::error::AppError;
use crate::import::{kind_named, parse_kind, ImportKind};
use crate::http::{param, param_or, quotes_params, u64_param_or};
use crate::json::{
    json_get, lemma_key_pos_is, lemma_key_pos_none, obj_model, object, str_entry, Json, JsonValue,
    Num,
};
use crate::models::{opt_view, timeframe_parse, InstrumentKey, Market, Timeframe};
use crate::symbol::{instrument, parse_instrument};
use crate::text::{chars_of, eq_lit};
use crate::{APP_NAME, VERSION};

verus! {

/// A call that the method interface makes of the application.
#[derive(Debug)]
pub enum InvokeCall {
    /// `system.version`.
    Version,
    /// `db.migrate`.
    Migrate,
    /// `db.status`.
    DbStatus,
    /// `store.stats`.
    Stats,
    /// `stock.list` / `quotes.list`.
    QuoteBoard {
        board: Option<String>,
        query: Option<String>,
        sort: Option<String>,
        limit: u64,
        offset: u64,
    },
    /// `stock.show`.
    ShowStock(InstrumentKey),
    /// `stock.bars`.
    Bars {
        key: InstrumentKey,
        timeframe: Timeframe,
        from: Option<String>,
        to: Option<String>,
        limit: u64,
    },
    /// `import.file`.
    ImportFile { path: String, kind: ImportKind },
    /// `import.json`.
    ImportJson { kind: ImportKind, data: JsonValue },
}

/// A call as a mathematical value.
pub enum CallModel {
    Version,
    Migrate,
    DbStatus,
    Stats,
    QuoteBoard(Option<Seq<char>>, Option<Seq<char>>, Option<Seq<char>>, u64, u64),
    ShowStock(Seq<char>, Market),
    Bars(Seq<char>, Market, Timeframe, Option<Seq<char>>, Option<Seq<char>>, u64),
    ImportFile(Seq<char>, ImportKind),
    ImportJson(ImportKind, Json),
}

/// Why a call was refused.
pub enum PlanError {
    UnknownMethod(Seq<char>),
    InvalidArg(Seq<char>),
}

pub open spec fn call_model(c: InvokeCall) -> CallModel {
    match c {
        InvokeCall::Version => CallModel::Version,
        InvokeCall::Migrate => CallModel::Migrate,
        InvokeCall::DbStatus => CallModel::DbStatus,
        InvokeCall::Stats => CallModel::Stats,
        InvokeCall::QuoteBoard { board, query, sort, limit, offset } => CallModel::QuoteBoard(
            opt_view(board),
            opt_view(query),
            opt_view(sort),
            limit,
            offset,
        ),
        InvokeCall::ShowStock(k) => CallModel::ShowStock(k.symbol@, k.market),
        InvokeCall::Bars { key, timeframe, from, to, limit } => CallModel::Bars(
            key.symbol@,
            key.market,
            timeframe,
            opt_view(from),
            opt_view(to),
            limit,
        ),
        InvokeCall::ImportFile { path, kind } => CallModel::ImportFile(path@, kind),
        InvokeCall::ImportJson { kind, data } => CallModel::ImportJson(kind, data@),
    }
}

/// A string parameter; an empty string counts as absent.
pub open spec fn text_param(p: Json, key: Seq<char>) -> Option<Seq<char>> {
    match json_get(p, key) {
        Some(Json::Str(s)) => if s.len() > 0 {
            Some(s)
        } else {
            None
        },
        _ => None,
    }
}

/// A non-negative integer parameter.
pub open spec fn count_param(p: Json, key: Seq<char>) -> Option<u64> {
    match json_get(p, key) {
        Some(Json::Num(Num::PosInt(u))) => Some(u),
        Some(Json::Num(Num::NegInt(i))) => if i >= 0 {
            Some(i as u64)
        } else {
            None
        },
        _ => None,
    }
}

pub open spec fn count_or(p: Json, key: Seq<char>, dflt: u64) -> u64 {
    match count_param(p, key) {
        Some(n) => n,
        None => dflt,
    }
}

pub open spec fn text_or(p: Json, key: Seq<char>, dflt: Seq<char>) -> Seq<char> {
    match text_param(p, key) {
        Some(s) => s,
        None => dflt,
    }
}

/// The call that method `method` with parameters `p` asks for, or why it is
/// refused.
pub open spec fn plan(method: Seq<char>, p: Json) -> Result<CallModel, PlanError> {
    if method == "system.version"@ {
        Ok(CallModel::Version)
    } else if method == "db.migrate"@ {
        Ok(CallModel::Migrate)
    } else if method == "db.status"@ {
        Ok(CallModel::DbStatus)
    } else if method == "store.stats"@ {
        Ok(CallModel::Stats)
    } else if method == "stock.list"@ || method == "quotes.list"@ {
        Ok(
            CallModel::QuoteBoard(
                text_param(p, "board"@),
                match text_param(p, "query"@) {
                    Some(q) => Some(q),
                    None => text_param(p, "q"@),
                },
                text_param(p, "sort"@),
                count_or(p, "limit"@, 200),
                count_or(p, "offset"@, 0),
            ),
        )
    } else if method == "stock.show"@ {
        match text_param(p, "symbol"@) {
            None => Err(PlanError::InvalidArg("missing symbol"@)),
            Some(sym) => match instrument(sym, text_param(p, "market"@)) {
                Ok((s, m)) => Ok(CallModel::ShowStock(s, m)),
                Err(e) => Err(PlanError::InvalidArg(e)),
            },
        }
    } else if method == "stock.bars"@ {
        match text_param(p, "symbol"@) {
            None => Err(PlanError::InvalidArg("missing symbol"@)),
            Some(sym) => match instrument(sym, text_param(p, "market"@)) {
                Err(e) => Err(PlanError::InvalidArg(e)),
                Ok((s, m)) => match timeframe_parse(text_or(p, "timeframe"@, "1d"@)) {
                    Err(e) => Err(PlanError::InvalidArg(e)),
                    Ok(tf) => Ok(
                        CallModel::Bars(
                            s,
                            m,
                            tf,
                            text_param(p, "from"@),
                            text_param(p, "to"@),
                            count_or(p, "limit"@, 500),
                        ),
                    ),
                },
            },
        }
    } else if method == "import.file"@ {
        match text_param(p, "path"@) {
            None => Err(PlanError::InvalidArg("missing path"@)),
            Some(path) => match kind_named(text_or(p, "kind"@, "bundle"@)) {
                Ok(k) => Ok(CallModel::ImportFile(path, k)),
                Err(e) => Err(PlanError::InvalidArg(e)),
            },
        }
    } else if method == "import.json"@ {
        match kind_named(text_or(p, "kind"@, "bundle"@)) {
            Err(e) => Err(PlanError::InvalidArg(e)),
            Ok(k) => match json_get(p, "data"@) {
                None => Err(PlanError::InvalidArg("missing data"@)),
                Some(d) => Ok(CallModel::ImportJson(k, d)),
            },
        }
    } else {
        Err(PlanError::UnknownMethod(method))
    }
}

/// `r` is the outcome that `s` describes.
pub open spec fn plan_result(r: Result<InvokeCall, AppError>, s: Result<CallModel, PlanError>) -> bool {
    match (r, s) {
        (Ok(c), Ok(m)) => call_model(c) == m,
        (Err(AppError::InvalidArg(e)), Err(PlanError::InvalidArg(m))) => e@ == m,
        (Err(AppError::UnknownMethod(e)), Err(PlanError::UnknownMethod(m))) => e@ == m,
        _ => false,
    }
}

/// A non-empty string parameter.
fn str_param(params: &JsonValue, key: &str) -> (r: Option<String>)
    ensures
        opt_view(r) == text_param(params@, key@),
{
    match params.get(key) {
        Some(JsonValue::Str(s)) => if !s.as_str().is_empty() {
            Some(s.clone())
        } else {
            None
        },
        _ => None,
    }
}

/// A non-negative integer parameter.
fn u_param(params: &JsonValue, key: &str) -> (r: Option<u64>)
    ensures
        r == count_param(params@, key@),
{
    match params.get(key) {
        Some(JsonValue::Number(crate::json::JsonNumber::PosInt(u))) => Some(*u),
        Some(JsonValue::Number(crate::json::JsonNumber::NegInt(i))) => if *i >= 0 {
            Some(*i as u64)
        } else {
            None
        },
        _ => None,
    }
}

fn u_param_or(params: &JsonValue, key: &str, dflt: u64) -> (r: u64)
    ensures
        r == count_or(params@, key@, dflt),
{
    match u_param(params, key) {
        Some(n) => n,
        None => dflt,
    }
}

fn key_of(symbol: &String, market: &Option<String>) -> (r: Result<InstrumentKey, AppError>)
    ensures
        match instrument(symbol@, opt_view(*market)) {
            Ok((s, m)) => r matches Ok(k) && k.symbol@ == s && k.market == m,
            Err(e) => r matches Err(AppError::InvalidArg(x)) && x@ == e,
        },
{
    let hint = match market {
        Some(m) => Some(m.as_str()),
        None => None,
    };
    match parse_instrument(symbol.as_str(), hint) {
        Ok(k) => Ok(k),
        Err(e) => Err(AppError::InvalidArg(e)),
    }
}

/// Checks a method call and says which call of the application it asks for.
pub fn plan_invoke(method: &str, params: &JsonValue) -> (r: Result<InvokeCall, AppError>)
    ensures
        plan_result(r, plan(method@, params@)),
{
    let mc = chars_of(method);
    let m = mc.as_slice();
    if eq_lit(m, "system.version") {
        Ok(InvokeCall::Version)
    } else if eq_lit(m, "db.migrate") {
        Ok(InvokeCall::Migrate)
    } else if eq_lit(m, "db.status") {
        Ok(InvokeCall::DbStatus)
    } else if eq_lit(m, "store.stats") {
        Ok(InvokeCall::Stats)
    } else if eq_lit(m, "stock.list") || eq_lit(m, "quotes.list") {
        let query = match str_param(params, "query") {
            Some(q) => Some(q),
            None => str_param(params, "q"),
        };
        Ok(
            InvokeCall::QuoteBoard {
                board: str_param(params, "board"),
                query,
                sort: str_param(params, "sort"),
                limit: u_param_or(params, "limit", 200),
                offset: u_param_or(params, "offset", 0),
            },
        )
    } else if eq_lit(m, "stock.show") {
        let symbol = match str_param(params, "symbol") {
            Some(s) => s,
            None => {
                return Err(AppError::InvalidArg(String::from_str("missing symbol")));
            },
        };
        let market = str_param(params, "market");
        match key_of(&symbol, &market) {
            Ok(k) => Ok(InvokeCall::ShowStock(k)),
            Err(e) => Err(e),
        }
    } else if eq_lit(m, "stock.bars") {
        let symbol = match str_param(params, "symbol") {
            Some(s) => s,
            None => {
                return Err(AppError::InvalidArg(String::from_str("missing symbol")));
            },
        };
        let market = str_param(params, "market");
        let key = match key_of(&symbol, &market) {
            Ok(k) => k,
            Err(e) => {
                return Err(e);
            },
        };
        let tf_name = match str_param(params, "timeframe") {
            Some(t) => t,
            None => String::from_str("1d"),
        };
        let timeframe = match Timeframe::parse(tf_name.as_str()) {
            Ok(t) => t,
            Err(e) => {
                return Err(AppError::InvalidArg(e));
            },
        };
        Ok(
            InvokeCall::Bars {
                key,
                timeframe,
                from: str_param(params, "from"),
                to: str_param(params, "to"),
                limit: u_param_or(params, "limit", 500),
            },
        )
    } else if eq_lit(m, "import.file") {
        let path = match str_param(params, "path") {
            Some(p) => p,
            None => {
                return Err(AppError::InvalidArg(String::from_str("missing path")));
            },
        };
        let kind_name = match str_param(params, "kind") {
            Some(k) => k,
            None => String::from_str("bundle"),
        };
        match parse_kind(kind_name.as_str()) {
            Ok(kind) => Ok(InvokeCall::ImportFile { path, kind }),
            Err(e) => Err(e),
        }
    } else if eq_lit(m, "import.json") {
        let kind_name = match str_param(params, "kind") {
            Some(k) => k,
            None => String::from_str("bundle"),
        };
        let kind = match parse_kind(kind_name.as_str()) {
            Ok(k) => k,
            Err(e) => {
                return Err(e);
            },
        };
        match params.get("data") {
            Some(d) => Ok(InvokeCall::ImportJson { kind, data: d.copy() }),
            None => Err(AppError::InvalidArg(String::from_str("missing data"))),
        }
    } else {
        Err(AppError::UnknownMethod(String::from_str(method)))
    }
}

/// What `system.version` answers.
pub open spec fn version_json() -> Json {
    Json::Obj(
        seq![
            ("name"@, Json::Str(APP_NAME@)),
            ("version"@, Json::Str(VERSION@)),
            ("edition"@, Json::Str("rust"@)),
        ],
    )
}

/// The answer of `system.version`: name, version and edition.
pub fn version_info() -> (r: JsonValue)
    ensures
        r@ == version_json(),
{
    let mut e: Vec<(String, JsonValue)> = Vec::new();
    e.push(str_entry("name", String::from_str(APP_NAME)));
    e.push(str_entry("version", String::from_str(VERSION)));
    e.push(str_entry("edition", String::from_str("rust")));
    let ghost es = e@;
    let r = object(e);
    assert(obj_model(es) =~= version_json()->Obj_0);
    r
}

/// A text where it is not empty.
pub open spec fn nonempty(s: Seq<char>) -> Option<Seq<char>> {
    if s.len() > 0 {
        Some(s)
    } else {
        None
    }
}

/// `GET /v1/quotes` asks for the quote board with the board, search, sort,
/// limit and offset of its query string (a blank one counting as absent),
/// the same call that `stock.list` with those parameters makes.
pub proof fn law_quotes_route_plan(q: Seq<char>)
    ensures
        plan("stock.list"@, quotes_params(q)) == Ok::<CallModel, PlanError>(
            CallModel::QuoteBoard(
                nonempty(param_or(q, "board"@, "ALL"@)),
                nonempty(
                    match param(q, "q"@) {
                        Some(v) => v,
                        None => param_or(q, "query"@, Seq::empty()),
                    },
                ),
                nonempty(param_or(q, "sort"@, "symbol"@)),
                u64_param_or(q, "limit"@, 200),
                u64_param_or(q, "offset"@, 0),
            ),
        ),
{
    reveal_strlit("stock.list");
    reveal_strlit("system.version");
    reveal_strlit("db.migrate");
    reveal_strlit("db.status");
    reveal_strlit("store.stats");
    reveal_strlit("board");
    reveal_strlit("query");
    reveal_strlit("sort");
    reveal_strlit("limit");
    reveal_strlit("offset");
    reveal_strlit("q");
    let es = quotes_params(q)->Obj_0;
    assert("board"@[0] != "query"@[0] && "board"@[0] != "sort"@[0] && "query"@[0] != "sort"@[0]);
    assert("board"@.len() == 5 && "query"@.len() == 5 && "sort"@.len() == 4 && "limit"@.len() == 5);
    assert("offset"@.len() == 6 && "q"@.len() == 1 && "limit"@[0] != "board"@[0]);
    assert("limit"@[0] != "query"@[0]);
    lemma_key_pos_is(es, "board"@, 0);
    lemma_key_pos_is(es, "query"@, 1);
    lemma_key_pos_is(es, "sort"@, 2);
    lemma_key_pos_is(es, "limit"@, 3);
    lemma_key_pos_is(es, "offset"@, 4);
    assert forall|j: int| 0 <= j < es.len() implies es[j].0 != "q"@ by {
        assert(es[j].0.len() > 1);
    }
    lemma_key_pos_none(es, "q"@);
    assert("stock.list"@.len() == 10 && "system.version"@.len() == 14);
    assert("db.status"@.len() == 9 && "store.stats"@.len() == 11);
    assert("stock.list"@[0] != "db.migrate"@[0]);
}

} // verus!
