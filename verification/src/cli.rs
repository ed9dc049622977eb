//! The command line: its commands, the method call each one makes, and what
//! is written for a result or an error.

use vstd::prelude::*;
use crate::error::AppError;
use crate::http::{envelope_err_code, envelope_ok, err_envelope, error_body, ok_envelope};
use crate::invoke::{nonempty, plan, CallModel, PlanError};
use crate::json::{
    entry, lemma_key_pos_is, lemma_key_pos_none, obj_model, object, str_entry, u64_entry, Json,
    JsonValue, Num,
};
use crate::models::{timeframe_parse, Timeframe};

verus! {

/// How results are written: indented or not, and bare (without the
/// envelope) or not.
#[derive(Debug, Clone, Copy)]
pub struct OutputOptions {
    pub pretty: bool,
    pub quiet: bool,
}

/// Exit status of a command that succeeded.
pub const EXIT_OK: i32 = 0;

/// Exit status of a command that failed.
pub const EXIT_ERROR: i32 = 1;

/// `getrich api ...`: calls to a running API.
#[derive(Debug)]
pub enum ApiCmd {
    Health,
    Capabilities,
    Invoke { method: String, params: String },
}

/// `getrich db ...`.
#[derive(Debug, Clone, Copy, PartialEq, Eq, Structural)]
pub enum DbCmd {
    Migrate,
    Status,
}

/// `getrich import ... --file F`.
#[derive(Debug)]
pub enum ImportCmd {
    Bundle { file: String },
    Listings { file: String },
    Quotes { file: String },
    Bars { file: String },
}

/// `getrich stock ...`.
#[derive(Debug)]
pub enum StockCmd {
    List { board: Option<String>, query: Option<String>, sort: String, limit: usize },
    Show { symbol: String, market: Option<String> },
    Bars {
        symbol: String,
        market: Option<String>,
        timeframe: String,
        from: Option<String>,
        to: Option<String>,
        limit: usize,
    },
}

/// A command of the command line.
#[derive(Debug)]
pub enum Command {
    Version,
    Serve { bind: Option<String> },
    Api(ApiCmd),
    Db(DbCmd),
    Import(ImportCmd),
    Stock(StockCmd),
}

/// The name under which a command's failures are reported.
pub open spec fn command_name(c: Command) -> Seq<char> {
    match c {
        Command::Db(_) => "db"@,
        Command::Import(_) => "import"@,
        Command::Stock(_) => "stock"@,
        _ => "getrich"@,
    }
}

pub fn cmd_name(cmd: &Command) -> (r: &'static str)
    ensures
        r@ == command_name(*cmd),
{
    match cmd {
        Command::Db(_) => "db",
        Command::Import(_) => "import",
        Command::Stock(_) => "stock",
        _ => "getrich",
    }
}

/// A string, or `null` where there is none.
pub open spec fn opt_json(o: Option<String>) -> Json {
    match o {
        Some(s) => Json::Str(s@),
        None => Json::Null,
    }
}

pub open spec fn import_request(file: String, kind: Seq<char>) -> (Seq<char>, Json) {
    ("import.file"@, Json::Obj(seq![("path"@, Json::Str(file@)), ("kind"@, Json::Str(kind))]))
}

/// The method and parameters that a command calls, or the message of the
/// invalid-argument error it fails with.
pub open spec fn invoke_request(c: Command) -> Result<(Seq<char>, Json), Seq<char>> {
    match c {
        Command::Db(DbCmd::Migrate) => Ok(("db.migrate"@, Json::Obj(Seq::empty()))),
        Command::Db(DbCmd::Status) => Ok(("db.status"@, Json::Obj(Seq::empty()))),
        Command::Import(ImportCmd::Bundle { file }) => Ok(import_request(file, "bundle"@)),
        Command::Import(ImportCmd::Listings { file }) => Ok(import_request(file, "listings"@)),
        Command::Import(ImportCmd::Quotes { file }) => Ok(import_request(file, "quotes"@)),
        Command::Import(ImportCmd::Bars { file }) => Ok(import_request(file, "bars"@)),
        Command::Stock(StockCmd::List { board, query, sort, limit }) => Ok(
            (
                "stock.list"@,
                Json::Obj(
                    seq![
                        ("board"@, opt_json(board)),
                        ("query"@, opt_json(query)),
                        ("sort"@, Json::Str(sort@)),
                        ("limit"@, Json::Num(Num::PosInt(limit as u64))),
                    ],
                ),
            ),
        ),
        Command::Stock(StockCmd::Show { symbol, market }) => Ok(
            (
                "stock.show"@,
                Json::Obj(seq![("symbol"@, Json::Str(symbol@)), ("market"@, opt_json(market))]),
            ),
        ),
        Command::Stock(StockCmd::Bars { symbol, market, timeframe, from, to, limit }) => {
            match timeframe_parse(timeframe@) {
                Err(e) => Err(e),
                Ok(_) => Ok(
                    (
                        "stock.bars"@,
                        Json::Obj(
                            seq![
                                ("symbol"@, Json::Str(symbol@)),
                                ("market"@, opt_json(market)),
                                ("timeframe"@, Json::Str(timeframe@)),
                                ("from"@, opt_json(from)),
                                ("to"@, opt_json(to)),
                                ("limit"@, Json::Num(Num::PosInt(limit as u64))),
                            ],
                        ),
                    ),
                ),
            }
        },
        _ => Err("command not available here"@),
    }
}

fn opt_value(o: &Option<String>) -> (r: JsonValue)
    ensures
        r@ == opt_json(*o),
{
    match o {
        Some(s) => JsonValue::Str(s.clone()),
        None => JsonValue::Null,
    }
}

fn import_call(file: &String, kind: &str) -> (r: (String, JsonValue))
    ensures
        (r.0@, r.1@) == import_request(*file, kind@),
{
    let mut e: Vec<(String, JsonValue)> = Vec::new();
    e.push(str_entry("path", file.clone()));
    e.push(str_entry("kind", String::from_str(kind)));
    let ghost es = e@;
    let v = object(e);
    assert(obj_model(es) =~= import_request(*file, kind@).1->Obj_0);
    (String::from_str("import.file"), v)
}

/// The method call that a local or attached command makes.
pub fn cmd_to_invoke(cmd: &Command) -> (r: Result<(String, JsonValue), AppError>)
    ensures
        match (r, invoke_request(*cmd)) {
            (Ok((m, p)), Ok((m2, p2))) => m@ == m2 && p@ == p2,
            (Err(AppError::InvalidArg(e)), Err(e2)) => e@ == e2,
            _ => false,
        },
{
    match cmd {
        Command::Db(DbCmd::Migrate) => Ok((String::from_str("db.migrate"), object(Vec::new()))),
        Command::Db(DbCmd::Status) => Ok((String::from_str("db.status"), object(Vec::new()))),
        Command::Import(ImportCmd::Bundle { file }) => Ok(import_call(file, "bundle")),
        Command::Import(ImportCmd::Listings { file }) => Ok(import_call(file, "listings")),
        Command::Import(ImportCmd::Quotes { file }) => Ok(import_call(file, "quotes")),
        Command::Import(ImportCmd::Bars { file }) => Ok(import_call(file, "bars")),
        Command::Stock(StockCmd::List { board, query, sort, limit }) => {
            let mut e: Vec<(String, JsonValue)> = Vec::new();
            e.push(entry("board", opt_value(board)));
            e.push(entry("query", opt_value(query)));
            e.push(str_entry("sort", sort.clone()));
            e.push(u64_entry("limit", *limit as u64));
            let ghost es = e@;
            let v = object(e);
            assert(obj_model(es) =~= invoke_request(*cmd)->Ok_0.1->Obj_0);
            Ok((String::from_str("stock.list"), v))
        },
        Command::Stock(StockCmd::Show { symbol, market }) => {
            let mut e: Vec<(String, JsonValue)> = Vec::new();
            e.push(str_entry("symbol", symbol.clone()));
            e.push(entry("market", opt_value(market)));
            let ghost es = e@;
            let v = object(e);
            assert(obj_model(es) =~= invoke_request(*cmd)->Ok_0.1->Obj_0);
            Ok((String::from_str("stock.show"), v))
        },
        Command::Stock(StockCmd::Bars { symbol, market, timeframe, from, to, limit }) => {
            match Timeframe::parse(timeframe.as_str()) {
                Err(e) => {
                    return Err(AppError::InvalidArg(e));
                },
                Ok(_) => {},
            }
            let mut e: Vec<(String, JsonValue)> = Vec::new();
            e.push(str_entry("symbol", symbol.clone()));
            e.push(entry("market", opt_value(market)));
            e.push(str_entry("timeframe", timeframe.clone()));
            e.push(entry("from", opt_value(from)));
            e.push(entry("to", opt_value(to)));
            e.push(u64_entry("limit", *limit as u64));
            let ghost es = e@;
            let v = object(e);
            assert(obj_model(es) =~= invoke_request(*cmd)->Ok_0.1->Obj_0);
            Ok((String::from_str("stock.bars"), v))
        },
        _ => Err(AppError::InvalidArg(String::from_str("command not available here"))),
    }
}

/// What is written on success: the data alone when quiet, else the envelope.
pub fn ok_output(cmd: &str, ts: &str, data: JsonValue, opts: &OutputOptions) -> (r: JsonValue)
    ensures
        r@ == if opts.quiet {
            data@
        } else {
            ok_envelope(cmd@, ts@, data@)
        },
{
    if opts.quiet {
        data
    } else {
        envelope_ok(cmd, ts, data)
    }
}

/// What is written on failure: the error object alone when quiet, else the
/// envelope around it.
pub fn error_output(cmd: &str, ts: &str, code: &str, message: &str, opts: &OutputOptions) -> (r:
    JsonValue)
    ensures
        r@ == if opts.quiet {
            error_body(code@, message@)
        } else {
            err_envelope(cmd@, ts@, code@, message@)
        },
{
    if opts.quiet {
        let mut e: Vec<(String, JsonValue)> = Vec::new();
        e.push(str_entry("code", String::from_str(code)));
        e.push(str_entry("message", String::from_str(message)));
        let ghost es = e@;
        let v = object(e);
        assert(obj_model(es) =~= seq![("code"@, Json::Str(code@)), ("message"@, Json::Str(message@))]);
        v
    } else {
        envelope_err_code(cmd, ts, code, message)
    }
}

/// A given text where it is not empty.
pub open spec fn given(o: Option<String>) -> Option<Seq<char>> {
    match o {
        Some(s) => nonempty(s@),
        None => None,
    }
}

/// `getrich stock list` asks the method interface for the quote board with
/// its board, search and sort (empty ones counting as absent), its limit and
/// the first page.
pub proof fn law_cli_list_plan(board: Option<String>, query: Option<String>, sort: String, limit: usize)
    ensures
        ({
            let c = Command::Stock(StockCmd::List { board, query, sort, limit });
            &&& invoke_request(c) is Ok
            &&& plan(invoke_request(c)->Ok_0.0, invoke_request(c)->Ok_0.1) == Ok::<
                CallModel,
                PlanError,
            >(CallModel::QuoteBoard(given(board), given(query), nonempty(sort@), limit as u64, 0))
        }),
{
    reveal_strlit("stock.list");
    reveal_strlit("system.version");
    reveal_strlit("db.migrate");
    reveal_strlit("db.status");
    reveal_strlit("store.stats");
    reveal_strlit("board");
    reveal_strlit("query");
    reveal_strlit("sort");
    reveal_strlit("limit");
    reveal_strlit("offset");
    reveal_strlit("q");
    let c = Command::Stock(StockCmd::List { board, query, sort, limit });
    let es = invoke_request(c)->Ok_0.1->Obj_0;
    assert("board"@[0] != "query"@[0] && "board"@[0] != "sort"@[0] && "query"@[0] != "sort"@[0]);
    assert("board"@.len() == 5 && "query"@.len() == 5 && "sort"@.len() == 4 && "limit"@.len() == 5);
    assert("offset"@.len() == 6 && "q"@.len() == 1 && "limit"@[0] != "board"@[0]);
    assert("limit"@[0] != "query"@[0]);
    lemma_key_pos_is(es, "board"@, 0);
    lemma_key_pos_is(es, "query"@, 1);
    lemma_key_pos_is(es, "sort"@, 2);
    lemma_key_pos_is(es, "limit"@, 3);
    assert forall|j: int| 0 <= j < es.len() implies es[j].0 != "q"@ && es[j].0 != "offset"@ by {
        assert(es[j].0.len() > 1 && es[j].0.len() < 6);
    }
    lemma_key_pos_none(es, "q"@);
    lemma_key_pos_none(es, "offset"@);
    assert("stock.list"@.len() == 10 && "system.version"@.len() == 14);
    assert("db.status"@.len() == 9 && "store.stats"@.len() == 11);
    assert("stock.list"@[0] != "db.migrate"@[0]);
}

} // verus!
