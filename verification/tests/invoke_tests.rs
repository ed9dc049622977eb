use getrich_core::cli::{cmd_to_invoke, Command, StockCmd};
use getrich_core::error::AppError;
use getrich_core::http::{route, HttpMethod, Route};
use getrich_core::import::ImportKind;
use getrich_core::invoke::{plan_invoke, version_info, InvokeCall};
use getrich_core::json::{JsonNumber, JsonValue};
use getrich_core::models::{Market, Timeframe};
use getrich_core::{APP_NAME, VERSION};

fn obj_inv(entries: Vec<(&str, JsonValue)>) -> JsonValue {
    JsonValue::Object(entries.into_iter().map(|(k, v)| (k.to_string(), v)).collect())
}

fn s(v: &str) -> JsonValue {
    JsonValue::Str(v.to_string())
}

fn invalid_arg(r: Result<InvokeCall, AppError>) -> String {
    match r {
        Err(AppError::InvalidArg(m)) => m,
        other => panic!("expected an invalid argument, got {:?}", other),
    }
}

#[test]
fn plans_simple_methods() {
    assert!(matches!(plan_invoke("system.version", &obj_inv(vec![])), Ok(InvokeCall::Version)));
    assert!(matches!(plan_invoke("db.migrate", &obj_inv(vec![])), Ok(InvokeCall::Migrate)));
    assert!(matches!(plan_invoke("db.status", &JsonValue::Null), Ok(InvokeCall::DbStatus)));
    assert!(matches!(plan_invoke("store.stats", &obj_inv(vec![])), Ok(InvokeCall::Stats)));
}

#[test]
fn plans_quote_board_defaults() {
    match plan_invoke("stock.list", &obj_inv(vec![])).unwrap() {
        InvokeCall::QuoteBoard { board, query, sort, limit, offset } => {
            assert!(board.is_none() && query.is_none() && sort.is_none());
            assert_eq!(limit, 200);
            assert_eq!(offset, 0);
        }
        other => panic!("{:?}", other),
    }
}

#[test]
fn plans_quote_board_params() {
    let p = obj_inv(vec![
        ("board", s("沪市")),
        ("q", s("茅台")),
        ("sort", s("")),
        ("limit", JsonValue::Number(JsonNumber::PosInt(5))),
        ("offset", JsonValue::Number(JsonNumber::NegInt(-1))),
    ]);
    match plan_invoke("quotes.list", &p).unwrap() {
        InvokeCall::QuoteBoard { board, query, sort, limit, offset } => {
            assert_eq!(board.as_deref(), Some("沪市"));
            assert_eq!(query.as_deref(), Some("茅台"));
            assert!(sort.is_none());
            assert_eq!(limit, 5);
            assert_eq!(offset, 0);
        }
        other => panic!("{:?}", other),
    }
}

#[test]
fn plans_show_and_its_errors() {
    match plan_invoke("stock.show", &obj_inv(vec![("symbol", s("600519"))])).unwrap() {
        InvokeCall::ShowStock(k) => {
            assert_eq!(k.symbol, "600519");
            assert_eq!(k.market, Market::CnSh);
        }
        other => panic!("{:?}", other),
    }
    assert_eq!(invalid_arg(plan_invoke("stock.show", &obj_inv(vec![]))), "missing symbol");
    assert_eq!(
        invalid_arg(plan_invoke("stock.show", &obj_inv(vec![("symbol", s(""))]))),
        "missing symbol"
    );
    assert_eq!(
        invalid_arg(plan_invoke(
            "stock.show",
            &obj_inv(vec![("symbol", s("XX")), ("market", s("CN"))])
        )),
        "ambiguous market CN; use CN.SH, CN.SZ, or CN.BJ"
    );
}

#[test]
fn plans_bars_and_its_errors() {
    match plan_invoke("stock.bars", &obj_inv(vec![("symbol", s("AAPL")), ("market", s("US"))])).unwrap() {
        InvokeCall::Bars { key, timeframe, from, to, limit } => {
            assert_eq!(key.symbol, "AAPL");
            assert_eq!(key.market, Market::Us);
            assert_eq!(timeframe, Timeframe::D1);
            assert!(from.is_none() && to.is_none());
            assert_eq!(limit, 500);
        }
        other => panic!("{:?}", other),
    }
    assert_eq!(
        invalid_arg(plan_invoke(
            "stock.bars",
            &obj_inv(vec![("symbol", s("AAPL")), ("timeframe", s("2y"))])
        )),
        "unknown timeframe: 2y"
    );
    assert_eq!(
        invalid_arg(plan_invoke("stock.bars", &obj_inv(vec![("symbol", s("!!"))]))),
        "invalid US symbol: !!"
    );
}

#[test]
fn plans_imports_and_their_errors() {
    match plan_invoke("import.file", &obj_inv(vec![("path", s("a.json")), ("kind", s(" Quote "))])).unwrap() {
        InvokeCall::ImportFile { path, kind } => {
            assert_eq!(path, "a.json");
            assert_eq!(kind, ImportKind::Quotes);
        }
        other => panic!("{:?}", other),
    }
    assert_eq!(invalid_arg(plan_invoke("import.file", &obj_inv(vec![]))), "missing path");
    assert_eq!(
        invalid_arg(plan_invoke("import.file", &obj_inv(vec![("path", s("a")), ("kind", s("x"))]))),
        "unknown import kind: x"
    );
    assert_eq!(
        invalid_arg(plan_invoke("import.json", &obj_inv(vec![("kind", s("bars"))]))),
        "missing data"
    );
    match plan_invoke("import.json", &obj_inv(vec![("data", obj_inv(vec![]))])).unwrap() {
        InvokeCall::ImportJson { kind, data } => {
            assert_eq!(kind, ImportKind::Bundle);
            assert!(matches!(data, JsonValue::Object(e) if e.is_empty()));
        }
        other => panic!("{:?}", other),
    }
}

#[test]
fn unknown_methods_are_refused() {
    match plan_invoke("nope", &obj_inv(vec![])) {
        Err(e) => {
            assert_eq!(e.code(), "UNKNOWN_METHOD");
            assert_eq!(e.message(), "unknown method: nope");
        }
        other => panic!("{:?}", other),
    }
}

#[test]
fn version_answer() {
    let v = version_info();
    assert!(matches!(v.get("name"), Some(JsonValue::Str(n)) if n == APP_NAME));
    assert!(matches!(v.get("version"), Some(JsonValue::Str(n)) if n == VERSION));
    assert!(matches!(v.get("edition"), Some(JsonValue::Str(n)) if n == "rust"));
    assert_eq!(APP_NAME, "getrich");
    assert_eq!(VERSION, "0.1.0");
}

#[test]
fn quotes_route_and_method_agree() {
    let (m, p) = match route(HttpMethod::Get, "/v1/quotes?board=%E6%B2%AA%E5%B8%82&q=&limit=5&offset=10") {
        Route::Dispatch(m, p) => (m, p),
        other => panic!("{:?}", other),
    };
    match plan_invoke(&m, &p).unwrap() {
        InvokeCall::QuoteBoard { board, query, sort, limit, offset } => {
            assert_eq!(board.as_deref(), Some("沪市"));
            assert!(query.is_none());
            assert_eq!(sort.as_deref(), Some("symbol"));
            assert_eq!((limit, offset), (5, 10));
        }
        other => panic!("{:?}", other),
    }
}

#[test]
fn cli_list_and_method_agree() {
    let cmd = Command::Stock(StockCmd::List {
        board: Some("HK".to_string()),
        query: Some(String::new()),
        sort: "pct".to_string(),
        limit: 30,
    });
    let (m, p) = cmd_to_invoke(&cmd).unwrap();
    match plan_invoke(&m, &p).unwrap() {
        InvokeCall::QuoteBoard { board, query, sort, limit, offset } => {
            assert_eq!(board.as_deref(), Some("HK"));
            assert!(query.is_none());
            assert_eq!(sort.as_deref(), Some("pct"));
            assert_eq!((limit, offset), (30, 0));
        }
        other => panic!("{:?}", other),
    }
}
