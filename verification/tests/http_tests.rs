use getrich_core::error::AppError;
use getrich_core::http::{
    capabilities, envelope_err, envelope_err_code, envelope_ok, error_status, invoke_body, percent_decode,
    qparam, route, split_query, Asset, HttpMethod, Route,
};
use getrich_core::json::{JsonNumber, JsonValue};

fn render_http(v: &JsonValue) -> String {
    match v {
        JsonValue::Null => "null".to_string(),
        JsonValue::Bool(b) => b.to_string(),
        JsonValue::Number(JsonNumber::PosInt(u)) => u.to_string(),
        JsonValue::Number(JsonNumber::NegInt(i)) => i.to_string(),
        JsonValue::Number(JsonNumber::Float(s)) => s.clone(),
        JsonValue::Str(s) => format!("{:?}", s),
        JsonValue::Array(a) => {
            format!("[{}]", a.iter().map(render_http).collect::<Vec<_>>().join(","))
        }
        JsonValue::Object(e) => format!(
            "{{{}}}",
            e.iter()
                .map(|(k, v)| format!("{:?}:{}", k, render_http(v)))
                .collect::<Vec<_>>()
                .join(",")
        ),
    }
}

fn dispatch_of(r: Route) -> (String, String) {
    match r {
        Route::Dispatch(m, p) => (m, render_http(&p)),
        other => panic!("not a dispatch: {:?}", other),
    }
}

#[test]
fn split_query_at_first_question_mark() {
    assert_eq!(
        split_query("/v1/quotes?board=HK&limit=5"),
        ("/v1/quotes".to_string(), "board=HK&limit=5".to_string())
    );
    assert_eq!(split_query("/"), ("/".to_string(), String::new()));
    assert_eq!(split_query("/a?b?c"), ("/a".to_string(), "b?c".to_string()));
}

#[test]
fn qparam_finds_the_first_pair() {
    assert_eq!(qparam("board=HK&limit=5", "board").as_deref(), Some("HK"));
    assert_eq!(qparam("board=HK&limit=5", "limit").as_deref(), Some("5"));
    assert_eq!(qparam("a=1&a=2", "a").as_deref(), Some("1"));
    assert_eq!(qparam("flag&x=1", "flag"), None);
    assert_eq!(qparam("", "x"), None);
    assert_eq!(qparam("x=", "x").as_deref(), Some(""));
    assert_eq!(qparam("x=a=b", "x").as_deref(), Some("a=b"));
}

#[test]
fn qparam_decodes_values() {
    assert_eq!(qparam("q=%E8%8C%85%E5%8F%B0", "q").as_deref(), Some("茅台"));
    assert_eq!(qparam("q=a+b", "q").as_deref(), Some("a b"));
}

#[test]
fn percent_decode_cases() {
    assert_eq!(percent_decode("%41%4a"), "AJ");
    assert_eq!(percent_decode("%4"), "%4");
    assert_eq!(percent_decode("100%"), "100%");
    assert_eq!(percent_decode("%zz"), "%zz");
    assert_eq!(percent_decode("%+5"), "\u{5}");
    assert_eq!(percent_decode("%FF"), "\u{FFFD}");
    assert_eq!(percent_decode("plain text"), "plain text");
    assert_eq!(percent_decode("茅台"), "茅台");
}

#[test]
fn routes_static_files_and_meta() {
    assert!(matches!(route(HttpMethod::Get, "/"), Route::Asset(Asset::Index)));
    assert!(matches!(route(HttpMethod::Get, "/index.html?x"), Route::Asset(Asset::Index)));
    assert!(matches!(route(HttpMethod::Get, "/app.css"), Route::Asset(Asset::Css)));
    assert!(matches!(route(HttpMethod::Get, "/app.js"), Route::Asset(Asset::Js)));
    assert!(matches!(route(HttpMethod::Get, "/GetRich.ico"), Route::Asset(Asset::Icon)));
    assert!(matches!(route(HttpMethod::Get, "/v1/health"), Route::Health));
    assert!(matches!(route(HttpMethod::Get, "/v1/capabilities"), Route::Capabilities));
    assert!(matches!(route(HttpMethod::Get, "/v1/events"), Route::Events));
    assert!(matches!(route(HttpMethod::Post, "/v1/invoke"), Route::Invoke));
    assert!(matches!(route(HttpMethod::Options, "/anything"), Route::Preflight));
}

#[test]
fn routes_not_found() {
    assert!(matches!(route(HttpMethod::Get, "/nope?x=1"), Route::NotFound(p) if p == "/nope"));
    assert!(matches!(route(HttpMethod::Post, "/v1/quotes"), Route::NotFound(p) if p == "/v1/quotes"));
    assert!(matches!(route(HttpMethod::Other, "/"), Route::NotFound(p) if p == "/"));
}

#[test]
fn routes_stats_and_quotes() {
    let (m, p) = dispatch_of(route(HttpMethod::Get, "/v1/stats"));
    assert_eq!(m, "store.stats");
    assert_eq!(p, "{}");
    let (m, p) = dispatch_of(route(HttpMethod::Get, "/v1/quotes?board=HK&limit=5"));
    assert_eq!(m, "stock.list");
    assert_eq!(p, r#"{"board":"HK","query":"","sort":"symbol","limit":5,"offset":0}"#);
    let (_, p) = dispatch_of(route(
        HttpMethod::Get,
        "/v1/quotes?q=%E8%8C%85&query=x&sort=pct&limit=abc&offset=7",
    ));
    assert_eq!(p, r#"{"board":"ALL","query":"茅","sort":"pct","limit":200,"offset":7}"#);
    let (_, p) = dispatch_of(route(HttpMethod::Get, "/v1/quotes"));
    assert_eq!(p, r#"{"board":"ALL","query":"","sort":"symbol","limit":200,"offset":0}"#);
}

#[test]
fn routes_stock_paths() {
    let (m, p) = dispatch_of(route(HttpMethod::Get, "/v1/stocks/CN.SH/600519"));
    assert_eq!(m, "stock.show");
    assert_eq!(p, r#"{"market":"CN.SH","symbol":"600519"}"#);
    let (m, p) = dispatch_of(route(
        HttpMethod::Get,
        "/v1/stocks/US/AAPL/bars?timeframe=1w&limit=10",
    ));
    assert_eq!(m, "stock.bars");
    assert_eq!(
        p,
        r#"{"market":"US","symbol":"AAPL","timeframe":"1w","from":"","to":"","limit":10}"#
    );
    let (_, p) = dispatch_of(route(HttpMethod::Get, "/v1/stocks/HK/00700/bars"));
    assert_eq!(
        p,
        r#"{"market":"HK","symbol":"00700","timeframe":"1d","from":"","to":"","limit":500}"#
    );
    let (m, p) = dispatch_of(route(HttpMethod::Get, "/v1/stocks//v1/stocks/US/AAPL"));
    assert_eq!(m, "stock.show");
    assert_eq!(p, r#"{"market":"US","symbol":"AAPL"}"#);
    assert!(matches!(route(HttpMethod::Get, "/v1/stocks/AAPL"), Route::BadStockPath));
    assert!(matches!(route(HttpMethod::Get, "/v1/stocks/AAPL/bars"), Route::BadStockPath));
}

fn obj_http(entries: Vec<(&str, JsonValue)>) -> JsonValue {
    JsonValue::Object(entries.into_iter().map(|(k, v)| (k.to_string(), v)).collect())
}

#[test]
fn invoke_body_reads_method_and_params() {
    let body = obj_http(vec![
        ("method", JsonValue::Str("stock.list".to_string())),
        ("params", obj_http(vec![("board", JsonValue::Str("HK".to_string()))])),
    ]);
    let (m, p) = invoke_body(&body).unwrap();
    assert_eq!(m, "stock.list");
    assert_eq!(render_http(&p), r#"{"board":"HK"}"#);
    let (m, p) = invoke_body(&obj_http(vec![("method", JsonValue::Str("x".to_string()))])).unwrap();
    assert_eq!(m, "x");
    assert_eq!(render_http(&p), "{}");
}

#[test]
fn invoke_body_errors() {
    assert_eq!(invoke_body(&obj_http(vec![])).unwrap_err(), "missing method");
    assert_eq!(
        invoke_body(&obj_http(vec![("method", JsonValue::Number(JsonNumber::PosInt(5)))]))
            .unwrap_err(),
        "missing method"
    );
    assert_eq!(
        invoke_body(&obj_http(vec![
            ("_error", JsonValue::Str("boom".to_string())),
            ("method", JsonValue::Str("x".to_string())),
        ]))
        .unwrap_err(),
        "boom"
    );
    assert_eq!(invoke_body(&JsonValue::Null).unwrap_err(), "missing method");
}

#[test]
fn error_statuses() {
    assert_eq!(error_status(&AppError::NotFound("x".to_string())), 404);
    assert_eq!(error_status(&AppError::InvalidArg("x".to_string())), 400);
    assert_eq!(error_status(&AppError::UnknownMethod("x".to_string())), 400);
    assert_eq!(error_status(&AppError::Message("x".to_string())), 400);
}

#[test]
fn envelopes() {
    let ok = envelope_ok("stock.list", "T", JsonValue::Bool(true));
    assert_eq!(render_http(&ok), r#"{"ok":true,"cmd":"stock.list","ts":"T","data":true}"#);
    let err = envelope_err_code("stock.show", "T", "NOT_FOUND", "not found: US:X");
    assert_eq!(
        render_http(&err),
        r#"{"ok":false,"cmd":"stock.show","ts":"T","error":{"code":"NOT_FOUND","message":"not found: US:X"}}"#
    );
    let e2 = envelope_err("invoke", "T", "missing method");
    assert_eq!(
        render_http(&e2),
        r#"{"ok":false,"cmd":"invoke","ts":"T","error":{"code":"ERROR","message":"missing method"}}"#
    );
}

#[test]
fn capabilities_document() {
    let c = capabilities();
    let text = render_http(&c);
    assert!(text.starts_with(r#"{"transport":{"bind":"127.0.0.1:7878","env":"GETRICH_API_BIND","endpoints":["GET /","#));
    assert!(text.contains(r#"{"method":"quotes.list","params":{"board":"沪市"},"alias_of":"stock.list"}"#));
    assert!(text.contains(r#"{"method":"stock.list","params":{"board":"ALL","query":"","sort":"symbol","limit":200}}"#));
    assert!(text.ends_with(r#""events":["ingest.done","ping"]}"#));
    match c.get("methods") {
        Some(JsonValue::Array(m)) => assert_eq!(m.len(), 10),
        other => panic!("{:?}", other),
    }
}
