use getrich_core::csv::{csv_listings, csv_rows, split_csv_line};
use getrich_core::error::AppError;
use getrich_core::import::{
    bar_meta, bundle_kind, csv_kind, errors_detail, group_by_listing, import_payload,
    ingest_report, keyed_error, parse_kind, quote_meta, run_status, ImportKind, IngestTally,
    RowOutcome,
};
use getrich_core::json::{JsonNumber, JsonValue};
use getrich_core::models::{InstrumentKey, Market, Timeframe};
use getrich_core::time::{bar_ts_key, parse_ts, Timestamp};

#[test]
fn csv_listings_parse() {
    let csv = "symbol,market,name\n600519,CN.SH,贵州茅台\n";
    let listings = csv_listings(csv).unwrap();
    assert_eq!(listings.len(), 1);
    assert_eq!(listings[0].name.as_deref(), Some("贵州茅台"));
}

#[test]
fn csv_rows_and_quoted_fields() {
    let line: Vec<char> = r#" a , "b,c" ,"say ""hi""",, "#.chars().collect();
    assert_eq!(split_csv_line(&line), vec!["a", "b,c", "say \"hi\"", "", ""]);
    let plain: Vec<char> = "x, y ,z".chars().collect();
    assert_eq!(split_csv_line(&plain), vec!["x", "y", "z"]);
    let (h, rows) = csv_rows("Symbol,Name\r\n\r\nAAPL,Apple\n  \nMSFT\n").unwrap();
    assert_eq!(h, vec!["Symbol", "Name"]);
    assert_eq!(rows.len(), 2);
    assert_eq!(rows[1], vec!["MSFT"]);
}

#[test]
fn csv_errors() {
    assert!(matches!(csv_rows(" \n \n"), Err(AppError::InvalidArg(m)) if m == "CSV is empty"));
    assert!(matches!(csv_listings("name\nx\n"), Ok(v) if v.is_empty()));
    assert!(matches!(
        csv_kind(ImportKind::Bundle),
        Err(AppError::InvalidArg(m)) if m == "CSV import requires listings, quotes, or bars (not bundle)"
    ));
    assert_eq!(csv_kind(ImportKind::Bars).unwrap(), ImportKind::Bars);
}

#[test]
fn import_kinds() {
    assert_eq!(parse_kind(" Listing ").unwrap(), ImportKind::Listings);
    assert!(matches!(parse_kind("xml"), Err(AppError::InvalidArg(m)) if m == "unknown import kind: xml"));
    assert_eq!(ImportKind::Quotes.as_str(), "quotes");
    assert_eq!(bundle_kind(2, 0, 0), "listings");
    assert_eq!(bundle_kind(0, 0, 4), "bars");
    assert_eq!(bundle_kind(1, 1, 0), "bundle");
    assert_eq!(bundle_kind(0, 0, 0), "bundle");
    assert_eq!(run_status(0), "ok");
    assert_eq!(run_status(2), "partial");
}

#[test]
fn payload_of_one_kind() {
    let rows = JsonValue::Array(vec![JsonValue::Null]);
    let doc = JsonValue::Object(vec![("bars".to_string(), JsonValue::Array(vec![]))]);
    assert!(matches!(import_payload(&rows, ImportKind::Quotes), JsonValue::Array(a) if a.len() == 1));
    assert!(matches!(import_payload(&doc, ImportKind::Bars), JsonValue::Array(a) if a.is_empty()));
    assert!(matches!(import_payload(&doc, ImportKind::Quotes), JsonValue::Object(_)));
    assert!(matches!(import_payload(&doc, ImportKind::Bundle), JsonValue::Object(_)));
}

#[test]
fn groups_rows_by_listing() {
    let g = group_by_listing(&[5, 7, 5, 9, 7]);
    assert_eq!(g, vec![(5, vec![0, 2]), (7, vec![1, 4]), (9, vec![3])]);
    assert!(group_by_listing(&[]).is_empty());
}

#[test]
fn run_reports() {
    let key = InstrumentKey::new("AAPL".to_string(), Market::Us);
    assert_eq!(keyed_error(&key, "boom"), "US:AAPL: boom");
    let r = ingest_report(4, "bundle", "test", 1, 2, 3, vec![]);
    assert_eq!(r.status, "ok");
    assert_eq!((r.instruments_upserted, r.bars_upserted, r.quotes_upserted), (1, 2, 3));
    let r = ingest_report(4, "quotes", "test", 0, 0, 0, vec!["x".to_string()]);
    assert_eq!(r.status, "partial");
    let d = errors_detail(&vec!["a".to_string(), "b".to_string()]);
    match d.get("errors") {
        Some(JsonValue::Array(a)) => {
            assert_eq!(a.len(), 2);
            assert!(matches!(&a[1], JsonValue::Str(s) if s == "b"));
        }
        other => panic!("{:?}", other),
    }
    assert!(!matches!(d, JsonValue::Number(JsonNumber::PosInt(_))));
}

#[test]
fn timestamps() {
    assert_eq!(parse_ts("2024-01-02T21:00:00Z").unwrap(), Timestamp { secs: 1704229200, nanos: 0 });
    assert_eq!(parse_ts(" 2024-01-02 ").unwrap(), Timestamp { secs: 1704153600, nanos: 0 });
    assert_eq!(parse_ts("2024-01-02 10:30:00").unwrap(), Timestamp { secs: 1704191400, nanos: 0 });
    assert_eq!(parse_ts("2024-01-02T21:00:00+08:00").unwrap().secs, 1704200400);
    assert_eq!(
        parse_ts("yesterday").unwrap_err(),
        "invalid timestamp (use RFC3339 or YYYY-MM-DD): yesterday"
    );
}

#[test]
fn bar_keys() {
    assert_eq!(bar_ts_key(Timestamp { secs: 1704153600, nanos: 0 }, true).as_deref(), Some("2024-01-02"));
    assert_eq!(
        bar_ts_key(Timestamp { secs: 1704229200, nanos: 0 }, false).as_deref(),
        Some("2024-01-02T21:00:00Z")
    );
    assert_eq!(bar_ts_key(Timestamp { secs: 1704229200, nanos: 0 }, true).as_deref(), Some("2024-01-02"));
}

#[test]
fn quote_and_bar_rows() {
    let (k, t, src) = quote_meta("AAPL", &Some("US".to_string()), "2024-01-02T21:00:00Z", &None, "import").unwrap();
    assert_eq!(k, InstrumentKey::new("AAPL".to_string(), Market::Us));
    assert_eq!(t.secs, 1704229200);
    assert_eq!(src, "import");
    assert_eq!(
        quote_meta("AAPL", &None, "soon", &None, "import").unwrap_err(),
        "invalid timestamp (use RFC3339 or YYYY-MM-DD): soon"
    );
    let (k, tf, t, src) =
        bar_meta("600519", &None, &Some("1wk".to_string()), "2024-01-03", &Some("x".to_string()), "import").unwrap();
    assert_eq!(k.market, Market::CnSh);
    assert_eq!(tf, Timeframe::W1);
    assert_eq!(t.secs, 1704240000);
    assert_eq!(src, "x");
    assert_eq!(bar_meta("AAPL", &None, &Some("9y".to_string()), "bad", &None, "i").unwrap_err(), "unknown timeframe: 9y");
    assert_eq!(bar_meta(" ", &None, &Some("9y".to_string()), "bad", &None, "i").unwrap_err(), "empty symbol");
    let (_, tf, _, _) = bar_meta("AAPL", &None, &None, "2024-01-03", &None, "i").unwrap();
    assert_eq!(tf, Timeframe::D1);
}

#[test]
fn tally_counts_each_outcome() {
    let mut t = IngestTally::new();
    assert_eq!((t.instruments, t.quotes, t.bars, t.errors.len()), (0, 0, 0, 0));
    t.record(RowOutcome::ListingStored);
    t.record(RowOutcome::QuoteStored);
    t.record(RowOutcome::QuoteStored);
    t.record(RowOutcome::BarsStored(7));
    t.record(RowOutcome::BarsStored(3));
    t.record(RowOutcome::Failed("US:X: bad".to_string()));
    assert_eq!((t.instruments, t.quotes, t.bars), (1, 2, 10));
    assert_eq!(t.errors, vec!["US:X: bad".to_string()]);
    let r = t.report(4, "bundle", "file");
    assert_eq!(r.run_id, 4);
    assert_eq!(r.kind, "bundle");
    assert_eq!(r.source, "file");
    assert_eq!(r.status, "partial");
    assert_eq!((r.instruments_upserted, r.quotes_upserted, r.bars_upserted), (1, 2, 10));
    assert_eq!(r.errors, vec!["US:X: bad".to_string()]);
}

#[test]
fn clean_tally_reports_ok() {
    let mut t = IngestTally::new();
    t.record(RowOutcome::ListingStored);
    let r = t.report(1, "listings", "csv");
    assert_eq!(r.status, "ok");
    assert_eq!(r.instruments_upserted, 1);
    assert!(r.errors.is_empty());
}
