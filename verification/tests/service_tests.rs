use getrich_core::config::WatchItem;
use getrich_core::db::{DbError, QuoteSort};
use getrich_core::error::AppError;
use getrich_core::models::{InstrumentKey, Market, Timeframe};
use getrich_core::service::{
    as_not_found, bars_empty_message, board_page_empty, board_read, listing_market, listing_read,
    market_for_board, needs_post_filter, not_found_message, page_indices, retry_attempts,
    retry_delay, row_matches_board, watch_keys,
};
use getrich_core::view::{empty_store_stats, store_stats_from_counts};

fn watch(symbol: &str, market: &str) -> WatchItem {
    WatchItem { symbol: symbol.to_string(), market: market.to_string(), name: None }
}

#[test]
fn post_filtered_boards() {
    assert!(needs_post_filter("star"));
    assert!(needs_post_filter(" 科创板 "));
    assert!(needs_post_filter("watchlist"));
    assert!(needs_post_filter("a"));
    assert!(!needs_post_filter("HK"));
    assert!(!needs_post_filter("ALL"));
}

#[test]
fn board_markets() {
    assert_eq!(market_for_board("沪市"), Some(Market::CnSh));
    assert_eq!(market_for_board(" us "), Some(Market::Us));
    assert_eq!(market_for_board("bj"), Some(Market::CnBj));
    assert_eq!(market_for_board("STAR"), None);
    assert_eq!(market_for_board("ALL"), None);
}

#[test]
fn board_reads() {
    let q = board_read("STAR", "  ", "volume", 50, 10);
    assert_eq!(q.market, None);
    assert!(q.query.is_none());
    assert_eq!((q.limit, q.offset), (2000, 0));
    assert_eq!(q.sort, QuoteSort::Volume);
    let q = board_read("HK", "tencent", "pct", 0, 5);
    assert_eq!(q.market, Some(Market::Hk));
    assert_eq!(q.query.as_deref(), Some("tencent"));
    assert_eq!((q.limit, q.offset), (200, 5));
    assert_eq!(q.sort, QuoteSort::ChangePct);
    assert!(q.status.is_none());
}

#[test]
fn watchlist_keys_skip_bad_entries() {
    let keys = watch_keys(&[watch("aapl", "US"), watch("!!", "US"), watch("600519", "CN.SH")]);
    assert_eq!(keys.len(), 2);
    assert_eq!(keys[0], InstrumentKey::new("AAPL".to_string(), Market::Us));
    assert_eq!(keys[1], InstrumentKey::new("600519".to_string(), Market::CnSh));
}

#[test]
fn rows_on_filtered_boards() {
    let keys = watch_keys(&[watch("AAPL", "US"), watch("600519", "CN.SH")]);
    assert!(row_matches_board("600519", "CN.SH", "WATCH", &keys));
    assert!(row_matches_board("AAPL", "US", " 自选 ", &keys));
    assert!(!row_matches_board("000001", "CN.SZ", "watchlist", &keys));
    assert!(row_matches_board("688981", "CN.SH", "科创板", &[]));
    assert!(!row_matches_board("300750", "CN.SZ", "STAR", &[]));
    assert!(row_matches_board("300750", "CN.SZ", "cyb", &[]));
    assert!(!row_matches_board("???", "US", "CN", &[]));
}

#[test]
fn filtered_pages() {
    let m = [true, false, true, true, false, true];
    assert_eq!(page_indices(&m, 1, 2), vec![2, 3]);
    assert_eq!(page_indices(&m, 0, 0), vec![0, 2, 3, 5]);
    assert_eq!(page_indices(&m, 10, 5), Vec::<usize>::new());
    assert_eq!(page_indices(&m, 3, 5), vec![5]);
    let many = vec![true; 250];
    assert_eq!(page_indices(&many, 0, 0).len(), 200);
}

#[test]
fn page_empty_states() {
    let empty = empty_store_stats();
    let (kind, msg) = board_page_empty(&empty, true);
    assert_eq!(kind, "no_data");
    assert_eq!(msg, empty.message);
    let some = store_stats_from_counts(1, 0, 0);
    let (kind, msg) = board_page_empty(&some, true);
    assert_eq!(kind, "no_match");
    assert_eq!(msg, "当前板块或搜索条件下没有股票。尝试切换「全部」或清空搜索。");
    let (kind, msg) = board_page_empty(&some, false);
    assert_eq!((kind.as_str(), msg.as_str()), ("ok", ""));
}

#[test]
fn bars_messages() {
    assert_eq!(
        bars_empty_message(Timeframe::D1, true),
        "暂无 1d K 线。导入 bars（timeframe=1d）后将在此绘制。"
    );
    assert_eq!(bars_empty_message(Timeframe::W1, false), "");
}

#[test]
fn not_found_mapping() {
    let key = InstrumentKey::new("AAPL".to_string(), Market::Us);
    let m = not_found_message(&key);
    assert_eq!(m, "not found: US:AAPL");
    assert!(matches!(
        as_not_found(AppError::Db(DbError::Message(m.clone()))),
        AppError::NotFound(n) if n == m
    ));
    assert!(matches!(
        as_not_found(AppError::Db(DbError::Message("disk full".to_string()))),
        AppError::Db(DbError::Message(n)) if n == "disk full"
    ));
    assert!(matches!(as_not_found(AppError::Io("x".to_string())), AppError::Io(_)));
}

#[test]
fn listing_filters() {
    assert_eq!(listing_market(None).unwrap(), None);
    assert_eq!(listing_market(Some("all")).unwrap(), None);
    assert_eq!(listing_market(Some("  ")).unwrap(), None);
    assert_eq!(listing_market(Some("hk")).unwrap(), Some(Market::Hk));
    assert!(matches!(
        listing_market(Some("CN")),
        Err(AppError::InvalidArg(m)) if m == "ambiguous market CN; use CN.SH, CN.SZ, or CN.BJ"
    ));
    let q = listing_read(Some(Market::Us), Some("  "), 10);
    assert!(q.query.is_none());
    assert_eq!((q.limit, q.offset), (10, 0));
    let q = listing_read(None, Some("app"), 0);
    assert_eq!(q.query.as_deref(), Some("app"));
}

#[test]
fn retries() {
    assert_eq!(retry_attempts(0), 1);
    assert_eq!(retry_attempts(3), 3);
    assert_eq!(retry_delay(true, 1, 3, 100), Some(100));
    assert_eq!(retry_delay(true, 2, 3, 100), Some(200));
    assert_eq!(retry_delay(true, 3, 3, 100), None);
    assert_eq!(retry_delay(false, 1, 3, 100), None);
}
