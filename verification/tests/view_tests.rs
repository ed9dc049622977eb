use getrich_core::models::{Instrument, InstrumentKey, Market};
use getrich_core::view::{
    board_empty_message, direction, empty_store_stats, row_head, store_stats_from_counts, Sign,
};

fn apple() -> Instrument {
    Instrument {
        id: 7,
        key: InstrumentKey::new("AAPL".to_string(), Market::Us),
        exchange: Some("NASDAQ".to_string()),
        name: None,
        name_en: Some("Apple Inc.".to_string()),
        currency: None,
        instrument_type: "equity".to_string(),
        isin: None,
        listing_date: None,
        delisting_date: None,
        status: "active".to_string(),
        sector: None,
        industry: None,
        lot_size: None,
        source: None,
        source_symbol: None,
        extra_json: None,
        created_at: String::new(),
        updated_at: String::new(),
    }
}

#[test]
fn row_head_columns() {
    let quote_currency = Some("USD".to_string());
    let h = row_head(&apple(), Some(&quote_currency));
    assert_eq!(h.instrument_id, 7);
    assert_eq!(h.symbol, "AAPL");
    assert_eq!(h.market, "US");
    assert_eq!(h.market_label, "美股");
    assert_eq!(h.board, "US");
    assert_eq!(h.board_label, "美股");
    assert_eq!(h.name.as_deref(), Some("Apple Inc."));
    assert_eq!(h.exchange.as_deref(), Some("NASDAQ"));
    assert_eq!(h.currency.as_deref(), Some("USD"));
    assert!(h.has_quote);
    let h = row_head(&apple(), None);
    assert!(h.currency.is_none());
    assert!(!h.has_quote);
}

#[test]
fn directions() {
    assert_eq!(direction(Some(Sign::Positive), None), "up");
    assert_eq!(direction(None, Some(Sign::Negative)), "down");
    assert_eq!(direction(Some(Sign::Zero), Some(Sign::Positive)), "flat");
    assert_eq!(direction(None, None), "none");
}

#[test]
fn store_statistics() {
    let e = empty_store_stats();
    assert!(e.empty);
    assert_eq!(e.listings, 0);
    let s = store_stats_from_counts(0, 0, 0);
    assert!(s.empty);
    assert_eq!(s.message, "数据库为空。请按导入约定写入 listings / quotes / bars 后再查看。");
    let s = store_stats_from_counts(12, 0, 0);
    assert!(!s.empty);
    assert_eq!(s.message, "已有 12 只股票，但尚无报价。导入 quotes 后行情列表将显示最新价与涨跌。");
    let s = store_stats_from_counts(12, 3, 40);
    assert_eq!(s.message, "listings=12 quotes=3 bars=40");
}

#[test]
fn board_empty_messages() {
    let (k, m) = board_empty_message(&empty_store_stats(), false);
    assert_eq!(k, "no_data");
    assert_eq!(m, "暂无股票数据。后续导入 listings 后将出现在此列表。");
    let s = store_stats_from_counts(1, 1, 1);
    let (k, _) = board_empty_message(&s, true);
    assert_eq!(k, "no_match");
}
