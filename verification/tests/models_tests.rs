use getrich_core::models::{InstrumentKey, ListingSnapshot, Market, Timeframe};

#[test]
fn market_parse() {
    assert_eq!("CN.SH".parse::<Market>().unwrap(), Market::CnSh);
    assert_eq!("sz".parse::<Market>().unwrap(), Market::CnSz);
    assert_eq!("CN.BJ".parse::<Market>().unwrap(), Market::CnBj);
    assert!("CN".parse::<Market>().is_err());
}

#[test]
fn timeframe_parse() {
    assert_eq!("1d".parse::<Timeframe>().unwrap(), Timeframe::D1);
    assert_eq!("1wk".parse::<Timeframe>().unwrap(), Timeframe::W1);
    assert_eq!(Timeframe::D1.dataset_key(), "bars:1d");
}

#[test]
fn market_codes_parse_back() {
    for m in [Market::Us, Market::Hk, Market::CnSh, Market::CnSz, Market::CnBj] {
        assert_eq!(Market::parse(m.as_str()).unwrap(), m);
    }
}

#[test]
fn market_errors_name_the_input() {
    assert_eq!(
        Market::parse(" cn ").unwrap_err(),
        "ambiguous market CN; use CN.SH, CN.SZ, or CN.BJ"
    );
    assert_eq!(Market::parse("mars").unwrap_err(), "unknown market: MARS");
}

#[test]
fn market_defaults_and_labels() {
    assert_eq!(Market::Hk.default_currency(), "HKD");
    assert_eq!(Market::CnSz.default_exchange(), "SZSE");
    assert_eq!(Market::CnBj.label_zh(), "北证");
    assert_eq!(Market::Us.as_str(), "US");
}

#[test]
fn timeframe_codes_parse_back() {
    for t in [
        Timeframe::M1,
        Timeframe::M5,
        Timeframe::M15,
        Timeframe::M30,
        Timeframe::H1,
        Timeframe::D1,
        Timeframe::W1,
        Timeframe::Mo1,
    ] {
        assert_eq!(Timeframe::parse(t.as_str()).unwrap(), t);
    }
    assert!(Timeframe::H1.is_intraday());
    assert!(!Timeframe::W1.is_intraday());
    assert_eq!(Timeframe::parse(" Weekly ").unwrap(), Timeframe::W1);
    assert_eq!(Timeframe::parse("2y").unwrap_err(), "unknown timeframe: 2y");
}

#[test]
fn key_display_is_market_colon_symbol() {
    let k = InstrumentKey::new("AAPL".to_string(), Market::Us);
    assert_eq!(k.display(), "US:AAPL");
}

#[test]
fn equity_snapshot_defaults() {
    let k = InstrumentKey::new("00700".to_string(), Market::Hk);
    let s = ListingSnapshot::equity(k, "import".to_string(), "0700.HK".to_string());
    assert_eq!(s.exchange.as_deref(), Some("HKEX"));
    assert_eq!(s.currency.as_deref(), Some("HKD"));
    assert_eq!(s.instrument_type, "equity");
    assert_eq!(s.status, "active");
    assert_eq!(s.source, "import");
    assert_eq!(s.source_symbol, "0700.HK");
    assert!(s.name.is_none());
    assert!(s.metadata.is_empty());
}
