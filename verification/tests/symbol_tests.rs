use getrich_core::models::{InstrumentKey, Market};
use getrich_core::symbol::{board_id, board_label_zh, board_matches, canonicalize_symbol, parse_instrument};

#[test]
fn parses_us_and_cn_and_hk() {
    let a = parse_instrument("AAPL", None).unwrap();
    assert_eq!(a.symbol, "AAPL");
    assert_eq!(a.market, Market::Us);

    let mt = parse_instrument("600519", None).unwrap();
    assert_eq!(mt.symbol, "600519");
    assert_eq!(mt.market, Market::CnSh);

    let ping = parse_instrument("000001.SZ", None).unwrap();
    assert_eq!(ping.symbol, "000001");
    assert_eq!(ping.market, Market::CnSz);

    let tencent = parse_instrument("700.HK", None).unwrap();
    assert_eq!(tencent.symbol, "00700");
    assert_eq!(tencent.market, Market::Hk);

    let sh = parse_instrument("SH600519", None).unwrap();
    assert_eq!(sh.market, Market::CnSh);

    let bj = parse_instrument("830001.BJ", None).unwrap();
    assert_eq!(bj.market, Market::CnBj);
    assert_eq!(board_id(&bj), "CN.BJ");
}

#[test]
fn star_and_chinext_boards() {
    let star = parse_instrument("688981", None).unwrap();
    assert_eq!(board_id(&star), "STAR");
    let cyb = parse_instrument("300750", None).unwrap();
    assert_eq!(board_id(&cyb), "CHINEXT");
    assert!(board_matches(&star, "科创板"));
    assert!(!board_matches(&cyb, "STAR"));
}

#[test]
fn explicit_market_prefix_and_hint() {
    let k = parse_instrument("hk:5", None).unwrap();
    assert_eq!(k.symbol, "00005");
    assert_eq!(k.market, Market::Hk);
    let k = parse_instrument("  aapl ", Some("us")).unwrap();
    assert_eq!(k.symbol, "AAPL");
    assert_eq!(parse_instrument("   ", None).unwrap_err(), "empty symbol");
    assert_eq!(
        parse_instrument("1234567", None).unwrap_err(),
        "cannot infer market for numeric symbol 1234567"
    );
}

#[test]
fn canonical_symbols() {
    assert_eq!(canonicalize_symbol("brk.b", Market::Us).unwrap(), "BRK.B");
    assert_eq!(canonicalize_symbol("0700", Market::Hk).unwrap(), "00700");
    assert_eq!(
        canonicalize_symbol("60051", Market::CnSh).unwrap_err(),
        "A-share symbols must be 6 digits, got 60051"
    );
    assert_eq!(canonicalize_symbol("A B", Market::Us).unwrap_err(), "invalid US symbol: A B");
}

#[test]
fn canonical_symbol_is_stable() {
    let once = canonicalize_symbol(" 700 ", Market::Hk).unwrap();
    let twice = canonicalize_symbol(&once, Market::Hk).unwrap();
    assert_eq!(once, twice);
}

#[test]
fn key_display_parses_back() {
    let k = InstrumentKey::new("000001".to_string(), Market::CnSz);
    let back = parse_instrument(&k.display(), None).unwrap();
    assert_eq!(back, k);
}

#[test]
fn board_labels_and_filters() {
    assert_eq!(board_label_zh("STAR"), "科创板");
    assert_eq!(board_label_zh("CN.SZ"), "深市");
    let bj = parse_instrument("830001", None).unwrap();
    assert!(board_matches(&bj, "沪深京"));
    assert!(board_matches(&bj, "all"));
    assert!(board_matches(&bj, ""));
    assert!(!board_matches(&bj, "HK"));
    let k = parse_instrument("600519", None).unwrap();
    assert!(board_matches(&k, board_id(&k)));
}

#[test]
fn parsed_symbols_are_canonical() {
    for raw in ["700.hk", " sz000001 ", "brk-b", "830001"] {
        let k = parse_instrument(raw, None).unwrap();
        assert_eq!(canonicalize_symbol(&k.symbol, k.market).unwrap(), k.symbol);
    }
}

#[test]
fn canonical_forms_by_market() {
    assert_eq!(canonicalize_symbol("  \t ", Market::Us).unwrap_err(), "empty symbol");
    assert_eq!(canonicalize_symbol("", Market::Hk).unwrap_err(), "empty symbol");
    assert_eq!(canonicalize_symbol(" msft ", Market::Us).unwrap(), "MSFT");
    let hk = canonicalize_symbol("hk 5", Market::Hk).unwrap();
    assert_eq!(hk, "00005");
    assert!(hk.len() >= 5 && hk.chars().all(|c| c.is_ascii_digit()));
    assert_eq!(canonicalize_symbol("12345678", Market::Hk).unwrap(), "12345678");
    assert_eq!(canonicalize_symbol("sh 600-519", Market::CnSh).unwrap(), "600519");
    assert_eq!(canonicalize_symbol("000001", Market::CnSz).unwrap(), "000001");
    assert_eq!(
        canonicalize_symbol("8300011", Market::CnBj).unwrap_err(),
        "A-share symbols must be 6 digits, got 8300011"
    );
    for (raw, m) in [("600519", Market::CnSh), ("sz 000001", Market::CnSz), ("x", Market::Hk)] {
        if let Ok(once) = canonicalize_symbol(raw, m) {
            assert_eq!(canonicalize_symbol(&once, m).unwrap(), once);
        }
    }
}

#[test]
fn board_filter_laws() {
    let markets = [Market::Us, Market::Hk, Market::CnSh, Market::CnSz, Market::CnBj];
    let keys = [
        parse_instrument("AAPL", None).unwrap(),
        parse_instrument("700.HK", None).unwrap(),
        parse_instrument("688981", None).unwrap(),
        parse_instrument("300750", None).unwrap(),
        parse_instrument("830001", None).unwrap(),
    ];
    for k in keys.iter() {
        assert!(board_matches(k, board_id(k)));
        assert!(board_matches(k, "ALL"));
        assert!(board_matches(k, "全部"));
        for m in markets {
            assert_eq!(board_matches(k, m.as_str()), k.market == m);
            assert_eq!(board_matches(k, m.label_zh()), k.market == m);
        }
        let cn = !matches!(k.market, Market::Us | Market::Hk);
        assert_eq!(board_matches(k, "CN"), cn);
        for b in [" star ", "ChiNext", " cn.sh", "kcb", "us", "x"] {
            assert_eq!(board_matches(k, b), board_matches(k, &b.trim().to_ascii_lowercase()));
            assert_eq!(board_matches(k, b), board_matches(k, &b.trim().to_ascii_uppercase()));
        }
    }
    assert!(board_matches(&keys[2], " star "));
    assert!(!board_matches(&keys[3], "STAR"));
    assert!(board_matches(&keys[3], "cyb"));
}
