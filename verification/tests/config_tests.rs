use getrich_core::config::{
    default_backoff, default_batch, default_bind, default_db_name, default_log_level,
    default_retries, normalize_level, DataConfig, HttpConfig, UniverseConfig,
};
use getrich_core::json::{deep_merge, JsonNumber, JsonValue};

fn num(n: u64) -> JsonValue {
    JsonValue::Number(JsonNumber::PosInt(n))
}

fn obj(entries: Vec<(&str, JsonValue)>) -> JsonValue {
    JsonValue::Object(entries.into_iter().map(|(k, v)| (k.to_string(), v)).collect())
}

fn is_int(v: Option<&JsonValue>, n: u64) -> bool {
    matches!(v, Some(JsonValue::Number(JsonNumber::PosInt(x))) if *x == n)
}

#[test]
fn deep_merge_nested() {
    let base = obj(vec![("a", obj(vec![("x", num(1)), ("y", num(2))])), ("b", num(3))]);
    let over = obj(vec![("a", obj(vec![("y", num(9))])), ("c", num(4))]);
    let m = deep_merge(&base, &over);
    assert!(is_int(m.get("a").unwrap().get("x"), 1));
    assert!(is_int(m.get("a").unwrap().get("y"), 9));
    assert!(is_int(m.get("c"), 4));
}

#[test]
fn deep_merge_keeps_base_keys_and_replaces_leaves() {
    let base = obj(vec![("b", num(3)), ("s", JsonValue::Str("x".to_string()))]);
    let over = obj(vec![("s", obj(vec![("deep", JsonValue::Bool(true))]))]);
    let m = deep_merge(&base, &over);
    assert!(is_int(m.get("b"), 3));
    assert!(matches!(m.get("s").unwrap().get("deep"), Some(JsonValue::Bool(true))));
    let replaced = deep_merge(&num(1), &JsonValue::Null);
    assert!(matches!(replaced, JsonValue::Null));
}

#[test]
fn normalizes_levels() {
    assert_eq!(normalize_level("INFO"), "info");
    assert_eq!(normalize_level("warning"), "warn");
    assert_eq!(normalize_level("nope"), "info");
}

#[test]
fn normalizes_fatal_and_spaces() {
    assert_eq!(normalize_level(" Fatal "), "error");
    assert_eq!(normalize_level("DEBUG"), "debug");
}

#[test]
fn config_defaults() {
    assert_eq!(default_db_name(), "getrich.db");
    assert_eq!(default_bind(), "127.0.0.1:7878");
    assert_eq!(default_log_level(), "INFO");
    assert_eq!(default_batch(), 500);
    assert_eq!(default_retries(), 3);
    assert_eq!(HttpConfig::default().bind, "127.0.0.1:7878");
    let d = DataConfig::default();
    assert_eq!(d.read_retries, 3);
    assert_eq!(d.read_retry_backoff_ms, default_backoff());
    let u = UniverseConfig::default();
    assert_eq!(u.watchlist.len(), 3);
    assert_eq!(u.watchlist[1].symbol, "600519");
}
