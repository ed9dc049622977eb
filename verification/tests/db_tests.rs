use getrich_core::db::{
    board_limit, board_pattern, is_busy_db, limit_or, listing_pattern, market_filter,
    migration_status_of, migrations_after, pending_names, AppliedMigration, DbError, QuoteSort,
    SqliteCode,
};
use getrich_core::error::{is_busy_err, AppError};
use getrich_core::models::Market;

#[test]
fn quote_sorts() {
    assert_eq!(QuoteSort::parse(" Change "), QuoteSort::ChangePct);
    assert_eq!(QuoteSort::parse("成交额"), QuoteSort::Turnover);
    assert_eq!(QuoteSort::parse("vol"), QuoteSort::Volume);
    assert_eq!(QuoteSort::parse("anything"), QuoteSort::Symbol);
    assert_eq!(QuoteSort::Symbol.sql(), "l.market ASC, l.symbol ASC");
    assert_eq!(QuoteSort::Volume.sql(), "q.volume IS NULL, q.volume DESC, l.symbol ASC");
}

#[test]
fn read_limits_and_patterns() {
    assert_eq!(limit_or(0, 500), 500);
    assert_eq!(limit_or(7, 500), 7);
    assert_eq!(board_limit(0), 200);
    assert_eq!(board_limit(5000), 2000);
    assert_eq!(board_limit(50), 50);
    assert_eq!(board_pattern(&Some("  茅台 ".to_string())).as_deref(), Some("%茅台%"));
    assert_eq!(board_pattern(&Some("   ".to_string())), None);
    assert_eq!(board_pattern(&None), None);
    assert_eq!(listing_pattern(&Some("  ".to_string())).as_deref(), Some("%%"));
    assert_eq!(market_filter(Some(Market::CnSz)).as_deref(), Some("CN.SZ"));
    assert_eq!(market_filter(None), None);
}

#[test]
fn migrations_in_order() {
    let all = migrations_after(0);
    assert_eq!(all, vec![(1, "001_init".to_string()), (2, "002_quote_turnover".to_string())]);
    assert_eq!(pending_names(1), vec!["002_quote_turnover"]);
    assert!(pending_names(2).is_empty());
    assert!(pending_names(9).is_empty());
}

#[test]
fn migrations_after_keep_their_versions() {
    assert_eq!(migrations_after(1), vec![(2, "002_quote_turnover".to_string())]);
    assert_eq!(migrations_after(-5), migrations_after(0));
    assert!(migrations_after(2).is_empty());
}

#[test]
fn migration_status_from_applied() {
    let status = migration_status_of(vec![AppliedMigration {
        version: 1,
        name: "001_init".to_string(),
        applied_at: "t".to_string(),
    }]);
    assert_eq!(status.current_version, 1);
    assert_eq!(status.pending, vec!["002_quote_turnover"]);
    assert_eq!(status.applied.len(), 1);
    let none = migration_status_of(vec![]);
    assert_eq!(none.current_version, 0);
    assert_eq!(none.pending.len(), 2);
}

#[test]
fn busy_errors() {
    assert!(is_busy_db(&DbError::Sqlite(SqliteCode::Busy, "database is locked".to_string())));
    assert!(is_busy_db(&DbError::Sqlite(SqliteCode::Locked, "x".to_string())));
    assert!(!is_busy_db(&DbError::Sqlite(SqliteCode::Other, "x".to_string())));
    assert!(!is_busy_db(&DbError::Message("x".to_string())));
    assert!(is_busy_err(&AppError::Db(DbError::Sqlite(SqliteCode::Busy, "b".to_string()))));
    assert!(!is_busy_err(&AppError::Io("x".to_string())));
}

#[test]
fn error_codes_and_texts() {
    assert_eq!(DbError::Schema("001_init: bad".to_string()).message(), "schema: 001_init: bad");
    let e = AppError::InvalidArg("missing symbol".to_string());
    assert_eq!(e.code(), "INVALID_ARG");
    assert_eq!(e.message(), "invalid argument: missing symbol");
    let e = AppError::NotFound("x".to_string());
    assert_eq!((e.code(), e.message().as_str()), ("NOT_FOUND", "not found: x"));
    let e = AppError::Db(DbError::Message("m".to_string()));
    assert_eq!((e.code(), e.message().as_str()), ("DB", "m"));
    assert_eq!(AppError::Message("m".to_string()).code(), "ERROR");
}
