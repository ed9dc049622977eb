use getrich_core::cli::{
    cmd_name, cmd_to_invoke, error_output, ok_output, ApiCmd, Command, DbCmd, ImportCmd,
    OutputOptions, StockCmd, EXIT_ERROR, EXIT_OK,
};
use getrich_core::error::AppError;
use getrich_core::json::{JsonNumber, JsonValue};

fn render_cli(v: &JsonValue) -> String {
    match v {
        JsonValue::Null => "null".to_string(),
        JsonValue::Bool(b) => b.to_string(),
        JsonValue::Number(JsonNumber::PosInt(u)) => u.to_string(),
        JsonValue::Number(JsonNumber::NegInt(i)) => i.to_string(),
        JsonValue::Number(JsonNumber::Float(s)) => s.clone(),
        JsonValue::Str(s) => format!("{:?}", s),
        JsonValue::Array(a) => format!("[{}]", a.iter().map(render_cli).collect::<Vec<_>>().join(",")),
        JsonValue::Object(e) => format!(
            "{{{}}}",
            e.iter().map(|(k, v)| format!("{:?}:{}", k, render_cli(v))).collect::<Vec<_>>().join(",")
        ),
    }
}

#[test]
fn command_names() {
    assert_eq!(cmd_name(&Command::Db(DbCmd::Migrate)), "db");
    assert_eq!(cmd_name(&Command::Import(ImportCmd::Bars { file: "b.csv".to_string() })), "import");
    assert_eq!(cmd_name(&Command::Version), "getrich");
    assert_eq!(cmd_name(&Command::Api(ApiCmd::Health)), "getrich");
}

#[test]
fn commands_to_method_calls() {
    let (m, p) = cmd_to_invoke(&Command::Db(DbCmd::Status)).unwrap();
    assert_eq!((m.as_str(), render_cli(&p).as_str()), ("db.status", "{}"));
    let (m, p) = cmd_to_invoke(&Command::Import(ImportCmd::Quotes { file: "q.csv".to_string() })).unwrap();
    assert_eq!(m, "import.file");
    assert_eq!(render_cli(&p), r#"{"path":"q.csv","kind":"quotes"}"#);
    let list = Command::Stock(StockCmd::List {
        board: Some("HK".to_string()),
        query: None,
        sort: "symbol".to_string(),
        limit: 100,
    });
    let (m, p) = cmd_to_invoke(&list).unwrap();
    assert_eq!(m, "stock.list");
    assert_eq!(render_cli(&p), r#"{"board":"HK","query":null,"sort":"symbol","limit":100}"#);
    let show = Command::Stock(StockCmd::Show { symbol: "600519".to_string(), market: Some("CN.SH".to_string()) });
    let (m, p) = cmd_to_invoke(&show).unwrap();
    assert_eq!(m, "stock.show");
    assert_eq!(render_cli(&p), r#"{"symbol":"600519","market":"CN.SH"}"#);
}

#[test]
fn bars_command_checks_its_timeframe() {
    let bars = Command::Stock(StockCmd::Bars {
        symbol: "AAPL".to_string(),
        market: None,
        timeframe: "1w".to_string(),
        from: Some("2024-01-01".to_string()),
        to: None,
        limit: 200,
    });
    let (m, p) = cmd_to_invoke(&bars).unwrap();
    assert_eq!(m, "stock.bars");
    assert_eq!(
        render_cli(&p),
        r#"{"symbol":"AAPL","market":null,"timeframe":"1w","from":"2024-01-01","to":null,"limit":200}"#
    );
    let bad = Command::Stock(StockCmd::Bars {
        symbol: "AAPL".to_string(),
        market: None,
        timeframe: "bad".to_string(),
        from: None,
        to: None,
        limit: 200,
    });
    assert!(matches!(cmd_to_invoke(&bad), Err(AppError::InvalidArg(m)) if m == "unknown timeframe: bad"));
    assert!(matches!(
        cmd_to_invoke(&Command::Version),
        Err(AppError::InvalidArg(m)) if m == "command not available here"
    ));
}

#[test]
fn outputs_with_and_without_envelope() {
    let loud = OutputOptions { pretty: false, quiet: false };
    let quiet = OutputOptions { pretty: true, quiet: true };
    assert_eq!(render_cli(&ok_output("x", "T", JsonValue::Null, &quiet)), "null");
    assert_eq!(
        render_cli(&ok_output("x", "T", JsonValue::Null, &loud)),
        r#"{"ok":true,"cmd":"x","ts":"T","data":null}"#
    );
    assert_eq!(
        render_cli(&error_output("x", "T", "DB", "busy", &quiet)),
        r#"{"code":"DB","message":"busy"}"#
    );
    assert_eq!(
        render_cli(&error_output("x", "T", "DB", "busy", &loud)),
        r#"{"ok":false,"cmd":"x","ts":"T","error":{"code":"DB","message":"busy"}}"#
    );
    assert_eq!((EXIT_OK, EXIT_ERROR), (0, 1));
}
