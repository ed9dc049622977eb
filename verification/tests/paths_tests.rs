use getrich_core::paths::{config_file, data_root, db_path, default_config_file, icon_candidates, project_path};
use getrich_core::db::Database;
use std::path::Path;

#[test]
fn project_path_keeps_absolute() {
    let abs = "/tmp/getrich.db";
    assert_eq!(project_path("/srv/getrich", abs), abs);
}

#[test]
fn db_path_joins_name_when_env_unset() {
    let p = db_path(None, "/srv/getrich", "getrich.db");
    assert_eq!(Path::new(&p).file_name().unwrap(), "getrich.db");
}

#[test]
fn relative_paths_go_under_the_root() {
    assert_eq!(project_path("/srv/getrich", "config.json"), "/srv/getrich/config.json");
    assert_eq!(default_config_file("/srv/g"), "/srv/g/config.default.json");
    assert_eq!(config_file(None, "/srv/g"), "/srv/g/config.json");
    assert_eq!(config_file(Some("/etc/getrich.json"), "/srv/g"), "/etc/getrich.json");
}

#[test]
fn db_path_prefers_a_non_empty_env() {
    assert_eq!(db_path(Some("/data/x.db"), "/srv", "getrich.db"), "/data/x.db");
    assert_eq!(db_path(Some(""), "/srv", "getrich.db"), "/srv/getrich.db");
    assert_eq!(Database::from_config(None, "/srv", "a.db").path, "/srv/a.db");
    assert_eq!(Database::at("/x/y.db").path, "/x/y.db");
}

#[test]
fn data_root_choice() {
    assert_eq!(data_root(Some("/data"), Some("/opt/app"), None, "/cwd"), "/data");
    assert_eq!(data_root(Some(""), Some("/opt/app"), None, "/cwd"), "/opt/app");
    assert_eq!(data_root(None, Some("/w/target/debug"), Some("/w"), "/cwd"), "/w");
    assert_eq!(data_root(None, Some("/w/target/debug"), None, "/cwd"), "/w/target/debug");
    assert_eq!(data_root(None, Some("/w/target/other"), Some("/w"), "/cwd"), "/w/target/other");
    assert_eq!(data_root(None, None, Some("/w"), "/cwd"), "/cwd");
}

#[test]
fn icon_candidate_order() {
    let c = icon_candidates("/r", Some("/e"));
    assert_eq!(
        c,
        vec![
            "/r/icon/GetRich.ico",
            "/r/Icon/GetRich.ico",
            "/r/GetRich.ico",
            "/r/packaging/GetRich.ico",
            "/e/GetRich.ico",
            "/e/icon/GetRich.ico",
            "/e/Icon/GetRich.ico",
        ]
    );
    assert_eq!(icon_candidates("/r", None).len(), 4);
}
