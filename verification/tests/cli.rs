//! Arguments.

use geotop::cli::{
    check_sources, choose_font, config_source, db_config, default_db_dir, log_level, needs_token,
    sniffed_interfaces, split_home, ConfigSource, DbArgs, FontChoice, NO_SOURCE, TOKEN_HELP,
};

fn args() -> DbArgs {
    DbArgs {
        db_dir: None,
        db_path: None,
        proxy_db_path: None,
        db_path_parent: None,
        no_proxy: false,
        token: String::new(),
    }
}

#[test]
fn log_levels() {
    assert_eq!(log_level(0), "info");
    assert_eq!(log_level(1), "debug");
    assert_eq!(log_level(2), "trace");
    assert_eq!(log_level(255), "trace");
}

#[test]
fn something_has_to_be_watched() {
    let none: Vec<String> = Vec::new();
    let some = vec!["x".to_string()];
    assert_eq!(check_sources(&none, false, &none), Err(NO_SOURCE));
    assert_eq!(check_sources(&some, false, &none), Ok(()));
    assert_eq!(check_sources(&none, true, &none), Ok(()));
    assert_eq!(check_sources(&none, false, &some), Ok(()));
    assert_eq!(sniffed_interfaces(true, some.clone(), none.clone()), some);
    assert_eq!(sniffed_interfaces(false, some, none.clone()), none);
}

#[test]
fn tokens() {
    assert!(needs_token(&args(), false));
    assert!(!needs_token(&args(), true));
    assert!(!needs_token(&DbArgs { token: "t".to_string(), ..args() }, false));
    assert!(!needs_token(&DbArgs { db_path: Some("/a".to_string()), ..args() }, false));
    assert!(!needs_token(&DbArgs { db_dir: Some("/a".to_string()), ..args() }, false));
    assert!(TOKEN_HELP.starts_with("no GEOTOP_DOWNLOAD_TOKEN set.\n\n1. Sign up"));
    assert_eq!(TOKEN_HELP.lines().count(), 7);
}

#[test]
fn directories_of_the_databases() {
    let user = Some("/home/u/.local/share/geotop".to_string());
    assert_eq!(default_db_dir(&None, &user), "/home/u/.local/share/geotop/data");
    assert_eq!(default_db_dir(&None, &None), "./data");
    assert_eq!(default_db_dir(&Some("/db".to_string()), &user), "/db");
}

#[test]
fn databases_by_default() {
    let c = db_config(&args(), &Some("/u".to_string()));
    assert_eq!(c.data_dir, "/u/data");
    assert_eq!(c.geo_path(), "/u/data/IP2LOCATION-LITE-DB11.BIN");
    assert_eq!(c.proxy_path(), "/u/data/IP2PROXY-LITE-PX11.BIN");
    assert!(c.proxy_enabled && !c.geo_staged && !c.proxy_staged);
}

#[test]
fn staged_databases_are_found() {
    let staged = DbArgs {
        db_path: Some("/a/geo.BIN".to_string()),
        db_path_parent: Some("/a".to_string()),
        proxy_db_path: Some("/b/proxy.BIN".to_string()),
        ..args()
    };
    let c = db_config(&staged, &None);
    assert_eq!(c.data_dir, "/a");
    assert_eq!(c.geo_path(), "/a/geo.BIN");
    assert_eq!(c.proxy_path(), "/b/proxy.BIN");
    assert!(c.geo_staged && c.proxy_staged);
    let both = DbArgs { db_dir: Some("/d".to_string()), no_proxy: true, token: "t".to_string(), ..staged };
    let c = db_config(&both, &None);
    assert_eq!(c.data_dir, "/d");
    assert_eq!(c.geo_path(), "/a/geo.BIN");
    assert_eq!(c.token, "t");
    assert!(!c.proxy_enabled);
    // The proxy database is expected beside the location database.
    let one = DbArgs {
        db_path: Some("/a/geo.BIN".to_string()),
        db_path_parent: Some("/a".to_string()),
        ..args()
    };
    assert_eq!(db_config(&one, &None).proxy_path(), "/a/IP2PROXY-LITE-PX11.BIN");
}

#[test]
fn home_arguments() {
    let split = |s: &str| split_home(s);
    let pair = |a: &str, b: &str| Some((a.to_string(), b.to_string()));
    assert_eq!(split("51.5,-0.1"), pair("51.5", "-0.1"));
    assert_eq!(split(" 51.5 ,\t-0.1 "), pair("51.5", "-0.1"));
    assert_eq!(split("1,2,3"), pair("1", "2,3"));
    assert_eq!(split(","), pair("", ""));
    assert_eq!(split("51.5"), None);
    assert_eq!(split(""), None);
}

#[test]
fn configuration_files() {
    assert_eq!(config_source(true, true), ConfigSource::Asked);
    assert_eq!(config_source(true, false), ConfigSource::Asked);
    assert_eq!(config_source(false, true), ConfigSource::UserFile);
    assert_eq!(config_source(false, false), ConfigSource::BuiltIn);
}

#[test]
fn font_sizes() {
    assert_eq!(choose_font((None, None), (8, 16)), FontChoice::HalfBlocks);
    assert_eq!(choose_font((None, None), (8, 8)), FontChoice::HalfBlocks);
    assert_eq!(choose_font((None, None), (9, 8)), FontChoice::Reported);
    assert_eq!(choose_font((Some(8), Some(16)), (9, 8)), FontChoice::Configured { width: 8, height: 16 });
    assert_eq!(choose_font((Some(8), None), (9, 8)), FontChoice::Reported);
}
