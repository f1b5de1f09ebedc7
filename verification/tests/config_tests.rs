use rawtree_cli::config::{path, Config, ConfigError};
use rawtree_cli::output::{coded_error, map_config_read_error, map_validation_error, map_write_error};

#[test]
fn config_lives_under_the_home_directory() {
    assert_eq!(path(Some("/home/u")).expect("path"), "/home/u/.config/rtree/config.json");
    assert_eq!(path(Some("/home/u/")).expect("path"), "/home/u/.config/rtree/config.json");
    let err = path(None).expect_err("no home");
    assert!(matches!(err, ConfigError::NoConfigDirectory));
    assert_eq!(err.message(), "cannot determine config directory");
}

#[test]
fn default_config_is_empty() {
    let cfg = Config::default();
    assert!(cfg.token.is_none() && cfg.email.is_none() && cfg.url.is_none());
    assert!(cfg.default_database.is_none());
    assert!(cfg.default_organization.is_none() && cfg.default_cluster.is_none());
}

#[test]
fn coded_errors_keep_code_message_and_exit_code() {
    let e = coded_error("x", "m".to_string(), 3);
    assert_eq!(e.code(), "x");
    assert_eq!(e.message(), "m");
    assert_eq!(e.exit_code(), 3);
    let e = map_validation_error("bad".to_string());
    assert_eq!(e.message(), "bad");
    assert_eq!(e.code(), "validation_failed");
    assert_eq!(e.exit_code(), 1);
    assert_eq!(map_write_error("w".to_string()).code(), "write_failed");
    let e = map_config_read_error("r".to_string());
    assert_eq!(e.code(), "config_read_failed");
    assert_eq!(e.exit_code(), 1);
}
