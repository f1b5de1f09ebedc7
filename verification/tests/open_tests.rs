use rawtree_cli::config::Config;
use rawtree_cli::open::{
    build_login_url, build_open_url, open, resolve_dashboard_url, resolve_ui_base_url,
    status_lines, DEFAULT_UI_BASE_URL,
};

#[test]
fn build_open_url_uses_base_url_when_database_context_missing() {
    let url = build_open_url("https://rawtree.com/", Some("team_alpha"), None, None);
    assert_eq!(url, "https://rawtree.com");
}

#[test]
fn build_open_url_appends_org_cluster_and_database() {
    let url = build_open_url(
        "https://rawtree.com",
        Some("team_alpha"),
        Some("production"),
        Some("analytics"),
    );
    assert_eq!(
        url,
        "https://rawtree.com/team_alpha/production?database=analytics"
    );
}

#[test]
fn build_open_url_encodes_path_segments() {
    let url = build_open_url(
        "https://rawtree.com",
        Some("team alpha"),
        Some("prod/eu"),
        Some("p/1"),
    );
    assert_eq!(
        url,
        "https://rawtree.com/team%20alpha/prod%2Feu?database=p%2F1"
    );
}

#[test]
fn open_url_without_organization_is_the_base_url() {
    assert_eq!(
        build_open_url("https://rawtree.com/", None, None, None),
        "https://rawtree.com"
    );
    assert_eq!(
        build_open_url("https://rawtree.com", Some("team alpha"), Some("prod/eu"), Some("my db")),
        "https://rawtree.com/team%20alpha/prod%2Feu?database=my%20db"
    );
}

#[test]
fn resolve_dashboard_url_prefers_normal_dashboard_when_authenticated() {
    let url = resolve_dashboard_url(
        "https://rawtree.com",
        true,
        Some("team"),
        Some("production"),
        Some("analytics"),
    );
    assert_eq!(
        url.as_deref(),
        Some("https://rawtree.com/team/production?database=analytics")
    );
}

#[test]
fn resolve_dashboard_url_uses_login_when_not_authenticated() {
    let url = resolve_dashboard_url(
        "https://rawtree.com",
        false,
        Some("team"),
        Some("production"),
        Some("analytics"),
    );
    assert_eq!(url.as_deref(), Some("https://rawtree.com/login"));
}

#[test]
fn resolve_dashboard_url_uses_login_when_not_authenticated_without_database_context() {
    let url = resolve_dashboard_url("https://rawtree.com", false, None, None, None);
    assert_eq!(url.as_deref(), Some("https://rawtree.com/login"));
}

#[test]
fn build_login_url_appends_login_path() {
    let url = build_login_url("https://rawtree.com/");
    assert_eq!(url, "https://rawtree.com/login");
}

#[test]
fn ui_base_url_comes_from_environment_or_default() {
    assert_eq!(resolve_ui_base_url(None), DEFAULT_UI_BASE_URL);
    assert_eq!(resolve_ui_base_url(Some("http://localhost:3000".to_string())), "http://localhost:3000");
    assert_eq!(
        open("https://rawtree.com//", Some("team"), None, Some("db")),
        "https://rawtree.com"
    );
    assert_eq!(
        open("https://rawtree.com", Some("team"), Some("prod"), None),
        "https://rawtree.com/team/prod"
    );
}

#[test]
fn status_lines_show_dashes_for_unset_values() {
    let cfg = Config {
        token: Some("t".to_string()),
        email: Some("user@example.com".to_string()),
        ..Config::default()
    };
    let lines = status_lines("https://api.rawtree.com", &cfg, Some("https://rawtree.com"));
    assert_eq!(
        lines,
        vec![
            "API URL: https://api.rawtree.com",
            "Authenticated: true",
            "User: user@example.com",
            "Database: -",
            "Organization: -",
            "Cluster: -",
            "Dashboard URL: https://rawtree.com",
        ]
    );
    let empty = Config::default();
    let lines = status_lines("u", &empty, None);
    assert_eq!(lines[1], "Authenticated: false");
    assert_eq!(lines[6], "Dashboard URL: -");
}
