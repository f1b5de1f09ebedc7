use rawtree_cli::keys::{created_key_lines, key_listing, key_path, keys_path, ApiKeyItem};

#[test]
fn key_listing_lines_use_fixed_columns() {
    let keys = vec![ApiKeyItem {
        id: "key-1".to_string(),
        token: "rt_***abcd".to_string(),
        name: "ci".to_string(),
        permission: "read_write".to_string(),
        created_at: "2026-01-01 10:00:00".to_string(),
    }];
    let lines = key_listing(&keys);
    assert_eq!(lines.len(), 1);
    assert_eq!(
        lines[0],
        format!(
            "{:<38} {:<12} {:<14} {}  created={}",
            "key-1", "ci", "read_write", "rt_***abcd", "2026-01-01 10:00:00"
        )
    );
}

#[test]
fn created_key_lines_show_every_field() {
    let lines = created_key_lines("key-1", "rt_abcd", "ci", "read_write");
    assert_eq!(
        lines,
        vec![
            "API key created:",
            "  id:         key-1",
            "  token:      rt_abcd",
            "  name:       ci",
            "  permission: read_write",
        ]
    );
}

#[test]
fn key_paths_are_database_scoped() {
    assert_eq!(keys_path("analytics", None, None), "/v1/keys?database=analytics");
    assert_eq!(
        key_path("analytics", "rt_a/b", Some("team"), None),
        "/v1/keys/rt_a%2Fb?database=analytics&organization=team"
    );
    assert_eq!(key_listing(&Vec::new()), vec!["No API keys."]);
}
