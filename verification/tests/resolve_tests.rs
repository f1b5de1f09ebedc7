use rawtree_cli::resolve::{
    login_plan, require_password, resolve_database, resolve_database_from_sources,
    resolve_effective_org_with, resolve_org_from_sources, resolve_sql, resolve_token_from_sources,
    resolve_url_from_sources, should_prompt_for_login_method, sql_from_stdin, LoginPlan,
    ResolveError, SqlSource, DEFAULT_API_URL,
};

#[test]
fn resolve_org_uses_cli_first() {
    let resolved = resolve_org_from_sources(
        Some("cli-org".to_string()),
        Some("env-org".to_string()),
        Some("cfg-org".to_string()),
    );
    assert_eq!(resolved.as_deref(), Some("cli-org"));
}

#[test]
fn resolve_org_uses_env_when_cli_missing() {
    let resolved = resolve_org_from_sources(
        None,
        Some("env-org".to_string()),
        Some("cfg-org".to_string()),
    );
    assert_eq!(resolved.as_deref(), Some("env-org"));
}

#[test]
fn resolve_org_uses_config_when_cli_and_env_missing() {
    let resolved = resolve_org_from_sources(None, None, Some("cfg-org".to_string()));
    assert_eq!(resolved.as_deref(), Some("cfg-org"));
}

#[test]
fn resolve_org_returns_none_when_no_sources() {
    let resolved = resolve_org_from_sources(None, None, None);
    assert_eq!(resolved, None);
}

#[test]
fn explicit_org_wins_over_auto_default_fetch() {
    let resolved = resolve_effective_org_with(Some("explicit-org".to_string()), || {
        Some("fetched-org".to_string())
    });
    assert_eq!(resolved.as_deref(), Some("explicit-org"));
}

#[test]
fn auto_default_org_is_used_when_explicit_is_missing() {
    let resolved = resolve_effective_org_with(None, || Some("fetched-org".to_string()));
    assert_eq!(resolved.as_deref(), Some("fetched-org"));
}

#[test]
fn auto_default_org_can_fall_back_to_none() {
    let resolved = resolve_effective_org_with(None, || None);
    assert_eq!(resolved, None);
}

#[test]
fn resolve_url_uses_cli_first() {
    let resolved = resolve_url_from_sources(
        Some("https://cli.example.com"),
        Some("https://api.example.com".to_string()),
        Some("https://cfg.example.com".to_string()),
    );
    assert_eq!(resolved, "https://cli.example.com");
}

#[test]
fn resolve_url_uses_env_when_cli_missing() {
    let resolved = resolve_url_from_sources(
        None,
        Some("https://api.example.com".to_string()),
        Some("https://cfg.example.com".to_string()),
    );
    assert_eq!(resolved, "https://api.example.com");
}

#[test]
fn resolve_url_uses_config_when_cli_and_env_missing() {
    let resolved =
        resolve_url_from_sources(None, None, Some("https://cfg.example.com".to_string()));
    assert_eq!(resolved, "https://cfg.example.com");
}

#[test]
fn resolve_url_defaults_when_no_sources() {
    let resolved = resolve_url_from_sources(None, None, None);
    assert_eq!(resolved, DEFAULT_API_URL);
}

#[test]
fn resolve_token_uses_cli_first() {
    let resolved = resolve_token_from_sources(
        Some("cli-key".to_string()),
        Some("env-key".to_string()),
        Some("cfg-token".to_string()),
    );
    assert_eq!(resolved.as_deref(), Some("cli-key"));
}

#[test]
fn resolve_token_uses_env_when_cli_missing() {
    let resolved = resolve_token_from_sources(
        None,
        Some("env-key".to_string()),
        Some("cfg-token".to_string()),
    );
    assert_eq!(resolved.as_deref(), Some("env-key"));
}

#[test]
fn resolve_token_uses_config_when_cli_and_env_missing() {
    let resolved = resolve_token_from_sources(None, None, Some("cfg-token".to_string()));
    assert_eq!(resolved.as_deref(), Some("cfg-token"));
}

#[test]
fn plain_terminal_login_prompts_for_login_method() {
    assert!(should_prompt_for_login_method(None, false, true, true));
}

#[test]
fn explicit_or_non_interactive_login_skips_login_method_prompt() {
    assert!(!should_prompt_for_login_method(
        Some("user@example.com"),
        false,
        true,
        true
    ));
    assert!(!should_prompt_for_login_method(None, true, true, true));
    assert!(!should_prompt_for_login_method(None, false, false, true));
}

#[test]
fn redirected_stdout_skips_login_method_prompt() {
    assert!(!should_prompt_for_login_method(None, false, true, false));
}

#[test]
fn resolve_database_uses_cli_first() {
    let resolved = resolve_database_from_sources(
        Some("cli-database".to_string()),
        Some("env-database".to_string()),
        Some("cfg-database".to_string()),
    );
    assert_eq!(resolved.as_deref(), Some("cli-database"));
}

#[test]
fn resolve_database_uses_env_when_cli_missing() {
    let resolved = resolve_database_from_sources(
        None,
        Some("env-database".to_string()),
        Some("cfg-database".to_string()),
    );
    assert_eq!(resolved.as_deref(), Some("env-database"));
}

#[test]
fn resolve_database_uses_config_when_cli_and_env_missing() {
    let resolved = resolve_database_from_sources(None, None, Some("cfg-database".to_string()));
    assert_eq!(resolved.as_deref(), Some("cfg-database"));
}

#[test]
fn default_api_url_is_the_public_endpoint() {
    assert_eq!(DEFAULT_API_URL, "https://api.rawtree.com");
}

#[test]
fn resolve_database_requires_some_source() {
    let err = resolve_database(None, None, None).expect_err("no database anywhere");
    assert!(matches!(err, ResolveError::NoDatabase));
    assert_eq!(
        resolve_database(None, None, Some("cfg".to_string())).expect("config database"),
        "cfg"
    );
}

#[test]
fn command_line_value_wins_whatever_the_other_sources_hold() {
    for env in [None, Some("env".to_string())] {
        for cfg in [None, Some("cfg".to_string())] {
            let resolved = resolve_org_from_sources(Some("cli".to_string()), env.clone(), cfg);
            assert_eq!(resolved.as_deref(), Some("cli"));
        }
    }
}

#[test]
fn sql_comes_from_argument_flag_or_stdin() {
    match resolve_sql(Some("SELECT 1".to_string()), Some("SELECT 2".to_string()), true) {
        Ok(SqlSource::Inline(s)) => assert_eq!(s, "SELECT 1"),
        other => panic!("unexpected {:?}", other),
    }
    match resolve_sql(None, Some("SELECT 2".to_string()), true) {
        Ok(SqlSource::Inline(s)) => assert_eq!(s, "SELECT 2"),
        other => panic!("unexpected {:?}", other),
    }
    assert!(matches!(resolve_sql(Some("-".to_string()), None, true), Ok(SqlSource::Stdin)));
    assert!(matches!(resolve_sql(None, None, false), Ok(SqlSource::Stdin)));
    let err = resolve_sql(None, None, true).expect_err("no sql");
    assert_eq!(
        err.message(),
        "SQL query is required. Provide it as a positional argument, with --sql, or pipe via stdin"
    );
}

#[test]
fn stdin_sql_is_trimmed_and_must_not_be_empty() {
    assert_eq!(sql_from_stdin("  SELECT 1;\n").expect("sql"), "SELECT 1;");
    let err = sql_from_stdin(" \n\t").expect_err("blank");
    assert_eq!(err.message(), "no SQL provided on stdin");
}

#[test]
fn login_plan_follows_flags_and_terminal() {
    assert_eq!(login_plan(true, None, false, false, true, true).expect("plan"), LoginPlan::ApiKey);
    let err = login_plan(true, Some("a@b.c"), false, false, true, true).expect_err("conflict");
    assert_eq!(err.message(), "--api-key cannot be used with --email or --password during login");
    assert_eq!(
        login_plan(false, None, false, false, true, true).expect("plan"),
        LoginPlan::PromptForMethod
    );
    assert_eq!(
        login_plan(false, Some("a@b.c"), false, false, true, true).expect("plan"),
        LoginPlan::Password
    );
    assert_eq!(login_plan(false, None, false, true, true, true).expect("plan"), LoginPlan::Browser);
}

#[test]
fn empty_password_is_rejected() {
    let err = require_password(String::new()).expect_err("empty");
    assert_eq!(err.message(), "password cannot be empty");
    assert_eq!(require_password("pw".to_string()).expect("pw"), "pw");
}

#[test]
fn cluster_comes_from_flag_then_config() {
    assert_eq!(
        rawtree_cli::resolve::resolve_cluster_from_sources(Some("cli".to_string()), Some("cfg".to_string())).as_deref(),
        Some("cli")
    );
    assert_eq!(rawtree_cli::resolve::resolve_cluster_from_sources(None, Some("cfg".to_string())).as_deref(), Some("cfg"));
    assert_eq!(rawtree_cli::resolve::resolve_cluster_from_sources(None, None), None);
}
