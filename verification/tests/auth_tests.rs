use rawtree_cli::auth::{
    api_key_context_after_keys, api_key_context_after_tables, api_key_context_paths, apply_auth_config, auth_selection_from_database_context,
    clear_auth_config, device_token_poll, effective_timeout_seconds, format_api_error,
    parse_login_method, parse_selection_number, poll_interval_seconds, prompt_for_selection,
    resolve_selected_database, select_database, select_or_prompt_database,
    select_or_prompt_organization, select_organization, select_single_or_prompt,
    selection_from_input, validate_api_key, ApiErrorResponse, AuthError, AuthResponse,
    ApiKeyContextStep, AuthSelection, DatabaseContextResponse, DevicePoll, LoginMethod, NamedRef, SelectionAnswer,
    LOGIN_METHOD_LABELS,
};
use rawtree_cli::config::Config;
use rawtree_cli::org::OrganizationItem;

fn sample_auth_response() -> AuthResponse {
    AuthResponse {
        token: "jwt".to_string(),
        email: "user@example.com".to_string(),
    }
}

fn sample_org(name: &str) -> OrganizationItem {
    OrganizationItem {
        name: name.to_string(),
        role: "owner".to_string(),
    }
}

fn sample_context() -> DatabaseContextResponse {
    DatabaseContextResponse {
        database: Some(NamedRef {
            name: "analytics".to_string(),
        }),
        organization: Some(NamedRef {
            name: "team_alpha".to_string(),
        }),
    }
}

#[test]
fn apply_auth_config_sets_default_organization_and_database() {
    let mut cfg = Config::default();
    let resp = sample_auth_response();
    let selection = AuthSelection {
        organization: Some("team_alpha".to_string()),
        database: Some("analytics".to_string()),
    };
    apply_auth_config(&mut cfg, "https://api.rawtree.com", &resp, &selection);

    assert_eq!(cfg.token.as_deref(), Some("jwt"));
    assert_eq!(cfg.email.as_deref(), Some("user@example.com"));
    assert_eq!(cfg.default_organization.as_deref(), Some("team_alpha"));
    assert_eq!(cfg.default_database.as_deref(), Some("analytics"));
    assert_eq!(cfg.url, None);
}

#[test]
fn apply_auth_config_sets_url_when_using_non_default_api_url() {
    let mut cfg = Config::default();
    let resp = sample_auth_response();
    let selection = AuthSelection::default();
    apply_auth_config(&mut cfg, "https://staging.rawtree.dev", &resp, &selection);

    assert_eq!(cfg.url.as_deref(), Some("https://staging.rawtree.dev"));
}

#[test]
fn apply_auth_config_clears_default_selection_when_missing() {
    let mut cfg = Config {
        default_database: Some("old_database".to_string()),
        default_organization: Some("old_team".to_string()),
        ..Config::default()
    };
    let resp = sample_auth_response();
    let selection = AuthSelection::default();
    apply_auth_config(&mut cfg, "https://api.rawtree.com", &resp, &selection);

    assert_eq!(cfg.default_organization, None);
    assert_eq!(cfg.default_database, None);
}

#[test]
fn select_organization_uses_cli_when_present() {
    let organizations = vec![sample_org("team_alpha"), sample_org("team_beta")];
    let selected = select_organization(
        &organizations,
        Some("team_beta"),
        Some("team_alpha"),
        Some("team_alpha"),
    )
    .expect("selection should succeed")
    .expect("organization should be selected");

    assert_eq!(selected.name, "team_beta");
}

#[test]
fn select_organization_errors_for_unknown_cli_org() {
    let organizations = vec![sample_org("team_alpha")];
    let result = select_organization(&organizations, Some("missing"), None, None);
    assert!(result.is_err(), "unknown CLI org should fail");
}

#[test]
fn select_organization_uses_env_then_cfg_then_first() {
    let organizations = vec![sample_org("team_alpha"), sample_org("team_beta")];

    let env_selected = select_organization(&organizations, None, Some("team_beta"), None)
        .expect("env selection should succeed")
        .expect("organization should exist");
    assert_eq!(env_selected.name, "team_beta");

    let cfg_selected =
        select_organization(&organizations, None, Some("missing"), Some("team_beta"))
            .expect("cfg selection should succeed")
            .expect("organization should exist");
    assert_eq!(cfg_selected.name, "team_beta");

    let first_selected =
        select_organization(&organizations, None, Some("missing"), Some("also_missing"))
            .expect("fallback selection should succeed")
            .expect("organization should exist");
    assert_eq!(first_selected.name, "team_alpha");
}

#[test]
fn select_database_prefers_cli_and_fails_when_unknown() {
    let databases = vec!["analytics".to_string(), "billing".to_string()];

    let selected = select_database(&databases, "team_alpha", Some("billing"))
        .expect("selection should succeed")
        .expect("database should exist");
    assert_eq!(selected, "billing");

    let err = select_database(&databases, "team_alpha", Some("missing"));
    assert!(err.is_err(), "unknown CLI database should fail");
}

#[test]
fn select_database_defaults_to_first_when_cli_missing() {
    let databases = vec!["analytics".to_string(), "billing".to_string()];
    let selected = select_database(&databases, "team_alpha", None)
        .expect("selection should succeed")
        .expect("first database should be selected");
    assert_eq!(selected, "analytics");
}

#[test]
fn browser_database_selection_prefers_cli_and_fails_when_unknown() {
    let databases = vec!["analytics".to_string(), "billing".to_string()];

    let selected = select_or_prompt_database(&databases, "team_alpha", Some("billing"), true)
        .expect("selection should succeed")
        .expect("database should exist");
    assert_eq!(selected, "billing");

    let err = select_or_prompt_database(&databases, "team_alpha", Some("missing"), true);
    assert!(err.is_err(), "unknown CLI database should fail");
}

#[test]
fn browser_database_selection_uses_only_database_without_prompt() {
    let databases = vec!["analytics".to_string()];

    let selected = select_or_prompt_database(&databases, "team_alpha", None, true)
        .expect("selection should succeed")
        .expect("database should exist");
    assert_eq!(selected, "analytics");
}

#[test]
fn browser_organization_selection_uses_only_org_without_prompt() {
    let organizations = vec![sample_org("team_alpha")];

    let selected = select_or_prompt_organization(&organizations, None, true)
        .expect("selection should succeed")
        .expect("organization should exist");
    assert_eq!(selected.name, "team_alpha");
}

#[test]
fn browser_selection_requires_prompt_when_json_mode_and_missing() {
    let err = prompt_for_selection("database", true, true)
        .expect_err("json browser login should require an explicit database");
    let text = err.message();
    assert!(
        text.contains("No database specified"),
        "unexpected error: {text}"
    );
}

#[test]
fn selection_number_is_one_based() {
    assert_eq!(parse_selection_number("1", 2), Some(0));
    assert_eq!(parse_selection_number("2", 2), Some(1));
    assert_eq!(parse_selection_number("0", 2), None);
    assert_eq!(parse_selection_number("3", 2), None);
    assert_eq!(parse_selection_number("analytics", 2), None);
}

#[test]
fn login_method_uses_expected_labels_and_accepts_numbers_or_labels() {
    let expected = [
        ("Log in with Rawtree", LoginMethod::Rawtree),
        ("Enter API key", LoginMethod::ManualApiKey),
    ];

    assert_eq!(LOGIN_METHOD_LABELS, expected.map(|(label, _method)| label));
    for (index, (label, method)) in expected.iter().enumerate() {
        assert_eq!(parse_login_method(&(index + 1).to_string()), Some(*method));
        assert_eq!(parse_login_method(label), Some(*method));
    }
    assert_eq!(
        parse_login_method("enter api key"),
        Some(LoginMethod::ManualApiKey)
    );
    assert_eq!(parse_login_method("3"), None);
}

#[test]
fn resolve_selected_database_tolerates_fetch_errors_when_cli_database_missing() {
    let result = resolve_selected_database(
        Err("failed to list databases".to_string()),
        "team_alpha",
        None,
    )
    .expect("implicit selection should not fail");
    assert_eq!(result, None);
}

#[test]
fn resolve_selected_database_fails_on_fetch_errors_when_cli_database_provided() {
    let result = resolve_selected_database(
        Err("failed to list databases".to_string()),
        "team_alpha",
        Some("analytics"),
    );
    assert!(result.is_err(), "explicit database should remain strict");
}

#[test]
fn api_key_auth_selection_uses_server_database_context() {
    let selection = auth_selection_from_database_context(sample_context(), None, None)
        .expect("context should select");

    assert_eq!(selection.organization.as_deref(), Some("team_alpha"));
    assert_eq!(selection.database.as_deref(), Some("analytics"));
}

#[test]
fn api_key_auth_selection_rejects_conflicting_database_context() {
    let err =
        auth_selection_from_database_context(sample_context(), Some("team_alpha"), Some("billing"))
            .expect_err("conflicting database should fail");
    let text = err.message();
    assert!(
        text.contains("API key belongs to database"),
        "unexpected error: {text}"
    );
}

#[test]
fn api_key_context_paths_do_not_invent_organization() {
    let (keys_path, tables_path) = api_key_context_paths(None, None, Some("analytics"));

    assert_eq!(keys_path, "/v1/keys?database=analytics");
    assert_eq!(tables_path, "/v1/tables?database=analytics");
}

#[test]
fn api_key_context_paths_include_explicit_organization() {
    let (keys_path, tables_path) =
        api_key_context_paths(Some("team alpha"), Some("prod/eu"), Some("analytics"));

    assert_eq!(
        keys_path,
        "/v1/keys?database=analytics&organization=team%20alpha&cluster=prod%2Feu"
    );
    assert_eq!(
        tables_path,
        "/v1/tables?database=analytics&organization=team%20alpha&cluster=prod%2Feu"
    );
}

#[test]
fn clear_auth_config_resets_auth_state_and_saved_url() {
    let mut cfg = Config {
        token: Some("rt_test".to_string()),
        email: Some("user@example.com".to_string()),
        url: Some("https://api.rawtree.com".to_string()),
        default_database: Some("analytics".to_string()),
        default_organization: Some("team_alpha".to_string()),
        ..Config::default()
    };

    clear_auth_config(&mut cfg);

    assert_eq!(cfg.token, None);
    assert_eq!(cfg.email, None);
    assert_eq!(cfg.url, None);
    assert_eq!(cfg.default_database, None);
    assert_eq!(cfg.default_organization, None);
}

#[test]
fn timeout_uses_smaller_of_requested_and_expiry() {
    assert_eq!(effective_timeout_seconds(300, 600), 300);
    assert_eq!(effective_timeout_seconds(900, 600), 600);
}

#[test]
fn timeout_uses_expiry_when_requested_is_zero() {
    assert_eq!(effective_timeout_seconds(0, 600), 600);
}

#[test]
fn every_listed_number_selects_its_item() {
    for count in 1usize..6 {
        for index in 0..count {
            assert_eq!(parse_selection_number(&(index + 1).to_string(), count), Some(index));
        }
        assert_eq!(parse_selection_number(&(count + 1).to_string(), count), None);
    }
    assert_eq!(parse_selection_number("+2", 2), Some(1));
    assert_eq!(parse_selection_number(" 1", 2), None);
}

#[test]
fn selection_answer_takes_number_then_name() {
    let names = vec!["analytics".to_string(), "billing".to_string()];
    assert!(matches!(selection_from_input("", &names), SelectionAnswer::Empty));
    match selection_from_input("2", &names) {
        SelectionAnswer::Chosen(n) => assert_eq!(n, "billing"),
        other => panic!("unexpected {:?}", other),
    }
    match selection_from_input("analytics", &names) {
        SelectionAnswer::Chosen(n) => assert_eq!(n, "analytics"),
        other => panic!("unexpected {:?}", other),
    }
    assert!(matches!(selection_from_input("nope", &names), SelectionAnswer::NotFound));
}

#[test]
fn single_choice_needs_no_prompt() {
    let none: Vec<String> = Vec::new();
    assert_eq!(select_single_or_prompt("database", &none, false).expect("empty"), None);
    let one = vec!["analytics".to_string()];
    assert_eq!(
        select_single_or_prompt("database", &one, false).expect("one").as_deref(),
        Some("analytics")
    );
    let two = vec!["a".to_string(), "b".to_string()];
    let err = select_single_or_prompt("organization", &two, true).expect_err("json");
    assert_eq!(
        err.message(),
        "No organization specified. Run this command interactively or pass --org <name>."
    );
    assert!(matches!(
        select_single_or_prompt("database", &two, false),
        Err(AuthError::PromptNeeded { .. })
    ));
}

#[test]
fn context_without_organization_is_rejected() {
    let ctx = DatabaseContextResponse {
        database: None,
        organization: None,
    };
    let err = auth_selection_from_database_context(ctx, None, None).expect_err("missing org");
    assert_eq!(err.message(), "server response did not include an organization");
    let err = auth_selection_from_database_context(sample_context(), Some("other"), None)
        .expect_err("org conflict");
    assert_eq!(
        err.message(),
        "API key belongs to organization 'team_alpha', not 'other'."
    );
}

#[test]
fn api_errors_carry_message_and_hint() {
    let parsed = ApiErrorResponse {
        error: "bad_request".to_string(),
        message: "Bad thing".to_string(),
        hint: Some("Try again".to_string()),
    };
    let err = format_api_error(400, Some(parsed), "{}");
    assert_eq!(err.message(), "Server error (400): Bad thing\nHint: Try again");
    let err = format_api_error(502, None, "gateway");
    assert_eq!(err.message(), "Server error (502): gateway");
}

#[test]
fn device_poll_classifies_responses() {
    assert_eq!(device_token_poll(200, None), DevicePoll::Approved);
    assert_eq!(device_token_poll(428, None), DevicePoll::Pending);
    assert_eq!(device_token_poll(400, Some("authorization_pending")), DevicePoll::Pending);
    assert_eq!(device_token_poll(400, Some("expired_token")), DevicePoll::Failed);
    assert_eq!(poll_interval_seconds(0), 1);
    assert_eq!(poll_interval_seconds(5), 5);
}

#[test]
fn api_key_format_is_checked() {
    assert!(validate_api_key("rt_abc").is_ok());
    let err = validate_api_key("").expect_err("missing");
    assert_eq!(err.code(), "missing_api_key");
    assert_eq!(err.message(), "API key is required. Pass --api-key or provide it interactively.");
    let err = validate_api_key("rt_ab c").expect_err("space");
    assert_eq!(err.message(), "Invalid API key format. API key must not contain whitespace.");
    let err = validate_api_key("sk_abc").expect_err("prefix");
    assert_eq!(err.code(), "invalid_api_key_format");
    assert_eq!(err.exit_code(), 1);
    assert_eq!(err.message(), "Invalid API key format. Expected an API key starting with 'rt_'.");
}

#[test]
fn selected_context_is_reported() {
    let selection = AuthSelection {
        organization: Some("team".to_string()),
        database: None,
    };
    let (lines, warning) = rawtree_cli::auth::selected_context_lines(&selection);
    assert_eq!(lines, vec!["Selected organization: team", "Selected database: none"]);
    assert_eq!(
        warning.as_deref(),
        Some("Warning: No default database selected. Create one with `rtree database create <name>`.")
    );
    let (lines, warning) = rawtree_cli::auth::selected_context_lines(&AuthSelection {
        organization: None,
        database: Some("db".to_string()),
    });
    assert_eq!(lines[0], "Selected organization: none");
    assert_eq!(lines[1], "Selected database: db");
    assert!(warning.is_none());
}

#[test]
fn device_login_waits_until_the_deadline() {
    assert_eq!(rawtree_cli::auth::device_poll_step(DevicePoll::Pending, 10, 300_000), rawtree_cli::auth::DeviceStep::Wait);
    assert_eq!(
        rawtree_cli::auth::device_poll_step(DevicePoll::Pending, 300_000, 300_000),
        rawtree_cli::auth::DeviceStep::TimedOut
    );
    assert_eq!(
        rawtree_cli::auth::device_poll_step(DevicePoll::Approved, 400_000, 300_000),
        rawtree_cli::auth::DeviceStep::Approved
    );
    assert_eq!(rawtree_cli::auth::device_poll_step(DevicePoll::Failed, 0, 1), rawtree_cli::auth::DeviceStep::Failed);
}

#[test]
fn api_key_context_uses_keys_answer_without_fallback() {
    match api_key_context_after_keys(Ok(sample_context())) {
        ApiKeyContextStep::Resolved(ctx) => {
            assert_eq!(ctx.database.expect("database").name, "analytics");
            assert_eq!(ctx.organization.expect("organization").name, "team_alpha");
        }
        other => panic!("unexpected step: {other:?}"),
    }
}

#[test]
fn api_key_context_falls_back_to_tables() {
    let keys_error = match api_key_context_after_keys(Err("404 not found".to_string())) {
        ApiKeyContextStep::ProbeTables { keys_error } => keys_error,
        other => panic!("unexpected step: {other:?}"),
    };
    assert_eq!(keys_error, "404 not found");
    let ctx = api_key_context_after_tables(keys_error, Ok(sample_context())).expect("context");
    assert_eq!(ctx.database.expect("database").name, "analytics");
}

#[test]
fn api_key_context_reports_both_failures() {
    let err = api_key_context_after_tables("k".to_string(), Err("t".to_string()))
        .expect_err("both paths failed");
    assert_eq!(
        err.message(),
        "failed to resolve API key database context: k; fallback /v1/tables failed: t"
    );
}
