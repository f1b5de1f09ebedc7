use rawtree_cli::config::Config;
use rawtree_cli::database::{
    apply_database_create_config, created_message, database_create_collection_path,
    database_delete_path, database_listing, format_storage, CreateDatabaseResponse, DatabaseItem,
    ListDatabasesResponse, OrganizationRef,
};

fn created() -> CreateDatabaseResponse {
    CreateDatabaseResponse {
        organization: OrganizationRef {
            name: "new_team".to_string(),
        },
        database: DatabaseItem {
            name: "analytics".to_string(),
            organization: None,
            s3_storage: false,
        },
    }
}

#[test]
fn apply_database_create_config_preserves_jwt_for_standard_databases() {
    let mut cfg = Config {
        token: Some("jwt.token.value".to_string()),
        email: Some("user@example.com".to_string()),
        default_organization: Some("team_alpha".to_string()),
        ..Config::default()
    };
    let resp = created();

    apply_database_create_config(&mut cfg, &resp, Some("production"));

    assert_eq!(cfg.token.as_deref(), Some("jwt.token.value"));
    assert_eq!(cfg.email.as_deref(), Some("user@example.com"));
    assert_eq!(cfg.default_organization.as_deref(), Some("new_team"));
    assert_eq!(cfg.default_cluster.as_deref(), Some("production"));
    assert_eq!(cfg.default_database.as_deref(), Some("analytics"));
}

#[test]
fn database_create_collection_path_uses_databases_endpoint() {
    assert_eq!(database_create_collection_path(None, None), "/v1/databases");
    assert_eq!(
        database_create_collection_path(Some("team alpha"), Some("prod/eu")),
        "/v1/databases?organization=team%20alpha&cluster=prod%2Feu"
    );
}

#[test]
fn create_response_names_its_organization() {
    let response = created();
    assert_eq!(response.database.name, "analytics");
    assert_eq!(response.resolved_organization_name(), Some("new_team"));
}

#[test]
fn created_database_keeps_saved_cluster_without_one() {
    let mut cfg = Config {
        default_cluster: Some("staging".to_string()),
        ..Config::default()
    };
    apply_database_create_config(&mut cfg, &created(), None);
    assert_eq!(cfg.default_cluster.as_deref(), Some("staging"));
    assert_eq!(created_message(&created()), "Database 'analytics' created in organization 'new_team'.");
}

#[test]
fn database_delete_path_encodes_name() {
    assert_eq!(
        database_delete_path("my db", Some("team"), None),
        "/v1/databases/my%20db?organization=team"
    );
}

#[test]
fn listing_falls_back_to_listing_organization() {
    let resp = ListDatabasesResponse {
        organization: Some(OrganizationRef {
            name: "team_alpha".to_string(),
        }),
        databases: vec![
            DatabaseItem {
                name: "analytics".to_string(),
                organization: None,
                s3_storage: false,
            },
            DatabaseItem {
                name: "billing".to_string(),
                organization: Some(OrganizationRef {
                    name: "team_beta".to_string(),
                }),
                s3_storage: true,
            },
        ],
    };
    let lines = database_listing(&resp);
    assert_eq!(
        lines,
        vec![
            "analytics            org=team_alpha storage=cluster default",
            "billing              org=team_beta storage=customer-owned S3",
        ]
    );
    let empty = ListDatabasesResponse {
        organization: None,
        databases: Vec::new(),
    };
    assert_eq!(
        database_listing(&empty),
        vec!["No databases yet. Create one with `rtree database create <name>`."]
    );
    assert_eq!(format_storage(false), "cluster default");
}

#[test]
fn listing_without_any_organization_says_unknown() {
    let resp = ListDatabasesResponse {
        organization: None,
        databases: vec![DatabaseItem {
            name: "a".to_string(),
            organization: None,
            s3_storage: false,
        }],
    };
    assert_eq!(
        database_listing(&resp),
        vec!["a                    org=unknown storage=cluster default"]
    );
}
