use rawtree_cli::org::{
    database_scoped_path, databases_collection_path, first_organization_name,
    list_organizations, scoped_path, ListOrganizationsResponse, OrganizationItem,
};

#[test]
fn databases_collection_path_uses_organization_filter() {
    assert_eq!(
        databases_collection_path(Some("team alpha"), None),
        "/v1/databases?organization=team%20alpha"
    );
    assert_eq!(databases_collection_path(None, None), "/v1/databases");
    assert_eq!(
        databases_collection_path(Some("team alpha"), Some("prod/eu")),
        "/v1/databases?organization=team%20alpha&cluster=prod%2Feu"
    );
}

#[test]
fn database_scoped_path_adds_database_query_param() {
    let path = database_scoped_path("analytics", "/query", None, None);
    assert_eq!(path, "/v1/query?database=analytics");
}

#[test]
fn database_scoped_path_adds_organization_query_param() {
    let path = database_scoped_path(
        "analytics",
        "/query",
        Some("team_alpha"),
        Some("production"),
    );
    assert_eq!(
        path,
        "/v1/query?database=analytics&organization=team_alpha&cluster=production"
    );
}

#[test]
fn database_scoped_path_accepts_suffix_without_leading_slash() {
    let path = database_scoped_path("analytics", "tables", Some("team_alpha"), None);
    assert_eq!(
        path,
        "/v1/tables?database=analytics&organization=team_alpha"
    );
}

#[test]
fn database_scoped_path_appends_to_existing_query() {
    let path =
        database_scoped_path("analytics db", "/tables/events?url=x", Some("team a"), None);
    assert_eq!(
        path,
        "/v1/tables/events?url=x&database=analytics%20db&organization=team%20a"
    );
}

#[test]
fn scoped_path_adds_cluster_without_organization() {
    assert_eq!(
        scoped_path("/v1/databases", None, Some("production")),
        "/v1/databases?cluster=production"
    );
}

#[test]
fn scoped_path_continues_an_existing_query() {
    assert_eq!(
        scoped_path("/v1/x?a=1", Some("o"), None),
        "/v1/x?a=1&organization=o"
    );
    assert_eq!(scoped_path("/v1/x", None, None), "/v1/x");
    assert_eq!(database_scoped_path("d", "", None, None), "/v1?database=d");
}

#[test]
fn first_organization_comes_from_a_successful_listing() {
    let items = vec![
        OrganizationItem {
            name: "team_alpha".to_string(),
            role: "owner".to_string(),
        },
        OrganizationItem {
            name: "team_beta".to_string(),
            role: "member".to_string(),
        },
    ];
    let listed = list_organizations(ListOrganizationsResponse {
        organizations: items,
    });
    assert_eq!(listed.len(), 2);
    assert_eq!(first_organization_name(Some(listed)).as_deref(), Some("team_alpha"));
    assert_eq!(first_organization_name(Some(Vec::new())), None);
    assert_eq!(first_organization_name(None), None);
}

#[test]
fn organization_path_encodes_name() {
    assert_eq!(
        rawtree_cli::org::organization_path("team alpha/x"),
        "/v1/organizations/team%20alpha%2Fx"
    );
}
