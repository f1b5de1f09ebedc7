use rawtree_cli::cluster::{
    check_update_settings, cluster_path, cluster_status_lines, clusters_collection_path,
    create_request_body, created_at_text, created_cluster_lines, delete_path,
    deleted_cluster_lines, format_created_at, format_idle_timeout, format_phase,
    lifecycle_lines, resolve_cluster, resolve_cluster_size, resolve_size_bounds, resume, stop,
    updated_cluster_lines, ClusterError, ClusterItem, ClusterSize, ClusterSizeItem,
    ClusterStatus, LifecycleAction,
};

fn cluster() -> ClusterItem {
    ClusterItem {
        id: "11111111-1111-1111-1111-111111111111".to_string(),
        name: "production".to_string(),
        created_at: "2026-07-14 20:38:33.004347+00".to_string(),
        status: ClusterStatus {
            phase: "ready".to_string(),
            ready: true,
            message: None,
        },
        can_pause: true,
        can_resume: false,
        idle_timeout_minutes: 15,
    }
}

fn sizes() -> Vec<ClusterSizeItem> {
    vec![
        ClusterSizeItem {
            size: "2x8".to_string(),
            cpu_cores: 2,
            memory_gib: 8,
        },
        ClusterSizeItem {
            size: "4x16".to_string(),
            cpu_cores: 4,
            memory_gib: 16,
        },
    ]
}

#[test]
fn collection_path_encodes_organization() {
    assert_eq!(
        clusters_collection_path(Some("team alpha")),
        "/v1/clusters?organization=team%20alpha"
    );
    assert_eq!(clusters_collection_path(None), "/v1/clusters");
}

#[test]
fn lifecycle_paths_encode_cluster_and_organization() {
    assert_eq!(
        cluster_path("cluster/id", Some("stop"), Some("team alpha")),
        "/v1/clusters/cluster%2Fid/stop?organization=team%20alpha"
    );
    assert_eq!(
        cluster_path("cluster-id", Some("resume"), None),
        "/v1/clusters/cluster-id/resume"
    );
    assert_eq!(
        cluster_path("cluster-id", None, Some("team alpha")),
        "/v1/clusters/cluster-id?organization=team%20alpha"
    );
}

#[test]
fn cluster_size_catalog_resolves_public_identifiers() {
    let sizes = sizes();
    assert_eq!(
        resolve_cluster_size(&sizes, "2x8").expect("valid cluster size"),
        (
            0,
            ClusterSize {
                cpu_cores: 2,
                memory_gib: 8,
            }
        )
    );
    let error = resolve_cluster_size(&sizes, "small").expect_err("unknown size");
    assert!(error.message().contains("2x8, 4x16"));
}

#[test]
fn create_request_uses_minimum_as_initial_size_and_sends_bounds() {
    let body = create_request_body(
        "production",
        2,
        ClusterSize {
            cpu_cores: 2,
            memory_gib: 8,
        },
        ClusterSize {
            cpu_cores: 64,
            memory_gib: 256,
        },
        Some(30),
    );
    assert_eq!(body.name, "production");
    assert_eq!(body.replicas, 2);
    assert_eq!(body.size, ClusterSize { cpu_cores: 2, memory_gib: 8 });
    assert_eq!(body.min_size, ClusterSize { cpu_cores: 2, memory_gib: 8 });
    assert_eq!(body.max_size, ClusterSize { cpu_cores: 64, memory_gib: 256 });
    assert_eq!(body.idle_timeout_minutes, Some(30));
}

#[test]
fn resolves_dedicated_cluster_by_name_or_id() {
    let clusters = vec![cluster()];
    assert_eq!(
        resolve_cluster(&clusters, "production")
            .expect("cluster by name")
            .id,
        "11111111-1111-1111-1111-111111111111"
    );
    assert_eq!(
        resolve_cluster(&clusters, "11111111-1111-1111-1111-111111111111")
            .expect("cluster by id")
            .name,
        "production"
    );
    let error = match resolve_cluster(&clusters, "missing") {
        Ok(_) => panic!("missing cluster should fail"),
        Err(error) => error,
    };
    assert_eq!(error.code(), "cluster_not_found");
    assert_eq!(error.exit_code(), 4);
}

#[test]
fn timestamp_is_rendered_to_seconds_in_utc() {
    assert_eq!(
        format_created_at("2026-07-14 20:38:33.004347+00"),
        "2026-07-14 20:38:33 UTC"
    );
    assert_eq!(
        format_created_at("2026-07-14 22:38:33+02"),
        "2026-07-14 20:38:33 UTC"
    );
}

#[test]
fn idle_timeout_is_human_readable() {
    assert_eq!(format_idle_timeout(0), "disabled");
    assert_eq!(format_idle_timeout(30), "30 minutes");
}

#[test]
fn lifecycle_phase_is_human_readable() {
    assert_eq!(format_phase("rolling_rawtree"), "rolling rawtree");
}

#[test]
fn unparsable_timestamp_is_shown_as_is() {
    assert_eq!(format_created_at("yesterday"), "yesterday");
    assert_eq!(created_at_text(None, "raw"), "raw");
    assert_eq!(created_at_text(Some("t".to_string()), "raw"), "t");
}

#[test]
fn size_bounds_follow_catalog_order() {
    let sizes = sizes();
    let (lo, hi) = resolve_size_bounds(&sizes, "2x8", Some("4x16")).expect("bounds");
    assert_eq!(lo, ClusterSize { cpu_cores: 2, memory_gib: 8 });
    assert_eq!(hi, ClusterSize { cpu_cores: 4, memory_gib: 16 });
    let (lo, hi) = resolve_size_bounds(&sizes, "4x16", None).expect("bounds");
    assert_eq!(lo, hi);
    let err = resolve_size_bounds(&sizes, "4x16", Some("2x8")).expect_err("reversed");
    assert!(matches!(err, ClusterError::MaxBelowMin));
    assert_eq!(
        err.message(),
        "--max-size must be at least as large as --min-size in the cluster size catalog"
    );
    assert_eq!(err.code(), "invalid_input");
    assert_eq!(err.exit_code(), 1);
    let empty: Vec<ClusterSizeItem> = Vec::new();
    let err = resolve_cluster_size(&empty, "2x8").expect_err("empty catalog");
    assert_eq!(err.message(), "Unknown cluster size '2x8'. Available sizes: none");
}

#[test]
fn update_needs_a_setting() {
    let err = check_update_settings(None, None).expect_err("nothing to update");
    assert_eq!(
        err.message(),
        "At least one setting is required. Pass --name and/or --idle-timeout-minutes."
    );
    assert!(check_update_settings(Some("n"), None).is_ok());
    assert!(check_update_settings(None, Some(0)).is_ok());
}

#[test]
fn lifecycle_requests_target_the_resolved_cluster() {
    let clusters = vec![cluster()];
    assert_eq!(
        stop(&clusters, "production", Some("team alpha")).expect("stop"),
        "/v1/clusters/11111111-1111-1111-1111-111111111111/stop?organization=team%20alpha"
    );
    assert_eq!(
        resume(&clusters, "production", None).expect("resume"),
        "/v1/clusters/11111111-1111-1111-1111-111111111111/resume"
    );
    assert_eq!(
        delete_path(&clusters, "11111111-1111-1111-1111-111111111111", None).expect("delete"),
        "/v1/clusters/11111111-1111-1111-1111-111111111111"
    );
    let err = stop(&clusters, "staging", None).expect_err("unknown");
    assert_eq!(err.message(), "Dedicated cluster 'staging' not found.");
    assert_eq!(LifecycleAction::Stop.path_segment(), "stop");
    assert_eq!(LifecycleAction::Resume.label(), "Resume");
}

#[test]
fn status_lines_describe_the_cluster() {
    let mut c = cluster();
    c.status.phase = "rolling_update".to_string();
    c.status.message = Some("Waiting".to_string());
    let lines = cluster_status_lines(&c);
    assert_eq!(
        lines,
        vec![
            "Cluster: production",
            "ID: 11111111-1111-1111-1111-111111111111",
            "Status: rolling update",
            "Ready: yes",
            "Idle timeout: 15 minutes",
            "Message: Waiting",
        ]
    );
}

#[test]
fn messages_after_cluster_requests() {
    let c = cluster();
    assert_eq!(
        created_cluster_lines(&c),
        vec![
            "Cluster 'production' creation accepted (status: ready).",
            "Run `rtree cluster status production` to check provisioning progress.",
        ]
    );
    assert_eq!(
        updated_cluster_lines(&c),
        vec!["Cluster 'production' settings updated.", "Idle timeout: 15 minutes"]
    );
    assert_eq!(
        lifecycle_lines(LifecycleAction::Stop, &c),
        vec![
            "Stop request accepted for cluster 'production' (status: ready).",
            "Run `rtree cluster status production` to check progress.",
        ]
    );
    assert!(deleted_cluster_lines("production", false).is_empty());
    assert_eq!(deleted_cluster_lines("production", true).len(), 2);
}

#[test]
fn catalog_size_found_by_resources() {
    let sizes = sizes();
    assert_eq!(
        rawtree_cli::cluster::size_for_resources(&sizes, 4, 16).as_deref(),
        Some("4x16")
    );
    assert_eq!(rawtree_cli::cluster::size_for_resources(&sizes, 4, 8), None);
}

#[test]
fn deleting_an_unknown_cluster_is_not_found() {
    let clusters = vec![cluster()];
    let err = delete_path(&clusters, "staging", None).expect_err("unknown");
    assert!(matches!(err, ClusterError::NotFound { .. }));
    assert_eq!(err.code(), "cluster_not_found");
    assert_eq!(err.exit_code(), 4);
}
