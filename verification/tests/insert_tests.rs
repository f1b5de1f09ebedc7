use rawtree_cli::insert::{
    append_transform_param, build_body_into, build_url_ingest_path, consume_url_insert_events,
    insert_api_path, insert_source, is_jsonl, is_jsonl_extension, normalize_url_insert_event,
    split_event_line, stream_line_payload, InsertError, InsertSource, JsonlBatcher,
    ProgressDisplay, UrlInsertEvent, UrlInsertStream, UrlInsertSummary, BATCH_SIZE,
};
use serde_json::Value;

fn number(v: &Value, key: &str) -> Option<u64> {
    match v.get(key) {
        Some(Value::Number(n)) => n.as_u64(),
        Some(Value::String(s)) => s.parse().ok(),
        _ => None,
    }
}

fn text(v: &Value, key: &str) -> Option<String> {
    v.get(key).and_then(Value::as_str).map(str::to_owned)
}

fn event_from_json(payload: &str) -> UrlInsertEvent {
    let v: Value = serde_json::from_str(payload).expect("valid event json");
    UrlInsertEvent {
        event_type: text(&v, "type"),
        query_id: text(&v, "query_id"),
        written_rows: number(&v, "written_rows"),
        written_bytes: number(&v, "written_bytes"),
        read_rows: number(&v, "read_rows"),
        read_bytes: number(&v, "read_bytes"),
        total_rows_to_read: number(&v, "total_rows_to_read"),
        elapsed_ms: number(&v, "elapsed_ms"),
        elapsed_ns: number(&v, "elapsed_ns"),
        memory_usage: number(&v, "memory_usage"),
        message: text(&v, "message"),
        inserted: number(&v, "inserted").map(|n| n as usize),
    }
}

fn events_of(payload: &str) -> Vec<(UrlInsertEvent, bool)> {
    let mut events = Vec::new();
    for line in payload.lines() {
        if let Some((json, header)) = stream_line_payload(line) {
            events.push(normalize_url_insert_event(event_from_json(&json), header));
        }
    }
    events
}

fn consume(payload: &str) -> Result<UrlInsertSummary, InsertError> {
    consume_url_insert_events(events_of(payload))
}

#[test]
fn url_ingest_path_uses_query_param_route() {
    let path = build_url_ingest_path(
        "events_2",
        None,
        Some("production"),
        "events",
        "https://example.com/a b.ndjson",
    );

    assert_eq!(
        path,
        "/v1/tables/events?url=https%3A%2F%2Fexample.com%2Fa%20b.ndjson&database=events_2&cluster=production"
    );
}

#[test]
fn url_insert_stream_uses_done_written_rows() {
    let payload = r#"{"type":"started","query_id":"q1","elapsed_ms":0}
{"type":"progress","query_id":"q1","written_rows":10,"elapsed_ms":100}
{"type":"done","query_id":"q1","written_rows":12,"elapsed_ms":150}
"#;
    let summary = consume(payload).expect("stream should parse");
    assert_eq!(summary.inserted, 12);
    assert_eq!(summary.query_id.as_deref(), Some("q1"));
    assert_eq!(summary.elapsed_ms, Some(150));
}

#[test]
fn url_insert_stream_uses_progress_rows_when_done_rows_missing() {
    let payload = r#"{"type":"started","query_id":"q1","elapsed_ms":0}
{"type":"progress","query_id":"q1","written_rows":7,"elapsed_ms":100}
{"type":"done","query_id":"q1","written_rows":null,"elapsed_ms":150}
"#;
    let summary = consume(payload).expect("stream should parse");
    assert_eq!(summary.inserted, 7);
}

#[test]
fn url_insert_stream_errors_on_error_event() {
    let payload = r#"{"type":"started","query_id":"q1","elapsed_ms":0}
{"type":"error","query_id":"q1","message":"boom"}
"#;
    let err = consume(payload).expect_err("must fail");
    assert!(err.message().contains("boom"));
}

#[test]
fn url_insert_stream_parses_in_non_json_mode() {
    let payload = r#"{"type":"started","query_id":"q1","elapsed_ms":0}
{"type":"progress","query_id":"q1","written_rows":4,"elapsed_ms":20}
{"type":"done","query_id":"q1","written_rows":4,"elapsed_ms":25}
"#;
    let summary = consume(payload).expect("stream should parse");
    assert_eq!(summary.inserted, 4);
    assert_eq!(summary.elapsed_ms, Some(25));
}

#[test]
fn url_insert_stream_accepts_clickhouse_progress_headers_without_done() {
    let payload = r#"X-ClickHouse-Progress: {"read_rows":"261636","read_bytes":"2093088","total_rows_to_read":"1000000","elapsed_ns":"14050417","memory_usage":"22205975"}
X-ClickHouse-Progress: {"read_rows":"654090","read_bytes":"5232720","total_rows_to_read":"1000000","elapsed_ns":"27948667","memory_usage":"83400279"}
X-ClickHouse-Progress: {"read_rows":"1000000","read_bytes":"8000000","total_rows_to_read":"1000000","elapsed_ns":"38002417","memory_usage":"80715679"}
"#;

    let summary = consume(payload).expect("header-style progress should parse");
    assert_eq!(summary.inserted, 1_000_000);
    assert_eq!(summary.processed_bytes, Some(8_000_000));
    assert_eq!(summary.elapsed_ms, Some(38));
}

#[test]
fn url_insert_stream_accepts_events_with_both_read_and_written_fields() {
    let payload = r#"{"elapsed_ns":"3510333127","memory_usage":"2846240784","query_id":"0e957306-1826-45bf-812f-45836cabad04","read_bytes":"50725776","read_rows":"132436","type":"progress","written_bytes":"834982334","written_rows":"98798"}
{"elapsed_ns":"3520000000","memory_usage":"2846240784","query_id":"0e957306-1826-45bf-812f-45836cabad04","read_bytes":"50725776","read_rows":"132436","type":"done","written_bytes":"834982334","written_rows":"98798"}
"#;

    let summary = consume(payload).expect("mixed read/written fields should parse");
    assert_eq!(summary.inserted, 98_798);
    assert_eq!(summary.processed_bytes, Some(834_982_334));
    assert_eq!(summary.elapsed_ms, Some(3520));
}

#[test]
fn url_insert_stream_preserves_previous_bytes_and_elapsed_on_partial_progress() {
    let payload = r#"{"type":"progress","query_id":"q1","written_rows":10,"written_bytes":1000,"elapsed_ms":100}
{"type":"progress","query_id":"q1","written_rows":12}
{"type":"done","query_id":"q1","written_rows":12}
"#;

    let summary = consume(payload).expect("partial progress should preserve previous stats");
    assert_eq!(summary.inserted, 12);
    assert_eq!(summary.processed_bytes, Some(1000));
    assert_eq!(summary.elapsed_ms, Some(100));
}

#[test]
fn empty_stream_is_an_empty_response() {
    let err = consume("\n  \n").expect_err("empty");
    assert_eq!(err.message(), "empty response from URL insert endpoint");
}

#[test]
fn stream_without_done_event_fails() {
    let payload = r#"{"type":"started","query_id":"q1"}
{"type":"progress","written_rows":3}
"#;
    let err = consume(payload).expect_err("no done");
    assert_eq!(err.message(), "URL insert stream ended without a done event");
}

#[test]
fn legacy_inserted_count_wins() {
    let payload = r#"{"type":"done","written_rows":99}
{"inserted":5}
"#;
    let summary = consume(payload).expect("legacy");
    assert_eq!(summary.inserted, 5);
    assert_eq!(summary.processed_bytes, None);
    assert_eq!(summary.query_id, None);
}

#[test]
fn error_event_ends_the_stream_whatever_follows() {
    let payload = r#"{"type":"error","message":"first"}
{"type":"done","written_rows":12}
{"inserted":5}
"#;
    let err = consume(payload).expect_err("error is final");
    assert_eq!(err.message(), "URL insert failed: first");
    let payload = r#"{"type":"error","query_id":"q9"}
"#;
    let err = consume(payload).expect_err("default message");
    assert_eq!(err.message(), "URL insert failed (query_id: q9): URL insert failed");
}

#[test]
fn observe_reports_progress_for_display() {
    let mut stream = UrlInsertStream::new();
    let (e, native) = normalize_url_insert_event(
        event_from_json(r#"{"written_rows":5,"written_bytes":50,"elapsed_ms":10}"#),
        false,
    );
    assert!(native);
    assert_eq!(e.event_type.as_deref(), Some("progress"));
    match stream.observe(e, native) {
        Ok(ProgressDisplay::Progress { rows, bytes, elapsed_ms }) => {
            assert_eq!(rows, 5);
            assert_eq!(bytes, Some(50));
            assert_eq!(elapsed_ms, Some(10));
        }
        other => panic!("unexpected {:?}", other),
    }
}

#[test]
fn progress_header_lines_are_split() {
    let (json, header) = split_event_line("X-ClickHouse-Progress:  {\"a\":1} ");
    assert!(header);
    assert_eq!(json, "{\"a\":1}");
    let (json, header) = split_event_line("{\"type\":\"done\"}");
    assert!(!header);
    assert_eq!(json, "{\"type\":\"done\"}");
    assert!(stream_line_payload("   ").is_none());
}

#[test]
fn insert_source_prefers_data_then_url_then_file() {
    assert_eq!(insert_source(Some("[]"), Some("a.jsonl"), Some("u")).expect("src"), InsertSource::Inline);
    assert_eq!(insert_source(None, Some("a.jsonl"), Some("u")).expect("src"), InsertSource::Url);
    assert_eq!(insert_source(None, Some("a.JSONL"), None).expect("src"), InsertSource::JsonlFile);
    assert_eq!(insert_source(None, Some("a.json"), None).expect("src"), InsertSource::JsonFile);
    let err = insert_source(None, None, None).expect_err("none");
    assert_eq!(err.message(), "provide exactly one of --data, --file, or --url");
}

#[test]
fn jsonl_detection_uses_the_extension() {
    assert!(is_jsonl("data/events.jsonl"));
    assert!(is_jsonl("EVENTS.JsonL"));
    assert!(!is_jsonl("events.json"));
    assert!(!is_jsonl("jsonl"));
    assert!(is_jsonl_extension(&Some("jSoNl".to_string())));
    assert!(!is_jsonl_extension(&None));
}

#[test]
fn insert_paths_carry_table_and_transform() {
    assert_eq!(
        insert_api_path("db", Some("org"), None, "events", Some("t 1")),
        "/v1/tables/events?database=db&organization=org&transform=t%201"
    );
    assert_eq!(insert_api_path("db", None, None, "events", None), "/v1/tables/events?database=db");
    assert_eq!(append_transform_param("/p", Some("x")), "/p?transform=x");
}

#[test]
fn body_is_a_json_array_of_rows() {
    let mut body = String::from("stale");
    build_body_into(&mut body, &vec!["{\"a\":1}".to_string(), "{\"a\":2}".to_string()]);
    assert_eq!(body, "[{\"a\":1},{\"a\":2}]");
    build_body_into(&mut body, &Vec::new());
    assert_eq!(body, "[]");
}

#[test]
fn batcher_loses_no_rows() {
    let mut batcher = JsonlBatcher::new();
    let mut sent: Vec<String> = Vec::new();
    let total = BATCH_SIZE * 2 + 3;
    for i in 0..total {
        if let Some(batch) = batcher.push_line(&format!("{{\"i\":{i}}}  \n")) {
            assert_eq!(batch.len(), BATCH_SIZE);
            sent.extend(batch);
        }
        assert!(batcher.push_line("   ").is_none());
    }
    if let Some(batch) = batcher.finish() {
        assert_eq!(batch.len(), 3);
        sent.extend(batch);
    }
    assert_eq!(sent.len(), total);
    assert_eq!(sent[0], "{\"i\":0}");
    assert_eq!(sent[total - 1], format!("{{\"i\":{}}}", total - 1));
}
