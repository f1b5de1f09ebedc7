use rawtree_cli::query::{
    apply_limit, extract_hints, extract_rows_and_columns, footer_rows, merge_columns,
    parse_u64_field, render_clickhouse_table, HintsField, QueryPayload, SummaryNumber,
};

fn keys(items: &[&str]) -> Option<Vec<String>> {
    Some(items.iter().map(|s| s.to_string()).collect())
}

fn object(
    data: Option<Vec<Option<Vec<String>>>>,
    meta: Option<Vec<Option<String>>>,
    rows: SummaryNumber,
    rows_read: SummaryNumber,
    bytes_read: SummaryNumber,
    hints: HintsField,
) -> QueryPayload {
    QueryPayload::Object { data, meta, rows, rows_read, bytes_read, hints }
}

fn plain_object(data: Option<Vec<Option<Vec<String>>>>, meta: Option<Vec<Option<String>>>) -> QueryPayload {
    object(
        data,
        meta,
        SummaryNumber::Other,
        SummaryNumber::Other,
        SummaryNumber::Other,
        HintsField::Missing,
    )
}

#[test]
fn extract_rows_uses_meta_order_and_appends_missing_keys() {
    // {"meta": [{"name": "id"}, {"name": "name"}],
    //  "data": [{"id": 1, "name": "alice"}, {"id": 2, "name": "bob", "extra": true}]}
    let payload = plain_object(
        Some(vec![keys(&["id", "name"]), keys(&["extra", "id", "name"])]),
        Some(vec![Some("id".to_string()), Some("name".to_string())]),
    );
    let (columns, rows, summary) = extract_rows_and_columns(&payload).expect("tabular json");
    assert_eq!(columns, vec!["id", "name", "extra"]);
    assert_eq!(rows.len(), 2);
    assert!(summary.rows.is_none());
    assert!(summary.rows_read.is_none());
    assert!(summary.bytes_read.is_none());
    assert!(summary.hints.is_empty());
}

#[test]
fn extract_rows_supports_top_level_array() {
    // [{"a": 1}, {"a": 2, "b": 3}]
    let payload = QueryPayload::Array {
        rows: vec![keys(&["a"]), keys(&["a", "b"])],
    };
    let (columns, rows, summary) = extract_rows_and_columns(&payload).expect("tabular json");
    assert_eq!(columns, vec!["a", "b"]);
    assert_eq!(rows.len(), 2);
    assert!(summary.rows.is_none());
    assert!(summary.rows_read.is_none());
    assert!(summary.bytes_read.is_none());
    assert!(summary.hints.is_empty());
}

#[test]
fn extract_rows_includes_rows_and_statistics_summary() {
    // {"rows": 1, "statistics": {"bytes_read": 25, "elapsed": 0.000571999, "rows_read": 1},
    //  "data": [{"id": 1}]}
    let payload = object(
        Some(vec![keys(&["id"])]),
        None,
        SummaryNumber::Number { value: Some(1) },
        SummaryNumber::Number { value: Some(1) },
        SummaryNumber::Number { value: Some(25) },
        HintsField::Missing,
    );
    let (_, _, summary) = extract_rows_and_columns(&payload).expect("tabular json");
    assert_eq!(summary.rows, Some(1));
    assert_eq!(summary.bytes_read, Some(25));
    assert_eq!(summary.rows_read, Some(1));
    assert!(summary.hints.is_empty());
}

#[test]
fn extract_rows_includes_hints_summary() {
    // {"rows": 1, "hints": ["slow query", "consider index"], "data": [{"id": 1}]}
    let payload = object(
        Some(vec![keys(&["id"])]),
        None,
        SummaryNumber::Number { value: Some(1) },
        SummaryNumber::Other,
        SummaryNumber::Other,
        HintsField::List {
            hints: vec![Some("slow query".to_string()), Some("consider index".to_string())],
        },
    );
    let (_, _, summary) = extract_rows_and_columns(&payload).expect("tabular json");
    assert_eq!(
        summary.hints,
        vec!["slow query".to_string(), "consider index".to_string()]
    );
}

#[test]
fn extract_rows_rejects_non_object_rows() {
    // {"data": [1, 2, 3]}
    let payload = plain_object(Some(vec![None, None, None]), None);
    assert!(extract_rows_and_columns(&payload).is_none());
}

#[test]
fn non_tabular_payloads_are_refused() {
    assert!(extract_rows_and_columns(&QueryPayload::Other).is_none());
    assert!(extract_rows_and_columns(&plain_object(None, None)).is_none());
    let mixed = QueryPayload::Array { rows: vec![keys(&["a"]), None] };
    assert!(extract_rows_and_columns(&mixed).is_none());
}

#[test]
fn extracted_rows_keep_their_keys() {
    let payload = plain_object(Some(vec![keys(&["b", "a"]), keys(&[])]), None);
    let (columns, rows, _) = extract_rows_and_columns(&payload).expect("tabular json");
    assert_eq!(columns, vec!["b", "a"]);
    assert_eq!(rows, vec![vec!["b".to_string(), "a".to_string()], Vec::new()]);
}

#[test]
fn summary_numbers_accept_numbers_and_numeric_text() {
    assert_eq!(parse_u64_field(&SummaryNumber::Number { value: Some(1) }), Some(1));
    assert_eq!(parse_u64_field(&SummaryNumber::Text { text: "25".to_string() }), Some(25));
    assert_eq!(parse_u64_field(&SummaryNumber::Text { text: "x".to_string() }), None);
    assert_eq!(parse_u64_field(&SummaryNumber::Number { value: None }), None);
    assert_eq!(parse_u64_field(&SummaryNumber::Other), None);
    let payload = object(
        Some(Vec::new()),
        None,
        SummaryNumber::Text { text: "7".to_string() },
        SummaryNumber::Text { text: "seven".to_string() },
        SummaryNumber::Other,
        HintsField::Missing,
    );
    let (columns, rows, summary) = extract_rows_and_columns(&payload).expect("tabular json");
    assert!(columns.is_empty());
    assert!(rows.is_empty());
    assert_eq!(summary.rows, Some(7));
    assert_eq!(summary.rows_read, None);
}

#[test]
fn blank_and_null_hints_are_skipped() {
    let hints = extract_hints(&HintsField::List {
        hints: vec![
            Some("slow query".to_string()),
            None,
            Some("  ".to_string()),
            Some("consider index".to_string()),
        ],
    });
    assert_eq!(
        hints,
        vec!["slow query".to_string(), "consider index".to_string()]
    );
    assert!(extract_hints(&HintsField::Missing).is_empty());
    assert_eq!(
        extract_hints(&HintsField::Single { hint: Some(" ".to_string()) }),
        vec![" ".to_string()]
    );
}

#[test]
fn clickhouse_table_renderer_formats_header_and_row_numbers() {
    let columns = vec!["user_id".to_string(), "email".to_string()];
    let rows = vec![
        vec![
            "9ec3b48a-1b3e-44b9-8442-88c01022e78d".to_string(),
            "a@example.com".to_string(),
        ],
        vec![
            "9abbcf75-c1d1-4246-b9d0-7dea86b67297".to_string(),
            "b@example.com".to_string(),
        ],
    ];

    let rendered = render_clickhouse_table(&columns, &rows, false);
    assert!(rendered.contains("┌─user_id"));
    assert!(rendered.contains("1. │"));
    assert!(rendered.contains("2. │"));
    assert!(rendered.contains("└"));
}

#[test]
fn table_lines_are_exact() {
    let columns = vec!["id".to_string(), "name".to_string()];
    let rows = vec![
        vec!["1".to_string(), "alice".to_string()],
        vec!["22".to_string(), "bo".to_string()],
    ];
    let rendered = render_clickhouse_table(&columns, &rows, false);
    let expected = [
        "   ┌─id─┬─name──┐",
        "1. │ 1  │ alice │",
        "2. │ 22 │ bo    │",
        "   └────┴───────┘",
    ]
    .join("\n");
    assert_eq!(rendered, expected);
}

#[test]
fn row_numbers_are_right_aligned() {
    let columns = vec!["n".to_string()];
    let rows: Vec<Vec<String>> = (1..=10).map(|i| vec![i.to_string()]).collect();
    let rendered = render_clickhouse_table(&columns, &rows, false);
    let lines: Vec<&str> = rendered.lines().collect();
    assert_eq!(lines.len(), 12);
    assert_eq!(lines[1], " 1. │ 1  │");
    assert_eq!(lines[10], "10. │ 10 │");
    let empty: Vec<Vec<String>> = Vec::new();
    assert_eq!(render_clickhouse_table(&columns, &empty, false), "   ┌─n─┐\n   └───┘");
}

#[test]
fn limit_replaces_trailing_semicolons() {
    assert_eq!(apply_limit("  SELECT 1;; ", Some(10)), "SELECT 1 LIMIT 10");
    assert_eq!(apply_limit("SELECT 1;", None), "SELECT 1;");
}

#[test]
fn merged_columns_keep_first_occurrence() {
    let meta = vec!["b".to_string()];
    let rows = vec![
        vec!["a".to_string(), "b".to_string()],
        vec!["c".to_string(), "a".to_string()],
    ];
    assert_eq!(merge_columns(&meta, &rows), vec!["b", "a", "c"]);
}

#[test]
fn footer_row_count_falls_back() {
    assert_eq!(footer_rows(Some(5), Some(7), 2), 5);
    assert_eq!(footer_rows(None, Some(7), 2), 7);
    assert_eq!(footer_rows(None, None, 2), 2);
}

#[test]
fn colorized_table_keeps_the_cells() {
    let columns = vec!["id".to_string()];
    let rows = vec![vec!["7".to_string()]];
    let rendered = render_clickhouse_table(&columns, &rows, true);
    let lines: Vec<&str> = rendered.lines().collect();
    assert_eq!(lines.len(), 3);
    assert_eq!(lines[0], "   ┌─id─┐");
    assert!(lines[1].ends_with("│ 7  │"));
    assert!(lines[1] == "1. │ 7  │" || lines[1] == "\u{1b}[38;5;245m1. \u{1b}[0m│ 7  │");
    assert_eq!(lines[2], "   └────┘");
}
