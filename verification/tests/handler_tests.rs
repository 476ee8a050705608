use data_api::handler::{error_log_line, respond, select_matching, ApiResponse, QueryError};
use data_api::record::Record;

fn rec(field1: &str, field2: i32) -> Record {
    Record {
        field1: field1.to_string(),
        field2,
    }
}

fn table(rows: &[(&str, i32)]) -> Vec<Record> {
    rows.iter().map(|&(f1, f2)| rec(f1, f2)).collect()
}

fn serve(rows: &[(&str, i32)]) -> ApiResponse {
    let t = table(rows);
    respond(Ok(select_matching(&t)))
}

#[test]
fn filter_keeps_only_rows_above_threshold() {
    let t = table(&[("a", 1000), ("b", 900)]);
    let out = select_matching(&t);
    assert_eq!(out.len(), 1);
    assert_eq!(out[0].field1, "a");
    assert_eq!(out[0].field2, 1000);
}

#[test]
fn threshold_itself_is_excluded() {
    let t = table(&[("edge", 995), ("just_in", 996)]);
    let out = select_matching(&t);
    assert_eq!(out.len(), 1);
    assert_eq!(out[0].field1, "just_in");
}

#[test]
fn filter_preserves_table_order() {
    let t = table(&[("x", 1000), ("y", 10), ("z", 2000), ("w", 996)]);
    let out = select_matching(&t);
    let names: Vec<&str> = out.iter().map(|r| r.field1.as_str()).collect();
    assert_eq!(names, ["x", "z", "w"]);
}

#[test]
fn two_records_one_selected() {
    let resp = serve(&[("a", 1000), ("b", 900)]);
    assert_eq!(resp.status, 200);
    assert_eq!(resp.body, "[{\"field1\":\"a\",\"field2\":1000}]");
}

#[test]
fn empty_table_gives_empty_array() {
    let resp = serve(&[]);
    assert_eq!(resp.status, 200);
    assert_eq!(resp.body, "[]");
}

#[test]
fn database_error_is_swallowed() {
    let outcome: Result<Vec<Record>, QueryError> = Err(QueryError {
        message: "connection dropped".to_string(),
    });
    let log = error_log_line(&outcome);
    let resp = respond(outcome);
    assert_eq!(resp.status, 200);
    assert_eq!(resp.body, "[]");
    assert_eq!(log.unwrap(), "Database error: connection dropped");
}

#[test]
fn successful_query_logs_nothing() {
    let outcome: Result<Vec<Record>, QueryError> = Ok(table(&[("a", 1000)]));
    assert!(error_log_line(&outcome).is_none());
}

#[test]
fn repeated_requests_agree_on_unchanged_table() {
    let rows = [("a", 1000), ("b", 900), ("c", 996)];
    let first = serve(&rows);
    let second = serve(&rows);
    assert_eq!(first.status, second.status);
    assert_eq!(first.body, second.body);
}
