use libsql_plugin::client::QueryResult;
use libsql_plugin::handlers::query::{
    build_payload, execute_payload, explain_sql, paged_payload, plan_query, query_request, QueryPlan,
};
use libsql_plugin::json::{Json, JsonNumber};
use libsql_plugin::utils::pagination::offset_for;
use serde_json::Value;

fn to_json_q(v: &Value) -> Json {
    match v {
        Value::Null => Json::Null,
        Value::Bool(b) => Json::Bool(*b),
        Value::Number(n) => {
            if let Some(u) = n.as_u64() {
                Json::Number(JsonNumber::PosInt(u))
            } else if let Some(i) = n.as_i64() {
                Json::Number(JsonNumber::NegInt(i))
            } else {
                Json::Number(JsonNumber::Float(n.to_string()))
            }
        }
        Value::String(s) => Json::Str(s.clone()),
        Value::Array(a) => Json::Array(a.iter().map(to_json_q).collect()),
        Value::Object(o) => Json::Object(o.iter().map(|(k, v)| (k.clone(), to_json_q(v))).collect()),
    }
}

fn jq(text: &str) -> Json {
    to_json_q(&serde_json::from_str::<Value>(text).expect("test JSON"))
}

fn result(rows: usize) -> QueryResult {
    QueryResult {
        columns: vec!["n".to_string()],
        rows: (0..rows).map(|i| vec![libsql_plugin::json::int_json(i as i64)]).collect(),
        affected: 0,
    }
}

#[test]
fn offsets_are_saturating() {
    assert_eq!(offset_for(1, 50), 0);
    assert_eq!(offset_for(3, 50), 100);
    assert_eq!(offset_for(0, 50), 0);
    assert_eq!(offset_for(u64::MAX, 2), u64::MAX);
    // Consecutive pages are contiguous.
    assert_eq!(offset_for(8, 25), offset_for(7, 25) + 25);
}

#[test]
fn request_reads_query_page_and_limit() {
    let r = query_request(&jq(r#"{"query": "select 1", "page": 3, "page_size": 10}"#)).unwrap();
    assert_eq!((r.query.as_str(), r.page, r.limit), ("select 1", 3, Some(10)));
    let r = query_request(&jq(r#"{"query": "select 1", "limit": 0, "page_size": 10}"#)).unwrap();
    assert_eq!((r.page, r.limit), (1, None));
    let r = query_request(&jq(r#"{"query": "x", "page": -1, "limit": null, "page_size": 5}"#)).unwrap();
    assert_eq!((r.page, r.limit), (1, None));
    let e = query_request(&jq(r#"{"query": ""}"#)).err().unwrap();
    assert_eq!((e.code, e.message.as_str()), (-32602, "missing 'query' parameter"));
}

#[test]
fn plans_page_rows_or_statement() {
    let r = query_request(&jq(r#"{"query": "SELECT * FROM t; ", "page": 3, "limit": 50}"#)).unwrap();
    match plan_query(&r) {
        QueryPlan::Paged { sql, page, size } => {
            assert_eq!(sql, "SELECT * FROM (SELECT * FROM t) AS _tab_page LIMIT 51 OFFSET 100");
            assert_eq!((page, size), (3, 50));
        }
        _ => panic!("paged plan expected"),
    }
    let r = query_request(&jq(r#"{"query": "PRAGMA table_info(t);", "limit": 50}"#)).unwrap();
    match plan_query(&r) {
        QueryPlan::Rows { sql } => assert_eq!(sql, "PRAGMA table_info(t)"),
        _ => panic!("rows plan expected"),
    }
    let r = query_request(&jq(r#"{"query": "select 1"}"#)).unwrap();
    match plan_query(&r) {
        QueryPlan::Rows { sql } => assert_eq!(sql, "select 1"),
        _ => panic!("rows plan expected"),
    }
    let r = query_request(&jq(r#"{"query": " insert into t values (1);; "}"#)).unwrap();
    match plan_query(&r) {
        QueryPlan::Execute { sql } => assert_eq!(sql, "insert into t values (1)"),
        _ => panic!("execute plan expected"),
    }
}

#[test]
fn explain_strips_semicolons() {
    assert_eq!(explain_sql("select 1;"), "EXPLAIN QUERY PLAN select 1");
}

#[test]
fn page_drops_the_extra_row() {
    let p = paged_payload(2, 3, result(4), 7);
    assert_eq!(p.get("rows"), Some(&jq("[[0],[1],[2]]")));
    assert_eq!(p.get("truncated"), Some(&Json::Bool(true)));
    assert_eq!(p.get("affected_rows"), Some(&jq("0")));
    assert_eq!(p.get("execution_time_ms"), Some(&jq("7")));
    let pg = p.get("pagination").unwrap();
    assert_eq!(pg.get("page"), Some(&jq("2")));
    assert_eq!(pg.get("page_size"), Some(&jq("3")));
    assert_eq!(pg.get("total_rows"), Some(&Json::Null));
    assert_eq!(pg.get("has_more"), Some(&Json::Bool(true)));
    let p = paged_payload(1, 3, result(3), 0);
    assert_eq!(p.get("rows"), Some(&jq("[[0],[1],[2]]")));
    assert_eq!(p.get("pagination").unwrap().get("has_more"), Some(&Json::Bool(false)));
}

#[test]
fn payloads_follow_the_host_contract() {
    let p = build_payload(result(2), 0, false, 5, None);
    assert_eq!(p.get("columns"), Some(&jq(r#"["n"]"#)));
    assert_eq!(p.get("rows"), Some(&jq("[[0],[1]]")));
    assert_eq!(p.get("pagination"), Some(&Json::Null));
    let e = execute_payload(4, 9);
    assert_eq!(e.get("columns"), Some(&jq("[]")));
    assert_eq!(e.get("rows"), Some(&jq("[]")));
    assert_eq!(e.get("affected_rows"), Some(&jq("4")));
    assert_eq!(e.get("truncated"), Some(&Json::Bool(false)));
    assert_eq!(e.get("execution_time_ms"), Some(&jq("9")));
}
