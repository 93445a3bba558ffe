use libsql_plugin::hrana::{invalid_body_error, parse_pipeline, status_error, transport_error, HranaClient};
use libsql_plugin::json::{Json, JsonNumber};
use libsql_plugin::json::to_json_text;
use serde_json::Value;

fn to_json_h(v: &Value) -> Json {
    match v {
        Value::Null => Json::Null,
        Value::Bool(b) => Json::Bool(*b),
        Value::Number(n) => {
            if let Some(u) = n.as_u64() {
                Json::Number(JsonNumber::PosInt(u))
            } else if let Some(i) = n.as_i64() {
                Json::Number(JsonNumber::NegInt(i))
            } else {
                Json::Number(JsonNumber::Float(n.to_string()))
            }
        }
        Value::String(s) => Json::Str(s.clone()),
        Value::Array(a) => Json::Array(a.iter().map(to_json_h).collect()),
        Value::Object(o) => Json::Object(o.iter().map(|(k, v)| (k.clone(), to_json_h(v))).collect()),
    }
}

fn jh(text: &str) -> Json {
    to_json_h(&serde_json::from_str::<Value>(text).expect("test JSON"))
}

#[test]
fn parses_a_successful_execute() {
    let resp = jh(r#"{
        "results": [
            {
                "type": "ok",
                "response": {
                    "type": "execute",
                    "result": {
                        "cols": [{"name": "id"}, {"name": "name"}],
                        "rows": [
                            [{"type":"integer","value":"1"}, {"type":"text","value":"Alice"}]
                        ],
                        "affected_row_count": 0
                    }
                }
            },
            { "type": "ok", "response": { "type": "close" } }
        ]
    }"#);
    let parsed = parse_pipeline(&resp).expect("should parse");
    assert_eq!(parsed.columns, vec!["id", "name"]);
    assert_eq!(parsed.rows, vec![vec![jh("1"), jh("\"Alice\"")]]);
    assert_eq!(parsed.affected, 0);
}

#[test]
fn surfaces_remote_errors() {
    let resp = jh(r#"{ "results": [ { "type": "error", "error": { "message": "no such table: ghosts" } } ] }"#);
    let err = parse_pipeline(&resp).unwrap_err();
    assert!(err.message.contains("no such table"));
}

#[test]
fn reports_affected_rows() {
    let resp = jh(r#"{
        "results": [
            { "type": "ok", "response": { "type": "execute", "result": { "cols": [], "rows": [], "affected_row_count": 3 } } }
        ]
    }"#);
    let parsed = parse_pipeline(&resp).expect("should parse");
    assert_eq!(parsed.affected, 3);
    assert!(parsed.columns.is_empty());
}

#[test]
fn malformed_pipelines_are_errors() {
    assert_eq!(
        parse_pipeline(&jh(r#"{}"#)).unwrap_err().message,
        "malformed pipeline response: missing 'results'"
    );
    assert_eq!(
        parse_pipeline(&jh(r#"{"results": []}"#)).unwrap_err().message,
        "malformed pipeline response: empty 'results'"
    );
    assert_eq!(
        parse_pipeline(&jh(r#"{"results": [{"type": "ok"}]}"#)).unwrap_err().message,
        "malformed pipeline response: missing 'result'"
    );
    assert_eq!(
        parse_pipeline(&jh(r#"{"results": [{"type": "error"}]}"#)).unwrap_err().message,
        "remote statement failed"
    );
}

#[test]
fn odd_rows_and_columns_are_tolerated() {
    let resp = jh(r#"{"results": [{"type": "ok", "response": {"result": {
        "cols": [{"name": "a"}, {}],
        "rows": [[{"type": "null"}], "not a row", [{"type": "float", "value": 2.5}]],
        "affected_row_count": -1
    }}}]}"#);
    let parsed = parse_pipeline(&resp).unwrap();
    assert_eq!(parsed.columns, vec!["a", ""]);
    assert_eq!(parsed.rows, vec![vec![Json::Null], vec![jh("2.5")]]);
    assert_eq!(parsed.affected, 0);
}

#[test]
fn client_builds_endpoint_header_and_body() {
    let c = HranaClient::new("https://db.turso.io//".to_string(), Some("tok".to_string()));
    assert_eq!(c.base_url(), "https://db.turso.io");
    assert_eq!(c.pipeline_url(), "https://db.turso.io/v2/pipeline");
    assert_eq!(c.authorization().as_deref(), Some("Bearer tok"));
    assert_eq!(HranaClient::new("http://x".into(), None).authorization(), None);
    let body = HranaClient::request_body("select ?", &[jh("5"), jh("true")]);
    assert_eq!(
        to_json_text(&body),
        r#"{"requests":[{"type":"execute","stmt":{"sql":"select ?","args":[{"type":"integer","value":"5"},{"type":"integer","value":"1"}],"want_rows":true}}]}"#
    );
}

#[test]
fn transport_failures_become_internal_errors() {
    assert_eq!(status_error(500, "  boom \n").message, "server returned HTTP 500: boom");
    assert_eq!(status_error(404, "  ").message, "server returned HTTP 404");
    assert_eq!(transport_error("dns").message, "could not reach server: dns");
    assert_eq!(invalid_body_error("eof").message, "invalid response body from server: eof");
    assert_eq!(transport_error("x").code, -32603);
}
