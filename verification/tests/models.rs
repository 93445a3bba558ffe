use libsql_plugin::error::{PluginError, INTERNAL_ERROR, INVALID_PARAMS, METHOD_NOT_FOUND};
use libsql_plugin::handlers::{cell, cell_i64, cell_str, fk_name, req_str, respond};
use libsql_plugin::json::{Json, JsonNumber};
use libsql_plugin::models::{inner_params, ConnectionParams};
use libsql_plugin::rpc::{error_response, ok_response};
use libsql_plugin::json::to_json_text;
use serde_json::Value;

fn to_json_e(v: &Value) -> Json {
    match v {
        Value::Null => Json::Null,
        Value::Bool(b) => Json::Bool(*b),
        Value::Number(n) => {
            if let Some(u) = n.as_u64() {
                Json::Number(JsonNumber::PosInt(u))
            } else if let Some(i) = n.as_i64() {
                Json::Number(JsonNumber::NegInt(i))
            } else {
                Json::Number(JsonNumber::Float(n.to_string()))
            }
        }
        Value::String(s) => Json::Str(s.clone()),
        Value::Array(a) => Json::Array(a.iter().map(to_json_e).collect()),
        Value::Object(o) => Json::Object(o.iter().map(|(k, v)| (k.clone(), to_json_e(v))).collect()),
    }
}

fn je(text: &str) -> Json {
    to_json_e(&serde_json::from_str::<Value>(text).expect("test JSON"))
}

#[test]
fn error_kinds_carry_json_rpc_codes() {
    assert_eq!(PluginError::internal("a".into()).code, INTERNAL_ERROR);
    assert_eq!(PluginError::invalid_params("b".into()).code, INVALID_PARAMS);
    let e = PluginError::unsupported("c".into());
    assert_eq!((e.code, e.message.as_str()), (METHOD_NOT_FOUND, "c"));
    assert_eq!((INTERNAL_ERROR, INVALID_PARAMS, METHOD_NOT_FOUND), (-32603, -32602, -32601));
    assert_eq!(PluginError::invalid_params("missing x".into()).to_text(), "[-32602] missing x");
}

#[test]
fn responses_are_json_rpc_envelopes() {
    assert_eq!(
        to_json_text(&ok_response(je("1"), je("[true]"))),
        r#"{"jsonrpc":"2.0","result":[true],"id":1}"#
    );
    assert_eq!(
        to_json_text(&error_response(je("\"x\""), -32602, "bad \"p\"")),
        r#"{"jsonrpc":"2.0","error":{"code":-32602,"message":"bad \"p\""},"id":"x"}"#
    );
    let r = respond(Json::Null, Err(PluginError::internal("boom".into())));
    assert_eq!(to_json_text(&r), r#"{"jsonrpc":"2.0","error":{"code":-32603,"message":"boom"},"id":null}"#);
}

#[test]
fn connection_params_are_trimmed_and_typed() {
    let p = ConnectionParams::from_value(&je(
        r#"{"host": "  db.io ", "port": "8080", "database": "   ", "password": "tok", "ssl_mode": "require"}"#,
    ));
    assert_eq!(p.host.as_deref(), Some("db.io"));
    assert_eq!(p.port, Some(8080));
    assert_eq!(p.database, None);
    assert_eq!(p.password.as_deref(), Some("tok"));
    assert_eq!(p.ssl_mode.as_deref(), Some("require"));
    assert_eq!(ConnectionParams::from_value(&je(r#"{"port": 70000}"#)).port, None);
    assert_eq!(ConnectionParams::from_value(&je(r#"{"port": 443}"#)).port, Some(443));
    assert_eq!(ConnectionParams::from_value(&je(r#"{"port": "x"}"#)).port, None);
    assert_eq!(ConnectionParams::from_value(&je("[1]")).host, None);
}

#[test]
fn inner_params_are_the_nested_block() {
    assert_eq!(inner_params(&je(r#"{"params": {"database": "a"}}"#)), je(r#"{"database": "a"}"#));
    assert_eq!(inner_params(&je(r#"{"database": "a"}"#)), Json::Null);
}

#[test]
fn required_strings_and_cells() {
    let params = je(r#"{"table": "t", "empty": "", "n": 3}"#);
    assert_eq!(req_str(&params, "table").unwrap(), "t");
    for key in ["empty", "n", "absent"] {
        let e = req_str(&params, key).unwrap_err();
        assert_eq!(e.code, INVALID_PARAMS);
        assert_eq!(e.message, format!("missing '{key}' parameter"));
    }
    let row = vec![je("7"), je("\"s\""), je("-3")];
    assert_eq!(cell(&row, 1), je("\"s\""));
    assert_eq!(cell(&row, 9), Json::Null);
    assert_eq!(cell_str(&row, 1).as_deref(), Some("s"));
    assert_eq!(cell_str(&row, 0), None);
    assert_eq!(cell_i64(&row, 2), -3);
    assert_eq!(cell_i64(&row, 1), 0);
    assert_eq!(cell_i64(&row, 5), 0);
    assert_eq!(fk_name("emails", "user_id", 0), "fk_emails_user_id_0");
    assert_eq!(fk_name("t", "c", -1), "fk_t_c_-1");
}

#[test]
fn strings_are_escaped_as_serde_json_writes_them() {
    let s = Json::Str("a\"b\\c\u{1}\t\u{1f}é".to_string());
    assert_eq!(to_json_text(&s), "\"a\\\"b\\\\c\\u0001\\t\\u001fé\"");
    assert_eq!(to_json_text(&s), serde_json::to_string("a\"b\\c\u{1}\t\u{1f}é").unwrap());
}
