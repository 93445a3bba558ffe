use base64::engine::general_purpose::STANDARD;
use base64::Engine;
use libsql_plugin::json::{Json, JsonNumber};
use libsql_plugin::utils::values::{blob_to_json, float_literal, hrana_value_to_json, json_to_hrana_arg};
use serde_json::Value;

fn to_json_v(v: &Value) -> Json {
    match v {
        Value::Null => Json::Null,
        Value::Bool(b) => Json::Bool(*b),
        Value::Number(n) => {
            if let Some(u) = n.as_u64() {
                Json::Number(JsonNumber::PosInt(u))
            } else if let Some(i) = n.as_i64() {
                Json::Number(JsonNumber::NegInt(i))
            } else {
                Json::Number(JsonNumber::Float(n.to_string()))
            }
        }
        Value::String(s) => Json::Str(s.clone()),
        Value::Array(a) => Json::Array(a.iter().map(to_json_v).collect()),
        Value::Object(o) => Json::Object(o.iter().map(|(k, v)| (k.clone(), to_json_v(v))).collect()),
    }
}

fn jv(text: &str) -> Json {
    to_json_v(&serde_json::from_str::<Value>(text).expect("test JSON"))
}

#[test]
fn encodes_args() {
    assert_eq!(json_to_hrana_arg(&Json::Null), jv(r#"{"type":"null"}"#));
    assert_eq!(json_to_hrana_arg(&jv("true")), jv(r#"{"type":"integer","value":"1"}"#));
    assert_eq!(json_to_hrana_arg(&jv("42")), jv(r#"{"type":"integer","value":"42"}"#));
    assert_eq!(json_to_hrana_arg(&jv("\"hi\"")), jv(r#"{"type":"text","value":"hi"}"#));
    assert_eq!(json_to_hrana_arg(&jv(r#"{"k": 1}"#)), jv(r#"{"type":"text","value":"{\"k\":1}"}"#));
}

#[test]
fn float_args_stay_numeric() {
    assert_eq!(json_to_hrana_arg(&jv("1.5")), jv(r#"{"type":"float","value":1.5}"#));
}

#[test]
fn decodes_integer_from_string() {
    assert_eq!(hrana_value_to_json(&jv(r#"{"type":"integer","value":"123"}"#)), jv("123"));
}

#[test]
fn decodes_null_and_text() {
    assert_eq!(hrana_value_to_json(&jv(r#"{"type":"null"}"#)), Json::Null);
    assert_eq!(hrana_value_to_json(&jv(r#"{"type":"text","value":"abc"}"#)), jv("\"abc\""));
}

#[test]
fn decodes_float() {
    assert_eq!(hrana_value_to_json(&jv(r#"{"type":"float","value":2.25}"#)), jv("2.25"));
}

#[test]
fn roundtrips_blob_base64() {
    let b64 = STANDARD.encode([1u8, 2, 3]);
    let arg = Json::Object(vec![
        ("type".to_string(), Json::Str("blob".to_string())),
        ("base64".to_string(), Json::Str(b64.clone())),
    ]);
    assert_eq!(hrana_value_to_json(&arg), Json::Str(b64));
}

#[test]
fn negative_and_odd_integers() {
    assert_eq!(json_to_hrana_arg(&jv("-7")), jv(r#"{"type":"integer","value":"-7"}"#));
    assert_eq!(hrana_value_to_json(&jv(r#"{"type":"integer","value":"-9223372036854775808"}"#)), jv("-9223372036854775808"));
    // Out of range or not a number: kept as text.
    assert_eq!(hrana_value_to_json(&jv(r#"{"type":"integer","value":"9223372036854775808"}"#)), jv("\"9223372036854775808\""));
    assert_eq!(hrana_value_to_json(&jv(r#"{"type":"integer","value":"12a"}"#)), jv("\"12a\""));
    assert_eq!(hrana_value_to_json(&jv(r#"{"type":"integer","value":7}"#)), jv("7"));
    // A u64 beyond i64 goes out as a float, written with its digits.
    assert_eq!(
        json_to_hrana_arg(&jv("18446744073709551615")),
        Json::Object(vec![
            ("type".to_string(), Json::Str("float".to_string())),
            ("value".to_string(), Json::Number(JsonNumber::Float("18446744073709551615".to_string()))),
        ])
    );
}

#[test]
fn float_text_from_the_wire() {
    assert_eq!(hrana_value_to_json(&jv(r#"{"type":"float","value":"1e3"}"#)), Json::Number(JsonNumber::Float("1e3".into())));
    assert_eq!(hrana_value_to_json(&jv(r#"{"type":"float","value":"abc"}"#)), Json::Null);
    assert!(float_literal("-0.5E+10"));
    assert!(float_literal("3."));
    assert!(!float_literal("."));
    assert!(!float_literal("1e"));
    assert!(!float_literal("inf"));
}

#[test]
fn unknown_and_missing_types() {
    assert_eq!(hrana_value_to_json(&jv(r#"{"value": 5}"#)), Json::Null);
    assert_eq!(hrana_value_to_json(&jv(r#"{"type":"weird","value":[1]}"#)), jv("[1]"));
    assert_eq!(hrana_value_to_json(&jv(r#"{"type":"blob"}"#)), Json::Null);
    assert_eq!(hrana_value_to_json(&jv(r#"{"type":"blob","base64":"!!"}"#)), jv("\"!!\""));
}

#[test]
fn blobs_are_reencoded_as_standard_base64() {
    assert_eq!(blob_to_json(&[0xff, 0x00, 0x10]), Json::Str("/wAQ".into()));
    // Valid standard base64 comes back exactly as it was sent.
    assert_eq!(hrana_value_to_json(&jv(r#"{"type":"blob","base64":"AQID"}"#)), jv("\"AQID\""));
    assert_eq!(hrana_value_to_json(&jv(r#"{"type":"blob","base64":"AQI="}"#)), jv("\"AQI=\""));
}

#[test]
fn bound_values_read_back_unchanged() {
    for text in ["null", "0", "-42", "9223372036854775807", "\"hello\"", "2.5", "-9223372036854775808"] {
        let v = jv(text);
        assert_eq!(hrana_value_to_json(&json_to_hrana_arg(&v)), v, "{text}");
    }
}
