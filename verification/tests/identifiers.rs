use libsql_plugin::utils::identifiers::{quote, quote_literal, quote_with};

#[test]
fn quotes_plain_names() {
    assert_eq!(quote("users"), "\"users\"");
}

#[test]
fn escapes_embedded_quotes() {
    assert_eq!(quote("a\"b"), "\"a\"\"b\"");
    assert_eq!(quote_with("a`b", '`'), "`a``b`");
}

#[test]
fn handles_empty() {
    assert_eq!(quote(""), "\"\"");
}

#[test]
fn escapes_string_literals() {
    assert_eq!(quote_literal("O'Brien"), "'O''Brien'");
    assert_eq!(quote_literal("plain"), "'plain'");
}

// Quoting is injective: names that differ only by quotes stay distinct.
#[test]
fn distinct_names_quote_distinctly() {
    assert_ne!(quote("a\"b"), quote("a\"\"b"));
    assert_ne!(quote("ab"), quote("a\"b"));
    assert_eq!(quote("x\"\"y"), "\"x\"\"\"\"y\"");
}
