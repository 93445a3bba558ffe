use libsql_plugin::handlers::ddl::{
    build_add_column_sql, build_alter_column_sql, build_alter_column_sql_with_schema,
    build_create_fk_sql, build_create_index_sql, build_create_table_sql, build_fk_drop_sql,
    single_column_fk_clause_for,
    column_def_for, create_fk_statement, drop_index_sql, fk_drop_column, fk_drop_statement,
    fk_request, foreign_key_column_for, get_add_column_sql, get_alter_column_sql,
    get_create_index_sql, get_create_table_sql, is_composite_fk, ColumnDef,
};
use libsql_plugin::handlers::metadata::pragma_sql;
use libsql_plugin::handlers::respond;
use libsql_plugin::error::INVALID_PARAMS;
use libsql_plugin::json::{Json, JsonNumber};
use libsql_plugin::utils::identifiers::quote;
use rusqlite::types::Value as V;
use serde_json::Value;

fn to_json(v: &Value) -> Json {
    match v {
        Value::Null => Json::Null,
        Value::Bool(b) => Json::Bool(*b),
        Value::Number(n) => {
            if let Some(u) = n.as_u64() {
                Json::Number(JsonNumber::PosInt(u))
            } else if let Some(i) = n.as_i64() {
                Json::Number(JsonNumber::NegInt(i))
            } else {
                Json::Number(JsonNumber::Float(n.to_string()))
            }
        }
        Value::String(s) => Json::Str(s.clone()),
        Value::Array(a) => Json::Array(a.iter().map(to_json).collect()),
        Value::Object(o) => Json::Object(o.iter().map(|(k, v)| (k.clone(), to_json(v))).collect()),
    }
}

fn j(text: &str) -> Json {
    to_json(&serde_json::from_str::<Value>(text).expect("test JSON"))
}

fn strings(items: &[&str]) -> Json {
    Json::Array(items.iter().map(|s| Json::Str(s.to_string())).collect())
}

/// The rows a statement returns on a database, as the library reads them.
fn rows_of(conn: &rusqlite::Connection, sql: &str) -> Vec<Vec<Json>> {
    let mut stmt = conn.prepare(sql).expect("prepare");
    let n = stmt.column_count();
    let mut out = Vec::new();
    let mut rows = stmt.query([]).expect("query");
    while let Some(row) = rows.next().expect("row") {
        let mut cells = Vec::new();
        for i in 0..n {
            let v: V = row.get(i).expect("cell");
            cells.push(match v {
                V::Null => Json::Null,
                V::Integer(x) => libsql_plugin::json::int_json(x),
                V::Real(f) => Json::Number(JsonNumber::Float(f.to_string())),
                V::Text(s) => Json::Str(s),
                V::Blob(b) => libsql_plugin::utils::values::blob_to_json(&b),
            });
        }
        out.push(cells);
    }
    out
}

fn db(statements: &[&str]) -> rusqlite::Connection {
    let conn = rusqlite::Connection::open_in_memory().expect("in-memory connection");
    for s in statements {
        conn.execute_batch(s).expect("setup statement");
    }
    conn
}

fn table_info(conn: &rusqlite::Connection, table: &str) -> Vec<Vec<Json>> {
    rows_of(conn, &pragma_sql("table_info", table))
}

fn fk_list(conn: &rusqlite::Connection, table: &str) -> Vec<Vec<Json>> {
    rows_of(conn, &pragma_sql("foreign_key_list", table))
}

// ---------------------------------------------------------------------------
// CREATE TABLE builder
// ---------------------------------------------------------------------------

#[test]
fn create_table_single_pk_autoincrement() {
    let cols = vec![
        j(r#"{ "name": "id", "data_type": "INTEGER", "is_pk": true, "is_auto_increment": true, "is_nullable": false }"#),
        j(r#"{ "name": "title", "data_type": "TEXT", "is_nullable": false, "default_value": "'untitled'" }"#),
        j(r#"{ "name": "body", "data_type": "TEXT" }"#),
    ];
    assert_eq!(
        build_create_table_sql("blog", &cols).unwrap(),
        "CREATE TABLE \"blog\" (\n  \"id\" INTEGER PRIMARY KEY AUTOINCREMENT,\n  \"title\" TEXT NOT NULL DEFAULT 'untitled',\n  \"body\" TEXT\n)"
    );
}

#[test]
fn create_table_composite_pk() {
    let cols = vec![
        j(r#"{ "name": "a", "data_type": "INTEGER", "is_pk": true }"#),
        j(r#"{ "name": "b", "data_type": "INTEGER", "is_pk": true }"#),
    ];
    assert_eq!(
        build_create_table_sql("t", &cols).unwrap(),
        "CREATE TABLE \"t\" (\n  \"a\" INTEGER,\n  \"b\" INTEGER,\n  PRIMARY KEY (\"a\", \"b\")\n)"
    );
}

#[test]
fn create_table_requires_name_and_type() {
    assert!(build_create_table_sql("t", &[j(r#"{ "name": "x" }"#)]).is_err());
    assert!(build_create_table_sql("t", &[j(r#"{ "data_type": "TEXT" }"#)]).is_err());
}

#[test]
fn create_table_quotes_identifiers() {
    let cols = vec![j(r#"{ "name": "we\"ird", "data_type": "TEXT" }"#)];
    assert_eq!(
        build_create_table_sql("my\"t", &cols).unwrap(),
        "CREATE TABLE \"my\"\"t\" (\n  \"we\"\"ird\" TEXT\n)"
    );
}

#[test]
fn create_table_sql_handler_uses_host_payload_shape() {
    let resp = get_create_table_sql(
        j("1"),
        &j(r#"{
            "table_name": "blog",
            "columns": [
                { "name": "id", "data_type": "INTEGER", "is_pk": true, "is_auto_increment": true, "is_nullable": false, "default_value": null },
                { "name": "name", "data_type": "TEXT", "is_nullable": true, "is_pk": false, "is_auto_increment": false, "default_value": null }
            ],
            "schema": null
        }"#),
    );
    assert_eq!(
        resp.get("result"),
        Some(&strings(&["CREATE TABLE \"blog\" (\n  \"id\" INTEGER PRIMARY KEY AUTOINCREMENT,\n  \"name\" TEXT\n)"]))
    );
}

#[test]
fn create_table_errors_name_the_problem() {
    let e = build_create_table_sql("t", &[j(r#"{ "name": "x" }"#)]).unwrap_err();
    assert_eq!(e.code, INVALID_PARAMS);
    assert_eq!(e.message, "column definition needs a 'data_type'");
    let e = build_create_table_sql("t", &[j(r#"{ "data_type": "TEXT" }"#)]).unwrap_err();
    assert_eq!(e.message, "column definition needs a 'name'");
    let resp = get_create_table_sql(j("7"), &j(r#"{ "table_name": "t" }"#));
    assert_eq!(resp.get("error").and_then(|e| e.get("message")), Some(&Json::Str("missing 'columns' definition".into())));
    let resp = get_create_table_sql(j("7"), &j(r#"{ "columns": [] }"#));
    assert_eq!(resp.get("error").and_then(|e| e.get("message")), Some(&Json::Str("missing 'table' parameter".into())));
}

// ---------------------------------------------------------------------------
// ADD COLUMN builder
// ---------------------------------------------------------------------------

#[test]
fn add_column_basic() {
    let col = j(r#"{ "name": "age", "data_type": "INTEGER" }"#);
    assert_eq!(build_add_column_sql("users", &col).unwrap(), "ALTER TABLE \"users\" ADD COLUMN \"age\" INTEGER");
}

#[test]
fn add_column_with_default_and_not_null() {
    let col = j(r#"{ "name": "status", "data_type": "TEXT", "is_nullable": false, "default_value": "'active'" }"#);
    assert_eq!(
        build_add_column_sql("t", &col).unwrap(),
        "ALTER TABLE \"t\" ADD COLUMN \"status\" TEXT DEFAULT 'active' NOT NULL"
    );
}

#[test]
fn add_column_default_is_verbatim_literal() {
    let col = j(r#"{ "name": "ts", "data_type": "TEXT", "default_value": "CURRENT_TIMESTAMP" }"#);
    assert_eq!(
        build_add_column_sql("t", &col).unwrap(),
        "ALTER TABLE \"t\" ADD COLUMN \"ts\" TEXT DEFAULT CURRENT_TIMESTAMP"
    );
}

#[test]
fn add_column_not_null_without_default_drops_not_null() {
    let col = j(r#"{ "name": "x", "data_type": "INTEGER", "is_nullable": false }"#);
    assert_eq!(build_add_column_sql("t", &col).unwrap(), "ALTER TABLE \"t\" ADD COLUMN \"x\" INTEGER");
}

#[test]
fn add_column_requires_name() {
    assert!(build_add_column_sql("t", &j(r#"{ "data_type": "TEXT" }"#)).is_err());
}

#[test]
fn add_column_sql_returns_array() {
    let resp = get_add_column_sql(
        j("1"),
        &j(r#"{ "table": "users", "column": { "name": "age", "data_type": "INTEGER" } }"#),
    );
    assert_eq!(resp.get("result"), Some(&strings(&["ALTER TABLE \"users\" ADD COLUMN \"age\" INTEGER"])));
}

// ---------------------------------------------------------------------------
// ALTER COLUMN builder
// ---------------------------------------------------------------------------

#[test]
fn alter_column_rename_uses_vanilla_sqlite() {
    let old_col = j(r#"{ "name": "a", "data_type": "TEXT" }"#);
    let new_col = j(r#"{ "name": "b", "data_type": "TEXT" }"#);
    assert_eq!(
        build_alter_column_sql("t", &old_col, &new_col).unwrap(),
        vec!["ALTER TABLE \"t\" RENAME COLUMN \"a\" TO \"b\""]
    );
}

#[test]
fn alter_column_type_change() {
    let old_col = j(r#"{ "name": "v", "data_type": "TEXT" }"#);
    let new_col = j(r#"{ "name": "v", "data_type": "INTEGER" }"#);
    assert_eq!(
        build_alter_column_sql("t", &old_col, &new_col).unwrap(),
        vec!["ALTER TABLE \"t\" ALTER COLUMN \"v\" TO \"v\" INTEGER"]
    );
}

#[test]
fn alter_column_with_default_and_not_null() {
    let old_col = j(r#"{ "name": "v", "data_type": "TEXT" }"#);
    let new_col = j(r#"{ "name": "v", "data_type": "TEXT", "default_value": "'hai'", "is_nullable": false }"#);
    assert_eq!(
        build_alter_column_sql("t", &old_col, &new_col).unwrap(),
        vec!["ALTER TABLE \"t\" ALTER COLUMN \"v\" TO \"v\" TEXT NOT NULL DEFAULT 'hai'"]
    );
}

#[test]
fn alter_column_rename_with_retype_emits_both_statements() {
    let old_col = j(r#"{ "name": "a", "data_type": "TEXT", "is_nullable": true }"#);
    let new_col = j(r#"{ "name": "b", "data_type": "INTEGER", "is_nullable": false }"#);
    assert_eq!(
        build_alter_column_sql("t", &old_col, &new_col).unwrap(),
        vec![
            "ALTER TABLE \"t\" RENAME COLUMN \"a\" TO \"b\"",
            "ALTER TABLE \"t\" ALTER COLUMN \"b\" TO \"b\" INTEGER NOT NULL"
        ]
    );
}

#[test]
fn alter_column_keeps_old_default_and_not_null_when_omitted() {
    let old_col = j(r#"{ "name": "v", "data_type": "TEXT", "is_nullable": false, "default_value": "'x'" }"#);
    let new_col = j(r#"{ "name": "v", "data_type": "INTEGER" }"#);
    assert_eq!(
        build_alter_column_sql("t", &old_col, &new_col).unwrap(),
        vec!["ALTER TABLE \"t\" ALTER COLUMN \"v\" TO \"v\" INTEGER NOT NULL DEFAULT 'x'"]
    );
}

#[test]
fn alter_column_inherits_type_when_dialog_omits_it() {
    let old_col = j(r#"{ "name": "v", "data_type": "TEXT", "is_nullable": true }"#);
    let new_col = j(r#"{ "name": "v", "is_nullable": false }"#);
    assert_eq!(
        build_alter_column_sql("t", &old_col, &new_col).unwrap(),
        vec!["ALTER TABLE \"t\" ALTER COLUMN \"v\" TO \"v\" TEXT NOT NULL"]
    );
}

#[test]
fn alter_column_no_changes_emits_nothing() {
    let old_col = j(r#"{ "name": "v", "data_type": "TEXT", "is_nullable": true }"#);
    let new_col = j(r#"{ "name": "v", "data_type": "TEXT", "is_nullable": true }"#);
    assert!(build_alter_column_sql("t", &old_col, &new_col).unwrap().is_empty());
}

#[test]
fn alter_column_quotes_identifiers() {
    let old_col = j(r#"{ "name": "a\"b", "data_type": "TEXT" }"#);
    let new_col = j(r#"{ "name": "c", "data_type": "TEXT" }"#);
    assert_eq!(
        build_alter_column_sql("weird\"t", &old_col, &new_col).unwrap(),
        vec!["ALTER TABLE \"weird\"\"t\" RENAME COLUMN \"a\"\"b\" TO \"c\""]
    );
}

#[test]
fn alter_column_with_schema_preserves_fk_and_attributes() {
    let conn = db(&[
        "CREATE TABLE users(id INT PRIMARY KEY)",
        "CREATE TABLE emails(user_id INT NOT NULL DEFAULT 7 REFERENCES users(id))",
    ]);
    let old_col = j(r#"{ "name": "user_id", "data_type": "INT" }"#);
    let new_col = j(r#"{ "name": "user_id", "data_type": "BIGINT" }"#);
    assert_eq!(
        build_alter_column_sql_with_schema("emails", &old_col, &new_col, &table_info(&conn, "emails"), &fk_list(&conn, "emails")).unwrap(),
        vec!["ALTER TABLE \"emails\" ALTER COLUMN \"user_id\" TO \"user_id\" BIGINT NOT NULL DEFAULT 7 REFERENCES \"users\" (\"id\")"]
    );
}

#[test]
fn alter_column_with_schema_rename_and_retype() {
    let conn = db(&[
        "CREATE TABLE users(id INT PRIMARY KEY)",
        "CREATE TABLE emails(user_id INT NOT NULL DEFAULT 7 REFERENCES users(id))",
    ]);
    let old_col = j(r#"{ "name": "user_id", "data_type": "INT" }"#);
    let new_col = j(r#"{ "name": "owner_id", "data_type": "BIGINT" }"#);
    assert_eq!(
        build_alter_column_sql_with_schema("emails", &old_col, &new_col, &table_info(&conn, "emails"), &fk_list(&conn, "emails")).unwrap(),
        vec![
            "ALTER TABLE \"emails\" RENAME COLUMN \"user_id\" TO \"owner_id\"",
            "ALTER TABLE \"emails\" ALTER COLUMN \"owner_id\" TO \"owner_id\" BIGINT NOT NULL DEFAULT 7 REFERENCES \"users\" (\"id\")"
        ]
    );
}

#[test]
fn alter_column_handler_answers_with_statements() {
    let resp = get_alter_column_sql(
        j("3"),
        &j(r#"{ "table": "t", "old_column": { "name": "a", "data_type": "TEXT" }, "new_column": { "name": "b", "data_type": "TEXT" } }"#),
    );
    assert_eq!(resp.get("result"), Some(&strings(&["ALTER TABLE \"t\" RENAME COLUMN \"a\" TO \"b\""])));
    let resp = get_alter_column_sql(j("3"), &j(r#"{ "table": "t", "old_column": {} }"#));
    assert_eq!(
        resp.get("error").and_then(|e| e.get("message")),
        Some(&Json::Str("missing 'new_column' definition".into()))
    );
}

// ---------------------------------------------------------------------------
// CREATE INDEX builder
// ---------------------------------------------------------------------------

#[test]
fn create_index_unique_multi_column() {
    let cols = vec![quote("a"), quote("b")];
    assert_eq!(
        build_create_index_sql("t", "idx_a_b", &cols, true),
        "CREATE UNIQUE INDEX \"idx_a_b\" ON \"t\" (\"a\", \"b\")"
    );
}

#[test]
fn create_index_plain() {
    let cols = vec![quote("email")];
    assert_eq!(
        build_create_index_sql("users", "idx_email", &cols, false),
        "CREATE INDEX \"idx_email\" ON \"users\" (\"email\")"
    );
}

#[test]
fn create_index_handler_reads_host_payload_shape() {
    let resp = get_create_index_sql(
        j("1"),
        &j(r#"{ "table": "users", "index_name": "idx_email", "columns": ["email"], "is_unique": false, "schema": null }"#),
    );
    assert_eq!(resp.get("result"), Some(&strings(&["CREATE INDEX \"idx_email\" ON \"users\" (\"email\")"])));
}

#[test]
fn create_index_needs_a_column() {
    let resp = get_create_index_sql(j("1"), &j(r#"{ "table": "users", "name": "i", "columns": ["", 3] }"#));
    assert_eq!(
        resp.get("error").and_then(|e| e.get("message")),
        Some(&Json::Str("index definition needs at least one column".into()))
    );
    let resp = get_create_index_sql(j("1"), &j(r#"{ "table": "users", "name": "i", "columns": ["a"], "is_unique": true }"#));
    assert_eq!(resp.get("result"), Some(&strings(&["CREATE UNIQUE INDEX \"i\" ON \"users\" (\"a\")"])));
}

#[test]
fn drop_index_quotes_the_name() {
    assert_eq!(drop_index_sql("idx\"x"), "DROP INDEX IF EXISTS \"idx\"\"x\"");
}

// ---------------------------------------------------------------------------
// Foreign keys
// ---------------------------------------------------------------------------

fn int_def() -> ColumnDef {
    ColumnDef { data_type: "INT".into(), not_null: false, default: None }
}

#[test]
fn create_foreign_key_builder_emits_libsql_alter_column() {
    assert_eq!(
        build_create_fk_sql("emails", "user_id", &int_def(), "users", "id", None, None),
        "ALTER TABLE \"emails\" ALTER COLUMN \"user_id\" TO \"user_id\" INT REFERENCES \"users\" (\"id\")"
    );
}

#[test]
fn create_foreign_key_builder_appends_referential_actions() {
    assert_eq!(
        build_create_fk_sql("emails", "user_id", &int_def(), "users", "id", Some("CASCADE"), Some("SET NULL")),
        "ALTER TABLE \"emails\" ALTER COLUMN \"user_id\" TO \"user_id\" INT REFERENCES \"users\" (\"id\") ON DELETE CASCADE ON UPDATE SET NULL"
    );
}

#[test]
fn create_foreign_key_builder_keeps_not_null_and_default() {
    let def = ColumnDef { data_type: "INT".into(), not_null: true, default: Some("7".into()) };
    assert_eq!(
        build_create_fk_sql("emails", "user_id", &def, "users", "id", None, None),
        "ALTER TABLE \"emails\" ALTER COLUMN \"user_id\" TO \"user_id\" INT NOT NULL DEFAULT 7 REFERENCES \"users\" (\"id\")"
    );
}

#[test]
fn drop_foreign_key_builder_keeps_not_null_and_default() {
    let def = ColumnDef { data_type: "INT".into(), not_null: true, default: Some("7".into()) };
    assert_eq!(
        build_fk_drop_sql("emails", "user_id", &def),
        "ALTER TABLE \"emails\" ALTER COLUMN \"user_id\" TO \"user_id\" INT NOT NULL DEFAULT 7"
    );
}

#[test]
fn create_foreign_key_local_uses_the_fork() {
    let conn = db(&["CREATE TABLE users(id INT PRIMARY KEY)", "CREATE TABLE emails(user_id INT)"]);
    let params = j(r#"{
        "params": { "database": ":memory:" },
        "table": "emails",
        "fk_name": "fk_emails_user_id_0",
        "column": "user_id",
        "ref_table": "users",
        "ref_column": "id",
        "schema": null
    }"#);
    let req = fk_request(&params).unwrap();
    let resp = respond(j("1"), create_fk_statement(&req, &table_info(&conn, &req.table)));
    assert_eq!(
        resp.get("result"),
        Some(&strings(&["ALTER TABLE \"emails\" ALTER COLUMN \"user_id\" TO \"user_id\" INT REFERENCES \"users\" (\"id\")"]))
    );
}

#[test]
fn create_foreign_key_request_errors() {
    let e = fk_request(&j(r#"{ "table": "t", "column": "c", "ref_table": "r" }"#)).err().unwrap();
    assert_eq!(e.message, "missing 'ref_column' parameter");
    let req = fk_request(&j(r#"{ "table": "t", "column": "nope", "ref_table": "r", "ref_column": "id", "on_delete": "CASCADE" }"#)).unwrap();
    assert_eq!(req.on_delete.as_deref(), Some("CASCADE"));
    assert_eq!(req.on_update, None);
    let conn = db(&["CREATE TABLE t(v TEXT)"]);
    let e = create_fk_statement(&req, &table_info(&conn, "t")).unwrap_err();
    assert_eq!(e.message, "column 'nope' not found in table 't'");
}

#[test]
fn column_def_for_reads_pragma() {
    let conn = db(&["CREATE TABLE t(v TEXT NOT NULL DEFAULT 'x', n INTEGER)"]);
    let rows = table_info(&conn, "t");
    let v = column_def_for(&rows, "t", "v").unwrap();
    assert_eq!(v.data_type, "TEXT");
    assert!(v.not_null);
    assert_eq!(v.default.as_deref(), Some("'x'"));
    let n = column_def_for(&rows, "t", "n").unwrap();
    assert_eq!(n.data_type, "INTEGER");
    assert!(!n.not_null);
    assert_eq!(n.default, None);
}

#[test]
fn column_def_for_keeps_numeric_default() {
    let conn = db(&["CREATE TABLE t(v INT NOT NULL DEFAULT 7)"]);
    let v = column_def_for(&table_info(&conn, "t"), "t", "v").unwrap();
    assert!(v.not_null);
    assert_eq!(v.default.as_deref(), Some("7"));
}

#[test]
fn column_def_for_defaults_blank_type_to_text() {
    let conn = db(&["CREATE TABLE t(v)"]);
    assert_eq!(column_def_for(&table_info(&conn, "t"), "t", "v").unwrap().data_type, "TEXT");
}

#[test]
fn column_def_for_missing_column_errors() {
    let conn = db(&["CREATE TABLE t(v TEXT)"]);
    assert!(column_def_for(&table_info(&conn, "t"), "t", "nope").is_err());
}

#[test]
fn column_def_for_renders_numbers_back_to_sql() {
    // A PRAGMA cell that comes back as a JSON number keeps its text.
    let rows = vec![vec![j("0"), j("\"v\""), j("\"REAL\""), j("1"), j("-2"), j("0")]];
    let d = column_def_for(&rows, "t", "v").unwrap();
    assert_eq!(d.default.as_deref(), Some("-2"));
    let rows = vec![vec![j("0"), j("\"v\""), j("\"\""), j("0"), j("2.5"), j("0")]];
    let d = column_def_for(&rows, "t", "v").unwrap();
    assert_eq!((d.data_type.as_str(), d.not_null, d.default.as_deref()), ("TEXT", false, Some("2.5")));
}

#[test]
fn drop_composite_foreign_key_errors_instead_of_silently_succeeding() {
    let conn = db(&[
        "CREATE TABLE p(x INT, y INT, PRIMARY KEY(x, y))",
        "CREATE TABLE c(a INT, b INT, FOREIGN KEY(a, b) REFERENCES p(x, y))",
    ]);
    let rows = fk_list(&conn, "c");
    assert!(is_composite_fk(&rows, "c", "fk_c_a_0"));
    let err = fk_drop_column(&rows, "c", "fk_c_a_0").unwrap_err();
    assert!(err.message.contains("composite"), "unexpected error: {}", err.message);
    assert_eq!(
        err.message,
        "foreign key 'fk_c_a_0' is a composite (multi-column) constraint; the libSQL fork can only drop per-column foreign keys — recreate the table instead"
    );
    assert_eq!(fk_list(&conn, "c").len(), 2, "FK must remain untouched");
}

#[test]
fn drop_foreign_key_statement_for_single_column_key() {
    let conn = db(&[
        "CREATE TABLE users(id INT PRIMARY KEY)",
        "CREATE TABLE emails(user_id INT NOT NULL DEFAULT 7 REFERENCES users(id))",
    ]);
    let rows = fk_list(&conn, "emails");
    assert!(!is_composite_fk(&rows, "emails", "fk_emails_user_id_0"));
    let column = fk_drop_column(&rows, "emails", "fk_emails_user_id_0").unwrap();
    assert_eq!(column, "user_id");
    assert_eq!(
        fk_drop_statement(&table_info(&conn, "emails"), "emails", &column).unwrap(),
        "ALTER TABLE \"emails\" ALTER COLUMN \"user_id\" TO \"user_id\" INT NOT NULL DEFAULT 7"
    );
}

#[test]
fn foreign_key_column_for_matches_constraint_name() {
    let conn = db(&["CREATE TABLE users(id INT PRIMARY KEY)", "CREATE TABLE emails(user_id INT REFERENCES users(id))"]);
    assert_eq!(foreign_key_column_for(&fk_list(&conn, "emails"), "emails", "fk_emails_user_id_0").unwrap(), "user_id");
}

#[test]
fn foreign_key_column_for_unknown_errors() {
    let conn = db(&["CREATE TABLE users(id INT PRIMARY KEY)", "CREATE TABLE emails(user_id INT REFERENCES users(id))"]);
    let e = foreign_key_column_for(&fk_list(&conn, "emails"), "emails", "fk_emails_nope_0").unwrap_err();
    assert_eq!(e.message, "foreign key 'fk_emails_nope_0' not found on table 'emails'");
}

#[test]
fn composite_foreign_keys_are_not_rewritten_per_column() {
    let conn = db(&[
        "CREATE TABLE p(x INT, y INT, PRIMARY KEY(x, y))",
        "CREATE TABLE c(a INT, b INT, FOREIGN KEY(a, b) REFERENCES p(x, y))",
        "CREATE TABLE d(k INT REFERENCES p(x) ON DELETE CASCADE)",
    ]);
    assert_eq!(single_column_fk_clause_for(&fk_list(&conn, "c"), "a"), None);
    assert_eq!(
        single_column_fk_clause_for(&fk_list(&conn, "d"), "k").as_deref(),
        Some("REFERENCES \"p\" (\"x\") ON DELETE CASCADE")
    );
    let old_col = j(r#"{ "name": "a", "data_type": "INT" }"#);
    let new_col = j(r#"{ "name": "a", "data_type": "BIGINT" }"#);
    assert_eq!(
        build_alter_column_sql_with_schema("c", &old_col, &new_col, &table_info(&conn, "c"), &fk_list(&conn, "c")).unwrap(),
        vec!["ALTER TABLE \"c\" ALTER COLUMN \"a\" TO \"a\" BIGINT"]
    );
}
