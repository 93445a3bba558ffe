use libsql_plugin::handlers::metadata::{
    columns_batch, columns_json, create_view_sql, drop_view_sql, foreign_keys_batch,
    foreign_keys_json, get_databases, get_routine_definition, get_routine_parameters,
    get_routines, get_schemas, index_entry_json, indexes_json, list_tables_sql, list_views_sql,
    names_in, pragma_sql, requested_tables, schema_snapshot, tables_json, view_definition_json,
    view_definition_sql, views_json,
};
use libsql_plugin::handlers::ddl::foreign_key_column_for;
use libsql_plugin::json::{Json, JsonNumber};
use rusqlite::types::Value as V;
use serde_json::Value;

fn to_json_m(v: &Value) -> Json {
    match v {
        Value::Null => Json::Null,
        Value::Bool(b) => Json::Bool(*b),
        Value::Number(n) => {
            if let Some(u) = n.as_u64() {
                Json::Number(JsonNumber::PosInt(u))
            } else if let Some(i) = n.as_i64() {
                Json::Number(JsonNumber::NegInt(i))
            } else {
                Json::Number(JsonNumber::Float(n.to_string()))
            }
        }
        Value::String(s) => Json::Str(s.clone()),
        Value::Array(a) => Json::Array(a.iter().map(to_json_m).collect()),
        Value::Object(o) => Json::Object(o.iter().map(|(k, v)| (k.clone(), to_json_m(v))).collect()),
    }
}

fn jm(text: &str) -> Json {
    to_json_m(&serde_json::from_str::<Value>(text).expect("test JSON"))
}

fn s(text: &str) -> Json {
    Json::Str(text.to_string())
}

fn obj(members: &[(&str, Json)]) -> Json {
    Json::Object(members.iter().map(|(k, v)| (k.to_string(), clone(v))).collect())
}

fn clone(v: &Json) -> Json {
    v.clone_json()
}

fn rows_from(conn: &rusqlite::Connection, sql: &str) -> Vec<Vec<Json>> {
    let mut stmt = conn.prepare(sql).expect("prepare");
    let n = stmt.column_count();
    let mut out = Vec::new();
    let mut rows = stmt.query([]).expect("query");
    while let Some(row) = rows.next().expect("row") {
        let mut cells = Vec::new();
        for i in 0..n {
            let v: V = row.get(i).expect("cell");
            cells.push(match v {
                V::Null => Json::Null,
                V::Integer(x) => libsql_plugin::json::int_json(x),
                V::Real(f) => Json::Number(JsonNumber::Float(f.to_string())),
                V::Text(t) => Json::Str(t),
                V::Blob(b) => libsql_plugin::utils::values::blob_to_json(&b),
            });
        }
        out.push(cells);
    }
    out
}

fn sample_db() -> rusqlite::Connection {
    let conn = rusqlite::Connection::open_in_memory().unwrap();
    conn.execute_batch(
        "CREATE TABLE users(id INTEGER PRIMARY KEY, email TEXT NOT NULL DEFAULT 'x', age);
         CREATE UNIQUE INDEX idx_email ON users(email);
         CREATE TABLE emails(user_id INT REFERENCES users(id) ON DELETE CASCADE, body TEXT);
         CREATE VIEW adults AS SELECT * FROM users WHERE age >= 18;",
    )
    .unwrap();
    conn
}

#[test]
fn pragma_statements_quote_their_argument() {
    assert_eq!(pragma_sql("table_info", "my\"t"), "PRAGMA table_info(\"my\"\"t\")");
    assert_eq!(pragma_sql("index_info", "idx"), "PRAGMA index_info(\"idx\")");
    assert_eq!(
        list_tables_sql(),
        "SELECT name FROM sqlite_master WHERE type = 'table' AND name NOT LIKE 'sqlite_%' ORDER BY name"
    );
    assert_eq!(list_views_sql(), "SELECT name FROM sqlite_master WHERE type = 'view' ORDER BY name");
    assert_eq!(view_definition_sql(), "SELECT sql FROM sqlite_master WHERE type = 'view' AND name = ?1");
}

#[test]
fn tables_and_views_are_listed_by_name() {
    let conn = sample_db();
    let names = names_in(&rows_from(&conn, list_tables_sql()), 0);
    assert_eq!(names, vec!["emails", "users"]);
    assert_eq!(
        tables_json(&names),
        Json::Array(vec![
            obj(&[("name", s("emails")), ("schema", Json::Null), ("comment", Json::Null)]),
            obj(&[("name", s("users")), ("schema", Json::Null), ("comment", Json::Null)]),
        ])
    );
    let views = names_in(&rows_from(&conn, list_views_sql()), 0);
    assert_eq!(views_json(&views), Json::Array(vec![obj(&[("name", s("adults")), ("schema", Json::Null)])]));
    // Rows whose cell is not a string are skipped.
    assert_eq!(names_in(&vec![vec![jm("1")], vec![], vec![s("a")]], 0), vec!["a"]);
}

#[test]
fn columns_describe_table_info() {
    let conn = sample_db();
    let cols = columns_json(&rows_from(&conn, &pragma_sql("table_info", "users")));
    assert_eq!(
        cols,
        Json::Array(vec![
            obj(&[
                ("name", s("id")),
                ("data_type", s("INTEGER")),
                ("is_nullable", Json::Bool(true)),
                ("column_default", Json::Null),
                ("is_primary_key", Json::Bool(true)),
                ("is_auto_increment", Json::Bool(true)),
                ("comment", Json::Null),
            ]),
            obj(&[
                ("name", s("email")),
                ("data_type", s("TEXT")),
                ("is_nullable", Json::Bool(false)),
                ("column_default", s("'x'")),
                ("is_primary_key", Json::Bool(false)),
                ("is_auto_increment", Json::Bool(false)),
                ("comment", Json::Null),
            ]),
            obj(&[
                ("name", s("age")),
                ("data_type", s("TEXT")),
                ("is_nullable", Json::Bool(true)),
                ("column_default", Json::Null),
                ("is_primary_key", Json::Bool(false)),
                ("is_auto_increment", Json::Bool(false)),
                ("comment", Json::Null),
            ]),
        ])
    );
}

#[test]
fn lowercase_int_primary_key_is_auto_increment() {
    let row = vec![jm("0"), s("k"), s("bigint"), jm("1"), Json::Null, jm("1")];
    let cols = columns_json(&vec![row]);
    let first = match &cols {
        Json::Array(items) => items[0].clone_json(),
        _ => panic!("array expected"),
    };
    assert_eq!(first.get("is_auto_increment"), Some(&Json::Bool(true)));
    assert_eq!(first.get("is_nullable"), Some(&Json::Bool(false)));
}

#[test]
fn foreign_keys_are_named_and_found_again() {
    let conn = sample_db();
    let rows = rows_from(&conn, &pragma_sql("foreign_key_list", "emails"));
    let fks = foreign_keys_json("emails", &rows);
    assert_eq!(
        fks,
        Json::Array(vec![obj(&[
            ("constraint_name", s("fk_emails_user_id_0")),
            ("column_name", s("user_id")),
            ("referenced_table", s("users")),
            ("referenced_column", s("id")),
            ("on_update", s("NO ACTION")),
            ("on_delete", s("CASCADE")),
        ])])
    );
    // The reported name maps back to the reported column.
    assert_eq!(foreign_key_column_for(&rows, "emails", "fk_emails_user_id_0").unwrap(), "user_id");
}

#[test]
fn reported_names_stay_unambiguous_with_underscores() {
    let rows = vec![
        vec![jm("1"), jm("0"), s("p"), s("a_1"), s("x"), Json::Null, Json::Null],
        vec![jm("12"), jm("0"), s("p"), s("a"), s("y"), Json::Null, Json::Null],
    ];
    for (name, column) in [("fk_t_a_1_1", "a_1"), ("fk_t_a_12", "a")] {
        assert_eq!(foreign_key_column_for(&rows, "t", name).unwrap(), column);
    }
    match foreign_keys_json("t", &rows) {
        Json::Array(items) => {
            assert_eq!(items[0].get("constraint_name"), Some(&s("fk_t_a_1_1")));
            assert_eq!(items[1].get("constraint_name"), Some(&s("fk_t_a_12")));
        }
        _ => panic!("array expected"),
    }
}

#[test]
fn indexes_list_their_columns() {
    let conn = sample_db();
    let list = rows_from(&conn, &pragma_sql("index_list", "users"));
    let mut infos = Vec::new();
    for row in &list {
        match row.get(1).and_then(|c| c.as_str()) {
            Some(name) => infos.push(rows_from(&conn, &pragma_sql("index_info", name))),
            None => infos.push(Vec::new()),
        }
    }
    assert_eq!(
        indexes_json(&list, &infos),
        Json::Array(vec![obj(&[
            ("index_name", s("idx_email")),
            ("columns", Json::Array(vec![s("email")])),
            ("is_unique", Json::Bool(true)),
            ("is_primary", Json::Bool(false)),
        ])])
    );
    let pk = index_entry_json("sqlite_autoindex_t_1", &[jm("0"), s("sqlite_autoindex_t_1"), jm("1"), s("pk"), jm("0")], &vec![vec![jm("0"), jm("0"), s("a")], vec![jm("1"), jm("1"), s("b")]]);
    assert_eq!(pk.get("is_primary"), Some(&Json::Bool(true)));
    assert_eq!(pk.get("columns"), Some(&Json::Array(vec![s("a"), s("b")])));
    // An index_list row without a name is skipped.
    assert_eq!(indexes_json(&vec![vec![jm("0"), Json::Null]], &vec![vec![]]), Json::Array(vec![]));
}

#[test]
fn view_definition_and_statements() {
    let conn = sample_db();
    let mut stmt = conn.prepare(view_definition_sql()).unwrap();
    let def: String = stmt.query_row(["adults"], |r| r.get(0)).unwrap();
    let rows = vec![vec![Json::Str(def.clone())]];
    assert_eq!(view_definition_json(&rows), Json::Str(def));
    assert_eq!(view_definition_json(&vec![]), s(""));
    assert_eq!(create_view_sql("v\"1", "SELECT 1"), "CREATE VIEW \"v\"\"1\" AS SELECT 1");
    assert_eq!(drop_view_sql("v"), "DROP VIEW IF EXISTS \"v\"");
}

#[test]
fn constant_answers() {
    let params = jm("{}");
    assert_eq!(get_databases(jm("1"), &params).get("result"), Some(&Json::Array(vec![s("main")])));
    assert_eq!(get_schemas(jm("1"), &params).get("result"), Some(&Json::Array(vec![])));
    assert_eq!(get_routines(jm("1"), &params).get("result"), Some(&Json::Array(vec![])));
    assert_eq!(get_routine_parameters(jm("1"), &params).get("result"), Some(&Json::Array(vec![])));
    let r = get_routine_definition(jm("9"), &params);
    assert_eq!(r.get("result"), Some(&s("")));
    assert_eq!(r.get("id"), Some(&jm("9")));
    assert_eq!(r.get("jsonrpc"), Some(&s("2.0")));
}

#[test]
fn batch_requests_name_tables_once() {
    assert_eq!(requested_tables(&jm(r#"{"tables": ["a", 1, "b", "a", null]}"#)), vec!["a", "b"]);
    assert!(requested_tables(&jm(r#"{"tables": "a"}"#)).is_empty());
    assert!(requested_tables(&jm(r#"{}"#)).is_empty());
}

#[test]
fn batches_and_snapshot_key_by_table() {
    let conn = sample_db();
    let names = vec!["emails".to_string(), "users".to_string()];
    let infos: Vec<_> = names.iter().map(|n| rows_from(&conn, &pragma_sql("table_info", n))).collect();
    let lists: Vec<_> = names.iter().map(|n| rows_from(&conn, &pragma_sql("foreign_key_list", n))).collect();
    let cols = columns_batch(&names, &infos);
    assert_eq!(cols.get("users"), Some(&columns_json(&infos[1])));
    assert_eq!(cols.get("emails"), Some(&columns_json(&infos[0])));
    let fks = foreign_keys_batch(&names, &lists);
    assert_eq!(fks.get("users"), Some(&Json::Array(vec![])));
    assert_eq!(fks.get("emails"), Some(&foreign_keys_json("emails", &lists[0])));
    let snap = schema_snapshot(&names, &infos, &lists);
    assert_eq!(snap.get("tables"), Some(&tables_json(&names)));
    assert_eq!(snap.get("columns"), Some(&cols));
    assert_eq!(snap.get("foreign_keys"), Some(&fks));
}
