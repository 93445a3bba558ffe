//! DDL generation for the host's schema dialogs.
//!
//! The `get_*_sql` methods return SQL statements (as a JSON array, matching
//! the host's `Vec<String>` contract) the host may show before running them
//! through `execute_query`. They are pure builders over `ColumnDefinition`
//! objects (`{name, data_type, is_nullable, is_pk, is_auto_increment,
//! default_value}`).
//!
//! Vanilla SQLite cannot retype columns or add/drop foreign keys on an
//! existing table. The libSQL fork adds
//! `ALTER TABLE ... ALTER COLUMN col TO col <type> [DEFAULT ...] [REFERENCES ...]`,
//! which covers both; renames use plain `RENAME COLUMN`. Where a statement
//! must reproduce a column's existing definition, the caller reads the schema
//! (`PRAGMA table_info` / `PRAGMA foreign_key_list`) and hands the rows in.

use vstd::prelude::*;

use crate::error::{PluginError, INVALID_PARAMS};
use crate::handlers::{
    cell_i64, cell_i64_spec, cell_str, cell_str_spec, fk_name, fk_name_spec, missing_param_message,
    req_str, req_str_spec, respond, respond_spec, result_view,
};
use crate::json::{
    array_json, get_str, join, join_strings, jv_get, jv_str, lemma_array_view, number_text, rows_view,
    strings_view, views, Json, JsonNumber, JsonV, NumV,
};
use crate::models::opt_text;
use crate::utils::identifiers::{quote, quoted};
use crate::utils::text::{contains_seq, fmt_i64, owned, push_str, starts_with, str_eq};

verus! {

// ---------------------------------------------------------------------------
// Column definitions (host `ColumnDefinition` contract)
// ---------------------------------------------------------------------------

pub open spec fn name_message() -> Seq<char> {
    "column definition needs a 'name'"@
}

pub open spec fn type_message() -> Seq<char> {
    "column definition needs a 'data_type'"@
}

/// The first of two keys that is present.
pub open spec fn field2(c: JsonV, k1: Seq<char>, k2: Seq<char>) -> Option<JsonV> {
    match jv_get(c, k1) {
        Some(x) => Some(x),
        None => jv_get(c, k2),
    }
}

/// The first of three keys that is present.
pub open spec fn field3(c: JsonV, k1: Seq<char>, k2: Seq<char>, k3: Seq<char>) -> Option<JsonV> {
    match jv_get(c, k1) {
        Some(x) => Some(x),
        None => field2(c, k2, k3),
    }
}

/// A field that must be a non-empty string to count.
pub open spec fn nonempty(v: Option<JsonV>) -> Option<Seq<char>> {
    match v {
        Some(x) => match jv_str(x) {
            Some(s) => if s.len() > 0 {
                Some(s)
            } else {
                None
            },
            None => None,
        },
        None => None,
    }
}

/// A flag: `true`/`false`, or the number `1` for true; `absent` when the
/// field is missing and `other` when it is something else.
pub open spec fn flag(v: Option<JsonV>, absent: bool, other: bool) -> bool {
    match v {
        None => absent,
        Some(JsonV::Bool(b)) => b,
        Some(JsonV::Number(n)) => n == NumV::Int(1),
        Some(_) => other,
    }
}

pub open spec fn name_spec(c: JsonV) -> Option<Seq<char>> {
    nonempty(jv_get(c, "name"@))
}

pub open spec fn type_spec(c: JsonV) -> Option<Seq<char>> {
    nonempty(field2(c, "data_type"@, "type"@))
}

pub open spec fn bool_spec(c: JsonV, key: Seq<char>) -> bool {
    flag(jv_get(c, key), false, false)
}

/// Columns default to nullable when the flag is absent (SQLite semantics).
pub open spec fn nullable_spec(c: JsonV) -> bool {
    flag(field2(c, "is_nullable"@, "nullable"@), true, true)
}

/// The default, a ready-to-embed SQL literal.
pub open spec fn default_spec(c: JsonV) -> Option<Seq<char>> {
    nonempty(field3(c, "default_value"@, "column_default"@, "default"@))
}

fn field2_of<'a>(c: &'a Json, k1: &str, k2: &str) -> (r: Option<&'a Json>)
    ensures
        crate::json::opt_view(r) == field2(c@, k1@, k2@),
{
    match c.get(k1) {
        Some(x) => Some(x),
        None => c.get(k2),
    }
}

fn field3_of<'a>(c: &'a Json, k1: &str, k2: &str, k3: &str) -> (r: Option<&'a Json>)
    ensures
        crate::json::opt_view(r) == field3(c@, k1@, k2@, k3@),
{
    match c.get(k1) {
        Some(x) => Some(x),
        None => field2_of(c, k2, k3),
    }
}

fn nonempty_of(v: Option<&Json>) -> (r: Option<String>)
    ensures
        opt_text(r) == nonempty(crate::json::opt_view(v)),
{
    match v {
        Some(x) => match x.as_str() {
            Some(s) => if s.unicode_len() > 0 {
                Some(owned(s))
            } else {
                None
            },
            None => None,
        },
        None => None,
    }
}

fn flag_of(v: Option<&Json>, absent: bool, other: bool) -> (r: bool)
    ensures
        r == flag(crate::json::opt_view(v), absent, other),
{
    match v {
        None => absent,
        Some(Json::Bool(b)) => *b,
        Some(Json::Number(n)) => match n {
            JsonNumber::PosInt(u) => *u == 1,
            JsonNumber::NegInt(i) => *i == 1,
            JsonNumber::Float(_) => false,
        },
        Some(_) => other,
    }
}

pub fn col_name(column: &Json) -> (r: Result<String, PluginError>)
    ensures
        match (r, name_spec(column@)) {
            (Ok(s), Some(t)) => s@ == t,
            (Err(e), None) => e.code == INVALID_PARAMS && e.message@ == name_message(),
            _ => false,
        },
{
    match nonempty_of(column.get("name")) {
        Some(s) => Ok(s),
        None => Err(PluginError::invalid_params(owned("column definition needs a 'name'"))),
    }
}

pub fn col_type(column: &Json) -> (r: Result<String, PluginError>)
    ensures
        match (r, type_spec(column@)) {
            (Ok(s), Some(t)) => s@ == t,
            (Err(e), None) => e.code == INVALID_PARAMS && e.message@ == type_message(),
            _ => false,
        },
{
    match nonempty_of(field2_of(column, "data_type", "type")) {
        Some(s) => Ok(s),
        None => Err(PluginError::invalid_params(owned("column definition needs a 'data_type'"))),
    }
}

pub fn col_bool(column: &Json, key: &str) -> (r: bool)
    ensures
        r == bool_spec(column@, key@),
{
    flag_of(column.get(key), false, false)
}

/// Columns default to nullable when the flag is absent (SQLite semantics).
pub fn col_nullable(column: &Json) -> (r: bool)
    ensures
        r == nullable_spec(column@),
{
    flag_of(field2_of(column, "is_nullable", "nullable"), true, true)
}

/// The host sends `default_value` as a ready-to-embed SQL literal (the raw
/// text the user typed in the dialog, e.g. `'active'` or `CURRENT_TIMESTAMP`).
pub fn col_default(column: &Json) -> (r: Option<String>)
    ensures
        opt_text(r) == default_spec(column@),
{
    nonempty_of(field3_of(column, "default_value", "column_default", "default"))
}

pub open spec fn opt_suffix(cond: bool, s: Seq<char>) -> Seq<char> {
    if cond {
        s
    } else {
        Seq::empty()
    }
}

pub open spec fn default_suffix(d: Option<Seq<char>>) -> Seq<char> {
    match d {
        Some(d) => " DEFAULT "@ + d,
        None => Seq::empty(),
    }
}

// ---------------------------------------------------------------------------
// CREATE TABLE
// ---------------------------------------------------------------------------

pub open spec fn is_pk(c: JsonV) -> bool {
    bool_spec(c, "is_pk"@)
}

/// How many columns are flagged as primary key.
pub open spec fn pk_count(cols: Seq<JsonV>) -> nat
    decreases cols.len(),
{
    if cols.len() == 0 {
        0
    } else {
        pk_count(cols.drop_last()) + if is_pk(cols.last()) {
            1nat
        } else {
            0nat
        }
    }
}

/// One column's definition inside `CREATE TABLE`, or the error message.
pub open spec fn col_def_spec(c: JsonV, single_pk: bool) -> Result<Seq<char>, Seq<char>> {
    match name_spec(c) {
        None => Err(name_message()),
        Some(name) => match type_spec(c) {
            None => Err(type_message()),
            Some(t) => {
                let inline_pk = is_pk(c) && single_pk;
                Ok(
                    quoted(name, '"') + " "@ + t + opt_suffix(
                        inline_pk,
                        " PRIMARY KEY"@ + opt_suffix(
                            bool_spec(c, "is_auto_increment"@),
                            " AUTOINCREMENT"@,
                        ),
                    ) + opt_suffix(!nullable_spec(c) && !inline_pk, " NOT NULL"@) + default_suffix(
                        default_spec(c),
                    ),
                )
            },
        },
    }
}

/// The column definitions, or the message for the first column that fails.
pub open spec fn defs_spec(cols: Seq<JsonV>, single_pk: bool) -> Result<Seq<Seq<char>>, Seq<char>>
    decreases cols.len(),
{
    if cols.len() == 0 {
        Ok(Seq::empty())
    } else {
        match defs_spec(cols.drop_last(), single_pk) {
            Err(e) => Err(e),
            Ok(ds) => match col_def_spec(cols.last(), single_pk) {
                Err(e) => Err(e),
                Ok(d) => Ok(ds.push(d)),
            },
        }
    }
}

/// The quoted names of the columns of a table-level primary key.
pub open spec fn pk_cols_spec(cols: Seq<JsonV>, single_pk: bool) -> Seq<Seq<char>>
    decreases cols.len(),
{
    if cols.len() == 0 {
        Seq::empty()
    } else {
        let prev = pk_cols_spec(cols.drop_last(), single_pk);
        if is_pk(cols.last()) && !single_pk {
            prev.push(quoted(name_spec(cols.last()).unwrap(), '"'))
        } else {
            prev
        }
    }
}

/// A single primary-key column gets an inline `PRIMARY KEY [AUTOINCREMENT]`;
/// several become a table-level `PRIMARY KEY (a, b)` constraint.
pub open spec fn create_table_spec(table: Seq<char>, cols: Seq<JsonV>) -> Result<Seq<char>, Seq<char>> {
    let single = pk_count(cols) == 1;
    match defs_spec(cols, single) {
        Err(e) => Err(e),
        Ok(ds) => {
            let pk = pk_cols_spec(cols, single);
            let all = if pk.len() > 0 {
                ds.push("PRIMARY KEY ("@ + join(pk, ", "@) + ")"@)
            } else {
                ds
            };
            Ok("CREATE TABLE "@ + quoted(table, '"') + " (\n  "@ + join(all, ",\n  "@) + "\n)"@)
        },
    }
}

fn count_pks(columns: &[Json]) -> (n: usize)
    ensures
        n == pk_count(views(columns@)),
{
    let mut n: usize = 0;
    let mut i: usize = 0;
    while i < columns.len()
        invariant
            i <= columns@.len(),
            n == pk_count(views(columns@).take(i as int)),
            n <= i,
        decreases columns@.len() - i,
    {
        proof {
            assert(views(columns@).take(i + 1).drop_last() =~= views(columns@).take(i as int));
        }
        if col_bool(&columns[i], "is_pk") {
            n = n + 1;
        }
        i = i + 1;
    }
    proof {
        assert(views(columns@).take(i as int) =~= views(columns@));
    }
    n
}

fn column_def(column: &Json, single_pk: bool) -> (r: Result<String, PluginError>)
    ensures
        match (r, col_def_spec(column@, single_pk)) {
            (Ok(s), Ok(t)) => s@ == t,
            (Err(e), Err(m)) => e.code == INVALID_PARAMS && e.message@ == m,
            _ => false,
        },
{
    let name = match col_name(column) {
        Ok(n) => n,
        Err(e) => return Err(e),
    };
    let data_type = match col_type(column) {
        Ok(t) => t,
        Err(e) => return Err(e),
    };
    let is_pk = col_bool(column, "is_pk");
    let mut def = quote(name.as_str());
    push_str(&mut def, " ");
    push_str(&mut def, data_type.as_str());
    let ghost after_type = def@;
    if is_pk && single_pk {
        push_str(&mut def, " PRIMARY KEY");
        if col_bool(column, "is_auto_increment") {
            push_str(&mut def, " AUTOINCREMENT");
        }
    }
    let ghost after_pk = def@;
    if !col_nullable(column) && !(is_pk && single_pk) {
        push_str(&mut def, " NOT NULL");
    }
    let ghost after_nn = def@;
    match col_default(column) {
        Some(d) => {
            push_str(&mut def, " DEFAULT ");
            push_str(&mut def, d.as_str());
        },
        None => {},
    }
    proof {
        let inline_pk = is_pk && single_pk;
        assert(after_pk =~= after_type + opt_suffix(
            inline_pk,
            " PRIMARY KEY"@ + opt_suffix(bool_spec(column@, "is_auto_increment"@), " AUTOINCREMENT"@),
        ));
        assert(after_nn =~= after_pk + opt_suffix(
            !nullable_spec(column@) && !inline_pk,
            " NOT NULL"@,
        ));
        assert(def@ =~= after_nn + default_suffix(default_spec(column@)));
    }
    Ok(def)
}

/// Mirror of the host's built-in SQLite driver: a single PK column gets an
/// inline `PRIMARY KEY [AUTOINCREMENT]`, multiple PK columns become a
/// table-level `PRIMARY KEY (a, b)` constraint.
pub fn build_create_table_sql(table_name: &str, columns: &[Json]) -> (r: Result<String, PluginError>)
    ensures
        match (r, create_table_spec(table_name@, views(columns@))) {
            (Ok(s), Ok(t)) => s@ == t,
            (Err(e), Err(m)) => e.code == INVALID_PARAMS && e.message@ == m,
            _ => false,
        },
{
    let ghost cv = views(columns@);
    let single_pk = count_pks(columns) == 1;
    let mut defs: Vec<String> = Vec::new();
    let mut pk_cols: Vec<String> = Vec::new();
    let mut i: usize = 0;
    proof {
        assert(cv.take(0) =~= Seq::<JsonV>::empty());
        assert(strings_view(defs@) =~= Seq::<Seq<char>>::empty());
        assert(strings_view(pk_cols@) =~= Seq::<Seq<char>>::empty());
    }
    while i < columns.len()
        invariant
            cv == views(columns@),
            single_pk == (pk_count(cv) == 1),
            i <= columns@.len(),
            defs@.len() == i,
            defs_spec(cv.take(i as int), single_pk) == Ok::<Seq<Seq<char>>, Seq<char>>(
                strings_view(defs@),
            ),
            pk_cols_spec(cv.take(i as int), single_pk) == strings_view(pk_cols@),
        decreases columns@.len() - i,
    {
        let ghost t = cv.take(i + 1);
        proof {
            assert(t.drop_last() =~= cv.take(i as int));
            assert(t.last() == columns@[i as int]@);
        }
        let def = match column_def(&columns[i], single_pk) {
            Ok(d) => d,
            Err(e) => {
                proof {
                    lemma_defs_err_prefix(cv, single_pk, i + 1);
                }
                return Err(e);
            },
        };
        let ghost old_defs = defs@;
        defs.push(def);
        proof {
            assert(strings_view(defs@) =~= strings_view(old_defs).push(defs@.last()@));
        }
        if col_bool(&columns[i], "is_pk") && !single_pk {
            let name = match col_name(&columns[i]) {
                Ok(n) => n,
                Err(e) => return Err(e),
            };
            let ghost old_pk = pk_cols@;
            pk_cols.push(quote(name.as_str()));
            proof {
                assert(strings_view(pk_cols@) =~= strings_view(old_pk).push(pk_cols@.last()@));
            }
        }
        i = i + 1;
    }
    proof {
        assert(cv.take(i as int) =~= cv);
    }
    let ghost dv = strings_view(defs@);
    if pk_cols.len() > 0 {
        let mut pk = owned("PRIMARY KEY (");
        let joined = join_strings(&pk_cols, ", ");
        push_str(&mut pk, joined.as_str());
        push_str(&mut pk, ")");
        defs.push(pk);
        proof {
            assert(strings_view(defs@) =~= dv.push(defs@.last()@));
        }
    }
    let mut sql = owned("CREATE TABLE ");
    let q = quote(table_name);
    push_str(&mut sql, q.as_str());
    push_str(&mut sql, " (\n  ");
    let body = join_strings(&defs, ",\n  ");
    push_str(&mut sql, body.as_str());
    push_str(&mut sql, "\n)");
    Ok(sql)
}

/// When a column fails, the definitions of any longer prefix fail too.
proof fn lemma_defs_err_prefix(cols: Seq<JsonV>, single_pk: bool, k: int)
    requires
        0 < k <= cols.len(),
        defs_spec(cols.take(k), single_pk) is Err,
    ensures
        defs_spec(cols, single_pk) == defs_spec(cols.take(k), single_pk),
    decreases cols.len() - k,
{
    if k < cols.len() {
        assert(cols.drop_last().take(k) =~= cols.take(k));
        lemma_defs_err_prefix(cols.drop_last(), single_pk, k);
    } else {
        assert(cols.take(k) =~= cols);
    }
}

/// The outcome of `get_create_table_sql` for a request's params.
pub open spec fn create_table_request_spec(params: JsonV) -> Result<JsonV, (i64, Seq<char>)> {
    let table = match req_str_spec(params, "table_name"@) {
        Some(t) => Some(t),
        None => req_str_spec(params, "table"@),
    };
    match table {
        None => Err((INVALID_PARAMS, missing_param_message("table"@))),
        Some(t) => match jv_get(params, "columns"@) {
            Some(JsonV::Array(cols)) => match create_table_spec(t, cols) {
                Ok(sql) => Ok(JsonV::Array(seq![JsonV::Str(sql)])),
                Err(m) => Err((INVALID_PARAMS, m)),
            },
            _ => Err((INVALID_PARAMS, "missing 'columns' definition"@)),
        },
    }
}

/// A single SQL statement as the host's one-element array.
fn one_statement(sql: String) -> (r: Json)
    ensures
        r@ == JsonV::Array(seq![JsonV::Str(sql@)]),
{
    let ghost s = sql@;
    let mut v: Vec<Json> = Vec::new();
    v.push(Json::Str(sql));
    let ghost vv = views(v@);
    let r = array_json(v);
    proof {
        assert(vv =~= seq![JsonV::Str(s)]);
    }
    r
}

fn create_table_result(params: &Json) -> (r: Result<Json, PluginError>)
    ensures
        result_view(r) == create_table_request_spec(params@),
{
    let table_name = match req_str(params, "table_name") {
        Ok(t) => t,
        Err(_) => match req_str(params, "table") {
            Ok(t) => t,
            Err(e) => return Err(e),
        },
    };
    let columns = match params.get("columns") {
        Some(c) => c.as_array(),
        None => None,
    };
    let columns = match columns {
        Some(c) => c,
        None => {
            return Err(PluginError::invalid_params(owned("missing 'columns' definition")));
        },
    };
    proof {
        lemma_array_view(*columns);
    }
    match build_create_table_sql(table_name.as_str(), columns.as_slice()) {
        Ok(sql) => Ok(one_statement(sql)),
        Err(e) => Err(e),
    }
}

pub fn get_create_table_sql(id: Json, params: &Json) -> (r: Json)
    ensures
        r@ == respond_spec(id@, create_table_request_spec(params@)),
{
    respond(id, create_table_result(params))
}

// ---------------------------------------------------------------------------
// ADD COLUMN
// ---------------------------------------------------------------------------

/// `ALTER TABLE t ADD COLUMN c <type> [DEFAULT d] [NOT NULL]`; SQLite only
/// accepts NOT NULL on ADD COLUMN when a default is provided.
pub open spec fn add_column_spec(table: Seq<char>, c: JsonV) -> Result<Seq<char>, Seq<char>> {
    match name_spec(c) {
        None => Err(name_message()),
        Some(name) => match type_spec(c) {
            None => Err(type_message()),
            Some(t) => Ok(
                "ALTER TABLE "@ + quoted(table, '"') + " ADD COLUMN "@ + quoted(name, '"') + " "@ + t
                    + default_suffix(default_spec(c)) + opt_suffix(
                    !nullable_spec(c) && default_spec(c) is Some,
                    " NOT NULL"@,
                ),
            ),
        },
    }
}

pub fn build_add_column_sql(table: &str, column: &Json) -> (r: Result<String, PluginError>)
    ensures
        match (r, add_column_spec(table@, column@)) {
            (Ok(s), Ok(t)) => s@ == t,
            (Err(e), Err(m)) => e.code == INVALID_PARAMS && e.message@ == m,
            _ => false,
        },
{
    let name = match col_name(column) {
        Ok(n) => n,
        Err(e) => return Err(e),
    };
    let data_type = match col_type(column) {
        Ok(t) => t,
        Err(e) => return Err(e),
    };
    let mut sql = owned("ALTER TABLE ");
    let qt = quote(table);
    push_str(&mut sql, qt.as_str());
    push_str(&mut sql, " ADD COLUMN ");
    let qn = quote(name.as_str());
    push_str(&mut sql, qn.as_str());
    push_str(&mut sql, " ");
    push_str(&mut sql, data_type.as_str());
    let ghost base = sql@;
    let default = col_default(column);
    let has_default = match &default {
        Some(d) => {
            push_str(&mut sql, " DEFAULT ");
            push_str(&mut sql, d.as_str());
            true
        },
        None => false,
    };
    let ghost with_default = sql@;
    // SQLite only accepts NOT NULL on ADD COLUMN when a default is provided.
    if !col_nullable(column) && has_default {
        push_str(&mut sql, " NOT NULL");
    }
    proof {
        assert(with_default =~= base + default_suffix(default_spec(column@)));
        assert(sql@ =~= with_default + opt_suffix(
            !nullable_spec(column@) && default_spec(column@) is Some,
            " NOT NULL"@,
        ));
    }
    Ok(sql)
}

/// The outcome of `get_add_column_sql` for a request's params.
pub open spec fn add_column_request_spec(params: JsonV) -> Result<JsonV, (i64, Seq<char>)> {
    match req_str_spec(params, "table"@) {
        None => Err((INVALID_PARAMS, missing_param_message("table"@))),
        Some(t) => match jv_get(params, "column"@) {
            None => Err((INVALID_PARAMS, "missing 'column' definition"@)),
            Some(c) => match add_column_spec(t, c) {
                Ok(sql) => Ok(JsonV::Array(seq![JsonV::Str(sql)])),
                Err(m) => Err((INVALID_PARAMS, m)),
            },
        },
    }
}

fn add_column_result(params: &Json) -> (r: Result<Json, PluginError>)
    ensures
        result_view(r) == add_column_request_spec(params@),
{
    let table = match req_str(params, "table") {
        Ok(t) => t,
        Err(e) => return Err(e),
    };
    let column = match params.get("column") {
        Some(c) => c,
        None => return Err(PluginError::invalid_params(owned("missing 'column' definition"))),
    };
    match build_add_column_sql(table.as_str(), column) {
        Ok(sql) => Ok(one_statement(sql)),
        Err(e) => Err(e),
    }
}

pub fn get_add_column_sql(id: Json, params: &Json) -> (r: Json)
    ensures
        r@ == respond_spec(id@, add_column_request_spec(params@)),
{
    respond(id, add_column_result(params))
}

// ---------------------------------------------------------------------------
// CREATE INDEX
// ---------------------------------------------------------------------------

pub open spec fn create_index_spec(
    table: Seq<char>,
    name: Seq<char>,
    columns: Seq<Seq<char>>,
    unique: bool,
) -> Seq<char> {
    "CREATE "@ + opt_suffix(unique, "UNIQUE "@) + "INDEX "@ + quoted(name, '"') + " ON "@ + quoted(
        table,
        '"',
    ) + " ("@ + join(columns, ", "@) + ")"@
}

/// `columns` are already-quoted identifiers.
pub fn build_create_index_sql(table: &str, name: &str, columns: &Vec<String>, unique: bool) -> (r:
    String)
    ensures
        r@ == create_index_spec(table@, name@, strings_view(columns@), unique),
{
    let mut sql = owned("CREATE ");
    if unique {
        push_str(&mut sql, "UNIQUE ");
    }
    push_str(&mut sql, "INDEX ");
    let qn = quote(name);
    push_str(&mut sql, qn.as_str());
    push_str(&mut sql, " ON ");
    let qt = quote(table);
    push_str(&mut sql, qt.as_str());
    push_str(&mut sql, " (");
    let cols = join_strings(columns, ", ");
    push_str(&mut sql, cols.as_str());
    push_str(&mut sql, ")");
    proof {
        assert(sql@ =~= create_index_spec(table@, name@, strings_view(columns@), unique));
    }
    sql
}

/// The quoted names among the requested index columns: strings that are not
/// empty, in order; anything else is skipped.
pub open spec fn index_columns_spec(arr: Seq<JsonV>) -> Seq<Seq<char>>
    decreases arr.len(),
{
    if arr.len() == 0 {
        Seq::empty()
    } else {
        let prev = index_columns_spec(arr.drop_last());
        match jv_str(arr.last()) {
            Some(s) => if s.len() > 0 {
                prev.push(quoted(s, '"'))
            } else {
                prev
            },
            None => prev,
        }
    }
}

/// The outcome of `get_create_index_sql` for a request's params.
pub open spec fn create_index_request_spec(params: JsonV) -> Result<JsonV, (i64, Seq<char>)> {
    match req_str_spec(params, "table"@) {
        None => Err((INVALID_PARAMS, missing_param_message("table"@))),
        Some(t) => {
            let name = match req_str_spec(params, "index_name"@) {
                Some(n) => Some(n),
                None => req_str_spec(params, "name"@),
            };
            match name {
                None => Err((INVALID_PARAMS, missing_param_message("name"@))),
                Some(n) => {
                    let cols = match jv_get(params, "columns"@) {
                        Some(JsonV::Array(arr)) => index_columns_spec(arr),
                        _ => Seq::empty(),
                    };
                    if cols.len() == 0 {
                        Err((INVALID_PARAMS, "index definition needs at least one column"@))
                    } else {
                        Ok(
                            JsonV::Array(
                                seq![
                                    JsonV::Str(
                                        create_index_spec(
                                            t,
                                            n,
                                            cols,
                                            bool_spec(params, "is_unique"@),
                                        ),
                                    ),
                                ],
                            ),
                        )
                    }
                },
            }
        },
    }
}

fn index_columns(arr: &Vec<Json>) -> (r: Vec<String>)
    ensures
        strings_view(r@) == index_columns_spec(views(arr@)),
{
    let ghost av = views(arr@);
    let mut out: Vec<String> = Vec::new();
    let mut i: usize = 0;
    proof {
        assert(av.take(0) =~= Seq::<JsonV>::empty());
        assert(strings_view(out@) =~= Seq::<Seq<char>>::empty());
    }
    while i < arr.len()
        invariant
            av == views(arr@),
            i <= arr@.len(),
            strings_view(out@) == index_columns_spec(av.take(i as int)),
        decreases arr@.len() - i,
    {
        proof {
            assert(av.take(i + 1).drop_last() =~= av.take(i as int));
            assert(av.take(i + 1).last() == arr@[i as int]@);
        }
        match arr[i].as_str() {
            Some(s) => {
                if s.unicode_len() > 0 {
                    let ghost old = out@;
                    out.push(quote(s));
                    proof {
                        assert(strings_view(out@) =~= strings_view(old).push(out@.last()@));
                    }
                }
            },
            None => {},
        }
        i = i + 1;
    }
    proof {
        assert(av.take(i as int) =~= av);
    }
    out
}

fn create_index_result(params: &Json) -> (r: Result<Json, PluginError>)
    ensures
        result_view(r) == create_index_request_spec(params@),
{
    let table = match req_str(params, "table") {
        Ok(t) => t,
        Err(e) => return Err(e),
    };
    let name = match req_str(params, "index_name") {
        Ok(n) => n,
        Err(_) => match req_str(params, "name") {
            Ok(n) => n,
            Err(e) => return Err(e),
        },
    };
    let columns = match params.get("columns") {
        Some(c) => match c.as_array() {
            Some(arr) => {
                proof {
                    lemma_array_view(*arr);
                }
                index_columns(arr)
            },
            None => Vec::new(),
        },
        None => Vec::new(),
    };
    if columns.len() == 0 {
        return Err(
            PluginError::invalid_params(owned("index definition needs at least one column")),
        );
    }
    let sql = build_create_index_sql(
        table.as_str(),
        name.as_str(),
        &columns,
        col_bool(params, "is_unique"),
    );
    Ok(one_statement(sql))
}

pub fn get_create_index_sql(id: Json, params: &Json) -> (r: Json)
    ensures
        r@ == respond_spec(id@, create_index_request_spec(params@)),
{
    respond(id, create_index_result(params))
}

// ---------------------------------------------------------------------------
// Foreign keys and existing column definitions
// ---------------------------------------------------------------------------

/// A column's existing definition, read from `PRAGMA table_info` (cells:
/// cid, name, type, notnull, dflt_value, pk).
#[derive(Debug)]
pub struct ColumnDef {
    pub data_type: String,
    pub not_null: bool,
    pub default: Option<String>,
}

/// Render a column definition the way the libSQL ALTER COLUMN form expects:
/// `TYPE [NOT NULL] [DEFAULT value]`.
pub open spec fn column_def_text(data_type: Seq<char>, not_null: bool, default: Option<Seq<char>>) -> Seq<char> {
    data_type + opt_suffix(not_null, " NOT NULL"@) + default_suffix(default)
}

pub open spec fn def_text(def: ColumnDef) -> Seq<char> {
    column_def_text(def.data_type@, def.not_null, opt_text(def.default))
}

pub fn column_def_sql(def: &ColumnDef) -> (r: String)
    ensures
        r@ == def_text(*def),
{
    let mut sql = def.data_type.clone();
    let ghost base = sql@;
    if def.not_null {
        push_str(&mut sql, " NOT NULL");
    }
    let ghost nn = sql@;
    match &def.default {
        Some(d) => {
            push_str(&mut sql, " DEFAULT ");
            push_str(&mut sql, d.as_str());
        },
        None => {},
    }
    proof {
        assert(nn =~= base + opt_suffix(def.not_null, " NOT NULL"@));
        assert(sql@ =~= nn + default_suffix(opt_text(def.default)));
    }
    sql
}

/// `ALTER TABLE t ALTER COLUMN c TO c <def> REFERENCES r (rc) [ON DELETE a] [ON UPDATE a]`.
pub open spec fn create_fk_spec(
    table: Seq<char>,
    column: Seq<char>,
    def: Seq<char>,
    ref_table: Seq<char>,
    ref_column: Seq<char>,
    on_delete: Option<Seq<char>>,
    on_update: Option<Seq<char>>,
) -> Seq<char> {
    "ALTER TABLE "@ + quoted(table, '"') + " ALTER COLUMN "@ + quoted(column, '"') + " TO "@
        + quoted(column, '"') + " "@ + def + " REFERENCES "@ + quoted(ref_table, '"') + " ("@
        + quoted(ref_column, '"') + ")"@ + match on_delete {
        Some(a) => " ON DELETE "@ + a,
        None => Seq::empty(),
    } + match on_update {
        Some(a) => " ON UPDATE "@ + a,
        None => Seq::empty(),
    }
}

pub open spec fn opt_str_view(o: Option<&str>) -> Option<Seq<char>> {
    match o {
        Some(s) => Some(s@),
        None => None,
    }
}

/// Build a libSQL statement that adds a foreign key to an existing column:
/// the ALTER COLUMN form with the column's full definition plus a REFERENCES
/// clause. The constraint name is not used — SQLite foreign keys carry no
/// names of their own.
pub fn build_create_fk_sql(
    table: &str,
    column: &str,
    def: &ColumnDef,
    ref_table: &str,
    ref_column: &str,
    on_delete: Option<&str>,
    on_update: Option<&str>,
) -> (r: String)
    ensures
        r@ == create_fk_spec(
            table@,
            column@,
            def_text(*def),
            ref_table@,
            ref_column@,
            opt_str_view(on_delete),
            opt_str_view(on_update),
        ),
{
    let mut sql = owned("ALTER TABLE ");
    let qt = quote(table);
    push_str(&mut sql, qt.as_str());
    push_str(&mut sql, " ALTER COLUMN ");
    let qc = quote(column);
    push_str(&mut sql, qc.as_str());
    push_str(&mut sql, " TO ");
    push_str(&mut sql, qc.as_str());
    push_str(&mut sql, " ");
    let d = column_def_sql(def);
    push_str(&mut sql, d.as_str());
    push_str(&mut sql, " REFERENCES ");
    let qr = quote(ref_table);
    push_str(&mut sql, qr.as_str());
    push_str(&mut sql, " (");
    let qrc = quote(ref_column);
    push_str(&mut sql, qrc.as_str());
    push_str(&mut sql, ")");
    let ghost base = sql@;
    match on_delete {
        Some(a) => {
            push_str(&mut sql, " ON DELETE ");
            push_str(&mut sql, a);
        },
        None => {},
    }
    let ghost del = sql@;
    match on_update {
        Some(a) => {
            push_str(&mut sql, " ON UPDATE ");
            push_str(&mut sql, a);
        },
        None => {},
    }
    proof {
        let dl = match opt_str_view(on_delete) {
            Some(a) => " ON DELETE "@ + a,
            None => Seq::<char>::empty(),
        };
        let ul = match opt_str_view(on_update) {
            Some(a) => " ON UPDATE "@ + a,
            None => Seq::<char>::empty(),
        };
        assert(del =~= base + dl);
        assert(sql@ =~= base + dl + ul);
    }
    sql
}

/// `ALTER TABLE t ALTER COLUMN c TO c <def>`: the column without its
/// REFERENCES clause.
pub open spec fn fk_drop_spec(table: Seq<char>, column: Seq<char>, def: Seq<char>) -> Seq<char> {
    "ALTER TABLE "@ + quoted(table, '"') + " ALTER COLUMN "@ + quoted(column, '"') + " TO "@
        + quoted(column, '"') + " "@ + def
}

/// Build a libSQL statement that drops an existing column's foreign key:
/// the ALTER COLUMN form without the REFERENCES clause. The rest of the
/// column definition is reproduced so the rewrite does not strip NOT NULL,
/// DEFAULT or anything else the column carries.
pub fn build_fk_drop_sql(table: &str, column: &str, def: &ColumnDef) -> (r: String)
    ensures
        r@ == fk_drop_spec(table@, column@, def_text(*def)),
{
    let mut sql = owned("ALTER TABLE ");
    let qt = quote(table);
    push_str(&mut sql, qt.as_str());
    push_str(&mut sql, " ALTER COLUMN ");
    let qc = quote(column);
    push_str(&mut sql, qc.as_str());
    push_str(&mut sql, " TO ");
    push_str(&mut sql, qc.as_str());
    push_str(&mut sql, " ");
    let d = column_def_sql(def);
    push_str(&mut sql, d.as_str());
    sql
}

// ---------------------------------------------------------------------------
// Reading the schema rows
// ---------------------------------------------------------------------------

/// A PRAGMA cell rendered back to its SQL source text: numbers come back as
/// JSON numbers, so a `DEFAULT 7` would otherwise be lost.
pub open spec fn cell_raw_spec(row: Seq<JsonV>, i: int) -> Option<Seq<char>> {
    if 0 <= i < row.len() {
        Some(
            match row[i] {
                JsonV::Str(s) => s,
                JsonV::Number(n) => number_text(n),
                JsonV::Bool(b) => if b {
                    "true"@
                } else {
                    "false"@
                },
                _ => Seq::empty(),
            },
        )
    } else {
        None
    }
}

pub fn cell_raw(row: &[Json], i: usize) -> (r: Option<String>)
    ensures
        opt_text(r) == cell_raw_spec(views(row@), i as int),
{
    if i >= row.len() {
        return None;
    }
    let text = match &row[i] {
        Json::Str(s) => s.clone(),
        Json::Number(n) => match n {
            JsonNumber::PosInt(u) => crate::utils::text::fmt_u64(*u),
            JsonNumber::NegInt(v) => fmt_i64(*v),
            JsonNumber::Float(t) => t.clone(),
        },
        Json::Bool(b) => if *b {
            owned("true")
        } else {
            owned("false")
        },
        _ => String::new(),
    };
    Some(text)
}

/// A string cell, or the empty string.
pub open spec fn cell_text(row: Seq<JsonV>, i: int) -> Seq<char> {
    match cell_str_spec(row, i) {
        Some(s) => s,
        None => Seq::empty(),
    }
}

/// The definition a `table_info` row describes: a blank type reads as TEXT.
pub open spec fn row_def_spec(row: Seq<JsonV>) -> (Seq<char>, bool, Option<Seq<char>>) {
    let raw = cell_text(row, 2);
    (
        if raw.len() == 0 {
            "TEXT"@
        } else {
            raw
        },
        cell_i64_spec(row, 3) != 0,
        match cell_raw_spec(row, 4) {
            Some(d) => if d.len() > 0 {
                Some(d)
            } else {
                None
            },
            None => None,
        },
    )
}

/// The first `table_info` row (from `i` on) that describes `column`.
pub open spec fn find_column_row(rows: Seq<Seq<JsonV>>, column: Seq<char>, i: int) -> Option<int>
    decreases rows.len() - i,
{
    if i < 0 || i >= rows.len() {
        None
    } else if cell_str_spec(rows[i], 1) == Some(column) {
        Some(i)
    } else {
        find_column_row(rows, column, i + 1)
    }
}

/// The existing definition of `column`, from the `table_info` rows.
pub open spec fn column_def_for_spec(rows: Seq<Seq<JsonV>>, table: Seq<char>, column: Seq<char>) -> Result<
    (Seq<char>, bool, Option<Seq<char>>),
    Seq<char>,
> {
    match find_column_row(rows, column, 0) {
        Some(i) => Ok(row_def_spec(rows[i])),
        None => Err("column '"@ + column + "' not found in table '"@ + table + "'"@),
    }
}

pub open spec fn def_matches(d: ColumnDef, t: (Seq<char>, bool, Option<Seq<char>>)) -> bool {
    d.data_type@ == t.0 && d.not_null == t.1 && opt_text(d.default) == t.2
}

fn is_text(s: &Option<String>, t: &str) -> (r: bool)
    ensures
        r == (opt_text(*s) == Some(t@)),
{
    match s {
        Some(x) => str_eq(x.as_str(), t),
        None => false,
    }
}

fn text_or_empty(s: Option<String>) -> (r: String)
    ensures
        r@ == (match opt_text(s) {
            Some(x) => x,
            None => Seq::empty(),
        }),
{
    match s {
        Some(x) => x,
        None => String::new(),
    }
}

/// Look up a column's declared type and constraints among the rows of
/// `PRAGMA table_info(<table>)`, defaulting to TEXT when the type is blank
/// (SQLite's bare-column shorthand).
pub fn column_def_for(rows: &Vec<Vec<Json>>, table: &str, column: &str) -> (r: Result<ColumnDef, PluginError>)
    ensures
        match (r, column_def_for_spec(rows_view(rows@), table@, column@)) {
            (Ok(d), Ok(t)) => def_matches(d, t),
            (Err(e), Err(m)) => e.code == INVALID_PARAMS && e.message@ == m,
            _ => false,
        },
{
    let ghost rv = rows_view(rows@);
    let mut i: usize = 0;
    while i < rows.len()
        invariant
            rv == rows_view(rows@),
            i <= rows@.len(),
            find_column_row(rv, column@, 0) == find_column_row(rv, column@, i as int),
        decreases rows@.len() - i,
    {
        let row = rows[i].as_slice();
        proof {
            assert(rv[i as int] == views(rows@[i as int]@));
        }
        let name = cell_str(row, 1);
        if is_text(&name, column) {
            let raw = text_or_empty(cell_str(row, 2));
            let data_type = if raw.as_str().unicode_len() == 0 {
                owned("TEXT")
            } else {
                raw
            };
            let default = match cell_raw(row, 4) {
                Some(d) => if d.as_str().unicode_len() > 0 {
                    Some(d)
                } else {
                    None
                },
                None => None,
            };
            return Ok(ColumnDef { data_type, not_null: cell_i64(row, 3) != 0, default });
        }
        i = i + 1;
    }
    let mut msg = owned("column '");
    push_str(&mut msg, column);
    push_str(&mut msg, "' not found in table '");
    push_str(&mut msg, table);
    push_str(&mut msg, "'");
    Err(PluginError::invalid_params(msg))
}

/// The plugin's name for the foreign key a `foreign_key_list` row describes
/// (cells: id, seq, table, from, to, on_update, on_delete, match).
pub open spec fn row_fk_name(table: Seq<char>, row: Seq<JsonV>) -> Seq<char> {
    fk_name_spec(table, cell_text(row, 3), cell_i64_spec(row, 0))
}

/// The first `foreign_key_list` row (from `i` on) whose plugin name is `name`.
pub open spec fn find_fk_row(rows: Seq<Seq<JsonV>>, table: Seq<char>, name: Seq<char>, i: int) -> Option<int>
    decreases rows.len() - i,
{
    if i < 0 || i >= rows.len() {
        None
    } else if row_fk_name(table, rows[i]) == name {
        Some(i)
    } else {
        find_fk_row(rows, table, name, i + 1)
    }
}

/// The column a host-side foreign-key name refers to.
pub open spec fn fk_column_spec(rows: Seq<Seq<JsonV>>, table: Seq<char>, name: Seq<char>) -> Result<Seq<char>, Seq<char>> {
    match find_fk_row(rows, table, name, 0) {
        Some(i) => Ok(cell_text(rows[i], 3)),
        None => Err("foreign key '"@ + name + "' not found on table '"@ + table + "'"@),
    }
}

/// Find the row whose plugin name is `name`, if any.
fn fk_row_index(rows: &Vec<Vec<Json>>, table: &str, name: &str) -> (r: Option<usize>)
    ensures
        match r {
            Some(i) => find_fk_row(rows_view(rows@), table@, name@, 0) == Some(i as int) && i
                < rows@.len(),
            None => find_fk_row(rows_view(rows@), table@, name@, 0) is None,
        },
{
    let ghost rv = rows_view(rows@);
    let mut i: usize = 0;
    while i < rows.len()
        invariant
            rv == rows_view(rows@),
            i <= rows@.len(),
            find_fk_row(rv, table@, name@, 0) == find_fk_row(rv, table@, name@, i as int),
        decreases rows@.len() - i,
    {
        let row = rows[i].as_slice();
        proof {
            assert(rv[i as int] == views(rows@[i as int]@));
        }
        let from = text_or_empty(cell_str(row, 3));
        let n = fk_name(table, from.as_str(), cell_i64(row, 0));
        if str_eq(n.as_str(), name) {
            return Some(i);
        }
        i = i + 1;
    }
    None
}

/// Map a host-side FK name (plugin-generated `fk_<table>_<column>_<id>`) back
/// to the SQLite column it constrains, among the rows of
/// `PRAGMA foreign_key_list(<table>)`.
pub fn foreign_key_column_for(rows: &Vec<Vec<Json>>, table: &str, name: &str) -> (r: Result<String, PluginError>)
    ensures
        match (r, fk_column_spec(rows_view(rows@), table@, name@)) {
            (Ok(c), Ok(t)) => c@ == t,
            (Err(e), Err(m)) => e.code == INVALID_PARAMS && e.message@ == m,
            _ => false,
        },
{
    match fk_row_index(rows, table, name) {
        Some(i) => {
            proof {
                assert(rows_view(rows@)[i as int] == views(rows@[i as int]@));
            }
            Ok(text_or_empty(cell_str(rows[i].as_slice(), 3)))
        },
        None => {
            let mut msg = owned("foreign key '");
            push_str(&mut msg, name);
            push_str(&mut msg, "' not found on table '");
            push_str(&mut msg, table);
            push_str(&mut msg, "'");
            Err(PluginError::invalid_params(msg))
        },
    }
}

/// How many rows carry the foreign-key id `id`.
pub open spec fn count_id(rows: Seq<Seq<JsonV>>, id: i64) -> nat
    decreases rows.len(),
{
    if rows.len() == 0 {
        0
    } else {
        count_id(rows.drop_last(), id) + if cell_i64_spec(rows.last(), 0) == id {
            1nat
        } else {
            0nat
        }
    }
}

/// Composite (table-level) foreign keys appear as several rows sharing one
/// id, one per column; the name matches only one of them.
pub open spec fn is_composite_spec(rows: Seq<Seq<JsonV>>, table: Seq<char>, name: Seq<char>) -> bool {
    match find_fk_row(rows, table, name, 0) {
        Some(i) => count_id(rows, cell_i64_spec(rows[i], 0)) > 1,
        None => false,
    }
}

/// How many rows carry the foreign-key id `id`.
fn count_with_id(rows: &Vec<Vec<Json>>, id: i64) -> (r: usize)
    ensures
        r == count_id(rows_view(rows@), id),
{
    let ghost rv = rows_view(rows@);
    let mut count: usize = 0;
    let mut j: usize = 0;
    while j < rows.len()
        invariant
            rv == rows_view(rows@),
            j <= rows@.len(),
            count == count_id(rv.take(j as int), id),
            count <= j,
        decreases rows@.len() - j,
    {
        proof {
            assert(rv.take(j + 1).drop_last() =~= rv.take(j as int));
            assert(rv.take(j + 1).last() == views(rows@[j as int]@));
        }
        if cell_i64(rows[j].as_slice(), 0) == id {
            count = count + 1;
        }
        j = j + 1;
    }
    proof {
        assert(rv.take(j as int) =~= rv);
    }
    count
}

/// Is the named foreign key a composite (multi-column) constraint? Unknown
/// names are not: the caller's lookup reports them.
pub fn is_composite_fk(rows: &Vec<Vec<Json>>, table: &str, name: &str) -> (r: bool)
    ensures
        r == is_composite_spec(rows_view(rows@), table@, name@),
{
    let ghost rv = rows_view(rows@);
    let target = match fk_row_index(rows, table, name) {
        Some(i) => {
            proof {
                assert(rv[i as int] == views(rows@[i as int]@));
            }
            cell_i64(rows[i].as_slice(), 0)
        },
        None => return false,
    };
    let count = count_with_id(rows, target);
    count > 1
}

/// How many `foreign_key_list` rows constrain `column`.
pub open spec fn count_from(rows: Seq<Seq<JsonV>>, column: Seq<char>) -> nat
    decreases rows.len(),
{
    if rows.len() == 0 {
        0
    } else {
        count_from(rows.drop_last(), column) + if cell_str_spec(rows.last(), 3) == Some(column) {
            1nat
        } else {
            0nat
        }
    }
}

/// The first `foreign_key_list` row (from `i` on) that constrains `column`.
pub open spec fn find_from_row(rows: Seq<Seq<JsonV>>, column: Seq<char>, i: int) -> Option<int>
    decreases rows.len() - i,
{
    if i < 0 || i >= rows.len() {
        None
    } else if cell_str_spec(rows[i], 3) == Some(column) {
        Some(i)
    } else {
        find_from_row(rows, column, i + 1)
    }
}

/// A referential action, unless it is the default `NO ACTION`.
pub open spec fn action_suffix(row: Seq<JsonV>, i: int, words: Seq<char>) -> Seq<char> {
    match cell_str_spec(row, i) {
        Some(a) => if a != "NO ACTION"@ {
            words + a
        } else {
            Seq::empty()
        },
        None => Seq::empty(),
    }
}

/// `REFERENCES t (c) [ON DELETE a] [ON UPDATE a]` for one row.
pub open spec fn fk_clause_text(row: Seq<JsonV>) -> Seq<char> {
    "REFERENCES "@ + quoted(cell_text(row, 2), '"') + " ("@ + quoted(cell_text(row, 4), '"')
        + ")"@ + action_suffix(row, 6, " ON DELETE "@) + action_suffix(row, 5, " ON UPDATE "@)
}

/// The REFERENCES clause of a single-column foreign key on `column`, if any.
/// Composite constraints span several rows sharing one id and cannot be
/// expressed as a per-column rewrite, so they are skipped: the clause is
/// given only when exactly one row constrains `column` and no other row
/// carries its id.
pub open spec fn fk_clause_spec(rows: Seq<Seq<JsonV>>, column: Seq<char>) -> Option<Seq<char>> {
    if count_from(rows, column) != 1 {
        None
    } else {
        match find_from_row(rows, column, 0) {
            Some(i) => if count_id(rows, cell_i64_spec(rows[i], 0)) > 1 {
                None
            } else {
                Some(fk_clause_text(rows[i]))
            },
            None => None,
        }
    }
}

fn action(row: &[Json], i: usize, words: &str, out: &mut String)
    ensures
        final(out)@ == old(out)@ + action_suffix(views(row@), i as int, words@),
{
    match cell_str(row, i) {
        Some(a) => {
            if !str_eq(a.as_str(), "NO ACTION") {
                push_str(out, words);
                push_str(out, a.as_str());
            } else {
                proof {
                    assert(old(out)@ + Seq::<char>::empty() =~= old(out)@);
                }
            }
        },
        None => {
            proof {
                assert(old(out)@ + Seq::<char>::empty() =~= old(out)@);
            }
        },
    }
}

/// The REFERENCES clause of a single-column foreign key on `column`, among
/// the rows of `PRAGMA foreign_key_list(<table>)`.
pub fn single_column_fk_clause_for(rows: &Vec<Vec<Json>>, column: &str) -> (r: Option<String>)
    ensures
        opt_text(r) == fk_clause_spec(rows_view(rows@), column@),
{
    let ghost rv = rows_view(rows@);
    let mut count: usize = 0;
    let mut found: Option<usize> = None;
    let mut j: usize = 0;
    while j < rows.len()
        invariant
            rv == rows_view(rows@),
            j <= rows@.len(),
            count == count_from(rv.take(j as int), column@),
            count <= j,
            match found {
                Some(k) => k < j && find_from_row(rv, column@, 0) == Some(k as int),
                None => count == 0,
            },
        decreases rows@.len() - j,
    {
        let ghost t = rv.take(j + 1);
        proof {
            assert(t.drop_last() =~= rv.take(j as int));
            assert(t.last() == views(rows@[j as int]@));
            assert(rv[j as int] == views(rows@[j as int]@));
        }
        let from = cell_str(rows[j].as_slice(), 3);
        if is_text(&from, column) {
            count = count + 1;
            if found.is_none() {
                proof {
                    lemma_no_match_before(rv, column@, j as int);
                }
                found = Some(j);
            }
        }
        j = j + 1;
    }
    proof {
        assert(rv.take(j as int) =~= rv);
    }
    if count != 1 {
        return None;
    }
    let k = match found {
        Some(k) => k,
        None => return None,
    };
    let row = rows[k].as_slice();
    proof {
        assert(rv[k as int] == views(row@));
    }
    if count_with_id(rows, cell_i64(row, 0)) > 1 {
        return None;
    }
    let mut clause = owned("REFERENCES ");
    let t = quote(text_or_empty(cell_str(row, 2)).as_str());
    push_str(&mut clause, t.as_str());
    push_str(&mut clause, " (");
    let c = quote(text_or_empty(cell_str(row, 4)).as_str());
    push_str(&mut clause, c.as_str());
    push_str(&mut clause, ")");
    // foreign_key_list columns: id, seq, table, from, to, on_update, on_delete, match
    action(row, 6, " ON DELETE ", &mut clause);
    action(row, 5, " ON UPDATE ", &mut clause);
    Some(clause)
}

/// With no matching row before `j` (none counted yet), the first match from
/// the start is the one at `j`.
proof fn lemma_no_match_before(rows: Seq<Seq<JsonV>>, column: Seq<char>, j: int)
    requires
        0 <= j < rows.len(),
        count_from(rows.take(j), column) == 0,
        cell_str_spec(rows[j], 3) == Some(column),
    ensures
        find_from_row(rows, column, 0) == Some(j),
{
    lemma_count_zero_none(rows, column, j);
    lemma_find_from_skip(rows, column, 0, j);
}

proof fn lemma_count_zero_none(rows: Seq<Seq<JsonV>>, column: Seq<char>, j: int)
    requires
        0 <= j <= rows.len(),
        count_from(rows.take(j), column) == 0,
    ensures
        forall|k: int| 0 <= k < j ==> cell_str_spec(#[trigger] rows[k], 3) != Some(column),
    decreases j,
{
    if j > 0 {
        assert(rows.take(j).drop_last() =~= rows.take(j - 1));
        lemma_count_zero_none(rows, column, j - 1);
        assert(rows.take(j).last() == rows[j - 1]);
    }
}

proof fn lemma_find_from_skip(rows: Seq<Seq<JsonV>>, column: Seq<char>, i: int, j: int)
    requires
        0 <= i <= j < rows.len(),
        forall|k: int| 0 <= k < j ==> cell_str_spec(#[trigger] rows[k], 3) != Some(column),
        cell_str_spec(rows[j], 3) == Some(column),
    ensures
        find_from_row(rows, column, i) == Some(j),
    decreases j - i,
{
    if i < j {
        lemma_find_from_skip(rows, column, i + 1, j);
    }
}

// ---------------------------------------------------------------------------
// ALTER COLUMN
// ---------------------------------------------------------------------------

/// The parts of a column definition an `ALTER COLUMN` rewrite must reproduce
/// (the fork replaces the whole definition, not just the edited bit).
#[derive(Debug)]
pub struct ColumnRewrite {
    pub data_type: Option<String>,
    pub not_null: bool,
    pub default: Option<String>,
    pub constraints: Vec<String>,
}

/// The value of a `ColumnRewrite`.
pub struct RewriteV {
    pub data_type: Option<Seq<char>>,
    pub not_null: bool,
    pub default: Option<Seq<char>>,
    pub constraints: Seq<Seq<char>>,
}

pub open spec fn rewrite_view(r: ColumnRewrite) -> RewriteV {
    RewriteV {
        data_type: opt_text(r.data_type),
        not_null: r.not_null,
        default: opt_text(r.default),
        constraints: strings_view(r.constraints@),
    }
}

pub open spec fn opt_seq(o: Option<Seq<char>>) -> Seq<Seq<char>> {
    match o {
        Some(s) => seq![s],
        None => Seq::empty(),
    }
}

/// Column-level constraint clauses the host may pass through verbatim
/// (`REFERENCES ...`, `UNIQUE`, `CHECK (...)`).
pub open spec fn constraints_spec(c: JsonV) -> Seq<Seq<char>> {
    opt_seq(nonempty(jv_get(c, "references"@))) + opt_seq(nonempty(jv_get(c, "unique"@))) + opt_seq(
        nonempty(jv_get(c, "check"@)),
    ) + opt_seq(nonempty(jv_get(c, "constraints"@)))
}

pub open spec fn rewrite_from_spec(c: JsonV) -> RewriteV {
    RewriteV {
        data_type: type_spec(c),
        not_null: !nullable_spec(c),
        default: default_spec(c),
        constraints: constraints_spec(c),
    }
}

/// `list` followed by each clause of `olds` that is not already there.
pub open spec fn merge_clauses(list: Seq<Seq<char>>, olds: Seq<Seq<char>>) -> Seq<Seq<char>>
    decreases olds.len(),
{
    if olds.len() == 0 {
        list
    } else {
        let m = merge_clauses(list, olds.drop_last());
        if m.contains(olds.last()) {
            m
        } else {
            m.push(olds.last())
        }
    }
}

/// The new definition with everything the dialog did not send carried over
/// from the old one.
pub open spec fn merged_spec(old_c: JsonV, new_c: JsonV) -> RewriteV {
    let o = rewrite_from_spec(old_c);
    let n = rewrite_from_spec(new_c);
    RewriteV {
        data_type: if n.data_type is None {
            o.data_type
        } else {
            n.data_type
        },
        not_null: if field2(new_c, "is_nullable"@, "nullable"@) is None {
            o.not_null
        } else {
            n.not_null
        },
        default: if field3(new_c, "default_value"@, "column_default"@, "default"@) is None {
            o.default
        } else {
            n.default
        },
        constraints: merge_clauses(n.constraints, o.constraints),
    }
}

/// Each clause preceded by a space.
pub open spec fn clauses_text(cs: Seq<Seq<char>>) -> Seq<char>
    decreases cs.len(),
{
    if cs.len() == 0 {
        Seq::empty()
    } else {
        clauses_text(cs.drop_last()) + " "@ + cs.last()
    }
}

/// `ALTER TABLE t ALTER COLUMN c TO c <type> [NOT NULL] [DEFAULT d] <clauses>`.
pub open spec fn rewrite_sql_spec(table: Seq<char>, name: Seq<char>, data_type: Seq<char>, def: RewriteV) -> Seq<char> {
    "ALTER TABLE "@ + quoted(table, '"') + " ALTER COLUMN "@ + quoted(name, '"') + " TO "@ + quoted(
        name,
        '"',
    ) + " "@ + data_type + opt_suffix(def.not_null, " NOT NULL"@) + default_suffix(def.default)
        + clauses_text(def.constraints)
}

/// `ALTER TABLE t RENAME COLUMN a TO b`.
pub open spec fn rename_spec(table: Seq<char>, from: Seq<char>, to: Seq<char>) -> Seq<char> {
    "ALTER TABLE "@ + quoted(table, '"') + " RENAME COLUMN "@ + quoted(from, '"') + " TO "@ + quoted(
        to,
        '"',
    )
}

/// The statements that alter a column, or the error message. A rename comes
/// first; any other change is one `ALTER COLUMN` rewrite of the merged
/// definition; no change at all gives no statement.
pub open spec fn alter_column_spec(table: Seq<char>, old_c: JsonV, new_c: JsonV) -> Result<Seq<Seq<char>>, Seq<char>> {
    match name_spec(old_c) {
        None => Err(name_message()),
        Some(old_name) => match name_spec(new_c) {
            None => Err(name_message()),
            Some(new_name) => {
                let first = if old_name != new_name {
                    seq![rename_spec(table, old_name, new_name)]
                } else {
                    Seq::empty()
                };
                let m = merged_spec(old_c, new_c);
                if m != rewrite_from_spec(old_c) {
                    match m.data_type {
                        None => Err(type_message()),
                        Some(dt) => Ok(first.push(rewrite_sql_spec(table, new_name, dt, m))),
                    }
                } else {
                    Ok(first)
                }
            },
        },
    }
}

fn opt_clause(c: &Json, key: &str, out: &mut Vec<String>)
    ensures
        strings_view(final(out)@) == strings_view(old(out)@) + opt_seq(nonempty(jv_get(c@, key@))),
{
    let ghost before = strings_view(out@);
    match nonempty_of(c.get(key)) {
        Some(s) => {
            out.push(s);
            proof {
                assert(strings_view(out@) =~= before + seq![out@.last()@]);
            }
        },
        None => {
            proof {
                assert(before + Seq::<Seq<char>>::empty() =~= before);
            }
        },
    }
}

fn constraint_clauses(column: &Json) -> (r: Vec<String>)
    ensures
        strings_view(r@) == constraints_spec(column@),
{
    let mut out: Vec<String> = Vec::new();
    proof {
        assert(strings_view(out@) =~= Seq::<Seq<char>>::empty());
    }
    opt_clause(column, "references", &mut out);
    opt_clause(column, "unique", &mut out);
    opt_clause(column, "check", &mut out);
    opt_clause(column, "constraints", &mut out);
    proof {
        assert(strings_view(out@) =~= constraints_spec(column@));
    }
    out
}

pub fn column_rewrite_from(column: &Json) -> (r: ColumnRewrite)
    ensures
        rewrite_view(r) == rewrite_from_spec(column@),
{
    ColumnRewrite {
        data_type: nonempty_of(field2_of(column, "data_type", "type")),
        not_null: !col_nullable(column),
        default: col_default(column),
        constraints: constraint_clauses(column),
    }
}

fn copy_opt(o: &Option<String>) -> (r: Option<String>)
    ensures
        opt_text(r) == opt_text(*o),
{
    match o {
        Some(s) => Some(s.clone()),
        None => None,
    }
}

fn opt_eq(a: &Option<String>, b: &Option<String>) -> (r: bool)
    ensures
        r == (opt_text(*a) == opt_text(*b)),
{
    match (a, b) {
        (Some(x), Some(y)) => str_eq(x.as_str(), y.as_str()),
        (None, None) => true,
        _ => false,
    }
}

/// `v` holds `s`.
pub fn contains_str(v: &Vec<String>, s: &str) -> (r: bool)
    ensures
        r == strings_view(v@).contains(s@),
{
    let mut i: usize = 0;
    while i < v.len()
        invariant
            i <= v@.len(),
            forall|j: int| 0 <= j < i ==> (#[trigger] v@[j])@ != s@,
        decreases v@.len() - i,
    {
        if str_eq(v[i].as_str(), s) {
            proof {
                assert(strings_view(v@)[i as int] == s@);
            }
            return true;
        }
        i = i + 1;
    }
    proof {
        if strings_view(v@).contains(s@) {
            let k = choose|k: int| 0 <= k < strings_view(v@).len() && strings_view(v@)[k] == s@;
            assert(v@[k]@ == s@);
        }
    }
    false
}

fn strings_eq(a: &Vec<String>, b: &Vec<String>) -> (r: bool)
    ensures
        r == (strings_view(a@) == strings_view(b@)),
{
    if a.len() != b.len() {
        return false;
    }
    let mut i: usize = 0;
    while i < a.len()
        invariant
            a@.len() == b@.len(),
            i <= a@.len(),
            forall|j: int| 0 <= j < i ==> (#[trigger] a@[j])@ == b@[j]@,
        decreases a@.len() - i,
    {
        if !str_eq(a[i].as_str(), b[i].as_str()) {
            proof {
                assert(strings_view(a@)[i as int] != strings_view(b@)[i as int]);
            }
            return false;
        }
        i = i + 1;
    }
    proof {
        assert(strings_view(a@) =~= strings_view(b@));
    }
    true
}

fn rewrite_eq(a: &ColumnRewrite, b: &ColumnRewrite) -> (r: bool)
    ensures
        r == (rewrite_view(*a) == rewrite_view(*b)),
{
    opt_eq(&a.data_type, &b.data_type) && a.not_null == b.not_null && opt_eq(&a.default, &b.default)
        && strings_eq(&a.constraints, &b.constraints)
}

pub fn build_column_rewrite_sql(table: &str, name: &str, data_type: &str, def: &ColumnRewrite) -> (r:
    String)
    ensures
        r@ == rewrite_sql_spec(table@, name@, data_type@, rewrite_view(*def)),
{
    let mut sql = owned("ALTER TABLE ");
    let qt = quote(table);
    push_str(&mut sql, qt.as_str());
    push_str(&mut sql, " ALTER COLUMN ");
    let qn = quote(name);
    push_str(&mut sql, qn.as_str());
    push_str(&mut sql, " TO ");
    push_str(&mut sql, qn.as_str());
    push_str(&mut sql, " ");
    push_str(&mut sql, data_type);
    let ghost base = sql@;
    if def.not_null {
        push_str(&mut sql, " NOT NULL");
    }
    let ghost nn = sql@;
    match &def.default {
        Some(d) => {
            push_str(&mut sql, " DEFAULT ");
            push_str(&mut sql, d.as_str());
        },
        None => {},
    }
    let ghost dd = sql@;
    let ghost cs = strings_view(def.constraints@);
    let mut i: usize = 0;
    proof {
        assert(cs.take(0) =~= Seq::<Seq<char>>::empty());
        assert(dd + clauses_text(cs.take(0)) =~= dd);
    }
    while i < def.constraints.len()
        invariant
            cs == strings_view(def.constraints@),
            i <= def.constraints@.len(),
            sql@ == dd + clauses_text(cs.take(i as int)),
        decreases def.constraints@.len() - i,
    {
        push_str(&mut sql, " ");
        push_str(&mut sql, def.constraints[i].as_str());
        proof {
            assert(cs.take(i + 1).drop_last() =~= cs.take(i as int));
            assert(cs.take(i + 1).last() == def.constraints@[i as int]@);
            assert(sql@ =~= dd + clauses_text(cs.take(i + 1)));
        }
        i = i + 1;
    }
    proof {
        assert(cs.take(i as int) =~= cs);
        assert(nn =~= base + opt_suffix(def.not_null, " NOT NULL"@));
        assert(dd =~= nn + default_suffix(opt_text(def.default)));
        assert(sql@ =~= rewrite_sql_spec(table@, name@, data_type@, rewrite_view(*def)));
    }
    sql
}

fn rename_sql(table: &str, from: &str, to: &str) -> (r: String)
    ensures
        r@ == rename_spec(table@, from@, to@),
{
    let mut sql = owned("ALTER TABLE ");
    let qt = quote(table);
    push_str(&mut sql, qt.as_str());
    push_str(&mut sql, " RENAME COLUMN ");
    let qf = quote(from);
    push_str(&mut sql, qf.as_str());
    push_str(&mut sql, " TO ");
    let qto = quote(to);
    push_str(&mut sql, qto.as_str());
    sql
}

/// Appends each clause of `olds` that `list` does not hold yet.
fn merge_clauses_into(list: &mut Vec<String>, olds: &Vec<String>)
    ensures
        strings_view(final(list)@) == merge_clauses(strings_view(old(list)@), strings_view(olds@)),
{
    let ghost start = strings_view(list@);
    let ghost ov = strings_view(olds@);
    let mut i: usize = 0;
    proof {
        assert(ov.take(0) =~= Seq::<Seq<char>>::empty());
    }
    while i < olds.len()
        invariant
            ov == strings_view(olds@),
            i <= olds@.len(),
            strings_view(list@) == merge_clauses(start, ov.take(i as int)),
        decreases olds@.len() - i,
    {
        proof {
            assert(ov.take(i + 1).drop_last() =~= ov.take(i as int));
            assert(ov.take(i + 1).last() == olds@[i as int]@);
        }
        if !contains_str(list, olds[i].as_str()) {
            let ghost before = strings_view(list@);
            list.push(olds[i].clone());
            proof {
                assert(strings_view(list@) =~= before.push(olds@[i as int]@));
            }
        }
        i = i + 1;
    }
    proof {
        assert(ov.take(i as int) =~= ov);
    }
}

/// Build the statements that alter a column. Renames use vanilla
/// `RENAME COLUMN` (works on every backend). Any other change emits the
/// libSQL `ALTER COLUMN ... TO ...` form, which replaces the column's whole
/// definition, so the merged definition must reproduce every attribute. A
/// rename combined with other changes emits both statements in order.
pub fn build_alter_column_sql(table: &str, old_column: &Json, new_column: &Json) -> (r: Result<
    Vec<String>,
    PluginError,
>)
    ensures
        match (r, alter_column_spec(table@, old_column@, new_column@)) {
            (Ok(v), Ok(t)) => strings_view(v@) == t,
            (Err(e), Err(m)) => e.code == INVALID_PARAMS && e.message@ == m,
            _ => false,
        },
{
    let old_name = match col_name(old_column) {
        Ok(n) => n,
        Err(e) => return Err(e),
    };
    let new_name = match col_name(new_column) {
        Ok(n) => n,
        Err(e) => return Err(e),
    };
    let renamed = !str_eq(old_name.as_str(), new_name.as_str());

    let old_def = column_rewrite_from(old_column);
    let mut new_def = column_rewrite_from(new_column);
    // The dialog only sends what it edits; anything absent is carried over
    // from the old definition so the rewrite does not silently drop it.
    if new_def.data_type.is_none() {
        new_def.data_type = copy_opt(&old_def.data_type);
    }
    if field2_of(new_column, "is_nullable", "nullable").is_none() {
        new_def.not_null = old_def.not_null;
    }
    if field3_of(new_column, "default_value", "column_default", "default").is_none() {
        new_def.default = copy_opt(&old_def.default);
    }
    merge_clauses_into(&mut new_def.constraints, &old_def.constraints);
    proof {
        assert(rewrite_view(new_def) == merged_spec(old_column@, new_column@));
    }

    let mut statements: Vec<String> = Vec::new();
    if renamed {
        statements.push(rename_sql(table, old_name.as_str(), new_name.as_str()));
    }
    let ghost first = strings_view(statements@);
    proof {
        if renamed {
            assert(first =~= seq![rename_spec(table@, old_name@, new_name@)]);
        } else {
            assert(first =~= Seq::<Seq<char>>::empty());
        }
    }
    if !rewrite_eq(&new_def, &old_def) {
        let data_type = match &new_def.data_type {
            Some(t) => t,
            None => {
                return Err(
                    PluginError::invalid_params(owned("column definition needs a 'data_type'")),
                );
            },
        };
        let sql = build_column_rewrite_sql(table, new_name.as_str(), data_type.as_str(), &new_def);
        statements.push(sql);
        proof {
            assert(strings_view(statements@) =~= first.push(statements@.last()@));
        }
    }
    Ok(statements)
}

/// Merging clauses that the list already holds changes nothing.
proof fn lemma_merge_contained(list: Seq<Seq<char>>, olds: Seq<Seq<char>>)
    requires
        forall|j: int| 0 <= j < olds.len() ==> list.contains(#[trigger] olds[j]),
    ensures
        merge_clauses(list, olds) == list,
    decreases olds.len(),
{
    if olds.len() > 0 {
        assert forall|j: int| 0 <= j < olds.drop_last().len() implies list.contains(
            #[trigger] olds.drop_last()[j],
        ) by {
            assert(olds.drop_last()[j] == olds[j]);
        }
        lemma_merge_contained(list, olds.drop_last());
        assert(list.contains(olds[olds.len() - 1]));
    }
}

/// Altering a column to the very same definition emits no statement.
pub proof fn lemma_alter_column_unchanged(table: Seq<char>, c: JsonV)
    requires
        name_spec(c) is Some,
    ensures
        alter_column_spec(table, c, c) == Ok::<Seq<Seq<char>>, Seq<char>>(Seq::empty()),
{
    let o = rewrite_from_spec(c);
    assert forall|j: int| 0 <= j < o.constraints.len() implies o.constraints.contains(
        #[trigger] o.constraints[j],
    ) by {}
    lemma_merge_contained(o.constraints, o.constraints);
    assert(merged_spec(c, c) == o);
}

/// The rewrite when the existing definition was read from the schema: the
/// schema's type, NOT NULL and DEFAULT, overridden where the dialog edited
/// them, plus the clauses the dialog sent and the column's single-column
/// REFERENCES clause.
pub open spec fn schema_rewrite_spec(
    old_c: JsonV,
    new_c: JsonV,
    existing: (Seq<char>, bool, Option<Seq<char>>),
    fk_clause: Option<Seq<char>>,
) -> RewriteV {
    let o = rewrite_from_spec(old_c);
    RewriteV {
        data_type: match type_spec(new_c) {
            Some(raw) => Some(raw),
            None => Some(existing.0),
        },
        not_null: if field2(new_c, "is_nullable"@, "nullable"@) is Some {
            !nullable_spec(new_c)
        } else {
            existing.1
        },
        default: if field3(new_c, "default_value"@, "column_default"@, "default"@) is Some {
            default_spec(new_c)
        } else {
            existing.2
        },
        constraints: match fk_clause {
            Some(cl) => o.constraints.push(cl),
            None => o.constraints,
        },
    }
}

/// The statements that alter a column whose existing definition is read
/// from the `table_info` and `foreign_key_list` rows of its table: an
/// optional rename, then always one `ALTER COLUMN` rewrite.
pub open spec fn alter_column_schema_spec(
    table: Seq<char>,
    old_c: JsonV,
    new_c: JsonV,
    table_info: Seq<Seq<JsonV>>,
    fk_list: Seq<Seq<JsonV>>,
) -> Result<Seq<Seq<char>>, Seq<char>> {
    match name_spec(old_c) {
        None => Err(name_message()),
        Some(old_name) => match name_spec(new_c) {
            None => Err(name_message()),
            Some(new_name) => match column_def_for_spec(table_info, table, old_name) {
                Err(m) => Err(m),
                Ok(existing) => {
                    let first = if old_name != new_name {
                        seq![rename_spec(table, old_name, new_name)]
                    } else {
                        Seq::empty()
                    };
                    let def = schema_rewrite_spec(
                        old_c,
                        new_c,
                        existing,
                        fk_clause_spec(fk_list, old_name),
                    );
                    Ok(first.push(rewrite_sql_spec(table, new_name, def.data_type.unwrap(), def)))
                },
            },
        },
    }
}

/// Like `build_alter_column_sql`, but with the existing column definition
/// read from the schema (`table_info` and `foreign_key_list` are the rows of
/// `PRAGMA table_info(<table>)` and `PRAGMA foreign_key_list(<table>)`), so
/// attributes the dialog cannot express (notably REFERENCES) survive the
/// rewrite.
pub fn build_alter_column_sql_with_schema(
    table: &str,
    old_column: &Json,
    new_column: &Json,
    table_info: &Vec<Vec<Json>>,
    fk_list: &Vec<Vec<Json>>,
) -> (r: Result<Vec<String>, PluginError>)
    ensures
        match (
            r,
            alter_column_schema_spec(
                table@,
                old_column@,
                new_column@,
                rows_view(table_info@),
                rows_view(fk_list@),
            ),
        ) {
            (Ok(v), Ok(t)) => strings_view(v@) == t,
            (Err(e), Err(m)) => e.code == INVALID_PARAMS && e.message@ == m,
            _ => false,
        },
{
    let old_name = match col_name(old_column) {
        Ok(n) => n,
        Err(e) => return Err(e),
    };
    let new_name = match col_name(new_column) {
        Ok(n) => n,
        Err(e) => return Err(e),
    };
    let renamed = !str_eq(old_name.as_str(), new_name.as_str());

    let existing = match column_def_for(table_info, table, old_name.as_str()) {
        Ok(d) => d,
        Err(e) => return Err(e),
    };
    let fk_clause = single_column_fk_clause_for(fk_list, old_name.as_str());

    let old_def = column_rewrite_from(old_column);
    let mut def = ColumnRewrite {
        data_type: Some(existing.data_type),
        not_null: existing.not_null,
        default: existing.default,
        constraints: old_def.constraints,
    };
    // Dialog fields override the schema where the user actually edited.
    match nonempty_of(field2_of(new_column, "data_type", "type")) {
        Some(raw) => {
            def.data_type = Some(raw);
        },
        None => {},
    }
    if field2_of(new_column, "is_nullable", "nullable").is_some() {
        def.not_null = !col_nullable(new_column);
    }
    if field3_of(new_column, "default_value", "column_default", "default").is_some() {
        def.default = col_default(new_column);
    }
    match fk_clause {
        Some(clause) => {
            let ghost before = strings_view(def.constraints@);
            def.constraints.push(clause);
            proof {
                assert(strings_view(def.constraints@) =~= before.push(def.constraints@.last()@));
            }
        },
        None => {},
    }

    let mut statements: Vec<String> = Vec::new();
    if renamed {
        statements.push(rename_sql(table, old_name.as_str(), new_name.as_str()));
    }
    let ghost first = strings_view(statements@);
    proof {
        if renamed {
            assert(first =~= seq![rename_spec(table@, old_name@, new_name@)]);
        } else {
            assert(first =~= Seq::<Seq<char>>::empty());
        }
    }
    let data_type = match &def.data_type {
        Some(t) => t,
        None => {
            return Err(PluginError::invalid_params(owned("column definition needs a 'data_type'")));
        },
    };
    let sql = build_column_rewrite_sql(table, new_name.as_str(), data_type.as_str(), &def);
    statements.push(sql);
    proof {
        assert(strings_view(statements@) =~= first.push(statements@.last()@));
    }
    Ok(statements)
}

/// What `get_alter_column_sql` reads from its params before building:
/// the table and the old and new column definitions.
pub open spec fn alter_inputs_spec(params: JsonV) -> Result<(Seq<char>, JsonV, JsonV), (i64, Seq<char>)> {
    match req_str_spec(params, "table"@) {
        None => Err((INVALID_PARAMS, missing_param_message("table"@))),
        Some(t) => match jv_get(params, "old_column"@) {
            None => Err((INVALID_PARAMS, "missing 'old_column' definition"@)),
            Some(o) => match jv_get(params, "new_column"@) {
                None => Err((INVALID_PARAMS, "missing 'new_column' definition"@)),
                Some(n) => Ok((t, o, n)),
            },
        },
    }
}

/// The table and the old and new column definitions of an alter request.
pub fn alter_column_inputs(params: &Json) -> (r: Result<(String, Json, Json), PluginError>)
    ensures
        match (r, alter_inputs_spec(params@)) {
            (Ok((t, o, n)), Ok((ts, os, ns))) => t@ == ts && o@ == os && n@ == ns,
            (Err(e), Err((code, m))) => e.code == code && e.message@ == m,
            _ => false,
        },
{
    let table = match req_str(params, "table") {
        Ok(t) => t,
        Err(e) => return Err(e),
    };
    let old_column = match params.get("old_column") {
        Some(c) => c.clone_json(),
        None => {
            return Err(PluginError::invalid_params(owned("missing 'old_column' definition")));
        },
    };
    let new_column = match params.get("new_column") {
        Some(c) => c.clone_json(),
        None => {
            return Err(PluginError::invalid_params(owned("missing 'new_column' definition")));
        },
    };
    Ok((table, old_column, new_column))
}

/// Does the request carry connection params, so that the existing column
/// definition can be read from the schema?
pub fn wants_schema(params: &Json) -> (r: bool)
    ensures
        r == (match jv_get(params@, "params"@) {
            Some(p) => p is Object,
            None => false,
        }),
{
    match params.get("params") {
        Some(p) => p.is_object(),
        None => false,
    }
}

/// The statements as the host's JSON array of SQL strings.
pub fn statements_json(statements: &Vec<String>) -> (r: Json)
    ensures
        r@ == JsonV::Array(statements@.map_values(|s: String| JsonV::Str(s@))),
{
    crate::json::strings_json(statements)
}

/// The outcome of `get_alter_column_sql` when no connection params came with
/// the request.
pub open spec fn alter_column_request_spec(params: JsonV) -> Result<JsonV, (i64, Seq<char>)> {
    match alter_inputs_spec(params) {
        Err(e) => Err(e),
        Ok((t, o, n)) => match alter_column_spec(t, o, n) {
            Ok(stmts) => Ok(JsonV::Array(stmts.map_values(|s: Seq<char>| JsonV::Str(s)))),
            Err(m) => Err((INVALID_PARAMS, m)),
        },
    }
}

fn alter_column_result(params: &Json) -> (r: Result<Json, PluginError>)
    ensures
        result_view(r) == alter_column_request_spec(params@),
{
    let (table, old_column, new_column) = match alter_column_inputs(params) {
        Ok(x) => x,
        Err(e) => return Err(e),
    };
    match build_alter_column_sql(table.as_str(), &old_column, &new_column) {
        Ok(stmts) => {
            let r = statements_json(&stmts);
            proof {
                assert(stmts@.map_values(|s: String| JsonV::Str(s@)) =~= strings_view(
                    stmts@,
                ).map_values(|s: Seq<char>| JsonV::Str(s)));
            }
            Ok(r)
        },
        Err(e) => Err(e),
    }
}

/// `get_alter_column_sql` for a request without connection params (the host
/// normally calls this builder without them); with them, the caller reads the
/// schema and uses `build_alter_column_sql_with_schema`.
pub fn get_alter_column_sql(id: Json, params: &Json) -> (r: Json)
    ensures
        r@ == respond_spec(id@, alter_column_request_spec(params@)),
{
    respond(id, alter_column_result(params))
}

// ---------------------------------------------------------------------------
// Foreign-key and index requests
// ---------------------------------------------------------------------------

/// `DROP INDEX IF EXISTS "<name>"`.
pub open spec fn drop_index_spec(name: Seq<char>) -> Seq<char> {
    "DROP INDEX IF EXISTS "@ + quoted(name, '"')
}

pub fn drop_index_sql(index_name: &str) -> (r: String)
    ensures
        r@ == drop_index_spec(index_name@),
{
    let mut s = owned("DROP INDEX IF EXISTS ");
    let q = quote(index_name);
    push_str(&mut s, q.as_str());
    s
}

/// What `get_create_foreign_key_sql` reads from its params.
pub struct FkRequest {
    pub table: String,
    pub column: String,
    pub ref_table: String,
    pub ref_column: String,
    pub on_delete: Option<String>,
    pub on_update: Option<String>,
}

/// The value of an `FkRequest`: table, column, referenced table and column,
/// and the two actions.
pub open spec fn fk_request_view(r: FkRequest) -> (
    Seq<char>,
    Seq<char>,
    Seq<char>,
    Seq<char>,
    Option<Seq<char>>,
    Option<Seq<char>>,
) {
    (r.table@, r.column@, r.ref_table@, r.ref_column@, opt_text(r.on_delete), opt_text(r.on_update))
}

/// The four required names, in the order they are checked, then the
/// optional actions (any string, kept as given).
pub open spec fn fk_request_spec(params: JsonV) -> Result<
    (Seq<char>, Seq<char>, Seq<char>, Seq<char>, Option<Seq<char>>, Option<Seq<char>>),
    (i64, Seq<char>),
> {
    match req_str_spec(params, "table"@) {
        None => Err((INVALID_PARAMS, missing_param_message("table"@))),
        Some(t) => match req_str_spec(params, "column"@) {
            None => Err((INVALID_PARAMS, missing_param_message("column"@))),
            Some(c) => match req_str_spec(params, "ref_table"@) {
                None => Err((INVALID_PARAMS, missing_param_message("ref_table"@))),
                Some(rt) => match req_str_spec(params, "ref_column"@) {
                    None => Err((INVALID_PARAMS, missing_param_message("ref_column"@))),
                    Some(rc) => Ok(
                        (t, c, rt, rc, get_str(params, "on_delete"@), get_str(params, "on_update"@)),
                    ),
                },
            },
        },
    }
}

fn opt_str_of(params: &Json, key: &str) -> (r: Option<String>)
    ensures
        opt_text(r) == get_str(params@, key@),
{
    match params.get(key) {
        Some(v) => match v.as_str() {
            Some(s) => Some(owned(s)),
            None => None,
        },
        None => None,
    }
}

/// Read the foreign key to create from the request.
pub fn fk_request(params: &Json) -> (r: Result<FkRequest, PluginError>)
    ensures
        match (r, fk_request_spec(params@)) {
            (Ok(q), Ok(v)) => fk_request_view(q) == v,
            (Err(e), Err((code, m))) => e.code == code && e.message@ == m,
            _ => false,
        },
{
    let table = match req_str(params, "table") {
        Ok(t) => t,
        Err(e) => return Err(e),
    };
    let column = match req_str(params, "column") {
        Ok(t) => t,
        Err(e) => return Err(e),
    };
    let ref_table = match req_str(params, "ref_table") {
        Ok(t) => t,
        Err(e) => return Err(e),
    };
    let ref_column = match req_str(params, "ref_column") {
        Ok(t) => t,
        Err(e) => return Err(e),
    };
    let on_delete = opt_str_of(params, "on_delete");
    let on_update = opt_str_of(params, "on_update");
    Ok(FkRequest { table, column, ref_table, ref_column, on_delete, on_update })
}

fn opt_as_str(o: &Option<String>) -> (r: Option<&str>)
    ensures
        opt_str_view(r) == opt_text(*o),
{
    match o {
        Some(s) => Some(s.as_str()),
        None => None,
    }
}

/// The answer of `get_create_foreign_key_sql` for a request and the
/// `table_info` rows of its table: the one ALTER COLUMN statement that adds
/// the key, or the error of the column lookup.
pub open spec fn create_fk_result_spec(
    req: (Seq<char>, Seq<char>, Seq<char>, Seq<char>, Option<Seq<char>>, Option<Seq<char>>),
    rows: Seq<Seq<JsonV>>,
) -> Result<JsonV, (i64, Seq<char>)> {
    match column_def_for_spec(rows, req.0, req.1) {
        Err(m) => Err((INVALID_PARAMS, m)),
        Ok(d) => Ok(
            JsonV::Array(
                seq![
                    JsonV::Str(
                        create_fk_spec(
                            req.0,
                            req.1,
                            column_def_text(d.0, d.1, d.2),
                            req.2,
                            req.3,
                            req.4,
                            req.5,
                        ),
                    ),
                ],
            ),
        ),
    }
}

pub fn create_fk_statement(req: &FkRequest, table_info: &Vec<Vec<Json>>) -> (r: Result<Json, PluginError>)
    ensures
        result_view(r) == create_fk_result_spec(fk_request_view(*req), rows_view(table_info@)),
{
    let def = match column_def_for(table_info, req.table.as_str(), req.column.as_str()) {
        Ok(d) => d,
        Err(e) => return Err(e),
    };
    let sql = build_create_fk_sql(
        req.table.as_str(),
        req.column.as_str(),
        &def,
        req.ref_table.as_str(),
        req.ref_column.as_str(),
        opt_as_str(&req.on_delete),
        opt_as_str(&req.on_update),
    );
    Ok(one_statement(sql))
}

/// The message refusing to drop a composite foreign key.
pub open spec fn composite_message(name: Seq<char>) -> Seq<char> {
    "foreign key '"@ + name
        + "' is a composite (multi-column) constraint; the libSQL fork can only drop per-column foreign keys — recreate the table instead"@
}

/// The column whose foreign key `drop_foreign_key` removes, from the
/// `foreign_key_list` rows: composite keys are refused, unknown names are
/// reported.
pub open spec fn fk_drop_column_spec(rows: Seq<Seq<JsonV>>, table: Seq<char>, name: Seq<char>) -> Result<
    Seq<char>,
    Seq<char>,
> {
    if is_composite_spec(rows, table, name) {
        Err(composite_message(name))
    } else {
        fk_column_spec(rows, table, name)
    }
}

pub fn fk_drop_column(rows: &Vec<Vec<Json>>, table: &str, name: &str) -> (r: Result<String, PluginError>)
    ensures
        match (r, fk_drop_column_spec(rows_view(rows@), table@, name@)) {
            (Ok(c), Ok(t)) => c@ == t,
            (Err(e), Err(m)) => e.code == INVALID_PARAMS && e.message@ == m,
            _ => false,
        },
{
    if is_composite_fk(rows, table, name) {
        let mut msg = owned("foreign key '");
        push_str(&mut msg, name);
        push_str(
            &mut msg,
            "' is a composite (multi-column) constraint; the libSQL fork can only drop per-column foreign keys — recreate the table instead",
        );
        return Err(PluginError::invalid_params(msg));
    }
    foreign_key_column_for(rows, table, name)
}

/// The statement `drop_foreign_key` runs for `column`, given the
/// `table_info` rows of its table.
pub open spec fn fk_drop_statement_spec(rows: Seq<Seq<JsonV>>, table: Seq<char>, column: Seq<char>) -> Result<
    Seq<char>,
    Seq<char>,
> {
    match column_def_for_spec(rows, table, column) {
        Err(m) => Err(m),
        Ok(d) => Ok(fk_drop_spec(table, column, column_def_text(d.0, d.1, d.2))),
    }
}

pub fn fk_drop_statement(table_info: &Vec<Vec<Json>>, table: &str, column: &str) -> (r: Result<String, PluginError>)
    ensures
        match (r, fk_drop_statement_spec(rows_view(table_info@), table@, column@)) {
            (Ok(s), Ok(t)) => s@ == t,
            (Err(e), Err(m)) => e.code == INVALID_PARAMS && e.message@ == m,
            _ => false,
        },
{
    match column_def_for(table_info, table, column) {
        Ok(def) => Ok(build_fk_drop_sql(table, column, &def)),
        Err(e) => Err(e),
    }
}

// ---------------------------------------------------------------------------
// Laws of the statement builders
// ---------------------------------------------------------------------------

/// `p` occurs in `a + p + b`.
proof fn lemma_contains_middle(a: Seq<char>, p: Seq<char>, b: Seq<char>)
    ensures
        contains_seq(a + p + b, p),
{
    let s = a + p + b;
    assert(s.subrange(a.len() as int, (a.len() + p.len()) as int) =~= p);
}

/// What occurs in `a` occurs in `a + b` and in `b + a`.
proof fn lemma_contains_extend(a: Seq<char>, b: Seq<char>, p: Seq<char>)
    requires
        contains_seq(a, p),
    ensures
        contains_seq(a + b, p),
        contains_seq(b + a, p),
{
    let w = choose|w: int| 0 <= w && w + p.len() <= a.len() && #[trigger] a.subrange(w, w + p.len()) == p;
    assert((a + b).subrange(w, w + p.len()) =~= a.subrange(w, w + p.len()));
    assert((b + a).subrange(b.len() + w, b.len() + w + p.len()) =~= a.subrange(w, w + p.len()));
}

/// Every piece occurs in the pieces joined.
proof fn lemma_join_contains(parts: Seq<Seq<char>>, sep: Seq<char>, k: int)
    requires
        0 <= k < parts.len(),
    ensures
        contains_seq(join(parts, sep), parts[k]),
    decreases parts.len(),
{
    if parts.len() == 1 {
        assert(join(parts, sep) == parts[0]);
        lemma_contains_middle(Seq::empty(), parts[0], Seq::empty());
        assert(Seq::<char>::empty() + parts[0] + Seq::<char>::empty() =~= parts[0]);
    } else if k == parts.len() - 1 {
        lemma_contains_middle(join(parts.drop_last(), sep) + sep, parts[k], Seq::empty());
        assert(join(parts.drop_last(), sep) + sep + parts[k] + Seq::<char>::empty() =~= join(parts, sep));
    } else {
        lemma_join_contains(parts.drop_last(), sep, k);
        assert(parts.drop_last()[k] == parts[k]);
        lemma_contains_extend(join(parts.drop_last(), sep), sep + parts.last(), parts[k]);
        assert(join(parts.drop_last(), sep) + (sep + parts.last()) =~= join(parts, sep));
    }
}

/// The column definitions are the definitions of the columns, in order.
proof fn lemma_defs_each(cols: Seq<JsonV>, single_pk: bool)
    requires
        defs_spec(cols, single_pk) is Ok,
    ensures
        defs_spec(cols, single_pk)->Ok_0.len() == cols.len(),
        forall|k: int|
            0 <= k < cols.len() ==> col_def_spec(#[trigger] cols[k], single_pk) == Ok::<
                Seq<char>,
                Seq<char>,
            >(defs_spec(cols, single_pk)->Ok_0[k]),
    decreases cols.len(),
{
    if cols.len() > 0 {
        lemma_defs_each(cols.drop_last(), single_pk);
        assert forall|k: int| 0 <= k < cols.len() implies col_def_spec(#[trigger] cols[k], single_pk)
            == Ok::<Seq<char>, Seq<char>>(defs_spec(cols, single_pk)->Ok_0[k]) by {
            if k < cols.len() - 1 {
                assert(cols.drop_last()[k] == cols[k]);
            }
        }
    }
}

/// In `CREATE TABLE`, every column appears with its quoted name and type, and
/// a column the host marks not nullable carries `NOT NULL`, unless it is the
/// table's only primary-key column, which carries an inline `PRIMARY KEY`
/// instead: the columns of a composite primary key keep their `NOT NULL`.
pub proof fn lemma_create_table_not_null(table: Seq<char>, cols: Seq<JsonV>, i: int)
    requires
        create_table_spec(table, cols) is Ok,
        0 <= i < cols.len(),
    ensures
        ({
            let sql = create_table_spec(table, cols)->Ok_0;
            let d = defs_spec(cols, pk_count(cols) == 1)->Ok_0[i];
            &&& contains_seq(sql, d)
            &&& starts_with(d, quoted(name_spec(cols[i])->Some_0, '"') + " "@ + type_spec(cols[i])->Some_0)
            &&& !nullable_spec(cols[i]) && !(is_pk(cols[i]) && pk_count(cols) == 1) ==> contains_seq(
                d,
                " NOT NULL"@,
            )
            &&& is_pk(cols[i]) && pk_count(cols) == 1 ==> contains_seq(d, " PRIMARY KEY"@)
        }),
{
    let single = pk_count(cols) == 1;
    lemma_defs_each(cols, single);
    let ds = defs_spec(cols, single)->Ok_0;
    let d = ds[i];
    let c = cols[i];
    assert(col_def_spec(c, single) == Ok::<Seq<char>, Seq<char>>(d));
    let name = name_spec(c)->Some_0;
    let t = type_spec(c)->Some_0;
    let inline_pk = is_pk(c) && single;
    let head = quoted(name, '"') + " "@ + t;
    let pkpart = opt_suffix(
        inline_pk,
        " PRIMARY KEY"@ + opt_suffix(bool_spec(c, "is_auto_increment"@), " AUTOINCREMENT"@),
    );
    let nn = opt_suffix(!nullable_spec(c) && !inline_pk, " NOT NULL"@);
    let dflt = default_suffix(default_spec(c));
    assert(d == head + pkpart + nn + dflt);
    assert(d.take(head.len() as int) =~= head);
    if !nullable_spec(c) && !inline_pk {
        lemma_contains_middle(head + pkpart, " NOT NULL"@, dflt);
    }
    if inline_pk {
        let ai = opt_suffix(bool_spec(c, "is_auto_increment"@), " AUTOINCREMENT"@);
        lemma_contains_middle(head, " PRIMARY KEY"@, ai + nn + dflt);
        assert(head + " PRIMARY KEY"@ + (ai + nn + dflt) =~= d);
    }
    // The definition is one of the joined pieces of the statement.
    let pk = pk_cols_spec(cols, single);
    let all = if pk.len() > 0 {
        ds.push("PRIMARY KEY ("@ + join(pk, ", "@) + ")"@)
    } else {
        ds
    };
    assert(all[i] == d);
    lemma_join_contains(all, ",\n  "@, i);
    let pre = "CREATE TABLE "@ + quoted(table, '"') + " (\n  "@;
    lemma_contains_extend(join(all, ",\n  "@), "\n)"@, d);
    lemma_contains_extend(join(all, ",\n  "@) + "\n)"@, pre, d);
    assert(pre + (join(all, ",\n  "@) + "\n)"@) =~= create_table_spec(table, cols)->Ok_0);
}

/// How many rows constrain `column` counts every such row.
proof fn lemma_count_from_at_least(rows: Seq<Seq<JsonV>>, column: Seq<char>, i: int, j: int)
    requires
        0 <= i <= j < rows.len(),
        cell_str_spec(rows[i], 3) == Some(column),
        cell_str_spec(rows[j], 3) == Some(column),
    ensures
        count_from(rows, column) >= if i == j {
            1nat
        } else {
            2nat
        },
    decreases rows.len(),
{
    let prev = rows.drop_last();
    if j < rows.len() - 1 {
        assert(prev[i] == rows[i] && prev[j] == rows[j]);
        lemma_count_from_at_least(prev, column, i, j);
    } else if i < j {
        assert(prev[i] == rows[i]);
        lemma_count_from_at_least(prev, column, i, i);
    }
}

/// The search for `column` finds a row that constrains it.
proof fn lemma_find_from_row_hit(rows: Seq<Seq<JsonV>>, column: Seq<char>, k: int)
    requires
        0 <= k,
        find_from_row(rows, column, k) is Some,
    ensures
        ({
            let x = find_from_row(rows, column, k)->Some_0;
            k <= x < rows.len() && cell_str_spec(rows[x], 3) == Some(column)
        }),
    decreases rows.len() - k,
{
    if k < rows.len() && cell_str_spec(rows[k], 3) != Some(column) {
        lemma_find_from_row_hit(rows, column, k + 1);
    }
}

/// The `REFERENCES` clause rebuilt for the single-column foreign key of a
/// column points at the key's table and column, and keeps every referential
/// action of the key that is not the default `NO ACTION`.
pub proof fn lemma_fk_clause_keeps_actions(rows: Seq<Seq<JsonV>>, column: Seq<char>, i: int)
    requires
        0 <= i < rows.len(),
        cell_str_spec(rows[i], 3) == Some(column),
        fk_clause_spec(rows, column) is Some,
    ensures
        ({
            let cl = fk_clause_spec(rows, column)->Some_0;
            let row = rows[i];
            &&& starts_with(
                cl,
                "REFERENCES "@ + quoted(cell_text(row, 2), '"') + " ("@ + quoted(cell_text(row, 4), '"')
                    + ")"@,
            )
            &&& match cell_str_spec(row, 6) {
                Some(a) => a != "NO ACTION"@ ==> contains_seq(cl, " ON DELETE "@ + a),
                None => true,
            }
            &&& match cell_str_spec(row, 5) {
                Some(a) => a != "NO ACTION"@ ==> contains_seq(cl, " ON UPDATE "@ + a),
                None => true,
            }
        }),
{
    lemma_find_from_row_hit(rows, column, 0);
    let x = find_from_row(rows, column, 0)->Some_0;
    if x < i {
        lemma_count_from_at_least(rows, column, x, i);
    } else if i < x {
        lemma_count_from_at_least(rows, column, i, x);
    }
    assert(x == i);
    let row = rows[i];
    let cl = fk_clause_spec(rows, column)->Some_0;
    assert(cl == fk_clause_text(row));
    let head = "REFERENCES "@ + quoted(cell_text(row, 2), '"') + " ("@ + quoted(cell_text(row, 4), '"')
        + ")"@;
    let del = action_suffix(row, 6, " ON DELETE "@);
    let upd = action_suffix(row, 5, " ON UPDATE "@);
    assert(cl == head + del + upd);
    assert(cl.take(head.len() as int) =~= head);
    lemma_contains_middle(head, del, upd);
    lemma_contains_middle(head + del, upd, Seq::empty());
    assert(head + del + upd + Seq::<char>::empty() =~= cl);
}

/// A request item that names an index column: a non-empty string.
pub open spec fn names_column(v: JsonV) -> bool {
    match jv_str(v) {
        Some(s) => s.len() > 0,
        None => false,
    }
}

/// The columns of a created index are exactly the request's non-empty
/// string items, quoted, in order: none is dropped, none added, none moved.
pub proof fn lemma_index_columns(arr: Seq<JsonV>)
    ensures
        index_columns_spec(arr) == arr.filter(|v: JsonV| names_column(v)).map_values(
            |v: JsonV| quoted(jv_str(v)->Some_0, '"'),
        ),
        index_columns_spec(arr).len() == arr.filter(|v: JsonV| names_column(v)).len(),
        forall|k: int|
            0 <= k < arr.len() && names_column(#[trigger] arr[k]) ==> index_columns_spec(arr).contains(
                quoted(jv_str(arr[k])->Some_0, '"'),
            ),
    decreases arr.len(),
{
    let p = |v: JsonV| names_column(v);
    let f = |v: JsonV| quoted(jv_str(v)->Some_0, '"');
    if arr.len() > 0 {
        lemma_index_columns(arr.drop_last());
        let prev = arr.drop_last().filter(p);
        reveal(Seq::filter);
        assert(arr.filter(p) == if p(arr.last()) {
            prev.push(arr.last())
        } else {
            prev
        });
        if p(arr.last()) {
            assert(prev.push(arr.last()).map_values(f) =~= prev.map_values(f).push(f(arr.last())));
        }
    }
    let r = index_columns_spec(arr);
    if arr.len() == 0 {
        reveal(Seq::filter);
    }
    assert(r == arr.filter(p).map_values(f));
    assert forall|k: int| 0 <= k < arr.len() && names_column(#[trigger] arr[k]) implies r.contains(
        f(arr[k]),
    ) by {
        arr.lemma_filter_contains(p, k);
        let m = choose|m: int| 0 <= m < arr.filter(p).len() && arr.filter(p)[m] == arr[k];
        assert(r[m] == f(arr[k]));
    }
}

} // verus!
