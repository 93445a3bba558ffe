//! Schema discovery and view management, on top of SQLite's `sqlite_master`
//! table and `PRAGMA` introspection (libSQL is SQLite-compatible on the wire,
//! so the same queries work locally and remotely).
//!
//! The functions here build the introspection statements and shape the rows
//! they return into the JSON the host expects; running them is the caller's.

use vstd::prelude::*;

use crate::handlers::ddl::{cell_text, contains_str, fk_column_spec, find_fk_row, row_fk_name};
use crate::handlers::{
    cell, cell_i64, cell_i64_spec, cell_spec, cell_str, cell_str_spec, fk_name, fk_name_spec,
    respond, respond_spec,
};
use crate::json::{
    array_json, jv_get, jv_str, lemma_array_view, object_json, pairs_get, pairs_view, rows_view,
    strings_view, views, Json, JsonV,
};
use crate::utils::identifiers::{quote, quoted};
use crate::utils::text::{
    ascii_upper, contains_seq, dec, digit_char, has_infix, int_text, owned, push_str, str_eq,
    uppercase,
};

verus! {

// ---------------------------------------------------------------------------
// Introspection statements
// ---------------------------------------------------------------------------

/// `PRAGMA <pragma>(<quoted arg>)`.
pub open spec fn pragma_spec(pragma: Seq<char>, arg: Seq<char>) -> Seq<char> {
    "PRAGMA "@ + pragma + "("@ + quoted(arg, '"') + ")"@
}

/// A `PRAGMA` call on a table or index name, quoted as an identifier
/// (`table_info`, `foreign_key_list`, `index_list`, `index_info`).
pub fn pragma_sql(pragma: &str, arg: &str) -> (r: String)
    ensures
        r@ == pragma_spec(pragma@, arg@),
{
    let mut s = owned("PRAGMA ");
    push_str(&mut s, pragma);
    push_str(&mut s, "(");
    let q = quote(arg);
    push_str(&mut s, q.as_str());
    push_str(&mut s, ")");
    s
}

/// The user tables, by name.
pub fn list_tables_sql() -> (r: &'static str)
    ensures
        r@ == "SELECT name FROM sqlite_master WHERE type = 'table' AND name NOT LIKE 'sqlite_%' ORDER BY name"@,
{
    "SELECT name FROM sqlite_master WHERE type = 'table' AND name NOT LIKE 'sqlite_%' ORDER BY name"
}

/// The views, by name.
pub fn list_views_sql() -> (r: &'static str)
    ensures
        r@ == "SELECT name FROM sqlite_master WHERE type = 'view' ORDER BY name"@,
{
    "SELECT name FROM sqlite_master WHERE type = 'view' ORDER BY name"
}

/// The definition of the view named by the statement's one argument.
pub fn view_definition_sql() -> (r: &'static str)
    ensures
        r@ == "SELECT sql FROM sqlite_master WHERE type = 'view' AND name = ?1"@,
{
    "SELECT sql FROM sqlite_master WHERE type = 'view' AND name = ?1"
}

// ---------------------------------------------------------------------------
// Shaping result rows
// ---------------------------------------------------------------------------

/// The string cells in column `col` of the rows, in order; rows whose cell is
/// missing or not a string are skipped.
pub open spec fn names_at(rows: Seq<Seq<JsonV>>, col: int) -> Seq<Seq<char>>
    decreases rows.len(),
{
    if rows.len() == 0 {
        Seq::empty()
    } else {
        let prev = names_at(rows.drop_last(), col);
        match cell_str_spec(rows.last(), col) {
            Some(n) => prev.push(n),
            None => prev,
        }
    }
}

/// The string cells in column `col` of the rows (the names a `SELECT name`
/// returned, the columns of an index).
pub fn names_in(rows: &Vec<Vec<Json>>, col: usize) -> (r: Vec<String>)
    ensures
        strings_view(r@) == names_at(rows_view(rows@), col as int),
{
    let ghost rv = rows_view(rows@);
    let mut out: Vec<String> = Vec::new();
    let mut i: usize = 0;
    while i < rows.len()
        invariant
            rv == rows_view(rows@),
            i <= rows@.len(),
            strings_view(out@) == names_at(rv.take(i as int), col as int),
        decreases rows@.len() - i,
    {
        proof {
            assert(rv.take(i + 1).drop_last() =~= rv.take(i as int));
            assert(rv.take(i + 1).last() == views(rows@[i as int]@));
        }
        let ghost before = out@;
        match cell_str(rows[i].as_slice(), col) {
            Some(n) => {
                out.push(n);
                proof {
                    assert(strings_view(out@) =~= strings_view(before).push(out@.last()@));
                }
            },
            None => {},
        }
        i = i + 1;
    }
    proof {
        assert(rv.take(i as int) =~= rv);
    }
    out
}

/// A table as the host lists it.
pub open spec fn table_entry(name: Seq<char>) -> JsonV {
    JsonV::Object(
        seq![("name"@, JsonV::Str(name)), ("schema"@, JsonV::Null), ("comment"@, JsonV::Null)],
    )
}

/// A view as the host lists it.
pub open spec fn view_entry(name: Seq<char>) -> JsonV {
    JsonV::Object(seq![("name"@, JsonV::Str(name)), ("schema"@, JsonV::Null)])
}

fn table_entry_json(name: &String) -> (r: Json)
    ensures
        r@ == table_entry(name@),
{
    let mut p: Vec<(String, Json)> = Vec::new();
    p.push((owned("name"), Json::Str(name.clone())));
    p.push((owned("schema"), Json::Null));
    p.push((owned("comment"), Json::Null));
    let ghost pv = pairs_view(p@);
    proof {
        assert(pv =~= seq![("name"@, JsonV::Str(name@)), ("schema"@, JsonV::Null), ("comment"@, JsonV::Null)]);
    }
    object_json(p)
}

fn view_entry_json(name: &String) -> (r: Json)
    ensures
        r@ == view_entry(name@),
{
    let mut p: Vec<(String, Json)> = Vec::new();
    p.push((owned("name"), Json::Str(name.clone())));
    p.push((owned("schema"), Json::Null));
    let ghost pv = pairs_view(p@);
    proof {
        assert(pv =~= seq![("name"@, JsonV::Str(name@)), ("schema"@, JsonV::Null)]);
    }
    object_json(p)
}

/// The tables of `get_tables`, one entry per name.
pub fn tables_json(names: &Vec<String>) -> (r: Json)
    ensures
        r@ == JsonV::Array(strings_view(names@).map_values(|n: Seq<char>| table_entry(n))),
{
    let mut out: Vec<Json> = Vec::new();
    let mut i: usize = 0;
    while i < names.len()
        invariant
            i <= names@.len(),
            views(out@) =~= strings_view(names@).take(i as int).map_values(
                |n: Seq<char>| table_entry(n),
            ),
        decreases names@.len() - i,
    {
        let ghost before = views(out@);
        out.push(table_entry_json(&names[i]));
        proof {
            assert(views(out@) =~= before.push(table_entry(names@[i as int]@)));
        }
        i = i + 1;
    }
    proof {
        assert(strings_view(names@).take(i as int) =~= strings_view(names@));
    }
    array_json(out)
}

/// The views of `get_views`, one entry per name.
pub fn views_json(names: &Vec<String>) -> (r: Json)
    ensures
        r@ == JsonV::Array(strings_view(names@).map_values(|n: Seq<char>| view_entry(n))),
{
    let mut out: Vec<Json> = Vec::new();
    let mut i: usize = 0;
    while i < names.len()
        invariant
            i <= names@.len(),
            views(out@) =~= strings_view(names@).take(i as int).map_values(
                |n: Seq<char>| view_entry(n),
            ),
        decreases names@.len() - i,
    {
        let ghost before = views(out@);
        out.push(view_entry_json(&names[i]));
        proof {
            assert(views(out@) =~= before.push(view_entry(names@[i as int]@)));
        }
        i = i + 1;
    }
    proof {
        assert(strings_view(names@).take(i as int) =~= strings_view(names@));
    }
    array_json(out)
}

/// A string cell, or the empty string.
fn text_of(row: &[Json], i: usize) -> (r: String)
    ensures
        r@ == cell_text(views(row@), i as int),
{
    match cell_str(row, i) {
        Some(s) => s,
        None => String::new(),
    }
}

/// The declared type of a `table_info` row; a blank type reads as TEXT.
pub open spec fn column_type(row: Seq<JsonV>) -> Seq<char> {
    let raw = cell_text(row, 2);
    if raw.len() == 0 {
        "TEXT"@
    } else {
        raw
    }
}

/// A column as the host describes it, from a `table_info` row (cells: cid,
/// name, type, notnull, dflt_value, pk). An INTEGER primary key is a rowid
/// alias and so behaves as auto-increment.
pub open spec fn column_entry(row: Seq<JsonV>) -> JsonV {
    let pk = cell_i64_spec(row, 5) != 0;
    JsonV::Object(
        seq![
            ("name"@, JsonV::Str(cell_text(row, 1))),
            ("data_type"@, JsonV::Str(column_type(row))),
            ("is_nullable"@, JsonV::Bool(cell_i64_spec(row, 3) == 0)),
            ("column_default"@, cell_spec(row, 4)),
            ("is_primary_key"@, JsonV::Bool(pk)),
            (
                "is_auto_increment"@,
                JsonV::Bool(pk && contains_seq(ascii_upper(cell_text(row, 2)), "INT"@)),
            ),
            ("comment"@, JsonV::Null),
        ],
    )
}

fn column_entry_json(row: &[Json]) -> (r: Json)
    ensures
        r@ == column_entry(views(row@)),
{
    let ghost rv = views(row@);
    let name = text_of(row, 1);
    let raw = text_of(row, 2);
    let not_null = cell_i64(row, 3) != 0;
    let default = cell(row, 4);
    let pk = cell_i64(row, 5) != 0;
    let upper = uppercase(raw.as_str());
    let auto_increment = pk && has_infix(upper.as_str(), "INT");
    let data_type = if raw.as_str().unicode_len() == 0 {
        owned("TEXT")
    } else {
        raw
    };
    let mut p: Vec<(String, Json)> = Vec::new();
    p.push((owned("name"), Json::Str(name)));
    p.push((owned("data_type"), Json::Str(data_type)));
    p.push((owned("is_nullable"), Json::Bool(!not_null)));
    p.push((owned("column_default"), default));
    p.push((owned("is_primary_key"), Json::Bool(pk)));
    p.push((owned("is_auto_increment"), Json::Bool(auto_increment)));
    p.push((owned("comment"), Json::Null));
    proof {
        assert(pairs_view(p@) =~= column_entry(rv)->Object_0);
    }
    object_json(p)
}

/// The columns value for the `table_info` rows of one table.
pub open spec fn columns_spec(rows: Seq<Seq<JsonV>>) -> JsonV {
    JsonV::Array(rows.map_values(|row: Seq<JsonV>| column_entry(row)))
}

pub fn columns_json(rows: &Vec<Vec<Json>>) -> (r: Json)
    ensures
        r@ == columns_spec(rows_view(rows@)),
{
    let ghost rv = rows_view(rows@);
    let mut out: Vec<Json> = Vec::new();
    let mut i: usize = 0;
    while i < rows.len()
        invariant
            rv == rows_view(rows@),
            i <= rows@.len(),
            views(out@) =~= rv.take(i as int).map_values(|row: Seq<JsonV>| column_entry(row)),
        decreases rows@.len() - i,
    {
        let ghost before = views(out@);
        proof {
            assert(rv[i as int] == views(rows@[i as int]@));
        }
        out.push(column_entry_json(rows[i].as_slice()));
        proof {
            assert(views(out@) =~= before.push(column_entry(rv[i as int])));
        }
        i = i + 1;
    }
    proof {
        assert(rv.take(i as int) =~= rv);
    }
    array_json(out)
}

/// A foreign key as the host describes it, from a `foreign_key_list` row
/// (cells: id, seq, table, from, to, on_update, on_delete, match). SQLite
/// keys carry no names; the plugin names them `fk_<table>_<column>_<id>`.
pub open spec fn fk_entry(table: Seq<char>, row: Seq<JsonV>) -> JsonV {
    JsonV::Object(
        seq![
            ("constraint_name"@, JsonV::Str(row_fk_name(table, row))),
            ("column_name"@, JsonV::Str(cell_text(row, 3))),
            ("referenced_table"@, JsonV::Str(cell_text(row, 2))),
            ("referenced_column"@, JsonV::Str(cell_text(row, 4))),
            ("on_update"@, cell_spec(row, 5)),
            ("on_delete"@, cell_spec(row, 6)),
        ],
    )
}

fn fk_entry_json(table: &str, row: &[Json]) -> (r: Json)
    ensures
        r@ == fk_entry(table@, views(row@)),
{
    let ghost rv = views(row@);
    let from = text_of(row, 3);
    let name = fk_name(table, from.as_str(), cell_i64(row, 0));
    let mut p: Vec<(String, Json)> = Vec::new();
    p.push((owned("constraint_name"), Json::Str(name)));
    p.push((owned("column_name"), Json::Str(from)));
    p.push((owned("referenced_table"), Json::Str(text_of(row, 2))));
    p.push((owned("referenced_column"), Json::Str(text_of(row, 4))));
    p.push((owned("on_update"), cell(row, 5)));
    p.push((owned("on_delete"), cell(row, 6)));
    proof {
        assert(pairs_view(p@) =~= fk_entry(table@, rv)->Object_0);
    }
    object_json(p)
}

/// The foreign keys of `table`, from its `foreign_key_list` rows.
/// The foreign-keys value for the `foreign_key_list` rows of `table`.
pub open spec fn fks_spec(table: Seq<char>, rows: Seq<Seq<JsonV>>) -> JsonV {
    JsonV::Array(rows.map_values(|row: Seq<JsonV>| fk_entry(table, row)))
}

pub fn foreign_keys_json(table: &str, rows: &Vec<Vec<Json>>) -> (r: Json)
    ensures
        r@ == fks_spec(table@, rows_view(rows@)),
{
    let ghost rv = rows_view(rows@);
    let mut out: Vec<Json> = Vec::new();
    let mut i: usize = 0;
    while i < rows.len()
        invariant
            rv == rows_view(rows@),
            i <= rows@.len(),
            views(out@) =~= rv.take(i as int).map_values(|row: Seq<JsonV>| fk_entry(table@, row)),
        decreases rows@.len() - i,
    {
        let ghost before = views(out@);
        proof {
            assert(rv[i as int] == views(rows@[i as int]@));
        }
        out.push(fk_entry_json(table, rows[i].as_slice()));
        proof {
            assert(views(out@) =~= before.push(fk_entry(table@, rv[i as int])));
        }
        i = i + 1;
    }
    proof {
        assert(rv.take(i as int) =~= rv);
    }
    array_json(out)
}

/// An index as the host describes it: its `index_list` row (cells: seq,
/// name, unique, origin, partial) and the `index_info` rows of its columns
/// (cells: seqno, cid, name).
pub open spec fn index_entry(name: Seq<char>, row: Seq<JsonV>, info: Seq<Seq<JsonV>>) -> JsonV {
    JsonV::Object(
        seq![
            ("index_name"@, JsonV::Str(name)),
            ("columns"@, JsonV::Array(names_at(info, 2).map_values(|c: Seq<char>| JsonV::Str(c)))),
            ("is_unique"@, JsonV::Bool(cell_i64_spec(row, 2) == 1)),
            ("is_primary"@, JsonV::Bool(cell_text(row, 3) == "pk"@)),
        ],
    )
}

pub fn index_entry_json(name: &str, row: &[Json], info: &Vec<Vec<Json>>) -> (r: Json)
    ensures
        r@ == index_entry(name@, views(row@), rows_view(info@)),
{
    let ghost rv = views(row@);
    let columns = names_in(info, 2);
    let origin = text_of(row, 3);
    let mut p: Vec<(String, Json)> = Vec::new();
    p.push((owned("index_name"), Json::Str(owned(name))));
    let cj = crate::json::strings_json(&columns);
    p.push((owned("columns"), cj));
    p.push((owned("is_unique"), Json::Bool(cell_i64(row, 2) == 1)));
    p.push((owned("is_primary"), Json::Bool(str_eq(origin.as_str(), "pk"))));
    proof {
        assert(columns@.map_values(|s: String| JsonV::Str(s@)) =~= strings_view(columns@).map_values(
            |c: Seq<char>| JsonV::Str(c),
        ));
        assert(pairs_view(p@) =~= index_entry(name@, rv, rows_view(info@))->Object_0);
    }
    object_json(p)
}

/// The rows of each `index_info` query, as values.
pub open spec fn infos_view(infos: Seq<Vec<Vec<Json>>>) -> Seq<Seq<Seq<JsonV>>> {
    infos.map_values(|r: Vec<Vec<Json>>| rows_view(r@))
}

/// The indexes of a table: one entry per `index_list` row that names an
/// index, with the `index_info` rows at the same position of `infos`; rows
/// without a name are skipped.
pub open spec fn index_entries(rows: Seq<Seq<JsonV>>, infos: Seq<Seq<Seq<JsonV>>>) -> Seq<JsonV>
    decreases rows.len(),
{
    if rows.len() == 0 {
        Seq::empty()
    } else {
        let prev = index_entries(rows.drop_last(), infos);
        match cell_str_spec(rows.last(), 1) {
            Some(n) => prev.push(index_entry(n, rows.last(), infos[rows.len() - 1])),
            None => prev,
        }
    }
}

/// The indexes of `get_indexes`, from the `index_list` rows of the table and,
/// position by position, the `index_info` rows of each named index (what is
/// at the position of an unnamed row is not read).
pub fn indexes_json(rows: &Vec<Vec<Json>>, infos: &Vec<Vec<Vec<Json>>>) -> (r: Json)
    requires
        infos@.len() == rows@.len(),
    ensures
        r@ == JsonV::Array(index_entries(rows_view(rows@), infos_view(infos@))),
{
    let ghost rv = rows_view(rows@);
    let ghost iv = infos_view(infos@);
    let mut out: Vec<Json> = Vec::new();
    let mut i: usize = 0;
    while i < rows.len()
        invariant
            rv == rows_view(rows@),
            iv == infos_view(infos@),
            infos@.len() == rows@.len(),
            i <= rows@.len(),
            views(out@) =~= index_entries(rv.take(i as int), iv),
        decreases rows@.len() - i,
    {
        proof {
            assert(rv.take(i + 1).drop_last() =~= rv.take(i as int));
            assert(rv.take(i + 1).last() == views(rows@[i as int]@));
            assert(iv[i as int] == rows_view(infos@[i as int]@));
        }
        let ghost before = views(out@);
        match cell_str(rows[i].as_slice(), 1) {
            Some(n) => {
                out.push(index_entry_json(n.as_str(), rows[i].as_slice(), &infos[i]));
                proof {
                    assert(views(out@) =~= before.push(out@.last()@));
                }
            },
            None => {},
        }
        i = i + 1;
    }
    proof {
        assert(rv.take(i as int) =~= rv);
    }
    array_json(out)
}

/// The definition `get_view_definition` reports: the `sql` cell of the first
/// row, or the empty string.
pub open spec fn view_definition_spec(rows: Seq<Seq<JsonV>>) -> Seq<char> {
    if rows.len() > 0 {
        cell_text(rows[0], 0)
    } else {
        Seq::empty()
    }
}

pub fn view_definition_json(rows: &Vec<Vec<Json>>) -> (r: Json)
    ensures
        r@ == JsonV::Str(view_definition_spec(rows_view(rows@))),
{
    if rows.len() > 0 {
        proof {
            assert(rows_view(rows@)[0] == views(rows@[0]@));
        }
        Json::Str(text_of(rows[0].as_slice(), 0))
    } else {
        Json::Str(String::new())
    }
}

// ---------------------------------------------------------------------------
// View statements
// ---------------------------------------------------------------------------

/// `CREATE VIEW "<name>" AS <definition>`.
pub open spec fn create_view_spec(name: Seq<char>, definition: Seq<char>) -> Seq<char> {
    "CREATE VIEW "@ + quoted(name, '"') + " AS "@ + definition
}

pub fn create_view_sql(name: &str, definition: &str) -> (r: String)
    ensures
        r@ == create_view_spec(name@, definition@),
{
    let mut s = owned("CREATE VIEW ");
    let q = quote(name);
    push_str(&mut s, q.as_str());
    push_str(&mut s, " AS ");
    push_str(&mut s, definition);
    s
}

/// `DROP VIEW IF EXISTS "<name>"`. SQLite has no ALTER VIEW: altering a view
/// is this drop followed by the create.
pub open spec fn drop_view_spec(name: Seq<char>) -> Seq<char> {
    "DROP VIEW IF EXISTS "@ + quoted(name, '"')
}

pub fn drop_view_sql(name: &str) -> (r: String)
    ensures
        r@ == drop_view_spec(name@),
{
    let mut s = owned("DROP VIEW IF EXISTS ");
    let q = quote(name);
    push_str(&mut s, q.as_str());
    s
}

// ---------------------------------------------------------------------------
// Handlers that need no database
// ---------------------------------------------------------------------------

/// SQLite/libSQL exposes a single primary database namespace, `main`.
pub fn get_databases(id: Json, _params: &Json) -> (r: Json)
    ensures
        r@ == respond_spec(id@, Ok(JsonV::Array(seq![JsonV::Str("main"@)]))),
{
    let mut v: Vec<Json> = Vec::new();
    v.push(Json::Str(owned("main")));
    let ghost vv = views(v@);
    let a = array_json(v);
    proof {
        assert(vv =~= seq![JsonV::Str("main"@)]);
    }
    respond(id, Ok(a))
}

/// There are no schemas.
pub fn get_schemas(id: Json, _params: &Json) -> (r: Json)
    ensures
        r@ == respond_spec(id@, Ok(JsonV::Array(Seq::empty()))),
{
    let e = array_json(Vec::new());
    proof {
        assert(views(Seq::<Json>::empty()) =~= Seq::empty());
    }
    respond(id, Ok(e))
}

/// There are no routines.
pub fn get_routines(id: Json, _params: &Json) -> (r: Json)
    ensures
        r@ == respond_spec(id@, Ok(JsonV::Array(Seq::empty()))),
{
    let e = array_json(Vec::new());
    proof {
        assert(views(Seq::<Json>::empty()) =~= Seq::empty());
    }
    respond(id, Ok(e))
}

/// There are no routine parameters.
pub fn get_routine_parameters(id: Json, _params: &Json) -> (r: Json)
    ensures
        r@ == respond_spec(id@, Ok(JsonV::Array(Seq::empty()))),
{
    let e = array_json(Vec::new());
    proof {
        assert(views(Seq::<Json>::empty()) =~= Seq::empty());
    }
    respond(id, Ok(e))
}

/// A routine's definition is always the empty string.
pub fn get_routine_definition(id: Json, _params: &Json) -> (r: Json)
    ensures
        r@ == respond_spec(id@, Ok(JsonV::Str(Seq::empty()))),
{
    respond(id, Ok(Json::Str(String::new())))
}

// ---------------------------------------------------------------------------
// Batches and the schema snapshot
// ---------------------------------------------------------------------------

/// The string items of a JSON array, in order.
pub open spec fn str_items(items: Seq<JsonV>) -> Seq<Seq<char>>
    decreases items.len(),
{
    if items.len() == 0 {
        Seq::empty()
    } else {
        let prev = str_items(items.drop_last());
        match jv_str(items.last()) {
            Some(s) => prev.push(s),
            None => prev,
        }
    }
}

/// The names in order, each kept at its first occurrence only.
pub open spec fn dedup(s: Seq<Seq<char>>) -> Seq<Seq<char>>
    decreases s.len(),
{
    if s.len() == 0 {
        s
    } else {
        let prev = dedup(s.drop_last());
        if prev.contains(s.last()) {
            prev
        } else {
            prev.push(s.last())
        }
    }
}

/// The tables a batch request names in `tables` (string items only; a name
/// given twice is answered once). Empty means every table.
pub open spec fn requested_spec(params: JsonV) -> Seq<Seq<char>> {
    match jv_get(params, "tables"@) {
        Some(JsonV::Array(items)) => dedup(str_items(items)),
        _ => Seq::empty(),
    }
}

pub fn requested_tables(params: &Json) -> (r: Vec<String>)
    ensures
        strings_view(r@) == requested_spec(params@),
{
    let mut out: Vec<String> = Vec::new();
    let arr = match params.get("tables") {
        Some(t) => t.as_array(),
        None => None,
    };
    let arr = match arr {
        Some(a) => a,
        None => {
            proof {
                assert(strings_view(out@) =~= Seq::empty());
            }
            return out;
        },
    };
    proof {
        lemma_array_view(*arr);
    }
    let ghost items = views(arr@);
    let mut i: usize = 0;
    while i < arr.len()
        invariant
            items == views(arr@),
            i <= arr@.len(),
            strings_view(out@) == dedup(str_items(items.take(i as int))),
        decreases arr@.len() - i,
    {
        proof {
            assert(items.take(i + 1).drop_last() =~= items.take(i as int));
            assert(items.take(i + 1).last() == arr@[i as int]@);
        }
        let ghost before = out@;
        match arr[i].as_str() {
            Some(name) => {
                proof {
                    let x = str_items(items.take(i as int));
                    assert(x.push(name@).drop_last() =~= x);
                }
                if !contains_str(&out, name) {
                    out.push(owned(name));
                    proof {
                        assert(strings_view(out@) =~= strings_view(before).push(name@));
                    }
                }
            },
            None => {},
        }
        i = i + 1;
    }
    proof {
        assert(items.take(i as int) =~= items);
    }
    out
}

proof fn lemma_dedup(s: Seq<Seq<char>>)
    ensures
        dedup(s).no_duplicates(),
        forall|t: Seq<char>| #[trigger] dedup(s).contains(t) <==> s.contains(t),
    decreases s.len(),
{
    if s.len() > 0 {
        let prev = s.drop_last();
        lemma_dedup(prev);
        assert forall|t: Seq<char>| #[trigger] s.contains(t) <==> prev.contains(t) || t == s.last() by {
            if s.contains(t) {
                let k = choose|k: int| 0 <= k < s.len() && s[k] == t;
                if k < s.len() - 1 {
                    assert(prev[k] == t);
                }
            }
            if prev.contains(t) {
                let k = choose|k: int| 0 <= k < prev.len() && prev[k] == t;
                assert(s[k] == t);
            }
            if t == s.last() {
                assert(s[s.len() - 1] == t);
            }
        }
        let d = dedup(prev);
        if !d.contains(s.last()) {
            let e = d.push(s.last());
            assert forall|t: Seq<char>| #[trigger] e.contains(t) <==> d.contains(t) || t == s.last() by {
                if e.contains(t) {
                    let k = choose|k: int| 0 <= k < e.len() && e[k] == t;
                    if k < d.len() {
                        assert(d[k] == t);
                    }
                }
                if d.contains(t) {
                    let k = choose|k: int| 0 <= k < d.len() && d[k] == t;
                    assert(e[k] == t);
                }
                if t == s.last() {
                    assert(e[d.len() as int] == t);
                }
            }
            assert forall|i: int, j: int| 0 <= i < e.len() && 0 <= j < e.len() && i != j implies e[i]
                != e[j] by {
                if i < d.len() && j < d.len() {
                } else if i < d.len() {
                    assert(d.contains(e[i]));
                } else if j < d.len() {
                    assert(d.contains(e[j]));
                }
            }
        }
    }
}

/// A batch answers each table once, and answers every table that was asked
/// for: the requested names are the string items of `tables`, without
/// repeats.
pub proof fn lemma_requested_tables_distinct(params: JsonV)
    ensures
        requested_spec(params).no_duplicates(),
        forall|t: Seq<char>|
            #[trigger] requested_spec(params).contains(t) <==> (match jv_get(params, "tables"@) {
                Some(JsonV::Array(items)) => str_items(items).contains(t),
                _ => false,
            }),
{
    match jv_get(params, "tables"@) {
        Some(JsonV::Array(items)) => {
            lemma_dedup(str_items(items));
        },
        _ => {
            assert(requested_spec(params) =~= Seq::<Seq<char>>::empty());
        },
    }
}

/// `{<table>: <its columns>, ...}` for the tables in order, each with the
/// `table_info` rows at the same position of `infos`.
pub open spec fn columns_batch_spec(names: Seq<Seq<char>>, infos: Seq<Seq<Seq<JsonV>>>) -> JsonV {
    JsonV::Object(Seq::new(names.len(), |i: int| (names[i], columns_spec(infos[i]))))
}

/// `{<table>: <its foreign keys>, ...}` for the tables in order, each with
/// the `foreign_key_list` rows at the same position of `lists`.
pub open spec fn fks_batch_spec(names: Seq<Seq<char>>, lists: Seq<Seq<Seq<JsonV>>>) -> JsonV {
    JsonV::Object(Seq::new(names.len(), |i: int| (names[i], fks_spec(names[i], lists[i]))))
}

/// The answer of `get_all_columns_batch`.
pub fn columns_batch(names: &Vec<String>, infos: &Vec<Vec<Vec<Json>>>) -> (r: Json)
    requires
        infos@.len() == names@.len(),
    ensures
        r@ == columns_batch_spec(strings_view(names@), infos_view(infos@)),
{
    let ghost nv = strings_view(names@);
    let ghost iv = infos_view(infos@);
    let mut out: Vec<(String, Json)> = Vec::new();
    let mut i: usize = 0;
    while i < names.len()
        invariant
            nv == strings_view(names@),
            iv == infos_view(infos@),
            infos@.len() == names@.len(),
            i <= names@.len(),
            pairs_view(out@) =~= Seq::new(i as nat, |k: int| (nv[k], columns_spec(iv[k]))),
        decreases names@.len() - i,
    {
        let ghost before = pairs_view(out@);
        proof {
            assert(iv[i as int] == rows_view(infos@[i as int]@));
        }
        let c = columns_json(&infos[i]);
        out.push((names[i].clone(), c));
        proof {
            assert(pairs_view(out@) =~= before.push((nv[i as int], columns_spec(iv[i as int]))));
        }
        i = i + 1;
    }
    object_json(out)
}

/// The answer of `get_all_foreign_keys_batch`.
pub fn foreign_keys_batch(names: &Vec<String>, lists: &Vec<Vec<Vec<Json>>>) -> (r: Json)
    requires
        lists@.len() == names@.len(),
    ensures
        r@ == fks_batch_spec(strings_view(names@), infos_view(lists@)),
{
    let ghost nv = strings_view(names@);
    let ghost lv = infos_view(lists@);
    let mut out: Vec<(String, Json)> = Vec::new();
    let mut i: usize = 0;
    while i < names.len()
        invariant
            nv == strings_view(names@),
            lv == infos_view(lists@),
            lists@.len() == names@.len(),
            i <= names@.len(),
            pairs_view(out@) =~= Seq::new(i as nat, |k: int| (nv[k], fks_spec(nv[k], lv[k]))),
        decreases names@.len() - i,
    {
        let ghost before = pairs_view(out@);
        proof {
            assert(lv[i as int] == rows_view(lists@[i as int]@));
        }
        let f = foreign_keys_json(names[i].as_str(), &lists[i]);
        out.push((names[i].clone(), f));
        proof {
            assert(pairs_view(out@) =~= before.push((nv[i as int], fks_spec(nv[i as int], lv[i as int]))));
        }
        i = i + 1;
    }
    object_json(out)
}

/// The answer of `get_schema_snapshot`: the tables, and for each its columns
/// and its foreign keys.
pub open spec fn snapshot_spec(
    names: Seq<Seq<char>>,
    infos: Seq<Seq<Seq<JsonV>>>,
    lists: Seq<Seq<Seq<JsonV>>>,
) -> JsonV {
    JsonV::Object(
        seq![
            ("tables"@, JsonV::Array(names.map_values(|n: Seq<char>| table_entry(n)))),
            ("columns"@, columns_batch_spec(names, infos)),
            ("foreign_keys"@, fks_batch_spec(names, lists)),
        ],
    )
}

pub fn schema_snapshot(
    names: &Vec<String>,
    infos: &Vec<Vec<Vec<Json>>>,
    lists: &Vec<Vec<Vec<Json>>>,
) -> (r: Json)
    requires
        infos@.len() == names@.len(),
        lists@.len() == names@.len(),
    ensures
        r@ == snapshot_spec(strings_view(names@), infos_view(infos@), infos_view(lists@)),
{
    let tables = tables_json(names);
    let columns = columns_batch(names, infos);
    let fks = foreign_keys_batch(names, lists);
    let mut p: Vec<(String, Json)> = Vec::new();
    p.push((owned("tables"), tables));
    p.push((owned("columns"), columns));
    p.push((owned("foreign_keys"), fks));
    proof {
        assert(pairs_view(p@) =~= snapshot_spec(
            strings_view(names@),
            infos_view(infos@),
            infos_view(lists@),
        )->Object_0);
    }
    object_json(p)
}

// ---------------------------------------------------------------------------
// Foreign-key names
// ---------------------------------------------------------------------------

/// No decimal text holds an underscore.
proof fn lemma_dec_no_underscore(n: nat)
    ensures
        !dec(n).contains('_'),
    decreases n,
{
    if n >= 10 {
        lemma_dec_no_underscore(n / 10);
        assert(digit_char(n % 10) != '_');
        if dec(n).contains('_') {
            let k = choose|k: int| 0 <= k < dec(n).len() && dec(n)[k] == '_';
            if k < dec(n).len() - 1 {
                assert(dec(n / 10)[k] == '_');
            }
        }
    } else {
        assert(dec(n) =~= seq![digit_char(n)]);
    }
}

proof fn lemma_int_text_no_underscore(i: int)
    ensures
        !int_text(i).contains('_'),
{
    if i < 0 {
        lemma_dec_no_underscore((-i) as nat);
        let t = int_text(i);
        if t.contains('_') {
            let k = choose|k: int| 0 <= k < t.len() && t[k] == '_';
            assert(k > 0);
            assert(dec((-i) as nat)[k - 1] == '_');
        }
    } else {
        lemma_dec_no_underscore(i as nat);
    }
}

/// Two names `<a>_<d1>` and `<b>_<d2>` with underscore-free `d1`, `d2` are
/// equal only when `a` and `b` are.
proof fn lemma_split_last_underscore(a: Seq<char>, d1: Seq<char>, b: Seq<char>, d2: Seq<char>)
    requires
        a + seq!['_'] + d1 == b + seq!['_'] + d2,
        !d1.contains('_'),
        !d2.contains('_'),
    ensures
        a == b,
{
    let aa = a + seq!['_'];
    let bb = b + seq!['_'];
    let s = aa + d1;
    let t = bb + d2;
    assert(s.len() == t.len());
    if d1.len() < d2.len() {
        let p = a.len() as int;
        assert(aa[p] == '_');
        assert(s[p] == '_');
        assert(p >= bb.len());
        assert(t[p] == d2[p - bb.len()]);
        assert(d2.contains(d2[p - bb.len()]));
        assert(false);
    } else if d2.len() < d1.len() {
        let p = b.len() as int;
        assert(bb[p] == '_');
        assert(t[p] == '_');
        assert(p >= aa.len());
        assert(s[p] == d1[p - aa.len()]);
        assert(d1.contains(d1[p - aa.len()]));
        assert(false);
    }
    assert(a.len() == b.len());
    assert forall|k: int| 0 <= k < a.len() implies a[k] == b[k] by {
        assert(aa[k] == a[k]);
        assert(bb[k] == b[k]);
        assert(s[k] == aa[k]);
        assert(t[k] == bb[k]);
    }
    assert(a =~= b);
}

/// On one table, the plugin's foreign-key name determines the column.
pub proof fn lemma_fk_name_column(table: Seq<char>, c1: Seq<char>, id1: i64, c2: Seq<char>, id2: i64)
    requires
        fk_name_spec(table, c1, id1) == fk_name_spec(table, c2, id2),
    ensures
        c1 == c2,
{
    lemma_int_text_no_underscore(id1 as int);
    lemma_int_text_no_underscore(id2 as int);
    reveal_strlit("_");
    let a1 = "fk_"@ + table + "_"@ + c1;
    let a2 = "fk_"@ + table + "_"@ + c2;
    assert(fk_name_spec(table, c1, id1) =~= a1 + seq!['_'] + int_text(id1 as int));
    assert(fk_name_spec(table, c2, id2) =~= a2 + seq!['_'] + int_text(id2 as int));
    lemma_split_last_underscore(a1, int_text(id1 as int), a2, int_text(id2 as int));
    let p = ("fk_"@ + table + "_"@).len();
    assert(a1.len() == a2.len());
    assert forall|k: int| 0 <= k < c1.len() implies c1[k] == c2[k] by {
        assert(a1[p + k] == c1[k]);
        assert(a2[p + k] == c2[k]);
    }
    assert(c1 =~= c2);
}

/// The search for a name finds a row at or before any row carrying it.
proof fn lemma_find_fk_row_upto(rows: Seq<Seq<JsonV>>, table: Seq<char>, name: Seq<char>, k: int, i: int)
    requires
        0 <= k <= i < rows.len(),
        row_fk_name(table, rows[i]) == name,
    ensures
        match find_fk_row(rows, table, name, k) {
            Some(j) => k <= j <= i && row_fk_name(table, rows[j]) == name,
            None => false,
        },
    decreases i - k,
{
    if row_fk_name(table, rows[k]) != name {
        lemma_find_fk_row_upto(rows, table, name, k + 1, i);
    }
}

/// Every foreign key that `get_foreign_keys` reports for a table can be
/// found again by the name it reports: the lookup `drop_foreign_key` makes
/// among the same `foreign_key_list` rows maps that name back to the column
/// reported beside it.
pub proof fn lemma_reported_fk_found(table: Seq<char>, rows: Seq<Seq<JsonV>>, i: int)
    requires
        0 <= i < rows.len(),
    ensures
        ({
            let e = fks_spec(table, rows)->Array_0[i];
            match (jv_get(e, "constraint_name"@), jv_get(e, "column_name"@)) {
                (Some(JsonV::Str(n)), Some(JsonV::Str(c))) => fk_column_spec(rows, table, n) == Ok::<
                    Seq<char>,
                    Seq<char>,
                >(c),
                _ => false,
            }
        }),
{
    let e = fks_spec(table, rows)->Array_0[i];
    assert(e == fk_entry(table, rows[i]));
    reveal_with_fuel(pairs_get, 3);
    let n = row_fk_name(table, rows[i]);
    assert(jv_get(e, "constraint_name"@) == Some(JsonV::Str(n)));
    assert("constraint_name"@ != "column_name"@) by {
        reveal_strlit("constraint_name");
        reveal_strlit("column_name");
        assert("constraint_name"@[2] != "column_name"@[2]);
    }
    assert(jv_get(e, "column_name"@) == Some(JsonV::Str(cell_text(rows[i], 3))));
    lemma_find_fk_row_upto(rows, table, n, 0, i);
    let j = find_fk_row(rows, table, n, 0)->Some_0;
    lemma_fk_name_column(
        table,
        cell_text(rows[j], 3),
        cell_i64_spec(rows[j], 0),
        cell_text(rows[i], 3),
        cell_i64_spec(rows[i], 0),
    );
}

/// A column is reported auto-increment only when it is a primary key, and a
/// primary key is auto-increment exactly when its type names an integer (an
/// INTEGER primary key is the rowid alias): no other column, whatever its
/// type, is reported auto-increment.
pub proof fn lemma_auto_increment_only_pk(rows: Seq<Seq<JsonV>>, i: int)
    requires
        0 <= i < rows.len(),
    ensures
        ({
            let e = columns_spec(rows)->Array_0[i];
            let row = rows[i];
            &&& jv_get(e, "is_primary_key"@) == Some(JsonV::Bool(cell_i64_spec(row, 5) != 0))
            &&& cell_i64_spec(row, 5) == 0 ==> jv_get(e, "is_auto_increment"@) == Some(
                JsonV::Bool(false),
            )
            &&& cell_i64_spec(row, 5) != 0 && contains_seq(ascii_upper(cell_text(row, 2)), "INT"@)
                ==> jv_get(e, "is_auto_increment"@) == Some(JsonV::Bool(true))
        }),
{
    let e = columns_spec(rows)->Array_0[i];
    assert(e == column_entry(rows[i]));
    reveal_with_fuel(pairs_get, 7);
    reveal_strlit("name");
    reveal_strlit("data_type");
    reveal_strlit("is_nullable");
    reveal_strlit("column_default");
    reveal_strlit("is_primary_key");
    reveal_strlit("is_auto_increment");
    assert("is_primary_key"@ != "name"@ && "is_primary_key"@ != "data_type"@
        && "is_primary_key"@ != "is_nullable"@) by {
        assert("is_primary_key"@.len() != "name"@.len());
        assert("is_primary_key"@.len() != "data_type"@.len());
        assert("is_primary_key"@.len() != "is_nullable"@.len());
    }
    assert("is_primary_key"@ != "column_default"@) by {
        assert("is_primary_key"@[0] != "column_default"@[0]);
    }
    assert("is_auto_increment"@ != "name"@ && "is_auto_increment"@ != "data_type"@
        && "is_auto_increment"@ != "is_nullable"@ && "is_auto_increment"@ != "column_default"@
        && "is_auto_increment"@ != "is_primary_key"@) by {
        assert("is_auto_increment"@.len() == 17);
        assert("is_primary_key"@.len() == 14);
        assert("column_default"@.len() == 14);
    }
}

} // verus!
