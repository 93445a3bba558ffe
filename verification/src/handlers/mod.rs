//! JSON-RPC method handlers, split by concern.
//!
//! Every handler here computes: it reads the request parameters, builds the
//! SQL to run, and shapes what the database returned into the answer. Opening
//! the connection and running the statements is left to the caller.

pub mod ddl;
pub mod metadata;
pub mod query;

use vstd::prelude::*;

use crate::error::{PluginError, INVALID_PARAMS};
use crate::json::{jv_get, jv_i64, jv_str, views, Json, JsonV};
use crate::rpc::{error_response, error_response_spec, ok_response, ok_response_spec};
use crate::utils::text::{fmt_i64, int_text, owned, push_str};

verus! {

/// The JSON-RPC response for a handler's outcome.
pub open spec fn respond_spec(id: JsonV, result: Result<JsonV, (i64, Seq<char>)>) -> JsonV {
    match result {
        Ok(v) => ok_response_spec(id, v),
        Err((code, msg)) => error_response_spec(id, code, msg),
    }
}

/// The value of a handler's outcome.
pub open spec fn result_view(r: Result<Json, PluginError>) -> Result<JsonV, (i64, Seq<char>)> {
    match r {
        Ok(v) => Ok(v@),
        Err(e) => Err((e.code, e.message@)),
    }
}

/// Turn a handler result into a JSON-RPC response.
pub fn respond(id: Json, result: Result<Json, PluginError>) -> (r: Json)
    ensures
        r@ == respond_spec(id@, result_view(result)),
{
    match result {
        Ok(value) => ok_response(id, value),
        Err(err) => error_response(id, err.code, err.message.as_str()),
    }
}

/// The message for a missing required parameter.
pub open spec fn missing_param_message(key: Seq<char>) -> Seq<char> {
    "missing '"@ + key + "' parameter"@
}

/// A required string parameter: present, a string, and not empty.
pub open spec fn req_str_spec(params: JsonV, key: Seq<char>) -> Option<Seq<char>> {
    match jv_get(params, key) {
        Some(v) => match jv_str(v) {
            Some(s) => if s.len() > 0 {
                Some(s)
            } else {
                None
            },
            None => None,
        },
        None => None,
    }
}

/// Read a required string parameter from the top-level params object.
pub fn req_str(params: &Json, key: &str) -> (r: Result<String, PluginError>)
    ensures
        match (r, req_str_spec(params@, key@)) {
            (Ok(s), Some(t)) => s@ == t,
            (Err(e), None) => e.code == INVALID_PARAMS && e.message@ == missing_param_message(key@),
            _ => false,
        },
{
    let found = match params.get(key) {
        Some(v) => v.as_str(),
        None => None,
    };
    match found {
        Some(s) => {
            if s.unicode_len() > 0 {
                return Ok(owned(s));
            }
        },
        None => {},
    }
    let mut msg = owned("missing '");
    push_str(&mut msg, key);
    push_str(&mut msg, "' parameter");
    Err(PluginError::invalid_params(msg))
}

/// A cell of a row, or null when the row is too short.
pub open spec fn cell_spec(row: Seq<JsonV>, i: int) -> JsonV {
    if 0 <= i < row.len() {
        row[i]
    } else {
        JsonV::Null
    }
}

/// A cell of a row as a string, if it is one.
pub open spec fn cell_str_spec(row: Seq<JsonV>, i: int) -> Option<Seq<char>> {
    if 0 <= i < row.len() {
        jv_str(row[i])
    } else {
        None
    }
}

/// A cell of a row as an integer, `0` when it is not one.
pub open spec fn cell_i64_spec(row: Seq<JsonV>, i: int) -> i64 {
    if 0 <= i < row.len() {
        match jv_i64(row[i]) {
            Some(n) => n,
            None => 0,
        }
    } else {
        0
    }
}

/// A cell from a result row, defaulting to JSON null when out of range.
pub fn cell(row: &[Json], i: usize) -> (r: Json)
    ensures
        r@ == cell_spec(views(row@), i as int),
{
    if i < row.len() {
        row[i].clone_json()
    } else {
        Json::Null
    }
}

pub fn cell_str(row: &[Json], i: usize) -> (r: Option<String>)
    ensures
        crate::models::opt_text(r) == cell_str_spec(views(row@), i as int),
{
    if i < row.len() {
        match row[i].as_str() {
            Some(s) => Some(owned(s)),
            None => None,
        }
    } else {
        None
    }
}

pub fn cell_i64(row: &[Json], i: usize) -> (r: i64)
    ensures
        r == cell_i64_spec(views(row@), i as int),
{
    if i < row.len() {
        match row[i].as_i64() {
            Some(n) => n,
            None => 0,
        }
    } else {
        0
    }
}

/// The name the plugin gives a foreign key: `fk_<table>_<column>_<id>`.
/// SQLite foreign keys carry no names of their own.
pub open spec fn fk_name_spec(table: Seq<char>, column: Seq<char>, id: i64) -> Seq<char> {
    "fk_"@ + table + "_"@ + column + "_"@ + int_text(id as int)
}

pub fn fk_name(table: &str, column: &str, id: i64) -> (r: String)
    ensures
        r@ == fk_name_spec(table@, column@, id),
{
    let mut s = owned("fk_");
    push_str(&mut s, table);
    push_str(&mut s, "_");
    push_str(&mut s, column);
    push_str(&mut s, "_");
    let n = fmt_i64(id);
    push_str(&mut s, n.as_str());
    s
}

} // verus!
