//! Arbitrary query execution: what to run for a request, and the host's
//! `QueryResult` payload for what came back.
//!
//! A row-returning statement with a page size is wrapped in
//! `SELECT * FROM (...) LIMIT size + 1 OFFSET ...`: the one row past the page
//! tells whether more follow. Other row-returning statements run as given;
//! everything else runs as a statement and reports the affected-row count.

use vstd::prelude::*;

use crate::client::QueryResult;
use crate::error::{PluginError, INVALID_PARAMS};
use crate::handlers::{missing_param_message, req_str, req_str_spec};
use crate::json::{
    array_json, jv_get, jv_int, jv_u64, object_json, pairs_view, rows_view, strings_json,
    strings_view, uint_json, views, Json, JsonV,
};
use crate::utils::pagination::{offset_for, offset_spec};
use crate::utils::sql::{
    is_wrappable, is_wrappable_spec, returns_rows, returns_rows_spec, strip_semicolons_spec,
    strip_trailing_semicolons,
};
use crate::utils::text::{dec, fmt_u64, owned, push_str};

verus! {

// ---------------------------------------------------------------------------
// The request
// ---------------------------------------------------------------------------

/// What `execute_query` reads from its params.
pub struct QueryRequest {
    pub query: String,
    /// 1-based page number.
    pub page: u64,
    /// Rows per page; `None` runs the statement unpaged.
    pub limit: Option<u64>,
}

/// `page`, when it is a non-negative integer; else page 1.
pub open spec fn page_spec(params: JsonV) -> u64 {
    match jv_get(params, "page"@) {
        Some(v) => match jv_u64(v) {
            Some(p) => p,
            None => 1,
        },
        None => 1,
    }
}

/// `limit` (or, when there is no `limit` member, `page_size`), when it is a
/// positive integer.
pub open spec fn limit_spec(params: JsonV) -> Option<u64> {
    let raw = match jv_get(params, "limit"@) {
        Some(v) => Some(v),
        None => jv_get(params, "page_size"@),
    };
    match raw {
        Some(v) => match jv_u64(v) {
            Some(l) => if l > 0 {
                Some(l)
            } else {
                None
            },
            None => None,
        },
        None => None,
    }
}

pub open spec fn query_request_spec(params: JsonV) -> Result<(Seq<char>, u64, Option<u64>), (i64, Seq<char>)> {
    match req_str_spec(params, "query"@) {
        None => Err((INVALID_PARAMS, missing_param_message("query"@))),
        Some(q) => Ok((q, page_spec(params), limit_spec(params))),
    }
}

pub fn query_request(params: &Json) -> (r: Result<QueryRequest, PluginError>)
    ensures
        match (r, query_request_spec(params@)) {
            (Ok(q), Ok((text, page, limit))) => q.query@ == text && q.page == page && q.limit
                == limit,
            (Err(e), Err((code, m))) => e.code == code && e.message@ == m,
            _ => false,
        },
{
    let query = match req_str(params, "query") {
        Ok(q) => q,
        Err(e) => return Err(e),
    };
    let page = match params.get("page") {
        Some(v) => match v.as_u64() {
            Some(p) => p,
            None => 1,
        },
        None => 1,
    };
    let raw = match params.get("limit") {
        Some(v) => Some(v),
        None => params.get("page_size"),
    };
    let limit = match raw {
        Some(v) => match v.as_u64() {
            Some(l) => if l > 0 {
                Some(l)
            } else {
                None
            },
            None => None,
        },
        None => None,
    };
    Ok(QueryRequest { query, page, limit })
}

// ---------------------------------------------------------------------------
// The plan
// ---------------------------------------------------------------------------

/// What to run for a query request.
pub enum QueryPlan {
    /// Read one page: `sql` fetches up to `size + 1` rows from the page start.
    Paged { sql: String, page: u64, size: u64 },
    /// Read every row `sql` returns.
    Rows { sql: String },
    /// Run `sql` as a statement and report the affected rows.
    Execute { sql: String },
}

pub enum PlanV {
    Paged { sql: Seq<char>, page: u64, size: u64 },
    Rows { sql: Seq<char> },
    Execute { sql: Seq<char> },
}

impl View for QueryPlan {
    type V = PlanV;

    open spec fn view(&self) -> PlanV {
        match self {
            QueryPlan::Paged { sql, page, size } => PlanV::Paged { sql: sql@, page: *page, size: *size },
            QueryPlan::Rows { sql } => PlanV::Rows { sql: sql@ },
            QueryPlan::Execute { sql } => PlanV::Execute { sql: sql@ },
        }
    }
}

/// `SELECT * FROM (<statement>) AS _tab_page LIMIT <size + 1> OFFSET <offset>`.
pub open spec fn paged_sql_spec(statement: Seq<char>, page: u64, size: u64) -> Seq<char> {
    "SELECT * FROM ("@ + statement + ") AS _tab_page LIMIT "@ + dec((size + 1) as nat)
        + " OFFSET "@ + dec(offset_spec(page, size) as nat)
}

/// The plan for a query: the statement loses its trailing semicolons; it is
/// paged when it returns rows, can be wrapped and a page size was given.
pub open spec fn plan_spec(query: Seq<char>, page: u64, limit: Option<u64>) -> PlanV {
    let statement = strip_semicolons_spec(query);
    if returns_rows_spec(query) {
        if is_wrappable_spec(query) && limit is Some {
            PlanV::Paged {
                sql: paged_sql_spec(statement, page, limit->Some_0),
                page,
                size: limit->Some_0,
            }
        } else {
            PlanV::Rows { sql: statement }
        }
    } else {
        PlanV::Execute { sql: statement }
    }
}

/// Decide what to run. A page of `u64::MAX` rows cannot fetch the extra row
/// (`size + 1` overflows), so that page size is left out.
pub fn plan_query(req: &QueryRequest) -> (r: QueryPlan)
    requires
        is_wrappable_spec(req.query@) ==> req.limit != Some(u64::MAX),
    ensures
        r@ == plan_spec(req.query@, req.page, req.limit),
{
    let query = req.query.as_str();
    let statement = strip_trailing_semicolons(query);
    if returns_rows(query) {
        let wrappable = is_wrappable(query);
        match req.limit {
            Some(size) => {
                if wrappable {
                    let mut sql = owned("SELECT * FROM (");
                    push_str(&mut sql, statement);
                    push_str(&mut sql, ") AS _tab_page LIMIT ");
                    let n = fmt_u64(size + 1);
                    push_str(&mut sql, n.as_str());
                    push_str(&mut sql, " OFFSET ");
                    let o = fmt_u64(offset_for(req.page, size));
                    push_str(&mut sql, o.as_str());
                    return QueryPlan::Paged { sql, page: req.page, size };
                }
            },
            None => {},
        }
        QueryPlan::Rows { sql: owned(statement) }
    } else {
        QueryPlan::Execute { sql: owned(statement) }
    }
}

/// `EXPLAIN QUERY PLAN <statement>`.
pub open spec fn explain_spec(query: Seq<char>) -> Seq<char> {
    "EXPLAIN QUERY PLAN "@ + strip_semicolons_spec(query)
}

pub fn explain_sql(query: &str) -> (r: String)
    ensures
        r@ == explain_spec(query@),
{
    let mut s = owned("EXPLAIN QUERY PLAN ");
    push_str(&mut s, strip_trailing_semicolons(query));
    s
}

// ---------------------------------------------------------------------------
// The payload
// ---------------------------------------------------------------------------

/// The host's `QueryResult`: `{columns, rows, affected_rows, truncated,
/// pagination, execution_time_ms}`.
pub open spec fn payload_spec(
    columns: Seq<Seq<char>>,
    rows: Seq<Seq<JsonV>>,
    affected_rows: u64,
    truncated: bool,
    pagination: JsonV,
    elapsed_ms: u64,
) -> JsonV {
    JsonV::Object(
        seq![
            ("columns"@, JsonV::Array(columns.map_values(|c: Seq<char>| JsonV::Str(c)))),
            ("rows"@, JsonV::Array(rows.map_values(|r: Seq<JsonV>| JsonV::Array(r)))),
            ("affected_rows"@, jv_int(affected_rows as int)),
            ("truncated"@, JsonV::Bool(truncated)),
            ("pagination"@, pagination),
            ("execution_time_ms"@, jv_int(elapsed_ms as int)),
        ],
    )
}

/// The rows, last first.
fn reversed(rows: Vec<Vec<Json>>) -> (r: Vec<Vec<Json>>)
    ensures
        r@.len() == rows@.len(),
        forall|k: int| 0 <= k < r@.len() ==> #[trigger] r@[k] == rows@[rows@.len() - 1 - k],
{
    let ghost orig = rows@;
    let mut rest = rows;
    let mut out: Vec<Vec<Json>> = Vec::new();
    while rest.len() > 0
        invariant
            rest@ == orig.take(rest@.len() as int),
            rest@.len() + out@.len() == orig.len(),
            forall|k: int| 0 <= k < out@.len() ==> #[trigger] out@[k] == orig[orig.len() - 1 - k],
        decreases rest@.len(),
    {
        let ghost n = rest@.len();
        let row = rest.pop().unwrap();
        proof {
            assert(row == orig[n - 1]);
            assert(rest@ =~= orig.take(n - 1));
        }
        out.push(row);
    }
    out
}

/// The rows as a JSON array of arrays.
fn rows_json(rows: Vec<Vec<Json>>) -> (r: Json)
    ensures
        r@ == JsonV::Array(rows_view(rows@).map_values(|r: Seq<JsonV>| JsonV::Array(r))),
{
    let ghost rv = rows_view(rows@);
    let mut out: Vec<Json> = Vec::new();
    let mut i: usize = 0;
    let mut rest = reversed(rows);
    let total = rest.len();
    proof {
        assert(rv.len() == total);
    }
    while rest.len() > 0
        invariant
            rv.len() <= usize::MAX,
            i + rest@.len() == rv.len(),
            forall|k: int|
                0 <= k < rest@.len() ==> views(#[trigger] rest@[k]@) == rv[rv.len() - 1 - k],
            views(out@) =~= rv.take(i as int).map_values(|r: Seq<JsonV>| JsonV::Array(r)),
        decreases rest@.len(),
    {
        let ghost before = views(out@);
        let ghost pre = rest@;
        let ghost n = rest@.len();
        let row = rest.pop().unwrap();
        proof {
            assert(row == pre[n - 1]);
            assert(views(pre[n - 1]@) == rv[i as int]);
            assert(rest@ =~= pre.take(n - 1));
        }
        out.push(array_json(row));
        proof {
            assert(views(out@) =~= before.push(JsonV::Array(rv[i as int])));
            assert(rv.take(i + 1) =~= rv.take(i as int).push(rv[i as int]));
        }
        i = i + 1;
    }
    proof {
        assert(rv.take(i as int) =~= rv);
    }
    array_json(out)
}

pub open spec fn opt_json(o: Option<Json>) -> JsonV {
    match o {
        Some(j) => j@,
        None => JsonV::Null,
    }
}

/// Serialise a result set into the host's `QueryResult` contract
/// (`affected_rows`, `truncated` and `pagination` are required fields).
pub fn build_payload(
    result: QueryResult,
    affected_rows: u64,
    truncated: bool,
    elapsed_ms: u64,
    pagination: Option<Json>,
) -> (r: Json)
    ensures
        r@ == payload_spec(
            result.columns_view(),
            result.rows_view(),
            affected_rows,
            truncated,
            opt_json(pagination),
            elapsed_ms,
        ),
{
    let ghost cv = result.columns_view();
    let ghost rv = result.rows_view();
    let ghost pv = opt_json(pagination);
    let columns = strings_json(&result.columns);
    let rows = rows_json(result.rows);
    let pagination = match pagination {
        Some(p) => p,
        None => Json::Null,
    };
    let mut p: Vec<(String, Json)> = Vec::new();
    p.push((owned("columns"), columns));
    p.push((owned("rows"), rows));
    p.push((owned("affected_rows"), uint_json(affected_rows)));
    p.push((owned("truncated"), Json::Bool(truncated)));
    p.push((owned("pagination"), pagination));
    p.push((owned("execution_time_ms"), uint_json(elapsed_ms)));
    proof {
        assert(cv.map_values(|c: Seq<char>| JsonV::Str(c)) =~= result.columns@.map_values(
            |s: String| JsonV::Str(s@),
        ));
    }
    let r = object_json(p);
    proof {
        assert(pairs_view(p@) =~= payload_spec(
            cv,
            rv,
            affected_rows,
            truncated,
            pv,
            elapsed_ms,
        )->Object_0);
    }
    r
}

/// `{page, page_size, total_rows: null, has_more}`. No total row count is
/// computed (`total_rows` is always null): whether more rows follow is read
/// from the one extra row the paged statement fetches.
pub open spec fn pagination_spec(page: u64, size: u64, has_more: bool) -> JsonV {
    JsonV::Object(
        seq![
            ("page"@, jv_int(page as int)),
            ("page_size"@, jv_int(size as int)),
            ("total_rows"@, JsonV::Null),
            ("has_more"@, JsonV::Bool(has_more)),
        ],
    )
}

/// The payload for a page read with the paged statement: more rows follow
/// exactly when the extra row came back, and it is not reported.
pub open spec fn paged_payload_spec(
    page: u64,
    size: u64,
    columns: Seq<Seq<char>>,
    rows: Seq<Seq<JsonV>>,
    elapsed_ms: u64,
) -> JsonV {
    let has_more = rows.len() > size;
    payload_spec(
        columns,
        if has_more {
            rows.take(size as int)
        } else {
            rows
        },
        0,
        has_more,
        pagination_spec(page, size, has_more),
        elapsed_ms,
    )
}

pub fn paged_payload(page: u64, size: u64, result: QueryResult, elapsed_ms: u64) -> (r: Json)
    ensures
        r@ == paged_payload_spec(page, size, result.columns_view(), result.rows_view(), elapsed_ms),
{
    let ghost all = result.rows_view();
    let mut result = result;
    let has_more = (result.rows.len() as u64) > size;
    if has_more {
        result.rows.truncate(size as usize);
        proof {
            assert(result.rows_view() =~= all.take(size as int));
        }
    }
    let mut p: Vec<(String, Json)> = Vec::new();
    p.push((owned("page"), uint_json(page)));
    p.push((owned("page_size"), uint_json(size)));
    p.push((owned("total_rows"), Json::Null));
    p.push((owned("has_more"), Json::Bool(has_more)));
    proof {
        assert(pairs_view(p@) =~= pagination_spec(page, size, has_more)->Object_0);
    }
    let pagination = object_json(p);
    build_payload(result, 0, has_more, elapsed_ms, Some(pagination))
}

/// The payload of a statement that returns no rows.
pub fn execute_payload(affected_rows: u64, elapsed_ms: u64) -> (r: Json)
    ensures
        r@ == payload_spec(Seq::empty(), Seq::empty(), affected_rows, false, JsonV::Null, elapsed_ms),
{
    let result = QueryResult { columns: Vec::new(), rows: Vec::new(), affected: affected_rows };
    let r = build_payload(result, affected_rows, false, elapsed_ms, None);
    proof {
        assert(strings_view(Seq::<String>::empty()) =~= Seq::empty());
        assert(rows_view(Seq::<Vec<Json>>::empty()) =~= Seq::empty());
    }
    r
}

/// A page never reports more than its size, and it says more rows follow
/// exactly when the paged statement returned the extra row.
pub proof fn lemma_page_bounded(
    page: u64,
    size: u64,
    columns: Seq<Seq<char>>,
    rows: Seq<Seq<JsonV>>,
    elapsed_ms: u64,
)
    ensures
        ({
            let p = paged_payload_spec(page, size, columns, rows, elapsed_ms)->Object_0;
            &&& p[1].1->Array_0.len() <= size
            &&& p[1].1->Array_0.len() <= rows.len()
            &&& p[3].1 == JsonV::Bool(rows.len() > size)
            &&& p[4].1 == pagination_spec(page, size, rows.len() > size)
        }),
{
}

} // verus!
