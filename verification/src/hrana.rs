//! Minimal Hrana-over-HTTP client logic for remote libSQL servers (Turso,
//! sqld).
//!
//! We use the stateless `/v2/pipeline` endpoint: each call POSTs a single
//! `execute` request and reads the typed result back. We deliberately do *not*
//! send a trailing `close` request — without a baton the server closes the
//! implicit stream on its own, and omitting `close` keeps us compatible with
//! servers (e.g. tursodb) whose pipeline parser only accepts `execute`/`batch`.
//! This module builds the request and reads the reply; the HTTP exchange
//! itself is done by the caller.

use vstd::prelude::*;

use crate::error::{PluginError, INTERNAL_ERROR};
use crate::json::{
    get_str, jv_get, jv_u64, object_json, pairs_view, rows_view, strings_view, views, Json,
    JsonV,
};
use crate::utils::text::{
    char_pred, dec, fmt_u64, owned, push_str, str_eq,
    to_chars, trail_count, trim, trim_end_char, trimmed,
};
use crate::utils::values::{hrana_arg_spec, hrana_value_spec, hrana_value_to_json, json_to_hrana_arg};

verus! {

/// Result of one remote statement execution.
#[derive(Debug)]
pub struct HranaResult {
    pub columns: Vec<String>,
    pub rows: Vec<Vec<Json>>,
    pub affected: u64,
}

pub struct HranaClient {
    /// Base URL without a trailing slash, already normalised to http(s).
    base_url: String,
    auth_token: Option<String>,
}

/// The name of each column descriptor (`""` when it has none).
pub open spec fn columns_spec(cols: Seq<JsonV>) -> Seq<Seq<char>> {
    cols.map_values(
        |c: JsonV|
            match get_str(c, "name"@) {
                Some(s) => s,
                None => Seq::empty(),
            },
    )
}

/// The rows of a result: every array among `raw`, each cell decoded; any
/// other entry is skipped.
pub open spec fn rows_spec(raw: Seq<JsonV>) -> Seq<Seq<JsonV>>
    decreases raw.len(),
{
    if raw.len() == 0 {
        Seq::empty()
    } else {
        let prev = rows_spec(raw.drop_last());
        match raw.last() {
            JsonV::Array(cells) => prev.push(cells.map_values(|c: JsonV| hrana_value_spec(c))),
            _ => prev,
        }
    }
}

/// What a successful statement reports: column names, rows, affected rows.
pub struct PipelineOk {
    pub columns: Seq<Seq<char>>,
    pub rows: Seq<Seq<JsonV>>,
    pub affected: nat,
}

/// The statement result inside the `result` object of an `execute` response.
pub open spec fn result_spec(result: JsonV) -> PipelineOk {
    PipelineOk {
        columns: match jv_get(result, "cols"@) {
            Some(JsonV::Array(cols)) => columns_spec(cols),
            _ => Seq::empty(),
        },
        rows: match jv_get(result, "rows"@) {
            Some(JsonV::Array(raw)) => rows_spec(raw),
            _ => Seq::empty(),
        },
        affected: match jv_get(result, "affected_row_count"@) {
            Some(x) => match jv_u64(x) {
                Some(n) => n as nat,
                None => 0,
            },
            None => 0,
        },
    }
}

/// The first statement result of a pipeline response, or the message of the
/// internal error reported for it.
pub open spec fn pipeline_spec(v: JsonV) -> Result<PipelineOk, Seq<char>> {
    match jv_get(v, "results"@) {
        Some(JsonV::Array(results)) => if results.len() == 0 {
            Err("malformed pipeline response: empty 'results'"@)
        } else {
            let first = results[0];
            if get_str(first, "type"@) == Some("error"@) {
                Err(
                    match jv_get(first, "error"@) {
                        Some(e) => match get_str(e, "message"@) {
                            Some(m) => m,
                            None => "remote statement failed"@,
                        },
                        None => "remote statement failed"@,
                    },
                )
            } else {
                match jv_get(first, "response"@) {
                    Some(resp) => match jv_get(resp, "result"@) {
                        Some(result) => Ok(result_spec(result)),
                        None => Err("malformed pipeline response: missing 'result'"@),
                    },
                    None => Err("malformed pipeline response: missing 'result'"@),
                }
            }
        },
        _ => Err("malformed pipeline response: missing 'results'"@),
    }
}

/// A Hrana result matches what the spec says a response reports.
pub open spec fn result_matches(r: HranaResult, ok: PipelineOk) -> bool {
    &&& strings_view(r.columns@) == ok.columns
    &&& rows_view(r.rows@) == ok.rows
    &&& r.affected as nat == ok.affected
}

fn internal_error(msg: &str) -> (r: PluginError)
    ensures
        r.code == INTERNAL_ERROR,
        r.message@ == msg@,
{
    PluginError::internal(owned(msg))
}

fn column_names(cols: &Vec<Json>) -> (r: Vec<String>)
    ensures
        strings_view(r@) == columns_spec(views(cols@)),
{
    let mut out: Vec<String> = Vec::new();
    let mut i: usize = 0;
    while i < cols.len()
        invariant
            i <= cols@.len(),
            strings_view(out@) == columns_spec(views(cols@)).take(i as int),
        decreases cols@.len() - i,
    {
        let name = match cols[i].get("name") {
            Some(n) => match n.as_str() {
                Some(s) => owned(s),
                None => String::new(),
            },
            None => String::new(),
        };
        let ghost old_out = out@;
        out.push(name);
        proof {
            assert(strings_view(out@) =~= strings_view(old_out).push(name@));
            assert(columns_spec(views(cols@)).take(i + 1) =~= columns_spec(views(cols@)).take(
                i as int,
            ).push(columns_spec(views(cols@))[i as int]));
        }
        i = i + 1;
    }
    proof {
        assert(columns_spec(views(cols@)).take(i as int) =~= columns_spec(views(cols@)));
    }
    out
}

fn decode_row(cells: &Vec<Json>) -> (r: Vec<Json>)
    ensures
        views(r@) == views(cells@).map_values(|c: JsonV| hrana_value_spec(c)),
{
    let mut out: Vec<Json> = Vec::new();
    let mut i: usize = 0;
    while i < cells.len()
        invariant
            i <= cells@.len(),
            views(out@) =~= views(cells@).map_values(|c: JsonV| hrana_value_spec(c)).take(
                i as int,
            ),
        decreases cells@.len() - i,
    {
        let ghost old_out = out@;
        out.push(hrana_value_to_json(&cells[i]));
        proof {
            assert(views(out@) =~= views(old_out).push(out@[i as int]@));
        }
        i = i + 1;
    }
    out
}

fn decode_rows(raw: &Vec<Json>) -> (r: Vec<Vec<Json>>)
    ensures
        rows_view(r@) == rows_spec(views(raw@)),
{
    let mut out: Vec<Vec<Json>> = Vec::new();
    let mut i: usize = 0;
    while i < raw.len()
        invariant
            i <= raw@.len(),
            rows_view(out@) == rows_spec(views(raw@).take(i as int)),
        decreases raw@.len() - i,
    {
        let ghost prev = out@;
        let ghost t = views(raw@).take(i + 1);
        proof {
            assert(t.drop_last() =~= views(raw@).take(i as int));
            assert(t.last() == raw@[i as int]@);
        }
        match raw[i].as_array() {
            Some(cells) => {
                proof {
                    crate::json::lemma_array_view(*cells);
                }
                let row = decode_row(cells);
                out.push(row);
                proof {
                    assert(rows_view(out@) =~= rows_view(prev).push(views(row@)));
                }
            },
            None => {},
        }
        i = i + 1;
    }
    proof {
        assert(views(raw@).take(i as int) =~= views(raw@));
    }
    out
}

/// The statement result carried in a `result` object.
fn read_result(result: &Json) -> (r: HranaResult)
    ensures
        result_matches(r, result_spec(result@)),
{
    let columns = match result.get("cols") {
        Some(c) => match c.as_array() {
            Some(cols) => {
                proof {
                    crate::json::lemma_array_view(*cols);
                }
                column_names(cols)
            },
            None => Vec::new(),
        },
        None => Vec::new(),
    };
    let rows = match result.get("rows") {
        Some(r) => match r.as_array() {
            Some(raw) => {
                proof {
                    crate::json::lemma_array_view(*raw);
                }
                decode_rows(raw)
            },
            None => Vec::new(),
        },
        None => Vec::new(),
    };
    let affected = match result.get("affected_row_count") {
        Some(a) => match a.as_u64() {
            Some(n) => n,
            None => 0,
        },
        None => 0,
    };
    proof {
        if columns@.len() == 0 {
            assert(strings_view(columns@) =~= Seq::<Seq<char>>::empty());
        }
        if rows@.len() == 0 {
            assert(rows_view(rows@) =~= Seq::<Seq<JsonV>>::empty());
        }
    }
    HranaResult { columns, rows, affected }
}

/// Extract the first statement result from a pipeline response, turning any
/// error envelope into a `PluginError`.
pub fn parse_pipeline(value: &Json) -> (r: Result<HranaResult, PluginError>)
    ensures
        match (r, pipeline_spec(value@)) {
            (Ok(res), Ok(ok)) => result_matches(res, ok),
            (Err(e), Err(msg)) => e.code == INTERNAL_ERROR && e.message@ == msg,
            _ => false,
        },
{
    let results = match value.get("results") {
        Some(x) => x.as_array(),
        None => None,
    };
    let results = match results {
        Some(r) => r,
        None => {
            return Err(internal_error("malformed pipeline response: missing 'results'"));
        },
    };
    proof {
        crate::json::lemma_array_view(*results);
    }
    if results.len() == 0 {
        return Err(internal_error("malformed pipeline response: empty 'results'"));
    }
    let first = &results[0];
    let is_error = match first.get("type") {
        Some(t) => match t.as_str() {
            Some(s) => str_eq(s, "error"),
            None => false,
        },
        None => false,
    };
    if is_error {
        let msg = match first.get("error") {
            Some(e) => match e.get("message") {
                Some(m) => match m.as_str() {
                    Some(s) => owned(s),
                    None => owned("remote statement failed"),
                },
                None => owned("remote statement failed"),
            },
            None => owned("remote statement failed"),
        };
        return Err(PluginError::internal(msg));
    }
    let result = match first.get("response") {
        Some(resp) => resp.get("result"),
        None => None,
    };
    match result {
        Some(result) => Ok(read_result(result)),
        None => Err(internal_error("malformed pipeline response: missing 'result'")),
    }
}

/// The body of a pipeline request that executes one statement.
pub open spec fn request_spec(sql: Seq<char>, args: Seq<JsonV>) -> JsonV {
    JsonV::Object(
        seq![
            (
                "requests"@,
                JsonV::Array(
                    seq![
                        JsonV::Object(
                            seq![
                                ("type"@, JsonV::Str("execute"@)),
                                (
                                    "stmt"@,
                                    JsonV::Object(
                                        seq![
                                            ("sql"@, JsonV::Str(sql)),
                                            (
                                                "args"@,
                                                JsonV::Array(
                                                    args.map_values(|a: JsonV| hrana_arg_spec(a)),
                                                ),
                                            ),
                                            ("want_rows"@, JsonV::Bool(true)),
                                        ],
                                    ),
                                ),
                            ],
                        ),
                    ],
                ),
            ),
        ],
    )
}

/// `"server returned HTTP <code>"`, followed by `": <detail>"` when the
/// trimmed response body is not empty.
pub open spec fn status_message(code: u16, body: Seq<char>) -> Seq<char> {
    let detail = trim(body);
    if detail.len() == 0 {
        "server returned HTTP "@ + dec(code as nat)
    } else {
        "server returned HTTP "@ + dec(code as nat) + ": "@ + detail
    }
}

impl HranaClient {
    pub closed spec fn base_url_view(&self) -> Seq<char> {
        self.base_url@
    }

    pub closed spec fn token_view(&self) -> Option<Seq<char>> {
        match self.auth_token {
            Some(t) => Some(t@),
            None => None,
        }
    }

    pub fn new(base_url: String, auth_token: Option<String>) -> (r: Self)
        ensures
            r.base_url_view() == trim_end_char(base_url@, '/'),
            r.base_url_view().len() > 0 ==> r.base_url_view().last() != '/',
            r.token_view() == (match auth_token {
                Some(t) => Some(t@),
                None => None,
            }),
    {
        let v = to_chars(base_url.as_str());
        let mut e = v.len();
        while e > 0 && v[e - 1] == '/'
            invariant
                v@ == base_url@,
                e <= v@.len(),
                forall|j: int| e <= j < v@.len() ==> #[trigger] v@[j] == '/',
            decreases e,
        {
            e = e - 1;
        }
        proof {
            lemma_trail_is_char(v@, '/', e as int);
        }
        let url = crate::utils::text::string_from(&v, 0, e);
        Self { base_url: url, auth_token }
    }

    /// The base URL, without a trailing slash.
    pub fn base_url(&self) -> (r: &str)
        ensures
            r@ == self.base_url_view(),
    {
        self.base_url.as_str()
    }

    /// The auth token, if any.
    pub fn auth_token(&self) -> (r: Option<&str>)
        ensures
            match r {
                Some(t) => self.token_view() == Some(t@),
                None => self.token_view() is None,
            },
    {
        match &self.auth_token {
            Some(t) => Some(t.as_str()),
            None => None,
        }
    }

    /// The endpoint every statement is POSTed to.
    pub fn pipeline_url(&self) -> (r: String)
        ensures
            r@ == self.base_url_view() + "/v2/pipeline"@,
    {
        let mut url = self.base_url.clone();
        push_str(&mut url, "/v2/pipeline");
        url
    }

    /// The `Authorization` header value, when there is a token.
    pub fn authorization(&self) -> (r: Option<String>)
        ensures
            match r {
                Some(h) => self.token_view() matches Some(t) && h@ == "Bearer "@ + t,
                None => self.token_view() is None,
            },
    {
        match &self.auth_token {
            Some(t) => {
                let mut h = owned("Bearer ");
                push_str(&mut h, t.as_str());
                Some(h)
            },
            None => None,
        }
    }

    /// The JSON body of a request that runs `sql` with `args`.
    pub fn request_body(sql: &str, args: &[Json]) -> (r: Json)
        ensures
            r@ == request_spec(sql@, views(args@)),
    {
        let mut hargs: Vec<Json> = Vec::new();
        let mut i: usize = 0;
        while i < args.len()
            invariant
                i <= args@.len(),
                views(hargs@) =~= views(args@).take(i as int).map_values(
                    |a: JsonV| hrana_arg_spec(a),
                ),
            decreases args@.len() - i,
        {
            let ghost old = hargs@;
            hargs.push(json_to_hrana_arg(&args[i]));
            proof {
                assert(views(hargs@) =~= views(old).push(hargs@[i as int]@));
                assert(views(args@).take(i + 1) =~= views(args@).take(i as int).push(
                    args@[i as int]@,
                ));
            }
            i = i + 1;
        }
        proof {
            assert(views(args@).take(i as int) =~= views(args@));
        }
        let ghost hv = views(hargs@);
        let args_json = crate::json::array_json(hargs);
        let mut stmt: Vec<(String, Json)> = Vec::new();
        stmt.push((owned("sql"), Json::Str(owned(sql))));
        stmt.push((owned("args"), args_json));
        stmt.push((owned("want_rows"), Json::Bool(true)));
        let ghost stmt_v = pairs_view(stmt@);
        let stmt_json = object_json(stmt);
        let mut req: Vec<(String, Json)> = Vec::new();
        req.push((owned("type"), Json::Str(owned("execute"))));
        req.push((owned("stmt"), stmt_json));
        let ghost req_v = pairs_view(req@);
        let req_json = object_json(req);
        let ghost req_jv = req_json@;
        let mut list: Vec<Json> = Vec::new();
        list.push(req_json);
        let ghost list_v = views(list@);
        let list_json = crate::json::array_json(list);
        let mut body: Vec<(String, Json)> = Vec::new();
        body.push((owned("requests"), list_json));
        let ghost body_v = pairs_view(body@);
        let r = object_json(body);
        proof {
            assert(stmt_v =~= seq![
                ("sql"@, JsonV::Str(sql@)),
                ("args"@, JsonV::Array(views(args@).map_values(|a: JsonV| hrana_arg_spec(a)))),
                ("want_rows"@, JsonV::Bool(true)),
            ]);
            assert(req_v =~= seq![
                ("type"@, JsonV::Str("execute"@)),
                ("stmt"@, JsonV::Object(stmt_v)),
            ]);
            assert(list_v =~= seq![JsonV::Object(req_v)]);
            assert(body_v =~= seq![("requests"@, JsonV::Array(list_v))]);
        }
        r
    }
}

proof fn lemma_trail_is_char(s: Seq<char>, c: char, e: int)
    requires
        0 <= e <= s.len(),
        forall|j: int| e <= j < s.len() ==> #[trigger] s[j] == c,
        e > 0 ==> s[e - 1] != c,
    ensures
        trim_end_char(s, c) == s.take(e),
        s.take(e).len() > 0 ==> s.take(e).last() != c,
    decreases s.len() - e,
{
    lemma_trail_count_char(s, c, e);
}

proof fn lemma_trail_count_char(s: Seq<char>, c: char, e: int)
    requires
        0 <= e <= s.len(),
        forall|j: int| e <= j < s.len() ==> #[trigger] s[j] == c,
        e > 0 ==> s[e - 1] != c,
    ensures
        trail_count(s, char_pred(c)) == s.len() - e,
    decreases s.len() - e,
{
    if e < s.len() {
        assert(char_pred(c)(s.last()));
        assert forall|j: int| e <= j < s.drop_last().len() implies #[trigger] s.drop_last()[j]
            == c by {
            assert(s.drop_last()[j] == s[j]);
        }
        if e > 0 {
            assert(s.drop_last()[e - 1] == s[e - 1]);
        }
        lemma_trail_count_char(s.drop_last(), c, e);
    } else if s.len() > 0 {
        assert(!char_pred(c)(s.last()));
    }
}

/// The error for an HTTP error status, with the response body as detail.
pub fn status_error(code: u16, body: &str) -> (r: PluginError)
    ensures
        r.code == INTERNAL_ERROR,
        r.message@ == status_message(code, body@),
{
    let detail = trimmed(body);
    let mut msg = owned("server returned HTTP ");
    let c = fmt_u64(code as u64);
    push_str(&mut msg, c.as_str());
    if detail.as_str().unicode_len() > 0 {
        push_str(&mut msg, ": ");
        push_str(&mut msg, detail.as_str());
    }
    PluginError::internal(msg)
}

/// The error for a server that could not be reached at all.
pub fn transport_error(detail: &str) -> (r: PluginError)
    ensures
        r.code == INTERNAL_ERROR,
        r.message@ == "could not reach server: "@ + detail@,
{
    let mut msg = owned("could not reach server: ");
    push_str(&mut msg, detail);
    PluginError::internal(msg)
}

/// The error for a reply whose body is not JSON.
pub fn invalid_body_error(detail: &str) -> (r: PluginError)
    ensures
        r.code == INTERNAL_ERROR,
        r.message@ == "invalid response body from server: "@ + detail@,
{
    let mut msg = owned("invalid response body from server: ");
    push_str(&mut msg, detail);
    PluginError::internal(msg)
}

} // verus!
