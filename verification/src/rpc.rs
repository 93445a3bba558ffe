//! JSON-RPC 2.0 response envelopes.

use vstd::prelude::*;

use crate::json::{int_json, object_json, pairs_view, Json, JsonV, jv_int};
use crate::utils::text::owned;

verus! {

/// `{"jsonrpc": "2.0", "result": <result>, "id": <id>}`.
pub open spec fn ok_response_spec(id: JsonV, result: JsonV) -> JsonV {
    JsonV::Object(seq![("jsonrpc"@, JsonV::Str("2.0"@)), ("result"@, result), ("id"@, id)])
}

/// `{"jsonrpc": "2.0", "error": {"code": <code>, "message": <message>}, "id": <id>}`.
pub open spec fn error_response_spec(id: JsonV, code: i64, message: Seq<char>) -> JsonV {
    JsonV::Object(
        seq![
            ("jsonrpc"@, JsonV::Str("2.0"@)),
            (
                "error"@,
                JsonV::Object(
                    seq![("code"@, jv_int(code as int)), ("message"@, JsonV::Str(message))],
                ),
            ),
            ("id"@, id),
        ],
    )
}

/// A successful JSON-RPC response.
pub fn ok_response(id: Json, result: Json) -> (r: Json)
    ensures
        r@ == ok_response_spec(id@, result@),
{
    let ghost (iv, rv) = (id@, result@);
    let mut pairs: Vec<(String, Json)> = Vec::new();
    pairs.push((owned("jsonrpc"), Json::Str(owned("2.0"))));
    pairs.push((owned("result"), result));
    pairs.push((owned("id"), id));
    let ghost pv = pairs_view(pairs@);
    let r = object_json(pairs);
    proof {
        assert(pv =~= seq![("jsonrpc"@, JsonV::Str("2.0"@)), ("result"@, rv), ("id"@, iv)]);
    }
    r
}

/// A failed JSON-RPC response.
pub fn error_response(id: Json, code: i64, message: &str) -> (r: Json)
    ensures
        r@ == error_response_spec(id@, code, message@),
{
    let ghost iv = id@;
    let mut err: Vec<(String, Json)> = Vec::new();
    err.push((owned("code"), int_json(code)));
    err.push((owned("message"), Json::Str(owned(message))));
    let ghost ev = pairs_view(err@);
    let err = object_json(err);
    let mut pairs: Vec<(String, Json)> = Vec::new();
    pairs.push((owned("jsonrpc"), Json::Str(owned("2.0"))));
    pairs.push((owned("error"), err));
    pairs.push((owned("id"), id));
    let ghost pv = pairs_view(pairs@);
    let r = object_json(pairs);
    proof {
        assert(ev =~= seq![("code"@, jv_int(code as int)), ("message"@, JsonV::Str(message@))]);
        assert(pv =~= seq![
            ("jsonrpc"@, JsonV::Str("2.0"@)),
            ("error"@, JsonV::Object(ev)),
            ("id"@, iv),
        ]);
    }
    r
}

} // verus!
