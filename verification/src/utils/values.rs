//! Conversions between JSON values and the Hrana wire format.
//!
//! Hrana (the protocol Turso/sqld speak over HTTP) encodes every value as a
//! tagged object, e.g. `{"type":"integer","value":"42"}`. Integers are sent as
//! strings to survive 64-bit precision, blobs as base64.

use vstd::prelude::*;

use base64::engine::general_purpose::STANDARD;
use base64::Engine;

use crate::json::{
    get_str, int_json, jv_get, jv_int, json_text, object_json, pairs_get, pairs_view,
    to_json_text, Json, JsonNumber, JsonV, NumV,
};
use crate::utils::text::{
    all_digits, digits_value, fmt_i64, int_text, is_digit, lemma_parse_int_text, owned,
    parse_i64, parse_i64_spec, split_sign, str_eq, to_chars,
};

verus! {

// ---------------------------------------------------------------------------
// base64 (standard alphabet, padded)
// ---------------------------------------------------------------------------

/// The bytes that standard, padded base64 text decodes to, if it is valid.
pub uninterp spec fn base64_decoded(text: Seq<char>) -> Option<Seq<u8>>;

/// The standard, padded base64 text of some bytes.
pub uninterp spec fn base64_encoded(bytes: Seq<u8>) -> Seq<char>;

/// The longest input that `base64_encode` accepts: the engine computes the
/// output length with checked arithmetic and panics when it overflows.
pub open spec fn base64_encodable(len: nat) -> bool {
    len / 3 * 4 + 4 <= usize::MAX
}

/// `base64::engine::general_purpose::STANDARD.decode`: the decoded bytes, or
/// `None` when the text is not valid padded base64. The bytes are the value
/// named `base64_decoded`. `STANDARD` decodes only canonical text (canonical
/// padding required, no trailing bits allowed), so bytes it accepts encode
/// back to exactly the text they came from; nothing else is claimed.
#[verifier::external_body]
fn base64_decode(text: &str) -> (r: Option<Vec<u8>>)
    ensures
        match r {
            Some(b) => base64_decoded(text@) == Some(b@) && base64_encoded(b@) == text@,
            None => base64_decoded(text@) is None,
        },
{
    STANDARD.decode(text).ok()
}

/// `base64::engine::general_purpose::STANDARD.encode`: the padded base64 text
/// of the bytes, named `base64_encoded`.
#[verifier::external_body]
fn base64_encode(bytes: &[u8]) -> (r: String)
    requires
        base64_encodable(bytes@.len()),
    ensures
        r@ == base64_encoded(bytes@),
{
    STANDARD.encode(bytes)
}

/// A blob as the grid shows it: its standard base64 text.
pub fn blob_to_json(bytes: &[u8]) -> (r: Json)
    requires
        base64_encodable(bytes@.len()),
    ensures
        r@ == JsonV::Str(base64_encoded(bytes@)),
{
    Json::Str(base64_encode(bytes))
}

// ---------------------------------------------------------------------------
// Float literals
// ---------------------------------------------------------------------------

/// The position of the first exponent marker (`e` or `E`), or the length.
pub open spec fn find_exp(s: Seq<char>) -> int
    decreases s.len(),
{
    if s.len() == 0 {
        0
    } else if s[0] == 'e' || s[0] == 'E' {
        0
    } else {
        1 + find_exp(s.drop_first())
    }
}

pub open spec fn strip_sign(s: Seq<char>) -> Seq<char> {
    if s.len() > 0 && (s[0] == '+' || s[0] == '-') {
        s.drop_first()
    } else {
        s
    }
}

/// `digits`, `digits.`, `digits.digits` or `.digits`.
pub open spec fn mantissa_ok(m: Seq<char>) -> bool {
    let d = crate::utils::text::find_char(m, '.');
    if d >= m.len() {
        m.len() > 0 && all_digits(m)
    } else {
        all_digits(m.take(d)) && all_digits(m.skip(d + 1)) && (d > 0 || m.len() > d + 1)
    }
}

/// Text in the decimal syntax Rust's float parser reads: an optional sign, a
/// mantissa, and an optional exponent `e`/`E`, optional sign, digits. This is
/// syntax only: `1e400` qualifies though it exceeds every finite `f64`.
pub open spec fn is_float_literal(s: Seq<char>) -> bool {
    let body = strip_sign(s);
    let e = find_exp(body);
    mantissa_ok(body.take(e)) && (e >= body.len() || {
        let x = strip_sign(body.skip(e + 1));
        x.len() > 0 && all_digits(x)
    })
}

proof fn lemma_find_exp_is(s: Seq<char>, i: int)
    requires
        0 <= i <= s.len(),
        forall|j: int| 0 <= j < i ==> #[trigger] s[j] != 'e' && s[j] != 'E',
        i < s.len() ==> (s[i] == 'e' || s[i] == 'E'),
    ensures
        find_exp(s) == i,
    decreases i,
{
    if i > 0 {
        assert(s[0] != 'e' && s[0] != 'E');
        assert forall|j: int| 0 <= j < i - 1 implies #[trigger] s.drop_first()[j] != 'e'
            && s.drop_first()[j] != 'E' by {
            assert(s.drop_first()[j] == s[j + 1]);
        }
        lemma_find_exp_is(s.drop_first(), i - 1);
    }
}

/// Are all of `v[from..to]` digits?
fn digits_between(v: &Vec<char>, from: usize, to: usize) -> (r: bool)
    requires
        from <= to <= v@.len(),
    ensures
        r == all_digits(v@.subrange(from as int, to as int)),
{
    let mut i = from;
    while i < to
        invariant
            from <= i <= to <= v@.len(),
            forall|j: int| from <= j < i ==> #[trigger] is_digit(v@[j]),
        decreases to - i,
    {
        if !('0' <= v[i] && v[i] <= '9') {
            proof {
                assert(!is_digit(v@.subrange(from as int, to as int)[i - from]));
            }
            return false;
        }
        i = i + 1;
    }
    proof {
        assert forall|j: int| 0 <= j < to - from implies #[trigger] is_digit(
            v@.subrange(from as int, to as int)[j],
        ) by {
            assert(v@.subrange(from as int, to as int)[j] == v@[j + from]);
        }
    }
    true
}

/// Is the text in the decimal syntax of Rust's float parser (syntax only)?
#[verifier::rlimit(40)]
pub fn float_literal(s: &str) -> (r: bool)
    ensures
        r == is_float_literal(s@),
{
    let v = to_chars(s);
    let len = v.len();
    let b: usize = if len > 0 && (v[0] == '+' || v[0] == '-') {
        1
    } else {
        0
    };
    let ghost body = strip_sign(s@);
    proof {
        assert(body =~= v@.skip(b as int));
    }
    let mut e = b;
    while e < len && v[e] != 'e' && v[e] != 'E'
        invariant
            b <= e <= len == v@.len(),
            forall|j: int| b <= j < e ==> #[trigger] v@[j] != 'e' && v@[j] != 'E',
        decreases len - e,
    {
        e = e + 1;
    }
    proof {
        assert forall|j: int| 0 <= j < e - b implies #[trigger] body[j] != 'e' && body[j] != 'E' by {
            assert(body[j] == v@[j + b]);
        }
        if e < len {
            assert(body[e - b] == v@[e as int]);
        }
        lemma_find_exp_is(body, (e - b) as int);
    }
    // Mantissa: v[b..e].
    let mut d = b;
    while d < e && v[d] != '.'
        invariant
            b <= d <= e <= len == v@.len(),
            forall|j: int| b <= j < d ==> #[trigger] v@[j] != '.',
        decreases e - d,
    {
        d = d + 1;
    }
    let ghost m = body.take(e - b);
    proof {
        assert(m =~= v@.subrange(b as int, e as int));
        assert forall|j: int| 0 <= j < d - b implies #[trigger] m[j] != '.' by {
            assert(m[j] == v@[j + b]);
        }
        if d < e {
            assert(m[d - b] == v@[d as int]);
        }
        crate::utils::text::lemma_find_char_is(m, '.', (d - b) as int);
    }
    let mant_ok = if d == e {
        e > b && digits_between(&v, b, e)
    } else {
        let left = digits_between(&v, b, d);
        let right = digits_between(&v, d + 1, e);
        proof {
            assert(m.take(d - b) =~= v@.subrange(b as int, d as int));
            assert(m.skip(d - b + 1) =~= v@.subrange(d + 1, e as int));
        }
        left && right && (d > b || e > d + 1)
    };
    if !mant_ok {
        return false;
    }
    if e == len {
        return true;
    }
    // Exponent: v[e + 1..], with an optional sign.
    let x = e + 1;
    let xs: usize = if x < len && (v[x] == '+' || v[x] == '-') {
        x + 1
    } else {
        x
    };
    proof {
        let after = body.skip(e - b + 1);
        assert(after =~= v@.skip(x as int));
        assert(strip_sign(after) =~= v@.subrange(xs as int, len as int));
    }
    xs < len && digits_between(&v, xs, len)
}

// ---------------------------------------------------------------------------
// JSON <-> Hrana
// ---------------------------------------------------------------------------

/// `{"type": <ty>}`.
pub open spec fn typed(ty: Seq<char>) -> JsonV {
    JsonV::Object(seq![("type"@, JsonV::Str(ty))])
}

/// `{"type": <ty>, "value": <v>}`.
pub open spec fn typed_value(ty: Seq<char>, v: JsonV) -> JsonV {
    JsonV::Object(seq![("type"@, JsonV::Str(ty)), ("value"@, v)])
}

/// The Hrana argument for a bound parameter.
pub open spec fn hrana_arg_spec(v: JsonV) -> JsonV {
    match v {
        JsonV::Null => typed("null"@),
        // Hrana has no boolean type; SQLite stores booleans as 0/1.
        JsonV::Bool(b) => typed_value("integer"@, JsonV::Str(if b { "1"@ } else { "0"@ })),
        // An integer beyond `i64` goes out as a float, written with its digits.
        JsonV::Number(NumV::Int(n)) => if i64::MIN <= n <= i64::MAX {
            typed_value("integer"@, JsonV::Str(int_text(n)))
        } else {
            typed_value("float"@, JsonV::Number(NumV::Float(int_text(n))))
        },
        JsonV::Number(NumV::Float(_)) => typed_value("float"@, v),
        JsonV::Str(s) => typed_value("text"@, JsonV::Str(s)),
        // Arrays/objects are stored as their JSON text representation.
        _ => typed_value("text"@, JsonV::Str(json_text(v))),
    }
}

/// The member `value`, or null.
pub open spec fn value_or_null(v: JsonV) -> JsonV {
    match jv_get(v, "value"@) {
        Some(x) => x,
        None => JsonV::Null,
    }
}

/// The plain JSON for a Hrana value object from a result row.
pub open spec fn hrana_value_spec(v: JsonV) -> JsonV {
    let ty = get_str(v, "type"@);
    if ty is None || ty == Some("null"@) {
        JsonV::Null
    } else if ty == Some("integer"@) {
        // Integers arrive as strings; keep precision, fall back to text.
        match jv_get(v, "value"@) {
            Some(JsonV::Str(s)) => match parse_i64_spec(s) {
                Some(i) => jv_int(i as int),
                None => JsonV::Str(s),
            },
            Some(JsonV::Number(n)) => JsonV::Number(n),
            _ => JsonV::Null,
        }
    } else if ty == Some("float"@) {
        match jv_get(v, "value"@) {
            Some(JsonV::Number(n)) => JsonV::Number(n),
            Some(JsonV::Str(s)) => if is_float_literal(s) {
                JsonV::Number(NumV::Float(s))
            } else {
                JsonV::Null
            },
            _ => JsonV::Null,
        }
    } else if ty == Some("text"@) {
        value_or_null(v)
    } else if ty == Some("blob"@) {
        // Re-encode blobs as standard base64 so the grid gets a stable string.
        match get_str(v, "base64"@) {
            Some(b64) => match base64_decoded(b64) {
                Some(bytes) => if base64_encodable(bytes.len()) {
                    JsonV::Str(base64_encoded(bytes))
                } else {
                    JsonV::Str(b64)
                },
                None => JsonV::Str(b64),
            },
            None => JsonV::Null,
        }
    } else {
        value_or_null(v)
    }
}

fn typed_json(ty: &str) -> (r: Json)
    ensures
        r@ == typed(ty@),
{
    let mut pairs: Vec<(String, Json)> = Vec::new();
    pairs.push((owned("type"), Json::Str(owned(ty))));
    let r = object_json(pairs);
    proof {
        assert(pairs_view(pairs@) =~= seq![("type"@, JsonV::Str(ty@))]);
    }
    r
}

fn typed_value_json(ty: &str, v: Json) -> (r: Json)
    ensures
        r@ == typed_value(ty@, v@),
{
    let ghost vv = v@;
    let mut pairs: Vec<(String, Json)> = Vec::new();
    pairs.push((owned("type"), Json::Str(owned(ty))));
    pairs.push((owned("value"), v));
    let r = object_json(pairs);
    proof {
        assert(pairs_view(pairs@) =~= seq![("type"@, JsonV::Str(ty@)), ("value"@, vv)]);
    }
    r
}

/// Convert a bound parameter (JSON) into a Hrana argument object.
pub fn json_to_hrana_arg(value: &Json) -> (r: Json)
    ensures
        r@ == hrana_arg_spec(value@),
{
    match value {
        Json::Null => typed_json("null"),
        Json::Bool(b) => typed_value_json(
            "integer",
            Json::Str(owned(
                if *b {
                    "1"
                } else {
                    "0"
                },
            )),
        ),
        Json::Number(n) => {
            match value.as_i64() {
                Some(i) => typed_value_json("integer", Json::Str(fmt_i64(i))),
                None => {
                    let f = match n {
                        JsonNumber::PosInt(u) => JsonNumber::Float(crate::utils::text::fmt_u64(*u)),
                        JsonNumber::NegInt(i) => JsonNumber::Float(fmt_i64(*i)),
                        JsonNumber::Float(t) => JsonNumber::Float(t.clone()),
                    };
                    typed_value_json("float", Json::Number(f))
                },
            }
        },
        Json::Str(s) => typed_value_json("text", Json::Str(s.clone())),
        _ => typed_value_json("text", Json::Str(to_json_text(value))),
    }
}

/// The member `value`, copied, or null.
fn value_or_null_json(value: &Json) -> (r: Json)
    ensures
        r@ == value_or_null(value@),
{
    match value.get("value") {
        Some(x) => x.clone_json(),
        None => Json::Null,
    }
}

/// Convert a Hrana value object from a result row into plain JSON. A blob
/// whose text is valid standard base64 comes back as that same text.
pub fn hrana_value_to_json(value: &Json) -> (r: Json)
    ensures
        r@ == hrana_value_spec(value@),
        get_str(value@, "type"@) == Some("blob"@) ==> match get_str(value@, "base64"@) {
            Some(t) => base64_decoded(t) is Some ==> r@ == JsonV::Str(t),
            None => true,
        },
{
    proof {
        reveal_strlit("null");
        reveal_strlit("integer");
        reveal_strlit("float");
        reveal_strlit("text");
        reveal_strlit("blob");
        assert("blob"@ != "null"@) by {
            assert("blob"@[0] != "null"@[0]);
        }
        assert("blob"@ != "integer"@) by {
            assert("blob"@[0] != "integer"@[0]);
        }
        assert("blob"@ != "float"@) by {
            assert("blob"@[0] != "float"@[0]);
        }
        assert("blob"@ != "text"@) by {
            assert("blob"@[0] != "text"@[0]);
        }
    }
    let ty = match value.get("type") {
        Some(t) => t.as_str(),
        None => None,
    };
    proof {
        assert(ty.is_some() == (get_str(value@, "type"@) is Some));
        assert(ty matches Some(t) ==> get_str(value@, "type"@) == Some(t@));
    }
    match ty {
        None => Json::Null,
        Some(t) => {
            if str_eq(t, "null") {
                Json::Null
            } else if str_eq(t, "integer") {
                match value.get("value") {
                    Some(Json::Str(s)) => match parse_i64(s.as_str()) {
                        Some(i) => int_json(i),
                        None => Json::Str(s.clone()),
                    },
                    Some(Json::Number(n)) => Json::Number(n.clone_number()),
                    _ => Json::Null,
                }
            } else if str_eq(t, "float") {
                match value.get("value") {
                    Some(Json::Number(n)) => Json::Number(n.clone_number()),
                    Some(Json::Str(s)) => {
                        if float_literal(s.as_str()) {
                            Json::Number(JsonNumber::Float(s.clone()))
                        } else {
                            Json::Null
                        }
                    },
                    _ => Json::Null,
                }
            } else if str_eq(t, "text") {
                value_or_null_json(value)
            } else if str_eq(t, "blob") {
                let b64 = match value.get("base64") {
                    Some(b) => b.as_str(),
                    None => None,
                };
                match b64 {
                    Some(b64) => match base64_decode(b64) {
                        Some(bytes) => {
                            if bytes.len() / 3 <= (usize::MAX - 4) / 4 {
                                proof {
                                    assert(bytes@.len() / 3 * 4 + 4 <= usize::MAX);
                                }
                                blob_to_json(bytes.as_slice())
                            } else {
                                Json::Str(owned(b64))
                            }
                        },
                        None => Json::Str(owned(b64)),
                    },
                    None => Json::Null,
                }
            } else {
                value_or_null_json(value)
            }
        },
    }
}

/// A bound parameter that is null, an `i64`, a non-integer number or a
/// string reads back as itself from the Hrana value the server would echo for it: what goes out
/// as an argument comes back unchanged in a result row.
pub proof fn lemma_hrana_roundtrip(v: JsonV)
    requires
        v is Null || v is Str || (v is Number && (v->Number_0 is Float || (i64::MIN
            <= v->Number_0->Int_0 <= i64::MAX))),
    ensures
        hrana_value_spec(hrana_arg_spec(v)) == v,
{
    reveal_strlit("type");
    reveal_strlit("value");
    reveal_strlit("null");
    reveal_strlit("integer");
    reveal_strlit("float");
    reveal_strlit("text");
    reveal_with_fuel(pairs_get, 3);
    assert("type"@ != "value"@) by {
        assert("type"@[0] != "value"@[0]);
    }
    assert("integer"@ != "null"@) by {
        assert("integer"@.len() != "null"@.len());
    }
    assert("float"@ != "null"@) by {
        assert("float"@[0] != "null"@[0]);
    }
    assert("float"@ != "integer"@) by {
        assert("float"@[0] != "integer"@[0]);
    }
    assert("text"@ != "null"@) by {
        assert("text"@[0] != "null"@[0]);
    }
    assert("text"@ != "integer"@) by {
        assert("text"@.len() != "integer"@.len());
    }
    assert("text"@ != "float"@) by {
        assert("text"@.len() != "float"@.len());
    }
    match v {
        JsonV::Number(NumV::Int(n)) => {
            if i64::MIN <= n <= i64::MAX {
                lemma_parse_int_text(n as i64);
            }
        },
        _ => {},
    }
}

/// A boolean parameter goes out as an integer: read back from the server it
/// is 1 for true and 0 for false, so true and false never give the same
/// argument.
pub proof fn lemma_bool_args(b: bool)
    ensures
        hrana_value_spec(hrana_arg_spec(JsonV::Bool(b))) == jv_int(
            if b {
                1
            } else {
                0
            },
        ),
        hrana_arg_spec(JsonV::Bool(true)) != hrana_arg_spec(JsonV::Bool(false)),
{
    reveal_strlit("type");
    reveal_strlit("value");
    reveal_strlit("null");
    reveal_strlit("integer");
    reveal_strlit("1");
    reveal_strlit("0");
    reveal_with_fuel(pairs_get, 3);
    assert("type"@ != "value"@) by {
        assert("type"@[0] != "value"@[0]);
    }
    assert("integer"@ != "null"@) by {
        assert("integer"@.len() != "null"@.len());
    }
    let one = parse_i64_spec("1"@);
    let zero = parse_i64_spec("0"@);
    assert(split_sign("1"@, true).1 =~= "1"@);
    assert(split_sign("0"@, true).1 =~= "0"@);
    assert(digits_value(Seq::<char>::empty()) == 0);
    assert(digits_value("1"@) == 1) by {
        assert("1"@.drop_last() =~= Seq::<char>::empty());
        assert("1"@.last() == '1');
        assert(('1' as int) == 49);
    }
    assert(digits_value("0"@) == 0) by {
        assert("0"@.drop_last() =~= Seq::<char>::empty());
        assert("0"@.last() == '0');
        assert(('0' as int) == 48);
    }
    assert(one == Some(1i64));
    assert(zero == Some(0i64));
    let t = hrana_arg_spec(JsonV::Bool(true));
    let f = hrana_arg_spec(JsonV::Bool(false));
    assert(jv_get(t, "value"@) != jv_get(f, "value"@));
}

} // verus!
