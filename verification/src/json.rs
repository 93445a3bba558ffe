//! A JSON document as the library reads and writes it.
//!
//! Requests arrive as JSON and every answer goes back as JSON, so the
//! handlers work on this type. Numbers keep what the logic needs: integers
//! exactly, and any other number as the decimal text it was written with.

use vstd::prelude::*;

use crate::utils::text::{fmt_i64, int_text, push_char, push_str, str_eq};

verus! {

/// A JSON number.
#[derive(Debug, PartialEq)]
pub enum JsonNumber {
    /// A non-negative integer.
    PosInt(u64),
    /// A negative integer.
    NegInt(i64),
    /// Any other number, as its decimal text (e.g. `2.25`).
    Float(String),
}

/// The mathematical value of a JSON number.
pub enum NumV {
    Int(int),
    Float(Seq<char>),
}

impl View for JsonNumber {
    type V = NumV;

    open spec fn view(&self) -> NumV {
        match self {
            JsonNumber::PosInt(u) => NumV::Int(*u as int),
            JsonNumber::NegInt(i) => NumV::Int(*i as int),
            JsonNumber::Float(s) => NumV::Float(s@),
        }
    }
}

/// The mathematical value of a JSON document.
pub enum JsonV {
    Null,
    Bool(bool),
    Number(NumV),
    Str(Seq<char>),
    Array(Seq<JsonV>),
    Object(Seq<(Seq<char>, JsonV)>),
}

/// A JSON document.
#[derive(Debug, PartialEq)]
pub enum Json {
    Null,
    Bool(bool),
    Number(JsonNumber),
    Str(String),
    Array(Vec<Json>),
    /// Members in order; a key occurs at most once.
    Object(Vec<(String, Json)>),
}

/// The value of a document.
pub open spec fn json_view(j: Json) -> JsonV
    decreases j,
{
    match j {
        Json::Null => JsonV::Null,
        Json::Bool(b) => JsonV::Bool(b),
        Json::Number(n) => JsonV::Number(n@),
        Json::Str(s) => JsonV::Str(s@),
        Json::Array(items) => JsonV::Array(
            Seq::new(
                items@.len(),
                |i: int|
                    if 0 <= i < items@.len() {
                        json_view(items@[i])
                    } else {
                        JsonV::Null
                    },
            ),
        ),
        Json::Object(pairs) => JsonV::Object(
            Seq::new(
                pairs@.len(),
                |i: int|
                    if 0 <= i < pairs@.len() {
                        (pairs@[i].0@, json_view(pairs@[i].1))
                    } else {
                        (Seq::empty(), JsonV::Null)
                    },
            ),
        ),
    }
}

impl View for Json {
    type V = JsonV;

    open spec fn view(&self) -> JsonV {
        json_view(*self)
    }
}

/// The values of a sequence of documents.
pub open spec fn views(s: Seq<Json>) -> Seq<JsonV> {
    s.map_values(|j: Json| j@)
}

/// The values of a sequence of members.
pub open spec fn pairs_view(p: Seq<(String, Json)>) -> Seq<(Seq<char>, JsonV)> {
    p.map_values(|e: (String, Json)| (e.0@, e.1@))
}

/// The value of an object document is the values of its members.
pub proof fn lemma_object_view(pairs: Vec<(String, Json)>)
    ensures
        Json::Object(pairs)@ == JsonV::Object(pairs_view(pairs@)),
{
    let j = Json::Object(pairs);
    let a = json_view(j)->Object_0;
    assert(a.len() == pairs@.len());
    assert forall|i: int| 0 <= i < pairs@.len() implies a[i] == (pairs@[i].0@, json_view(pairs@[i].1)) by {}
    assert(a =~= pairs_view(pairs@));
}

/// The value of an array document is the values of its items.
pub proof fn lemma_array_view(items: Vec<Json>)
    ensures
        Json::Array(items)@ == JsonV::Array(views(items@)),
{
    let j = Json::Array(items);
    let a = json_view(j)->Array_0;
    assert(a.len() == items@.len());
    assert forall|i: int| 0 <= i < items@.len() implies a[i] == json_view(items@[i]) by {}
    assert(a =~= views(items@));
}

/// The texts of a sequence of strings.
pub open spec fn strings_view(v: Seq<String>) -> Seq<Seq<char>> {
    v.map_values(|s: String| s@)
}

/// The values of a sequence of rows.
pub open spec fn rows_view(rows: Seq<Vec<Json>>) -> Seq<Seq<JsonV>> {
    rows.map_values(|row: Vec<Json>| views(row@))
}

pub open spec fn opt_view(o: Option<&Json>) -> Option<JsonV> {
    match o {
        Some(j) => Some(j@),
        None => None,
    }
}

/// The first member named `k`, searching from position `i`.
pub open spec fn pairs_get(p: Seq<(Seq<char>, JsonV)>, k: Seq<char>, i: int) -> Option<JsonV>
    decreases p.len() - i,
{
    if i < 0 || i >= p.len() {
        None
    } else if p[i].0 == k {
        Some(p[i].1)
    } else {
        pairs_get(p, k, i + 1)
    }
}

/// `value.get(key)`: the member `key` of an object, `None` for anything else.
pub open spec fn jv_get(v: JsonV, k: Seq<char>) -> Option<JsonV> {
    match v {
        JsonV::Object(p) => pairs_get(p, k, 0),
        _ => None,
    }
}

/// `value.as_str()`.
pub open spec fn jv_str(v: JsonV) -> Option<Seq<char>> {
    match v {
        JsonV::Str(s) => Some(s),
        _ => None,
    }
}

/// `value.as_i64()`.
pub open spec fn jv_i64(v: JsonV) -> Option<i64> {
    match v {
        JsonV::Number(NumV::Int(n)) => if i64::MIN <= n <= i64::MAX {
            Some(n as i64)
        } else {
            None
        },
        _ => None,
    }
}

/// `value.as_u64()`.
pub open spec fn jv_u64(v: JsonV) -> Option<u64> {
    match v {
        JsonV::Number(NumV::Int(n)) => if 0 <= n <= u64::MAX {
            Some(n as u64)
        } else {
            None
        },
        _ => None,
    }
}

/// The member `k` of `v` as a string, if it is one.
pub open spec fn get_str(v: JsonV, k: Seq<char>) -> Option<Seq<char>> {
    match jv_get(v, k) {
        Some(x) => jv_str(x),
        None => None,
    }
}

/// The integer `n` as a JSON value.
pub open spec fn jv_int(n: int) -> JsonV {
    JsonV::Number(NumV::Int(n))
}

impl Json {
    /// `value.get(key)`.
    pub fn get(&self, key: &str) -> (r: Option<&Json>)
        ensures
            opt_view(r) == jv_get(self@, key@),
    {
        match self {
            Json::Object(pairs) => {
                proof {
                    lemma_object_view(*pairs);
                }
                let ghost p = self@->Object_0;
                let mut i: usize = 0;
                while i < pairs.len()
                    invariant
                        *self == Json::Object(*pairs),
                        p == self@->Object_0,
                        p.len() == pairs@.len(),
                        i <= pairs@.len(),
                        pairs_get(p, key@, 0) == pairs_get(p, key@, i as int),
                    decreases pairs@.len() - i,
                {
                    assert(p[i as int] == (pairs@[i as int].0@, pairs@[i as int].1@));
                    if str_eq(pairs[i].0.as_str(), key) {
                        return Some(&pairs[i].1);
                    }
                    i = i + 1;
                }
                None
            },
            _ => None,
        }
    }

    /// `value.as_str()`.
    pub fn as_str(&self) -> (r: Option<&str>)
        ensures
            r.is_some() == (jv_str(self@) is Some),
            r matches Some(s) ==> jv_str(self@) == Some(s@),
    {
        match self {
            Json::Str(s) => Some(s.as_str()),
            _ => None,
        }
    }

    /// `value.as_array()`.
    pub fn as_array(&self) -> (r: Option<&Vec<Json>>)
        ensures
            r.is_some() == (self@ is Array),
            r matches Some(v) ==> *self == Json::Array(*v),
    {
        match self {
            Json::Array(v) => Some(v),
            _ => None,
        }
    }

    /// `value.as_i64()`.
    pub fn as_i64(&self) -> (r: Option<i64>)
        ensures
            r == jv_i64(self@),
    {
        match self {
            Json::Number(JsonNumber::PosInt(u)) => {
                if *u <= 9223372036854775807u64 {
                    Some(*u as i64)
                } else {
                    None
                }
            },
            Json::Number(JsonNumber::NegInt(i)) => Some(*i),
            _ => None,
        }
    }

    /// `value.as_u64()`.
    pub fn as_u64(&self) -> (r: Option<u64>)
        ensures
            r == jv_u64(self@),
    {
        match self {
            Json::Number(JsonNumber::PosInt(u)) => Some(*u),
            Json::Number(JsonNumber::NegInt(i)) => {
                if *i >= 0 {
                    Some(*i as u64)
                } else {
                    None
                }
            },
            _ => None,
        }
    }

    /// `value.is_object()`.
    pub fn is_object(&self) -> (r: bool)
        ensures
            r == (self@ is Object),
    {
        match self {
            Json::Object(_) => true,
            _ => false,
        }
    }

    /// A copy of the document.
    pub fn clone_json(&self) -> (r: Json)
        ensures
            r@ == self@,
        decreases self@,
    {
        match self {
            Json::Null => Json::Null,
            Json::Bool(b) => Json::Bool(*b),
            Json::Number(n) => Json::Number(n.clone_number()),
            Json::Str(s) => Json::Str(s.clone()),
            Json::Array(items) => {
                let mut out: Vec<Json> = Vec::new();
                let mut i: usize = 0;
                while i < items.len()
                    invariant
                        *self == Json::Array(*items),
                        i <= items@.len(),
                        out@.len() == i,
                        forall|j: int| 0 <= j < i ==> (#[trigger] out@[j])@ == items@[j]@,
                    decreases items@.len() - i,
                {
                    proof {
                        lemma_array_view(*items);
                        let sv = self@->Array_0;
                        assert(sv[i as int] == items@[i as int]@);
                        vstd::seq::axiom_seq_index_decreases(sv, i as int);
                        assert(decreases_to!(self@ => items@[i as int]@));
                    }
                    let c = items[i].clone_json();
                    out.push(c);
                    i = i + 1;
                }
                proof {
                    lemma_array_view(*items);
                    lemma_array_view(out);
                    assert(views(out@) =~= views(items@));
                }
                Json::Array(out)
            },
            Json::Object(pairs) => {
                let mut out: Vec<(String, Json)> = Vec::new();
                let mut i: usize = 0;
                while i < pairs.len()
                    invariant
                        *self == Json::Object(*pairs),
                        i <= pairs@.len(),
                        out@.len() == i,
                        forall|j: int|
                            0 <= j < i ==> (#[trigger] out@[j]).0@ == pairs@[j].0@ && out@[j].1@
                                == pairs@[j].1@,
                    decreases pairs@.len() - i,
                {
                    let k = pairs[i].0.clone();
                    proof {
                        lemma_object_view(*pairs);
                        let sv = self@->Object_0;
                        assert(sv[i as int] == (pairs@[i as int].0@, pairs@[i as int].1@));
                        vstd::seq::axiom_seq_index_decreases(sv, i as int);
                        assert(decreases_to!(sv[i as int] => sv[i as int].1));
                        assert(decreases_to!(self@ => pairs@[i as int].1@));
                    }
                    let v = pairs[i].1.clone_json();
                    out.push((k, v));
                    i = i + 1;
                }
                proof {
                    lemma_object_view(*pairs);
                    lemma_object_view(out);
                    assert(pairs_view(out@) =~= pairs_view(pairs@));
                }
                Json::Object(out)
            },
        }
    }
}

impl JsonNumber {
    /// A copy of the number.
    pub fn clone_number(&self) -> (r: JsonNumber)
        ensures
            r@ == self@,
    {
        match self {
            JsonNumber::PosInt(u) => JsonNumber::PosInt(*u),
            JsonNumber::NegInt(i) => JsonNumber::NegInt(*i),
            JsonNumber::Float(s) => JsonNumber::Float(s.clone()),
        }
    }
}

/// The integer `i` as JSON.
pub fn int_json(i: i64) -> (r: Json)
    ensures
        r@ == jv_int(i as int),
{
    if i >= 0 {
        Json::Number(JsonNumber::PosInt(i as u64))
    } else {
        Json::Number(JsonNumber::NegInt(i))
    }
}

/// The unsigned integer `u` as JSON.
pub fn uint_json(u: u64) -> (r: Json)
    ensures
        r@ == jv_int(u as int),
{
    Json::Number(JsonNumber::PosInt(u))
}

/// An array of documents.
pub fn array_json(items: Vec<Json>) -> (r: Json)
    ensures
        r@ == JsonV::Array(views(items@)),
{
    proof {
        lemma_array_view(items);
    }
    Json::Array(items)
}

/// An object with the given members, in order.
pub fn object_json(pairs: Vec<(String, Json)>) -> (r: Json)
    ensures
        r@ == JsonV::Object(pairs_view(pairs@)),
{
    proof {
        lemma_object_view(pairs);
    }
    Json::Object(pairs)
}

/// The strings as a JSON array of strings.
pub fn strings_json(v: &Vec<String>) -> (r: Json)
    ensures
        r@ == JsonV::Array(v@.map_values(|s: String| JsonV::Str(s@))),
{
    let mut out: Vec<Json> = Vec::new();
    let mut i: usize = 0;
    while i < v.len()
        invariant
            i <= v@.len(),
            views(out@) =~= v@.take(i as int).map_values(|s: String| JsonV::Str(s@)),
            out@.len() == i,
        decreases v@.len() - i,
    {
        let ghost old_out = out@;
        out.push(Json::Str(v[i].clone()));
        proof {
            assert(views(out@) =~= views(old_out).push(JsonV::Str(v@[i as int]@)));
            assert(v@.take(i + 1) =~= v@.take(i as int).push(v@[i as int]));
        }
        i = i + 1;
    }
    proof {
        assert(v@.take(i as int) =~= v@);
    }
    array_json(out)
}

// ---------------------------------------------------------------------------
// JSON text (compact form, as `serde_json::Value::to_string` writes it;
// strings are written by serde_json itself)
// ---------------------------------------------------------------------------

/// A lowercase hexadecimal digit.
pub open spec fn hex_digit(d: int) -> char {
    if d < 10 {
        (d + 48) as char
    } else {
        (d + 87) as char
    }
}

/// How `serde_json` writes one character inside a string: `"` and `\`
/// backslashed, the five named control escapes, any other character below
/// 0x20 as `\u00XX` (lowercase hex), everything else as itself.
pub open spec fn escape_json_char(c: char) -> Seq<char> {
    if c == '"' {
        seq!['\\', '"']
    } else if c == '\\' {
        seq!['\\', '\\']
    } else if c == '\u{8}' {
        seq!['\\', 'b']
    } else if c == '\t' {
        seq!['\\', 't']
    } else if c == '\n' {
        seq!['\\', 'n']
    } else if c == '\u{c}' {
        seq!['\\', 'f']
    } else if c == '\r' {
        seq!['\\', 'r']
    } else if (c as int) < 32 {
        seq!['\\', 'u', '0', '0', hex_digit((c as int) / 16), hex_digit((c as int) % 16)]
    } else {
        seq![c]
    }
}

/// The escaped characters of a string, without the quotes.
pub open spec fn escape_json(s: Seq<char>) -> Seq<char>
    decreases s.len(),
{
    if s.len() == 0 {
        Seq::empty()
    } else {
        escape_json(s.drop_last()) + escape_json_char(s.last())
    }
}

/// The text `serde_json` writes for a string: quoted and escaped.
pub open spec fn json_string_text(s: Seq<char>) -> Seq<char> {
    seq!['"'] + escape_json(s) + seq!['"']
}

/// `serde_json::to_string` on a `str`: the string as JSON text, escaped as
/// `format_escaped_str` does (`json_string_text`). The call writes into a
/// `Vec<u8>`, which never fails, so its error arm is never taken.
#[verifier::external_body]
fn string_json_text(s: &str) -> (r: String)
    ensures
        r@ == json_string_text(s@),
{
    match serde_json::to_string(s) {
        Ok(t) => t,
        Err(_) => String::new(),
    }
}

/// The pieces joined by `sep`.
pub open spec fn join(parts: Seq<Seq<char>>, sep: Seq<char>) -> Seq<char>
    decreases parts.len(),
{
    if parts.len() == 0 {
        Seq::empty()
    } else if parts.len() == 1 {
        parts[0]
    } else {
        join(parts.drop_last(), sep) + sep + parts.last()
    }
}

/// A number as JSON text.
pub open spec fn number_text(n: NumV) -> Seq<char> {
    match n {
        NumV::Int(i) => int_text(i),
        NumV::Float(t) => t,
    }
}

/// A document as compact JSON text.
pub open spec fn json_text(v: JsonV) -> Seq<char>
    decreases v,
{
    match v {
        JsonV::Null => seq!['n', 'u', 'l', 'l'],
        JsonV::Bool(b) => if b {
            seq!['t', 'r', 'u', 'e']
        } else {
            seq!['f', 'a', 'l', 's', 'e']
        },
        JsonV::Number(n) => number_text(n),
        JsonV::Str(s) => json_string_text(s),
        JsonV::Array(items) => seq!['['] + join(item_texts(items), seq![',']) + seq![']'],
        JsonV::Object(pairs) => seq!['{'] + join(member_texts(pairs), seq![',']) + seq!['}'],
    }
}

/// The JSON text of each item.
pub open spec fn item_texts(items: Seq<JsonV>) -> Seq<Seq<char>>
    decreases items,
{
    Seq::new(
        items.len(),
        |i: int|
            if 0 <= i < items.len() {
                json_text(items[i])
            } else {
                Seq::empty()
            },
    )
}

/// The JSON text `"key":value` of each member.
pub open spec fn member_texts(pairs: Seq<(Seq<char>, JsonV)>) -> Seq<Seq<char>>
    decreases pairs,
{
    Seq::new(
        pairs.len(),
        |i: int|
            if 0 <= i < pairs.len() {
                json_string_text(pairs[i].0) + seq![':'] + json_text(pairs[i].1)
            } else {
                Seq::empty()
            },
    )
}

/// Appends a string as JSON text.
pub fn write_string_text(out: &mut String, s: &str)
    ensures
        final(out)@ == old(out)@ + json_string_text(s@),
{
    let t = string_json_text(s);
    push_str(out, t.as_str());
}

/// Joining one more piece onto a prefix of the pieces.
pub proof fn lemma_join_step(parts: Seq<Seq<char>>, sep: Seq<char>, i: int)
    requires
        0 <= i < parts.len(),
    ensures
        join(parts.take(i + 1), sep) == join(parts.take(i), sep) + (if i == 0 {
            Seq::<char>::empty()
        } else {
            sep
        }) + parts[i],
{
    let t = parts.take(i + 1);
    assert(t.drop_last() =~= parts.take(i));
    if i == 0 {
        assert(join(parts.take(i), sep) =~= Seq::<char>::empty());
        assert(join(t, sep) == t[0]);
        assert(Seq::<char>::empty() + Seq::<char>::empty() + parts[0] =~= parts[0]);
    }
}

/// Appends a document as compact JSON text.
pub fn write_json_text(out: &mut String, v: &Json)
    ensures
        final(out)@ == old(out)@ + json_text(v@),
    decreases v@,
{
    let ghost before = out@;
    match v {
        Json::Null => {
            push_str(out, "null");
            proof {
                reveal_strlit("null");
            }
        },
        Json::Bool(b) => {
            if *b {
                push_str(out, "true");
                proof {
                    reveal_strlit("true");
                }
            } else {
                push_str(out, "false");
                proof {
                    reveal_strlit("false");
                }
            }
        },
        Json::Number(n) => {
            match n {
                JsonNumber::PosInt(u) => {
                    let t = fmt_i64_of_u64(*u);
                    push_str(out, t.as_str());
                },
                JsonNumber::NegInt(i) => {
                    let t = fmt_i64(*i);
                    push_str(out, t.as_str());
                },
                JsonNumber::Float(t) => {
                    push_str(out, t.as_str());
                },
            }
        },
        Json::Str(s) => {
            write_string_text(out, s.as_str());
        },
        Json::Array(items) => {
            proof {
                lemma_array_view(*items);
            }
            let ghost iv = views(items@);
            let ghost parts = item_texts(iv);
            push_char(out, '[');
            let mut i: usize = 0;
            while i < items.len()
                invariant
                    *v == Json::Array(*items),
                    v@ == JsonV::Array(iv),
                    iv == views(items@),
                    parts.len() == iv.len(),
                    forall|j: int| 0 <= j < iv.len() ==> #[trigger] parts[j] == json_text(iv[j]),
                    i <= items@.len(),
                    out@ == before + seq!['['] + join(parts.take(i as int), seq![',']),
                decreases items@.len() - i,
            {
                if i > 0 {
                    push_char(out, ',');
                }
                proof {
                    let sv = v@->Array_0;
                    assert(sv == iv);
                    vstd::seq::axiom_seq_index_decreases(sv, i as int);
                    assert(iv[i as int] == items@[i as int]@);
                    assert(decreases_to!(v@ => items@[i as int]@));
                }
                write_json_text(out, &items[i]);
                proof {
                    lemma_join_step(parts, seq![','], i as int);
                    assert(out@ =~= before + seq!['['] + join(parts.take(i + 1), seq![',']));
                }
                i = i + 1;
            }
            push_char(out, ']');
            proof {
                assert(parts.take(i as int) =~= parts);
                assert(out@ =~= before + json_text(v@));
            }
        },
        Json::Object(pairs) => {
            proof {
                lemma_object_view(*pairs);
            }
            let ghost pv = pairs_view(pairs@);
            let ghost parts = member_texts(pv);
            push_char(out, '{');
            let mut i: usize = 0;
            while i < pairs.len()
                invariant
                    *v == Json::Object(*pairs),
                    v@ == JsonV::Object(pv),
                    pv == pairs_view(pairs@),
                    parts.len() == pv.len(),
                    forall|j: int|
                        0 <= j < pv.len() ==> #[trigger] parts[j] == json_string_text(pv[j].0) + seq![
                            ':',
                        ] + json_text(pv[j].1),
                    i <= pairs@.len(),
                    out@ == before + seq!['{'] + join(parts.take(i as int), seq![',']),
                decreases pairs@.len() - i,
            {
                let ghost mid = out@;
                if i > 0 {
                    push_char(out, ',');
                }
                let ghost after_sep = out@;
                write_string_text(out, pairs[i].0.as_str());
                push_char(out, ':');
                proof {
                    let sv = v@->Object_0;
                    assert(sv == pv);
                    vstd::seq::axiom_seq_index_decreases(sv, i as int);
                    assert(decreases_to!(sv[i as int] => sv[i as int].1));
                    assert(pv[i as int].1 == pairs@[i as int].1@);
                    assert(decreases_to!(v@ => pairs@[i as int].1@));
                }
                write_json_text(out, &pairs[i].1);
                proof {
                    assert(out@ =~= after_sep + parts[i as int]);
                    lemma_join_step(parts, seq![','], i as int);
                    assert(out@ =~= before + seq!['{'] + join(parts.take(i + 1), seq![',']));
                }
                i = i + 1;
            }
            push_char(out, '}');
            proof {
                assert(parts.take(i as int) =~= parts);
                assert(out@ =~= before + json_text(v@));
            }
        },
    }
}

/// The decimal text of a non-negative integer.
fn fmt_i64_of_u64(u: u64) -> (r: String)
    ensures
        r@ == int_text(u as int),
{
    crate::utils::text::fmt_u64(u)
}

/// `value.to_string()`: the document as compact JSON text.
pub fn to_json_text(v: &Json) -> (r: String)
    ensures
        r@ == json_text(v@),
{
    let mut out = String::new();
    write_json_text(&mut out, v);
    proof {
        assert(out@ =~= json_text(v@));
    }
    out
}

/// The strings joined by `sep` (`[String]::join`).
pub fn join_strings(parts: &Vec<String>, sep: &str) -> (r: String)
    ensures
        r@ == join(strings_view(parts@), sep@),
{
    let ghost sv = strings_view(parts@);
    let mut out = String::new();
    let mut i: usize = 0;
    while i < parts.len()
        invariant
            sv == strings_view(parts@),
            i <= parts@.len(),
            out@ == join(sv.take(i as int), sep@),
        decreases parts@.len() - i,
    {
        if i > 0 {
            push_str(&mut out, sep);
        }
        push_str(&mut out, parts[i].as_str());
        proof {
            lemma_join_step(sv, sep@, i as int);
            assert(sv[i as int] == parts@[i as int]@);
            if i == 0 {
                assert(join(sv.take(0), sep@) =~= Seq::<char>::empty());
            }
            assert(out@ =~= join(sv.take(i + 1), sep@));
        }
        i = i + 1;
    }
    proof {
        assert(sv.take(i as int) =~= sv);
    }
    out
}

} // verus!
