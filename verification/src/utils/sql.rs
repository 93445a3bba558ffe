//! Lightweight SQL statement classification.
//!
//! libSQL accepts arbitrary SQL in `execute_query`, so we need to tell apart
//! statements that return rows (and can be paginated) from statements that
//! only report an affected-row count.

use vstd::prelude::*;

use crate::utils::text::{
    ascii_lower, contains_seq, is_whitespace, is_ws, lead_count, lemma_lead_count_bound,
    lemma_lead_count_is, lemma_trail_count_bound, lemma_trail_count_is, lower_char, push_char,
    str_eq, to_chars, to_lower, trail_count, ws_pred,
};

verus! {

/// A character that ends a keyword: whitespace or an opening parenthesis.
pub open spec fn is_sep(c: char) -> bool {
    is_ws(c) || c == '('
}

pub open spec fn sep_pred() -> spec_fn(char) -> bool {
    |c: char| is_sep(c)
}

pub open spec fn word_pred() -> spec_fn(char) -> bool {
    |c: char| !is_sep(c)
}

/// The text with its leading separators skipped.
pub open spec fn skip_seps(s: Seq<char>) -> Seq<char> {
    s.skip(lead_count(s, sep_pred()) as int)
}

/// Index of the first newline at or after `i`, or the length.
pub open spec fn line_end(t: Seq<char>, i: int) -> int
    decreases t.len() - i,
{
    if i < 0 || i >= t.len() {
        t.len() as int
    } else if t[i] == '\n' {
        i
    } else {
        line_end(t, i + 1)
    }
}

/// Index just past the first `*/` at or after `i`, or the length when the
/// comment is never closed.
pub open spec fn block_end(t: Seq<char>, i: int) -> int
    decreases t.len() - i,
{
    if i < 0 || i + 1 >= t.len() {
        t.len() as int
    } else if t[i] == '*' && t[i + 1] == '/' {
        i + 2
    } else {
        block_end(t, i + 1)
    }
}

/// The text after a leading comment: a `--` comment runs to the end of its
/// line, a `/* */` comment to its closing `*/` (or to the end of the text).
/// Text that does not start with a comment is unchanged.
pub open spec fn skip_comment(t: Seq<char>) -> Seq<char> {
    if t.len() >= 2 && t[0] == '-' && t[1] == '-' {
        t.skip(line_end(t, 2))
    } else if t.len() >= 2 && t[0] == '/' && t[1] == '*' {
        t.skip(block_end(t, 2))
    } else {
        t
    }
}

/// The first word of the statement, lower-cased: skip separators and a
/// leading comment, skip separators again, then take everything up to the
/// next separator.
pub open spec fn first_keyword_spec(s: Seq<char>) -> Seq<char> {
    let u = skip_seps(skip_comment(skip_seps(s)));
    ascii_lower(u.take(lead_count(u, word_pred()) as int))
}

pub open spec fn returns_rows_spec(s: Seq<char>) -> bool {
    let k = first_keyword_spec(s);
    k == "select"@ || k == "with"@ || k == "pragma"@ || k == "explain"@ || k == "values"@
}

pub open spec fn is_wrappable_spec(s: Seq<char>) -> bool {
    let k = first_keyword_spec(s);
    k == "select"@ || k == "with"@
}

/// A character that may trail a statement: whitespace or `;`.
pub open spec fn tail_pred() -> spec_fn(char) -> bool {
    |c: char| is_ws(c) || c == ';'
}

/// The statement without leading whitespace and without the trailing run of
/// semicolons and whitespace.
pub open spec fn strip_semicolons_spec(s: Seq<char>) -> Seq<char> {
    let t = s.skip(lead_count(s, ws_pred()) as int);
    t.take(t.len() - trail_count(t, tail_pred()))
}

/// Index of the first character at or after `from` that is not a separator.
fn skip_seps_from(v: &Vec<char>, from: usize) -> (i: usize)
    requires
        from <= v@.len(),
    ensures
        from <= i <= v@.len(),
        forall|j: int| from <= j < i ==> #[trigger] is_sep(v@[j]),
        i < v@.len() ==> !is_sep(v@[i as int]),
{
    let mut i = from;
    while i < v.len() && (is_whitespace(v[i]) || v[i] == '(')
        invariant
            from <= i <= v@.len(),
            forall|j: int| from <= j < i ==> #[trigger] is_sep(v@[j]),
        decreases v@.len() - i,
    {
        i = i + 1;
    }
    i
}

/// Where the text after a comment starting at `a` begins (`a` itself when
/// no comment starts there).
fn comment_end(v: &Vec<char>, a: usize) -> (c: usize)
    requires
        a <= v@.len(),
    ensures
        a <= c <= v@.len(),
        v@.skip(c as int) == skip_comment(v@.skip(a as int)),
{
    let ghost t = v@.skip(a as int);
    if v.len() - a >= 2 && v[a] == '-' && v[a + 1] == '-' {
        let mut c = a + 2;
        while c < v.len() && v[c] != '\n'
            invariant
                a + 2 <= c <= v@.len(),
                forall|j: int| a + 2 <= j < c ==> #[trigger] v@[j] != '\n',
            decreases v@.len() - c,
        {
            c = c + 1;
        }
        proof {
            assert(t[0] == v@[a as int] && t[1] == v@[a + 1]);
            assert forall|j: int| 2 <= j < c - a implies #[trigger] t[j] != '\n' by {
                assert(t[j] == v@[j + a]);
            }
            if c < v@.len() {
                assert(t[c - a] == v@[c as int]);
            }
            lemma_line_end(t, 2, c - a);
            assert(t.skip(c - a) =~= v@.skip(c as int));
        }
        c
    } else if v.len() - a >= 2 && v[a] == '/' && v[a + 1] == '*' {
        let mut k = a + 2;
        while k < v.len() - 1 && !(v[k] == '*' && v[k + 1] == '/')
            invariant
                v@.len() >= 2,
                a + 2 <= k <= v@.len(),
                forall|j: int|
                    a + 2 <= j < k ==> !(#[trigger] v@[j] == '*' && v@[j + 1] == '/'),
            decreases v@.len() - k,
        {
            k = k + 1;
        }
        let c = if k < v.len() - 1 {
            k + 2
        } else {
            v.len()
        };
        proof {
            assert(t[0] == v@[a as int] && t[1] == v@[a + 1]);
            assert forall|j: int| 2 <= j < k - a && j + 1 < t.len() implies !(#[trigger] t[j] == '*'
                && t[j + 1] == '/') by {
                assert(t[j] == v@[j + a]);
                assert(t[j + 1] == v@[j + 1 + a]);
            }
            if k - a + 1 < t.len() {
                assert(t[k - a] == v@[k as int]);
                assert(t[k - a + 1] == v@[k + 1]);
            }
            lemma_block_end(t, 2, k - a);
            assert(t.skip(c - a) =~= v@.skip(c as int));
        }
        c
    } else {
        proof {
            if t.len() >= 2 {
                assert(t[0] == v@[a as int] && t[1] == v@[a + 1]);
            }
        }
        a
    }
}

proof fn lemma_line_end(t: Seq<char>, i: int, k: int)
    requires
        0 <= i <= k <= t.len(),
        forall|j: int| i <= j < k ==> #[trigger] t[j] != '\n',
        k < t.len() ==> t[k] == '\n',
    ensures
        line_end(t, i) == k,
    decreases k - i,
{
    if i < k {
        lemma_line_end(t, i + 1, k);
    }
}

proof fn lemma_block_end(t: Seq<char>, i: int, k: int)
    requires
        0 <= i <= k <= t.len(),
        forall|j: int| i <= j < k && j + 1 < t.len() ==> !(#[trigger] t[j] == '*' && t[j + 1] == '/'),
        k + 1 < t.len() ==> t[k] == '*' && t[k + 1] == '/',
    ensures
        block_end(t, i) == if k + 1 < t.len() {
            k + 2
        } else {
            t.len() as int
        },
    decreases k - i,
{
    if i < k && i + 1 < t.len() {
        lemma_block_end(t, i + 1, k);
    }
}

/// Skip whitespace and a leading line or block comment, then return the first
/// SQL keyword in lowercase.
pub fn first_keyword(sql: &str) -> (r: String)
    ensures
        r@ == first_keyword_spec(sql@),
{
    let v = to_chars(sql);
    let a = skip_seps_from(&v, 0);
    let c = comment_end(&v, a);
    let d = skip_seps_from(&v, c);
    let mut b: usize = d;
    while b < v.len() && !(is_whitespace(v[b]) || v[b] == '(')
        invariant
            v@ == sql@,
            d <= b <= v@.len(),
            forall|j: int| d <= j < b ==> !#[trigger] is_sep(v@[j]),
        decreases v@.len() - b,
    {
        b = b + 1;
    }
    let mut out = String::new();
    let mut i: usize = d;
    while i < b
        invariant
            v@ == sql@,
            d <= i <= b <= v@.len(),
            out@ == ascii_lower(v@.subrange(d as int, i as int)),
        decreases b - i,
    {
        push_char(&mut out, to_lower(v[i]));
        proof {
            assert(ascii_lower(v@.subrange(d as int, i + 1)) =~= ascii_lower(
                v@.subrange(d as int, i as int),
            ).push(lower_char(v@[i as int])));
        }
        i = i + 1;
    }
    proof {
        let s = sql@;
        lemma_seps_skipped(s, 0, a as int);
        assert(s.skip(0) =~= s);
        lemma_seps_skipped(s, c as int, d as int);
        let t = s.skip(d as int);
        assert forall|j: int| 0 <= j < b - d implies #[trigger] word_pred()(t[j]) by {
            assert(t[j] == s[j + d]);
        }
        if b < s.len() {
            assert(t[b - d] == s[b as int]);
        }
        lemma_lead_count_is(t, word_pred(), (b - d) as int);
        assert(t.take(b - d) =~= s.subrange(d as int, b as int));
    }
    out
}

/// A scan over separators from `from` to `to` skips what `skip_seps` skips.
proof fn lemma_seps_skipped(s: Seq<char>, from: int, to: int)
    requires
        0 <= from <= to <= s.len(),
        forall|j: int| from <= j < to ==> #[trigger] is_sep(s[j]),
        to < s.len() ==> !is_sep(s[to]),
    ensures
        skip_seps(s.skip(from)) == s.skip(to),
{
    let t = s.skip(from);
    assert forall|j: int| 0 <= j < to - from implies #[trigger] sep_pred()(t[j]) by {
        assert(t[j] == s[j + from]);
    }
    if to < s.len() {
        assert(t[to - from] == s[to]);
    }
    lemma_lead_count_is(t, sep_pred(), to - from);
    assert(t.skip(to - from) =~= s.skip(to));
}

/// Does this statement produce a result set we should read with a row cursor?
pub fn returns_rows(sql: &str) -> (r: bool)
    ensures
        r == returns_rows_spec(sql@),
{
    let k = first_keyword(sql);
    let k = k.as_str();
    str_eq(k, "select") || str_eq(k, "with") || str_eq(k, "pragma") || str_eq(k, "explain")
        || str_eq(k, "values")
}

/// Can we safely wrap this statement in `SELECT * FROM (...)` for LIMIT/OFFSET
/// pagination and `SELECT COUNT(*) FROM (...)` counting? Only true SELECT-shaped
/// statements qualify — PRAGMA/EXPLAIN cannot be used as subqueries.
pub fn is_wrappable(sql: &str) -> (r: bool)
    ensures
        r == is_wrappable_spec(sql@),
{
    let k = first_keyword(sql);
    let k = k.as_str();
    str_eq(k, "select") || str_eq(k, "with")
}

/// Every statement that can be wrapped for pagination is also one that
/// returns rows.
pub proof fn lemma_wrappable_returns_rows(sql: Seq<char>)
    ensures
        is_wrappable_spec(sql) ==> returns_rows_spec(sql),
{
}

/// Trim leading whitespace and the trailing run of semicolons and whitespace,
/// so a statement can be embedded as a subquery without a syntax error.
pub fn strip_trailing_semicolons(sql: &str) -> (r: &str)
    ensures
        r@ == strip_semicolons_spec(sql@),
{
    let v = to_chars(sql);
    let mut a: usize = 0;
    while a < v.len() && is_whitespace(v[a])
        invariant
            v@ == sql@,
            a <= v@.len(),
            forall|j: int| 0 <= j < a ==> is_ws(#[trigger] v@[j]),
        decreases v@.len() - a,
    {
        a = a + 1;
    }
    let mut e: usize = v.len();
    while e > a && (is_whitespace(v[e - 1]) || v[e - 1] == ';')
        invariant
            v@ == sql@,
            a <= e <= v@.len(),
            forall|j: int| e <= j < v@.len() ==> #[trigger] tail_pred()(v@[j]),
        decreases e,
    {
        e = e - 1;
    }
    proof {
        let s = sql@;
        assert forall|j: int| 0 <= j < a implies #[trigger] ws_pred()(s[j]) by {}
        lemma_lead_count_is(s, ws_pred(), a as int);
        let t = s.skip(a as int);
        assert forall|j: int| e - a <= j < t.len() implies #[trigger] tail_pred()(t[j]) by {
            assert(t[j] == s[j + a]);
        }
        if e > a {
            assert(t[e - a - 1] == s[e - 1]);
        }
        lemma_trail_count_is(t, tail_pred(), (e - a) as int);
        assert(t.take((e - a) as int) =~= s.subrange(a as int, e as int));
    }
    sql.substring_char(a, e)
}

/// What `strip_trailing_semicolons` leaves is a piece of the statement with no
/// whitespace at either end and no `;` at the end, and stripping it again
/// changes nothing.
pub proof fn lemma_strip_semicolons(s: Seq<char>)
    ensures
        ({
            let r = strip_semicolons_spec(s);
            &&& r.len() > 0 ==> !is_ws(r[0]) && !is_ws(r.last()) && r.last() != ';'
            &&& contains_seq(s, r)
            &&& strip_semicolons_spec(r) == r
        }),
{
    let a = lead_count(s, ws_pred()) as int;
    lemma_lead_count_bound(s, ws_pred());
    let t = s.skip(a);
    lemma_trail_count_bound(t, tail_pred());
    let n = t.len() - trail_count(t, tail_pred());
    let r = t.take(n);
    assert(r =~= s.subrange(a, a + r.len()));
    if r.len() > 0 {
        assert(r[0] == s[a]);
        assert(r.last() == t[n - 1]);
        assert(!tail_pred()(t[n - 1]));
    }
    // Nothing left to strip at either end.
    if r.len() > 0 {
        assert(!ws_pred()(r[0]));
    }
    lemma_lead_count_is(r, ws_pred(), 0);
    assert(r.skip(0) =~= r);
    if r.len() > 0 {
        assert(!tail_pred()(r[r.len() - 1]));
    }
    lemma_trail_count_is(r, tail_pred(), r.len() as int);
    assert(r.take(r.len() as int) =~= r);
}

} // verus!
