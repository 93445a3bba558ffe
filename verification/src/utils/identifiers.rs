//! SQL identifier quoting. libSQL/SQLite uses ANSI double quotes.

use vstd::prelude::*;

use crate::utils::text::push_char;
use crate::utils::text::to_chars;

verus! {

/// What one character of the name turns into inside the quotes.
pub open spec fn escape_piece(c: char, q: char) -> Seq<char> {
    if c == q {
        seq![q, q]
    } else {
        seq![c]
    }
}

/// The body of a quoted name: every quote character doubled.
pub open spec fn escaped(s: Seq<char>, q: char) -> Seq<char>
    decreases s.len(),
{
    if s.len() == 0 {
        Seq::empty()
    } else {
        escaped(s.drop_last(), q) + escape_piece(s.last(), q)
    }
}

/// `s` wrapped in `q`, with each `q` inside doubled.
pub open spec fn quoted(s: Seq<char>, q: char) -> Seq<char> {
    seq![q] + escaped(s, q) + seq![q]
}

/// Reads a quoted body back: the inverse of `escaped`.
pub open spec fn unescape(t: Seq<char>, q: char) -> Option<Seq<char>>
    decreases t.len(),
{
    if t.len() == 0 {
        Some(Seq::empty())
    } else if t.last() != q {
        match unescape(t.drop_last(), q) {
            Some(s) => Some(s.push(t.last())),
            None => None,
        }
    } else if t.len() >= 2 && t[t.len() - 2] == q {
        match unescape(t.take(t.len() - 2), q) {
            Some(s) => Some(s.push(q)),
            None => None,
        }
    } else {
        None
    }
}

proof fn lemma_unescape_escaped(s: Seq<char>, q: char)
    ensures
        unescape(escaped(s, q), q) == Some(s),
    decreases s.len(),
{
    if s.len() > 0 {
        let prev = s.drop_last();
        lemma_unescape_escaped(prev, q);
        let t = escaped(s, q);
        assert(t == escaped(prev, q) + escape_piece(s.last(), q));
        if s.last() == q {
            assert(t.take(t.len() - 2) =~= escaped(prev, q));
        } else {
            assert(t.drop_last() =~= escaped(prev, q));
        }
        assert(prev.push(s.last()) =~= s);
    } else {
        assert(s =~= Seq::<char>::empty());
    }
}

/// Quoting is injective: two different names never quote to the same
/// identifier, so the quoted text always denotes exactly the name given.
pub proof fn lemma_quote_injective(a: Seq<char>, b: Seq<char>, q: char)
    requires
        quoted(a, q) == quoted(b, q),
    ensures
        a == b,
{
    let ta = quoted(a, q);
    assert(ta.subrange(1, ta.len() - 1) =~= escaped(a, q));
    let tb = quoted(b, q);
    assert(tb.subrange(1, tb.len() - 1) =~= escaped(b, q));
    lemma_unescape_escaped(a, q);
    lemma_unescape_escaped(b, q);
}

/// Quote an identifier with `"`, doubling any embedded double quotes to escape
/// them, exactly as SQLite expects.
pub fn quote(name: &str) -> (r: String)
    ensures
        r@ == quoted(name@, '"'),
{
    quote_with(name, '"')
}

/// Quote with an explicit quote character (kept generic for testing).
pub fn quote_with(name: &str, q: char) -> (r: String)
    ensures
        r@ == quoted(name@, q),
{
    let v = to_chars(name);
    let mut out = String::new();
    push_char(&mut out, q);
    let mut i: usize = 0;
    while i < v.len()
        invariant
            v@ == name@,
            i <= v@.len(),
            out@ == seq![q] + escaped(v@.take(i as int), q),
        decreases v@.len() - i,
    {
        let c = v[i];
        if c == q {
            push_char(&mut out, q);
        }
        push_char(&mut out, c);
        proof {
            let t = v@.take(i + 1);
            assert(t.drop_last() =~= v@.take(i as int));
            assert(t.last() == c);
        }
        i = i + 1;
        proof {
            assert(out@ =~= seq![q] + escaped(v@.take(i as int), q));
        }
    }
    push_char(&mut out, q);
    proof {
        assert(v@.take(i as int) =~= name@);
    }
    out
}

/// Escape a string literal for use inside single quotes in SQL.
pub fn quote_literal(value: &str) -> (r: String)
    ensures
        r@ == quoted(value@, '\''),
{
    quote_with(value, '\'')
}

} // verus!
