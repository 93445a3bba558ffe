//! Connection routing: decide whether a Tabularis connection points at a
//! local libSQL file or at a remote Turso / sqld server, and the uniform
//! result shape both backends produce.

use vstd::prelude::*;

use crate::error::{PluginError, INVALID_PARAMS};
use crate::json::{rows_view, strings_view, Json, JsonV};
use crate::models::{opt_text, ConnectionParams};
use crate::utils::text::{
    after_char, ascii_lower, before_char, char_pred, dec, find_from, fmt_u64, has_prefix, lemma_find_char_bound, lemma_find_char_is, lemma_trail_count_bound, lower_char,
    lowercase, owned, push_str, starts_with, str_eq, string_from, to_chars, trail_count, trim,
    trim_end_char, trimmed,
};

verus! {

/// Where a connection actually points.
#[derive(Debug, PartialEq, Eq)]
pub enum Backend {
    /// Local libSQL/SQLite file (or `:memory:`).
    Local(String),
    /// Remote Turso / sqld server reachable over Hrana HTTP.
    Remote { url: String, token: Option<String> },
}

/// The value of a `Backend`.
pub enum BackendV {
    Local(Seq<char>),
    Remote { url: Seq<char>, token: Option<Seq<char>> },
}

impl View for Backend {
    type V = BackendV;

    open spec fn view(&self) -> BackendV {
        match self {
            Backend::Local(p) => BackendV::Local(p@),
            Backend::Remote { url, token } => BackendV::Remote { url: url@, token: opt_text(*token) },
        }
    }
}

/// A uniform result for both backends.
#[derive(Debug)]
pub struct QueryResult {
    pub columns: Vec<String>,
    pub rows: Vec<Vec<Json>>,
    pub affected: u64,
}

impl QueryResult {
    pub open spec fn columns_view(&self) -> Seq<Seq<char>> {
        strings_view(self.columns@)
    }

    pub open spec fn rows_view(&self) -> Seq<Seq<JsonV>> {
        rows_view(self.rows@)
    }
}

// ---------------------------------------------------------------------------
// Backend resolution (pure logic)
// ---------------------------------------------------------------------------

/// A URL scheme the driver recognises, case-insensitively.
pub open spec fn is_url_spec(s: Seq<char>) -> bool {
    let lower = ascii_lower(s);
    ||| starts_with(lower, "libsql://"@)
    ||| starts_with(lower, "https://"@)
    ||| starts_with(lower, "http://"@)
    ||| starts_with(lower, "wss://"@)
    ||| starts_with(lower, "ws://"@)
    ||| starts_with(lower, "turso://"@)
}

/// A query-string key that carries the auth token.
pub open spec fn is_token_key(k: Seq<char>) -> bool {
    k == "authtoken"@ || k == "auth_token"@ || k == "jwt"@ || k == "token"@
}

/// The token in one `key=value` pair, if its key names one and it is not empty.
pub open spec fn pair_token(pair: Seq<char>) -> Option<Seq<char>> {
    match after_char(pair, '=') {
        Some(value) => if is_token_key(ascii_lower(before_char(pair, '='))) && value.len() > 0 {
            Some(value)
        } else {
            None
        },
        None => None,
    }
}

/// The first token among the `&`-separated pairs of a query string.
pub open spec fn token_spec(query: Seq<char>) -> Option<Seq<char>>
    decreases query.len(),
{
    match pair_token(before_char(query, '&')) {
        Some(t) => Some(t),
        None => match after_char(query, '&') {
            Some(rest) => {
                proof {
                    lemma_find_char_bound(query, '&');
                }
                token_spec(rest)
            },
            None => None,
        },
    }
}

/// The URL with its scheme swapped for the HTTP equivalent Hrana expects.
pub open spec fn swap_scheme(u: Seq<char>) -> Seq<char> {
    let lower = ascii_lower(u);
    if starts_with(lower, "libsql://"@) {
        "https://"@ + u.skip("libsql://"@.len() as int)
    } else if starts_with(lower, "turso://"@) {
        "https://"@ + u.skip("turso://"@.len() as int)
    } else if starts_with(lower, "wss://"@) {
        "https://"@ + u.skip("wss://"@.len() as int)
    } else if starts_with(lower, "ws://"@) {
        "http://"@ + u.skip("ws://"@.len() as int)
    } else {
        u
    }
}

/// The clean base URL (no query string, no trailing slash) and the token
/// found in the query string.
pub open spec fn normalize_spec(raw: Seq<char>) -> (Seq<char>, Option<Seq<char>>) {
    (
        trim_end_char(swap_scheme(before_char(raw, '?')), '/'),
        match after_char(raw, '?') {
            Some(q) => token_spec(q),
            None => None,
        },
    )
}

/// The URL for a bare host: plain HTTP for a local server unless TLS is
/// required, and whenever TLS is disabled.
pub open spec fn host_url_spec(host: Seq<char>, port: Option<u16>, ssl_mode: Option<Seq<char>>) -> Seq<
    char,
> {
    let is_local = host == "localhost"@ || host == "127.0.0.1"@ || host == "[::1]"@;
    let scheme = if ssl_mode == Some("disable"@) || (is_local && ssl_mode != Some("require"@)) {
        "http"@
    } else {
        "https"@
    };
    match port {
        Some(p) => scheme + "://"@ + host + ":"@ + dec(p as nat),
        None => scheme + "://"@ + host,
    }
}

/// A local path: without a `file:` prefix, and with `~/` expanded when the
/// home directory is known.
pub open spec fn expand_path_spec(path: Seq<char>, home: Option<Seq<char>>) -> Seq<char> {
    let p = if starts_with(path, "file:"@) {
        path.skip("file:"@.len() as int)
    } else {
        path
    };
    if p == ":memory:"@ {
        p
    } else if starts_with(p, "~/"@) && home is Some {
        home.unwrap() + "/"@ + p.skip("~/"@.len() as int)
    } else {
        p
    }
}

/// A remote backend for a URL, with the URL's token winning over the password.
pub open spec fn remote_spec(raw: Seq<char>, password: Option<Seq<char>>) -> BackendV {
    let (url, t) = normalize_spec(raw);
    BackendV::Remote {
        url,
        token: match t {
            Some(t) => Some(t),
            None => password,
        },
    }
}

/// Where the params point, or `None` when they name no target.
pub open spec fn resolve_spec(params: ConnectionParams, home: Option<Seq<char>>) -> Option<BackendV> {
    let database = trim(
        match opt_text(params.database) {
            Some(d) => d,
            None => Seq::empty(),
        },
    );
    let host = match opt_text(params.host) {
        Some(h) => trim(h),
        None => Seq::empty(),
    };
    if is_url_spec(database) {
        // 1. A URL in the database field is always remote.
        Some(remote_spec(database, opt_text(params.password)))
    } else if params.host is Some && host.len() > 0 {
        // 2. A host means remote too. The host may itself be a full URL.
        if is_url_spec(host) {
            Some(remote_spec(host, opt_text(params.password)))
        } else {
            Some(
                BackendV::Remote {
                    url: host_url_spec(host, params.port, opt_text(params.ssl_mode)),
                    token: opt_text(params.password),
                },
            )
        }
    } else if database.len() > 0 {
        // 3. Otherwise treat the database field as a local file path.
        Some(BackendV::Local(expand_path_spec(database, home)))
    } else {
        None
    }
}

pub fn is_url(s: &str) -> (r: bool)
    ensures
        r == is_url_spec(s@),
{
    let lower = lowercase(s);
    let l = lower.as_str();
    has_prefix(l, "libsql://") || has_prefix(l, "https://") || has_prefix(l, "http://")
        || has_prefix(l, "wss://") || has_prefix(l, "ws://") || has_prefix(l, "turso://")
}

/// `s.split_once(c)`, with the part before `c` (all of `s` when there is none).
pub fn split_once(s: &str, c: char) -> (r: (String, Option<String>))
    ensures
        r.0@ == before_char(s@, c),
        opt_text(r.1) == after_char(s@, c),
{
    let v = to_chars(s);
    let i = find_from(&v, c, 0);
    proof {
        assert(v@.skip(0) =~= v@);
    }
    let before = string_from(&v, 0, i);
    if i < v.len() {
        let after = string_from(&v, i + 1, v.len());
        proof {
            assert(v@.skip(i + 1) =~= v@.subrange(i + 1, v@.len() as int));
        }
        (before, Some(after))
    } else {
        (before, None)
    }
}

/// If `lower` starts with `scheme`, return the remainder of the *unlowered*
/// (case-preserving) string after the scheme.
fn strip_scheme(lower: &str, cased: &str, scheme: &str) -> (r: Option<String>)
    requires
        lower@.len() == cased@.len(),
    ensures
        r is Some == starts_with(lower@, scheme@),
        r matches Some(rest) ==> rest@ == cased@.skip(scheme@.len() as int),
{
    if has_prefix(lower, scheme) {
        let v = to_chars(cased);
        let n = scheme.unicode_len();
        let rest = string_from(&v, n, v.len());
        proof {
            assert(cased@.skip(n as int) =~= v@.subrange(n as int, v@.len() as int));
        }
        Some(rest)
    } else {
        None
    }
}

fn token_from_pair(pair: &str) -> (r: Option<String>)
    ensures
        opt_text(r) == pair_token(pair@),
{
    let (key, value) = split_once(pair, '=');
    match value {
        Some(value) => {
            let k = lowercase(key.as_str());
            let k = k.as_str();
            let is_token_key = str_eq(k, "authtoken") || str_eq(k, "auth_token") || str_eq(
                k,
                "jwt",
            ) || str_eq(k, "token");
            if is_token_key && value.as_str().unicode_len() > 0 {
                Some(value)
            } else {
                None
            }
        },
        None => None,
    }
}

fn token_from_query(query: &str) -> (r: Option<String>)
    ensures
        opt_text(r) == token_spec(query@),
    decreases query@.len(),
{
    let (pair, rest) = split_once(query, '&');
    match token_from_pair(pair.as_str()) {
        Some(t) => Some(t),
        None => match rest {
            Some(rest) => {
                proof {
                    lemma_find_char_bound(query@, '&');
                }
                token_from_query(rest.as_str())
            },
            None => None,
        },
    }
}

/// Normalise a remote URL to http(s) and pull out the auth token query param.
/// Returns the clean base URL (no query string, no trailing slash) plus any
/// token found in the URL.
pub fn normalize_remote_url(raw: &str) -> (r: (String, Option<String>))
    ensures
        r.0@ == normalize_spec(raw@).0,
        opt_text(r.1) == normalize_spec(raw@).1,
{
    let (before_query, query) = split_once(raw, '?');
    let bq = before_query.as_str();
    let lower = lowercase(bq);
    let l = lower.as_str();
    proof {
        assert(l@.len() == bq@.len());
    }
    let normalised = match strip_scheme(l, bq, "libsql://") {
        Some(rest) => {
            let mut s = owned("https://");
            push_str(&mut s, rest.as_str());
            s
        },
        None => match strip_scheme(l, bq, "turso://") {
            Some(rest) => {
                let mut s = owned("https://");
                push_str(&mut s, rest.as_str());
                s
            },
            None => match strip_scheme(l, bq, "wss://") {
                Some(rest) => {
                    let mut s = owned("https://");
                    push_str(&mut s, rest.as_str());
                    s
                },
                None => match strip_scheme(l, bq, "ws://") {
                    Some(rest) => {
                        let mut s = owned("http://");
                        push_str(&mut s, rest.as_str());
                        s
                    },
                    None => before_query.clone(),
                },
            },
        },
    };
    let token = match query {
        Some(q) => token_from_query(q.as_str()),
        None => None,
    };
    (trim_end_slashes(normalised.as_str()), token)
}

/// `s.trim_end_matches('/')`.
fn trim_end_slashes(s: &str) -> (r: String)
    ensures
        r@ == trim_end_char(s@, '/'),
{
    let v = to_chars(s);
    let mut e = v.len();
    while e > 0 && v[e - 1] == '/'
        invariant
            v@ == s@,
            e <= v@.len(),
            forall|j: int| e <= j < v@.len() ==> #[trigger] v@[j] == '/',
        decreases e,
    {
        e = e - 1;
    }
    proof {
        lemma_trail_char_is(v@, '/', e as int);
    }
    string_from(&v, 0, e)
}

pub proof fn lemma_trail_char_is(s: Seq<char>, c: char, e: int)
    requires
        0 <= e <= s.len(),
        forall|j: int| e <= j < s.len() ==> #[trigger] s[j] == c,
        e > 0 ==> s[e - 1] != c,
    ensures
        trail_count(s, char_pred(c)) == s.len() - e,
        trim_end_char(s, c) == s.take(e),
    decreases s.len() - e,
{
    if e < s.len() {
        assert(char_pred(c)(s.last()));
        assert forall|j: int| e <= j < s.drop_last().len() implies #[trigger] s.drop_last()[j]
            == c by {
            assert(s.drop_last()[j] == s[j]);
        }
        if e > 0 {
            assert(s.drop_last()[e - 1] == s[e - 1]);
        }
        lemma_trail_char_is(s.drop_last(), c, e);
    } else if s.len() > 0 {
        assert(!char_pred(c)(s.last()));
    }
}

/// The URL for a bare host.
pub fn build_url_from_host(host: &str, port: Option<u16>, ssl_mode: Option<&str>) -> (r: String)
    ensures
        r@ == host_url_spec(
            host@,
            port,
            match ssl_mode {
                Some(m) => Some(m@),
                None => None,
            },
        ),
{
    let is_local = str_eq(host, "localhost") || str_eq(host, "127.0.0.1") || str_eq(host, "[::1]");
    let disable = match ssl_mode {
        Some(m) => str_eq(m, "disable"),
        None => false,
    };
    let require = match ssl_mode {
        Some(m) => str_eq(m, "require"),
        None => false,
    };
    let mut url = if disable || (is_local && !require) {
        owned("http")
    } else {
        owned("https")
    };
    push_str(&mut url, "://");
    push_str(&mut url, host);
    match port {
        Some(p) => {
            push_str(&mut url, ":");
            let d = fmt_u64(p as u64);
            push_str(&mut url, d.as_str());
        },
        None => {},
    }
    url
}

/// Expand a local path: strip `file:` and expand `~/` against `home`.
pub fn expand_path(path: &str, home: Option<&str>) -> (r: String)
    ensures
        r@ == expand_path_spec(
            path@,
            match home {
                Some(h) => Some(h@),
                None => None,
            },
        ),
{
    let p = match strip_prefix(path, "file:") {
        Some(rest) => rest,
        None => owned(path),
    };
    if str_eq(p.as_str(), ":memory:") {
        return p;
    }
    match strip_prefix(p.as_str(), "~/") {
        Some(rest) => match home {
            Some(h) => {
                let mut out = owned(h);
                push_str(&mut out, "/");
                push_str(&mut out, rest.as_str());
                out
            },
            None => p,
        },
        None => p,
    }
}

/// `s.strip_prefix(prefix)`.
fn strip_prefix(s: &str, prefix: &str) -> (r: Option<String>)
    ensures
        r is Some == starts_with(s@, prefix@),
        r matches Some(rest) ==> rest@ == s@.skip(prefix@.len() as int),
{
    if has_prefix(s, prefix) {
        let v = to_chars(s);
        let n = prefix.unicode_len();
        let rest = string_from(&v, n, v.len());
        proof {
            assert(s@.skip(n as int) =~= v@.subrange(n as int, v@.len() as int));
        }
        Some(rest)
    } else {
        None
    }
}

fn copy_opt(o: &Option<String>) -> (r: Option<String>)
    ensures
        opt_text(r) == opt_text(*o),
{
    match o {
        Some(s) => Some(s.clone()),
        None => None,
    }
}

fn remote(raw: &str, password: &Option<String>) -> (r: Backend)
    ensures
        r@ == remote_spec(raw@, opt_text(*password)),
{
    let (url, token_from_url) = normalize_remote_url(raw);
    let token = match token_from_url {
        Some(t) => Some(t),
        None => copy_opt(password),
    };
    Backend::Remote { url, token }
}

/// Decide which backend a set of connection params points at. `home` is the
/// user's home directory, against which a local `~/` path is expanded.
pub fn resolve_backend(params: &ConnectionParams, home: Option<&str>) -> (r: Result<Backend, PluginError>)
    ensures
        match (r, resolve_spec(*params, match home { Some(h) => Some(h@), None => None })) {
            (Ok(b), Some(bv)) => b@ == bv,
            (Err(e), None) => e.code == INVALID_PARAMS && e.message@
                == "no connection target: provide a local file path, or a libsql:// / https:// URL (with an auth token for Turso)"@,
            _ => false,
        },
{
    let database = match &params.database {
        Some(d) => trimmed(d.as_str()),
        None => trimmed(""),
    };
    proof {
        if params.database is None {
            reveal_strlit("");
        }
    }
    let db = database.as_str();
    let ghost hv = match home {
        Some(h) => Some(h@),
        None => None,
    };
    let ghost dspec = trim(
        match opt_text(params.database) {
            Some(d) => d,
            None => Seq::<char>::empty(),
        },
    );
    assert(db@ == dspec);
    if is_url(db) {
        return Ok(remote(db, &params.password));
    }
    match &params.host {
        Some(h) => {
            let host = trimmed(h.as_str());
            let host = host.as_str();
            assert(opt_text(params.host) == Some(h@));
            if host.unicode_len() > 0 {
                if is_url(host) {
                    let b = remote(host, &params.password);
                    assert(resolve_spec(*params, hv) == Some(remote_spec(host@, opt_text(params.password))));
                    return Ok(b);
                }
                let ssl = match &params.ssl_mode {
                    Some(m) => Some(m.as_str()),
                    None => None,
                };
                let url = build_url_from_host(host, params.port, ssl);
                let b = Backend::Remote { url, token: copy_opt(&params.password) };
                assert(ssl matches Some(m) ==> opt_text(params.ssl_mode) == Some(m@));
                assert(ssl is None ==> opt_text(params.ssl_mode) is None);
                return Ok(b);
            }
        },
        None => {},
    }
    if db.unicode_len() > 0 {
        return Ok(Backend::Local(expand_path(db, home)));
    }
    Err(
        PluginError::invalid_params(
            owned(
                "no connection target: provide a local file path, or a libsql:// / https:// URL (with an auth token for Turso)",
            ),
        ),
    )
}

/// A sequence without the character `c`.
pub open spec fn free_of(s: Seq<char>, c: char) -> bool {
    forall|j: int| 0 <= j < s.len() ==> #[trigger] s[j] != c
}

/// What swapping a scheme does to a `?`-free URL: the result is `?`-free
/// too, and it either starts with an `h` or is the URL itself, which then has
/// none of the swapped schemes.
proof fn lemma_swap_scheme_shape(u: Seq<char>)
    requires
        free_of(u, '?'),
    ensures
        free_of(swap_scheme(u), '?'),
        swap_scheme(u) == u || (swap_scheme(u).len() > 0 && swap_scheme(u)[0] == 'h'),
        swap_scheme(u) == u ==> {
            let lower = ascii_lower(u);
            !starts_with(lower, "libsql://"@) && !starts_with(lower, "turso://"@)
                && !starts_with(lower, "wss://"@) && !starts_with(lower, "ws://"@)
        },
{
    reveal_strlit("https://");
    reveal_strlit("http://");
    reveal_strlit("libsql://");
    reveal_strlit("turso://");
    reveal_strlit("wss://");
    reveal_strlit("ws://");
    let lower = ascii_lower(u);
    let w = swap_scheme(u);
    if starts_with(lower, "libsql://"@) || starts_with(lower, "turso://"@) || starts_with(
        lower,
        "wss://"@,
    ) {
        let k: int = if starts_with(lower, "libsql://"@) {
            9
        } else if starts_with(lower, "turso://"@) {
            8
        } else {
            6
        };
        assert(w =~= "https://"@ + u.skip(k));
        assert forall|j: int| 0 <= j < w.len() implies #[trigger] w[j] != '?' by {
            if j >= 8 {
                assert(w[j] == u[j - 8 + k]);
            }
        }
        assert(w[0] == 'h');
    } else if starts_with(lower, "ws://"@) {
        assert(w =~= "http://"@ + u.skip(5));
        assert forall|j: int| 0 <= j < w.len() implies #[trigger] w[j] != '?' by {
            if j >= 7 {
                assert(w[j] == u[j - 7 + 5]);
            }
        }
        assert(w[0] == 'h');
    } else {
        assert(w == u);
    }
    if w == u && !(starts_with(lower, "libsql://"@) || starts_with(lower, "turso://"@)
        || starts_with(lower, "wss://"@) || starts_with(lower, "ws://"@)) {
    } else if w == u {
        // A swapped URL starts with `h`; the unswapped URL started with the scheme.
        let p: Seq<char> = if starts_with(lower, "libsql://"@) {
            "libsql://"@
        } else if starts_with(lower, "turso://"@) {
            "turso://"@
        } else if starts_with(lower, "wss://"@) {
            "wss://"@
        } else {
            "ws://"@
        };
        assert(lower.take(p.len() as int)[0] == p[0]);
        assert(lower[0] == lower_char(u[0]));
        assert(u[0] == 'h');
        assert(false);
    }
}

/// Normalising a URL that is already normalised changes nothing, and finds
/// no token: the result has no query string, an HTTP scheme (or none that is
/// swapped) and no trailing slash.
pub proof fn lemma_normalize_idempotent(raw: Seq<char>)
    ensures
        normalize_spec(normalize_spec(raw).0) == (normalize_spec(raw).0, None::<Seq<char>>),
{
    let b = before_char(raw, '?');
    lemma_find_char_bound(raw, '?');
    assert forall|j: int| 0 <= j < b.len() implies #[trigger] b[j] != '?' by {
        assert(b[j] == raw[j]);
    }
    lemma_swap_scheme_shape(b);
    let w = swap_scheme(b);
    let n = trim_end_char(w, '/');
    assert(n == normalize_spec(raw).0);
    lemma_trail_count_bound(w, char_pred('/'));
    let m = n.len() as int;
    assert(n =~= w.take(m));
    // No `?`: the query part is gone.
    assert forall|j: int| 0 <= j < n.len() implies #[trigger] n[j] != '?' by {
        assert(n[j] == w[j]);
    }
    lemma_find_char_is(n, '?', m);
    assert(before_char(n, '?') =~= n);
    assert(after_char(n, '?') is None);
    // No scheme to swap.
    let ln = ascii_lower(n);
    let lw = ascii_lower(w);
    assert forall|p: Seq<char>| p.len() > 0 && #[trigger] starts_with(ln, p) implies starts_with(lw, p) by {
        assert forall|j: int| 0 <= j < p.len() implies lw.take(p.len() as int)[j] == p[j] by {
            assert(ln.take(p.len() as int)[j] == p[j]);
            assert(ln[j] == lower_char(n[j]));
            assert(lw[j] == lower_char(w[j]));
        }
        assert(lw.take(p.len() as int) =~= p);
    }
    reveal_strlit("libsql://");
    reveal_strlit("turso://");
    reveal_strlit("wss://");
    reveal_strlit("ws://");
    if w != b {
        // `w` starts with `h`, so `n` (a prefix) lower-cases to a leading `h`.
        if n.len() > 0 {
            assert(n[0] == 'h');
            assert(ln[0] == 'h');
        }
        assert(!starts_with(ln, "libsql://"@)) by {
            if starts_with(ln, "libsql://"@) {
                assert(ln.take(9)[0] == 'l');
            }
        }
        assert(!starts_with(ln, "turso://"@)) by {
            if starts_with(ln, "turso://"@) {
                assert(ln.take(8)[0] == 't');
            }
        }
        assert(!starts_with(ln, "wss://"@)) by {
            if starts_with(ln, "wss://"@) {
                assert(ln.take(6)[0] == 'w');
            }
        }
        assert(!starts_with(ln, "ws://"@)) by {
            if starts_with(ln, "ws://"@) {
                assert(ln.take(5)[0] == 'w');
            }
        }
    } else {
        assert(w == b);
    }
    assert(swap_scheme(n) == n);
    // No trailing slash to trim.
    if n.len() > 0 {
        assert(n.last() == w[m - 1]);
        assert(n.last() != '/');
    }
    assert(trail_count(n, char_pred('/')) == 0);
    assert(trim_end_char(n, '/') =~= n);
}

/// A remote target.
pub open spec fn is_remote(b: Option<BackendV>) -> bool {
    b is Some && b->Some_0 is Remote
}

/// The connection form decides the backend in this order: a
/// URL in the database field is remote whatever the host says; otherwise a
/// host is remote; otherwise a non-empty database field is a local file;
/// with none of these there is no target.
pub proof fn lemma_backend_choice(params: ConnectionParams, home: Option<Seq<char>>)
    ensures
        ({
            let database = trim(
                match opt_text(params.database) {
                    Some(d) => d,
                    None => Seq::empty(),
                },
            );
            let host = match opt_text(params.host) {
                Some(h) => trim(h),
                None => Seq::empty(),
            };
            &&& is_url_spec(database) ==> is_remote(resolve_spec(params, home))
            &&& !is_url_spec(database) && host.len() > 0 ==> is_remote(resolve_spec(params, home))
            &&& !is_url_spec(database) && host.len() == 0 && database.len() > 0 ==> resolve_spec(
                params,
                home,
            ) == Some(BackendV::Local(expand_path_spec(database, home)))
            &&& database.len() == 0 && host.len() == 0 ==> resolve_spec(params, home) is None
        }),
{
    let database = trim(
        match opt_text(params.database) {
            Some(d) => d,
            None => Seq::empty(),
        },
    );
    if database.len() == 0 {
        reveal_strlit("libsql://");
        reveal_strlit("https://");
        reveal_strlit("http://");
        reveal_strlit("wss://");
        reveal_strlit("ws://");
        reveal_strlit("turso://");
        assert(!is_url_spec(database));
    }
}

} // verus!
