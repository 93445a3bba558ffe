use libsql_plugin::client::{build_url_from_host, expand_path, normalize_remote_url, resolve_backend, Backend};
use libsql_plugin::error::INVALID_PARAMS;
use libsql_plugin::models::ConnectionParams;

fn params(database: Option<&str>, host: Option<&str>, password: Option<&str>) -> ConnectionParams {
    ConnectionParams {
        database: database.map(String::from),
        host: host.map(String::from),
        password: password.map(String::from),
        ..Default::default()
    }
}

#[test]
fn local_path_in_database_field() {
    let p = params(Some("/data/app.db"), None, None);
    assert_eq!(resolve_backend(&p, None).unwrap(), Backend::Local("/data/app.db".into()));
}

#[test]
fn libsql_url_becomes_remote_https() {
    let p = params(Some("libsql://my-db.turso.io"), None, Some("tok"));
    assert_eq!(
        resolve_backend(&p, None).unwrap(),
        Backend::Remote { url: "https://my-db.turso.io".into(), token: Some("tok".into()) }
    );
}

#[test]
fn auth_token_from_url_query_wins_and_is_stripped() {
    let (url, token) = normalize_remote_url("libsql://db.turso.io?authToken=abc123");
    assert_eq!(url, "https://db.turso.io");
    assert_eq!(token.as_deref(), Some("abc123"));
}

#[test]
fn websocket_schemes_map_to_http() {
    assert_eq!(normalize_remote_url("wss://x.turso.io").0, "https://x.turso.io");
    assert_eq!(normalize_remote_url("ws://localhost:8080").0, "http://localhost:8080");
}

#[test]
fn host_field_builds_remote_url() {
    let p = params(None, Some("db.turso.io"), Some("tok"));
    assert_eq!(
        resolve_backend(&p, None).unwrap(),
        Backend::Remote { url: "https://db.turso.io".into(), token: Some("tok".into()) }
    );
}

#[test]
fn localhost_host_uses_http() {
    assert_eq!(build_url_from_host("localhost", Some(8080), None), "http://localhost:8080");
    assert_eq!(build_url_from_host("db.turso.io", None, None), "https://db.turso.io");
}

#[test]
fn empty_params_are_an_error() {
    let p = params(None, None, None);
    assert!(resolve_backend(&p, None).is_err());
}

#[test]
fn tilde_is_expanded_when_home_is_set() {
    let home = Some("/home/tester");
    assert_eq!(expand_path("~/db.sqlite", home), "/home/tester/db.sqlite");
    assert_eq!(expand_path("file:/tmp/a.db", home), "/tmp/a.db");
    assert_eq!(expand_path(":memory:", home), ":memory:");
}

#[test]
fn tilde_stays_without_home() {
    assert_eq!(expand_path("~/db.sqlite", None), "~/db.sqlite");
    assert_eq!(expand_path("file::memory:", None), ":memory:");
}

#[test]
fn empty_params_error_names_the_fix() {
    let err = resolve_backend(&params(Some("   "), Some(""), Some("tok")), None).unwrap_err();
    assert_eq!(err.code, INVALID_PARAMS);
    assert_eq!(
        err.message,
        "no connection target: provide a local file path, or a libsql:// / https:// URL (with an auth token for Turso)"
    );
}

#[test]
fn url_in_database_wins_over_host() {
    let p = params(Some(" LIBSQL://a.turso.io/ "), Some("b.turso.io"), Some("pw"));
    assert_eq!(
        resolve_backend(&p, None).unwrap(),
        Backend::Remote { url: "https://a.turso.io".into(), token: Some("pw".into()) }
    );
}

#[test]
fn url_in_host_field_is_normalised() {
    let p = params(None, Some("turso://h.io?jwt=abc"), Some("pw"));
    assert_eq!(
        resolve_backend(&p, None).unwrap(),
        Backend::Remote { url: "https://h.io".into(), token: Some("abc".into()) }
    );
}

#[test]
fn local_host_tls_follows_ssl_mode() {
    assert_eq!(build_url_from_host("127.0.0.1", None, Some("require")), "https://127.0.0.1");
    assert_eq!(build_url_from_host("db.turso.io", Some(443), Some("disable")), "http://db.turso.io:443");
    assert_eq!(build_url_from_host("[::1]", Some(8080), Some("prefer")), "http://[::1]:8080");
}

#[test]
fn token_keys_are_case_insensitive_and_first_wins() {
    let (url, token) = normalize_remote_url("https://x.io/?foo=1&JWT=&Auth_Token=t1&token=t2");
    assert_eq!(url, "https://x.io");
    assert_eq!(token.as_deref(), Some("t1"));
    assert_eq!(normalize_remote_url("https://x.io?authToken").1, None);
}

#[test]
fn normalising_twice_changes_nothing() {
    for raw in ["libsql://db.turso.io?authToken=abc", "WSS://x.io///", "ws://h:1/", "https://a/b?c", "plain"] {
        let (once, _) = normalize_remote_url(raw);
        let (twice, token) = normalize_remote_url(&once);
        assert_eq!(once, twice);
        assert_eq!(token, None);
    }
}
