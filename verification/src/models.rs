//! Shared request shapes.
//!
//! `ConnectionParams` mirrors the values the user typed into the Tabularis
//! connection form. All fields are optional because libSQL is dual-mode: a
//! local connection only fills `database` (a file path), while a remote Turso
//! connection fills `host`/`database` with a URL and `password` with the auth
//! token.

use vstd::prelude::*;

use crate::json::{get_str, jv_get, jv_str, jv_u64, Json, JsonV};
use crate::utils::text::{parse_u64, parse_u64_spec, trim, trimmed};

verus! {

#[derive(Debug, Clone)]
pub struct ConnectionParams {
    pub driver: Option<String>,
    pub host: Option<String>,
    pub port: Option<u16>,
    pub database: Option<String>,
    pub username: Option<String>,
    pub password: Option<String>,
    pub ssl_mode: Option<String>,
}

/// The text of an optional string.
pub open spec fn opt_text(o: Option<String>) -> Option<Seq<char>> {
    match o {
        Some(s) => Some(s@),
        None => None,
    }
}

/// A form field: the member `k` as a string, trimmed, unless that is empty.
pub open spec fn field_spec(v: JsonV, k: Seq<char>) -> Option<Seq<char>> {
    match get_str(v, k) {
        Some(s) => if trim(s).len() > 0 {
            Some(trim(s))
        } else {
            None
        },
        None => None,
    }
}

/// The port: a number, or a string that parses as one, that fits in `u16`.
pub open spec fn port_spec(v: JsonV) -> Option<u16> {
    let n: Option<u64> = match jv_get(v, "port"@) {
        Some(p) => match jv_u64(p) {
            Some(n) => Some(n),
            None => match jv_str(p) {
                Some(s) => parse_u64_spec(s),
                None => None,
            },
        },
        None => None,
    };
    match n {
        Some(n) => if n <= u16::MAX {
            Some(n as u16)
        } else {
            None
        },
        None => None,
    }
}

impl ConnectionParams {
    /// Every field as it would be read from the connection form `v`.
    pub open spec fn from_value_spec(self, v: JsonV) -> bool {
        &&& opt_text(self.driver) == field_spec(v, "driver"@)
        &&& opt_text(self.host) == field_spec(v, "host"@)
        &&& self.port == port_spec(v)
        &&& opt_text(self.database) == field_spec(v, "database"@)
        &&& opt_text(self.username) == field_spec(v, "username"@)
        &&& opt_text(self.password) == field_spec(v, "password"@)
        &&& opt_text(self.ssl_mode) == field_spec(v, "ssl_mode"@)
    }

    pub fn from_value(value: &Json) -> (r: Self)
        ensures
            r.from_value_spec(value@),
    {
        let port = match value.get("port") {
            Some(p) => match p.as_u64() {
                Some(n) => Some(n),
                None => match p.as_str() {
                    Some(s) => parse_u64(s),
                    None => None,
                },
            },
            None => None,
        };
        let port: Option<u16> = match port {
            Some(n) => if n <= 65535 {
                Some(n as u16)
            } else {
                None
            },
            None => None,
        };
        Self {
            driver: field(value, "driver"),
            host: field(value, "host"),
            port,
            database: field(value, "database"),
            username: field(value, "username"),
            password: field(value, "password"),
            ssl_mode: field(value, "ssl_mode"),
        }
    }
}

impl Default for ConnectionParams {
    fn default() -> (r: Self)
        ensures
            r.driver is None,
            r.host is None,
            r.port is None,
            r.database is None,
            r.username is None,
            r.password is None,
            r.ssl_mode is None,
    {
        Self {
            driver: None,
            host: None,
            port: None,
            database: None,
            username: None,
            password: None,
            ssl_mode: None,
        }
    }
}

fn field(value: &Json, key: &str) -> (r: Option<String>)
    ensures
        opt_text(r) == field_spec(value@, key@),
{
    match value.get(key) {
        Some(x) => match x.as_str() {
            Some(s) => {
                let t = trimmed(s);
                if t.as_str().unicode_len() > 0 {
                    Some(t)
                } else {
                    None
                }
            },
            None => None,
        },
        None => None,
    }
}

/// The member `params`, or null: every RPC method receives its connection
/// params nested there.
pub open spec fn inner_params_spec(v: JsonV) -> JsonV {
    match jv_get(v, "params"@) {
        Some(p) => p,
        None => JsonV::Null,
    }
}

/// Extract the nested `params` object every RPC method receives. Tabularis
/// wraps the connection params in `params.params`.
pub fn inner_params(value: &Json) -> (r: Json)
    ensures
        r@ == inner_params_spec(value@),
{
    match value.get("params") {
        Some(p) => p.clone_json(),
        None => Json::Null,
    }
}

} // verus!
