//! Plugin-local error type, kept deliberately small.
//!
//! Every error carries a JSON-RPC error code so handlers can bubble failures
//! straight out to the host.

use vstd::prelude::*;

use crate::utils::text::{fmt_i64, int_text, push_char, push_str};

verus! {

/// JSON-RPC "internal error".
pub const INTERNAL_ERROR: i64 = -32603;

/// JSON-RPC "invalid params".
pub const INVALID_PARAMS: i64 = -32602;

/// JSON-RPC "method not found", used for operations the database cannot do.
pub const METHOD_NOT_FOUND: i64 = -32601;

#[derive(Debug)]
pub struct PluginError {
    pub code: i64,
    pub message: String,
}

impl PluginError {
    pub fn internal(msg: String) -> (r: Self)
        ensures
            r.code == INTERNAL_ERROR,
            r.message@ == msg@,
    {
        Self { code: INTERNAL_ERROR, message: msg }
    }

    pub fn invalid_params(msg: String) -> (r: Self)
        ensures
            r.code == INVALID_PARAMS,
            r.message@ == msg@,
    {
        Self { code: INVALID_PARAMS, message: msg }
    }

    /// An operation the underlying database genuinely cannot perform. Surfaced
    /// as "method not found" so the host treats it as unsupported rather than a
    /// transient failure.
    pub fn unsupported(msg: String) -> (r: Self)
        ensures
            r.code == METHOD_NOT_FOUND,
            r.message@ == msg@,
    {
        Self { code: METHOD_NOT_FOUND, message: msg }
    }

    /// The error as text: `[code] message`.
    pub fn to_text(&self) -> (r: String)
        ensures
            r@ == seq!['['] + int_text(self.code as int) + seq![']', ' '] + self.message@,
    {
        let mut r = String::new();
        push_char(&mut r, '[');
        let c = fmt_i64(self.code);
        push_str(&mut r, c.as_str());
        push_char(&mut r, ']');
        push_char(&mut r, ' ');
        push_str(&mut r, self.message.as_str());
        proof {
            assert(r@ =~= seq!['['] + int_text(self.code as int) + seq![']', ' '] + self.message@);
        }
        r
    }
}

} // verus!
