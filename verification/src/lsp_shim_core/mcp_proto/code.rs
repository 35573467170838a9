//! JSON-RPC error codes.
use vstd::prelude::*;

verus! {

/// The method exists but its arguments were malformed.
pub const INVALID_PARAMS: i64 = -32602;

/// The method does not exist.
pub const METHOD_NOT_FOUND: i64 = -32601;

/// Internal error, for any failure of the backend.
pub const INTERNAL_ERROR: i64 = -32603;

/// Malformed JSON on stdin.
pub const PARSE_ERROR: i64 = -32700;

} // verus!
