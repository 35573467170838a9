//! Method names and error codes of the outer server loop, which speaks
//! newline-delimited JSON-RPC 2.0 on stdio.
pub mod code;
pub mod method;
