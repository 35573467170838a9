//! MCP servers around language servers and the codex CLI: the protocol,
//! supervision and policy logic, verified.
pub mod codex_stdio;
pub mod io_error;
pub mod json;
pub mod lsp_cpp;
pub mod lsp_messages;
pub mod lsp_rust;
pub mod lsp_shim_core;
pub mod path;
pub mod rpc;
pub mod schema;
pub mod text;
