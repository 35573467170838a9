//! MCP server around clangd.
pub mod answers;
pub mod backend;
pub mod clangd;
pub mod cli;
pub mod compat;
pub mod error;
pub mod exchange;
pub mod full_index;
pub mod jsonrpc;
pub mod mcp;
pub mod queue;
pub mod start;
pub mod supervisor;
