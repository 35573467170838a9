//! MCP server around rust-analyzer.
pub mod cli;
pub mod compat;
pub mod lsp;
pub mod mcp;
pub mod start;
