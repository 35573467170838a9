//! MCP server that hands tasks to the `codex` CLI.
use vstd::prelude::*;

pub mod codex;
pub mod health;
pub mod mcp;
pub mod run_task;

verus! {

/// Model that is asked for where the caller names none.
pub const DEFAULT_MODEL: &'static str = "gpt-5.3-codex";

/// Directory under which every worktree must lie, unless configured otherwise.
pub const WORKTREE_ROOT_PREFIX: &'static str = "/tmp/wtpool/";

} // verus!
