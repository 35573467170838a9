//! Environment variables of the rust-analyzer server.
use vstd::prelude::*;

use crate::lsp_shim_core::compat::{self, DeprecationNotes, EnvReading};
use crate::text;

verus! {

/// Workspace root.
pub const PROJECT: &'static str = "LSP_PROJECT";

/// Workspace root, older name.
pub const PROJECT_LEGACY: &'static str = "LURE_LSP_PROJECT";

/// Binary of rust-analyzer.
pub const RUST_ANALYZER: &'static str = "LSP_RUST_ANALYZER";

/// Binary of rust-analyzer, older name.
pub const RUST_ANALYZER_LEGACY: &'static str = "LURE_LSP_RUST_ANALYZER";

/// Seconds within which a request must be answered.
pub const TIMEOUT: &'static str = "LSP_TIMEOUT_SECS";

/// Seconds within which a request must be answered, older name.
pub const TIMEOUT_LEGACY: &'static str = "LURE_LSP_TIMEOUT_SECS";

/// Log of rust-analyzer.
pub const LOG_FILE: &'static str = "LSP_LOG_FILE";

/// Log of rust-analyzer, older name.
pub const LOG_FILE_LEGACY: &'static str = "LURE_LSP_LOG_FILE";

/// Resolves the workspace root.
pub fn project_env(
    canonical: Option<String>,
    legacy: Option<String>,
    notes: &mut DeprecationNotes,
) -> (reading: EnvReading)
    ensures
        (reading@, final(notes)@) == compat::resolved(
            PROJECT@,
            PROJECT_LEGACY@,
            text::opt_view(canonical),
            text::opt_view(legacy),
            old(notes)@,
        ),
{
    compat::env_or_legacy(PROJECT, PROJECT_LEGACY, canonical, legacy, notes)
}

/// Resolves the binary of rust-analyzer.
pub fn rust_analyzer_env(
    canonical: Option<String>,
    legacy: Option<String>,
    notes: &mut DeprecationNotes,
) -> (reading: EnvReading)
    ensures
        (reading@, final(notes)@) == compat::resolved(
            RUST_ANALYZER@,
            RUST_ANALYZER_LEGACY@,
            text::opt_view(canonical),
            text::opt_view(legacy),
            old(notes)@,
        ),
{
    compat::env_or_legacy(RUST_ANALYZER, RUST_ANALYZER_LEGACY, canonical, legacy, notes)
}

/// Resolves the timeout.
pub fn timeout_env(
    canonical: Option<String>,
    legacy: Option<String>,
    notes: &mut DeprecationNotes,
) -> (reading: EnvReading)
    ensures
        (reading@, final(notes)@) == compat::resolved(
            TIMEOUT@,
            TIMEOUT_LEGACY@,
            text::opt_view(canonical),
            text::opt_view(legacy),
            old(notes)@,
        ),
{
    compat::env_or_legacy(TIMEOUT, TIMEOUT_LEGACY, canonical, legacy, notes)
}

/// Resolves the log.
pub fn log_file_env(
    canonical: Option<String>,
    legacy: Option<String>,
    notes: &mut DeprecationNotes,
) -> (reading: EnvReading)
    ensures
        (reading@, final(notes)@) == compat::resolved(
            LOG_FILE@,
            LOG_FILE_LEGACY@,
            text::opt_view(canonical),
            text::opt_view(legacy),
            old(notes)@,
        ),
{
    compat::env_or_legacy(LOG_FILE, LOG_FILE_LEGACY, canonical, legacy, notes)
}

} // verus!
