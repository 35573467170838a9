//! Environment variables of the clangd server.
use vstd::prelude::*;

use crate::lsp_shim_core::compat::{self, DeprecationNotes, EnvReading};
use crate::text;

verus! {

/// Project root.
pub const PROJECT: &'static str = "LSP_PROJECT";

/// Project root, older name.
pub const PROJECT_LEGACY: &'static str = "LURE_LSP_PROJECT";

/// Index mode.
pub const INDEX_MODE: &'static str = "LSP_CPP_INDEX_MODE";

/// Index mode, older name.
pub const INDEX_MODE_LEGACY: &'static str = "LURE_LSP_CPP_INDEX_MODE";

/// Index file.
pub const INDEX_FILE: &'static str = "LSP_CPP_INDEX_FILE";

/// Index file, older name.
pub const INDEX_FILE_LEGACY: &'static str = "LURE_LSP_CPP_INDEX_FILE";

/// Gate of the tests against a real clangd.
pub const LIVE_TEST: &'static str = "LSP_CPP_LIVE_TEST";

/// Gate of the tests against a real clangd, older name.
pub const LIVE_TEST_LEGACY: &'static str = "LURE_LSP_CPP_LIVE_TEST";

/// Resolves the project root.
pub fn project_env(
    canonical: Option<String>,
    legacy: Option<String>,
    notes: &mut DeprecationNotes,
) -> (reading: EnvReading)
    ensures
        (reading@, final(notes)@) == compat::resolved(
            PROJECT@,
            PROJECT_LEGACY@,
            text::opt_view(canonical),
            text::opt_view(legacy),
            old(notes)@,
        ),
{
    compat::env_or_legacy(PROJECT, PROJECT_LEGACY, canonical, legacy, notes)
}

/// Resolves the index mode.
pub fn index_mode_env(
    canonical: Option<String>,
    legacy: Option<String>,
    notes: &mut DeprecationNotes,
) -> (reading: EnvReading)
    ensures
        (reading@, final(notes)@) == compat::resolved(
            INDEX_MODE@,
            INDEX_MODE_LEGACY@,
            text::opt_view(canonical),
            text::opt_view(legacy),
            old(notes)@,
        ),
{
    compat::env_or_legacy(INDEX_MODE, INDEX_MODE_LEGACY, canonical, legacy, notes)
}

/// Resolves the index file.
pub fn index_file_env(
    canonical: Option<String>,
    legacy: Option<String>,
    notes: &mut DeprecationNotes,
) -> (reading: EnvReading)
    ensures
        (reading@, final(notes)@) == compat::resolved(
            INDEX_FILE@,
            INDEX_FILE_LEGACY@,
            text::opt_view(canonical),
            text::opt_view(legacy),
            old(notes)@,
        ),
{
    compat::env_or_legacy(INDEX_FILE, INDEX_FILE_LEGACY, canonical, legacy, notes)
}

/// Resolves the switch that lets a real clangd be used in tests.
pub fn live_test_env(
    canonical: Option<String>,
    legacy: Option<String>,
    notes: &mut DeprecationNotes,
) -> (reading: EnvReading)
    ensures
        (reading@, final(notes)@) == compat::resolved(
            LIVE_TEST@,
            LIVE_TEST_LEGACY@,
            text::opt_view(canonical),
            text::opt_view(legacy),
            old(notes)@,
        ),
{
    compat::env_or_legacy(LIVE_TEST, LIVE_TEST_LEGACY, canonical, legacy, notes)
}

} // verus!
