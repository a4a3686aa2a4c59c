//! What is known of a language server without asking it.

use vstd::prelude::*;

use crate::strings::same_text;

verus! {

/// A JSON value of `serde_json`: an opaque value.
#[verifier::external_type_specification]
#[verifier::external_body]
pub struct ExValue(serde_json::Value);

/// The name of a language server.
#[derive(Debug, PartialEq, Eq, Hash)]
pub struct LanguageServerName(pub String);

impl Clone for LanguageServerName {
    fn clone(&self) -> (copy: LanguageServerName)
        ensures
            copy == *self,
    {
        LanguageServerName(self.0.clone())
    }
}

impl LanguageServerName {
    /// Whether this is the name `other`.
    pub fn is(&self, other: &LanguageServerName) -> (same: bool)
        ensures
            same == (self.0@ == other.0@),
    {
        same_text(self.0.as_str(), other.0.as_str())
    }
}

/// What is known of a language server without asking it: all that its adapter says once and
/// for all.
pub struct CachedLspAdapter {
    pub name: LanguageServerName,
    pub server_args: Vec<String>,
    pub initialization_options: Option<serde_json::Value>,
    pub disk_based_diagnostic_sources: Vec<String>,
    pub disk_based_diagnostics_progress_token: Option<String>,
    pub language_ids: std::collections::HashMap<String, String>,
}

impl CachedLspAdapter {
    /// Keeps what an adapter says of itself.
    pub fn new(
        name: LanguageServerName,
        server_args: Vec<String>,
        initialization_options: Option<serde_json::Value>,
        disk_based_diagnostic_sources: Vec<String>,
        disk_based_diagnostics_progress_token: Option<String>,
        language_ids: std::collections::HashMap<String, String>,
    ) -> (adapter: CachedLspAdapter)
        ensures
            adapter == (CachedLspAdapter {
                name,
                server_args,
                initialization_options,
                disk_based_diagnostic_sources,
                disk_based_diagnostics_progress_token,
                language_ids,
            }),
    {
        CachedLspAdapter {
            name,
            server_args,
            initialization_options,
            disk_based_diagnostic_sources,
            disk_based_diagnostics_progress_token,
            language_ids,
        }
    }
}

} // verus!
