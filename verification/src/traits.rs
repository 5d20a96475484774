//! Plugin configuration, the base adapter trait and the value types that VCS
//! adapters exchange with their hosts.

use vstd::prelude::*;

use crate::error::PluginResult;

verus! {

/// Configuration for a plugin adapter.
#[derive(Debug, Clone)]
pub struct PluginConfig {
    /// Plugin name.
    pub name: String,
    /// Plugin version.
    pub version: String,
    /// Adapter-specific configuration (JSON).
    pub adapter_config: serde_json::Value,
}

/// Base trait for all plugins: metadata and lifecycle.
pub trait AdapterPlugin: Send + Sync {
    /// Returns the plugin name (e.g., "git", "sqlite").
    fn name(&self) -> &str;

    /// Returns the plugin version.
    fn version(&self) -> &str;

    /// Initializes the plugin with configuration.
    fn initialize(&self, config: PluginConfig) -> PluginResult<()>;

    /// Returns `Ok(())` if healthy, or an error describing the issue.
    fn health_check(&self) -> (r: PluginResult<()>)
        default_ensures
            r is Ok,
    {
        Ok(())
    }
}

/// Metadata about an active git worktree.
#[derive(Debug, Clone)]
pub struct WorktreeInfo {
    pub path: std::path::PathBuf,
    pub branch: String,
    pub feature_slug: String,
    pub wp_id: String,
}

/// Result of a merge operation.
#[derive(Debug, Clone)]
pub struct MergeResult {
    pub success: bool,
    pub conflicts: Vec<ConflictInfo>,
    pub merged_commit: Option<String>,
}

/// Description of a merge conflict in a single file.
#[derive(Debug, Clone)]
pub struct ConflictInfo {
    pub path: String,
    pub ours: Option<String>,
    pub theirs: Option<String>,
}

/// Collected feature artifacts discovered in the repository.
#[derive(Debug, Clone)]
pub struct FeatureArtifacts {
    pub meta_json: Option<String>,
    pub audit_chain: Option<String>,
    pub evidence_paths: Vec<String>,
}

} // verus!

