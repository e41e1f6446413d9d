use vstd::prelude::*;
use crate::domain::rule::{RecommendedAction, RiskLevel, RuleCategory};

verus! {

#[derive(Debug, Clone, Copy, PartialEq, Eq, Structural)]
pub enum FindingType {
    File,
    Directory,
    Symlink,
}

/// Why a finding was reported.
#[derive(Debug, Clone)]
pub enum FindingEvidence {
    KnownPath,
    ExtensionMatch { extensions: Vec<String> },
    DirectoryNameMatch { directory_name: String },
    AgeThreshold { older_than_days: u32 },
    SizeThreshold { minimum_bytes: u64 },
    DuplicateHash { algorithm: String, group_id: String },
    PackageManagerCache { manager: String },
}

/// One reported item of a scan. `modified_at` is in milliseconds since the Unix epoch.
#[derive(Debug, Clone)]
pub struct Finding {
    pub id: String,
    pub scan_id: String,
    pub rule_id: String,
    pub rule_version: u32,
    pub category: RuleCategory,
    pub display_name: String,
    pub description: String,
    pub path: String,
    pub display_path: String,
    pub item_type: FindingType,
    pub logical_size: u64,
    pub allocated_size: Option<u64>,
    pub modified_at: Option<i64>,
    pub risk: RiskLevel,
    pub recommended_action: RecommendedAction,
    pub evidence: FindingEvidence,
    pub cleanup_allowed: bool,
    pub cleanup_block_reason: Option<String>,
}

} // verus!
