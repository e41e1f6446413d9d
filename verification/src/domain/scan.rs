use vstd::prelude::*;
use crate::domain::error::CommandError;
use crate::domain::rule::RuleCategory;

verus! {

#[derive(Debug, Clone, Copy, PartialEq, Eq, Structural)]
pub enum ScanPhase {
    Preparing,
    DiscoveringTargets,
    Scanning,
    Analyzing,
    Hashing,
    Finalizing,
    Completed,
    Cancelled,
    Failed,
}

#[derive(Debug, Clone, Copy, PartialEq, Eq, Structural)]
pub enum ScanProfileId {
    Quick,
    Developer,
    FullAnalysis,
    Custom,
}

/// A scan profile offered to the user.
#[derive(Debug, Clone)]
pub struct ScanProfile {
    pub id: ScanProfileId,
    pub display_name: String,
    pub description: String,
    pub expected_duration: String,
    pub available: bool,
    pub warning: Option<String>,
}

/// Live progress of a rule scan.
#[derive(Debug, Clone)]
pub struct ScanProgress {
    pub scan_id: String,
    pub phase: ScanPhase,
    pub current_path: Option<String>,
    pub files_scanned: u64,
    pub directories_scanned: u64,
    pub bytes_examined: u64,
    pub findings_count: u64,
    pub reclaimable_bytes: u64,
    pub skipped_count: u64,
    pub permission_denied_count: u64,
    pub elapsed_ms: u64,
}

/// The running or final state of a rule scan. Times are milliseconds since the Unix epoch.
#[derive(Debug, Clone)]
pub struct ScanSummary {
    pub scan_id: String,
    pub profile: ScanProfileId,
    pub phase: ScanPhase,
    pub started_at: i64,
    pub completed_at: Option<i64>,
    pub files_scanned: u64,
    pub directories_scanned: u64,
    pub bytes_examined: u64,
    pub findings_count: u64,
    pub reclaimable_bytes: u64,
    pub skipped_count: u64,
    pub permission_denied_count: u64,
    pub elapsed_ms: u64,
    pub errors: Vec<CommandError>,
}

/// A request to start a rule scan.
#[derive(Debug, Clone)]
pub struct StartScanRequest {
    pub profile: ScanProfileId,
    pub excluded_paths: Vec<String>,
}

#[derive(Debug, Clone)]
pub struct StartScanResponse {
    pub scan_id: String,
}

#[derive(Debug, Clone)]
pub struct ScanIdRequest {
    pub scan_id: String,
}

#[derive(Debug, Clone)]
pub struct GetScanFindingsRequest {
    pub scan_id: String,
    pub offset: usize,
    pub limit: usize,
}

/// The options of a custom analysis.
#[derive(Debug, Clone)]
pub struct CustomScanOptions {
    pub roots: Vec<String>,
    pub enabled_categories: Vec<RuleCategory>,
    pub minimum_file_size_bytes: u64,
    pub maximum_depth: u16,
    pub include_hidden_files: bool,
    pub include_external_drives: bool,
}

} // verus!
