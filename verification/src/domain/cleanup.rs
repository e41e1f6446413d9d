use vstd::prelude::*;
use crate::domain::disk::DiskInfo;
use crate::domain::error::CommandError;
use crate::domain::finding::FindingType;
use crate::domain::rule::RiskLevel;

verus! {

#[derive(Debug, Clone, Copy, PartialEq, Eq, Structural)]
pub enum CleanupAction {
    MoveToTrash,
    PermanentDelete,
}

/// One reviewed item of a cleanup plan, with what it looked like when reviewed.
#[derive(Debug, Clone)]
pub struct CleanupPlanItem {
    pub scan_id: String,
    pub finding_id: String,
    pub rule_id: String,
    pub rule_version: u32,
    pub path: String,
    pub canonical_path: String,
    pub expected_type: FindingType,
    pub expected_size: u64,
    pub expected_modified_at: Option<i64>,
    pub risk: RiskLevel,
    pub validation_token: String,
}

/// How many plan items fall in each risk tier.
#[derive(Debug, Clone, Copy, PartialEq, Eq, Structural)]
pub struct RiskSummary {
    pub safe: u64,
    pub careful: u64,
    pub expert: u64,
}

/// An immutable cleanup plan. Times are milliseconds since the Unix epoch.
#[derive(Debug, Clone)]
pub struct CleanupPlan {
    pub id: String,
    pub created_at: i64,
    pub expires_at: i64,
    pub action: CleanupAction,
    pub items: Vec<CleanupPlanItem>,
    pub expected_reclaimable_bytes: u64,
    pub risk_summary: RiskSummary,
    pub confirmation_token: String,
}

#[derive(Debug, Clone)]
pub struct CreateCleanupPlanRequest {
    pub scan_id: String,
    pub finding_ids: Vec<String>,
    pub action: CleanupAction,
}

#[derive(Debug, Clone)]
pub struct ExecuteCleanupRequest {
    pub plan_id: String,
    pub confirmation_token: String,
}

#[derive(Debug, Clone)]
pub struct ExecuteCleanupResponse {
    pub operation_id: String,
}

#[derive(Debug, Clone)]
pub struct CancelCleanupRequest {
    pub operation_id: String,
}

#[derive(Debug, Clone)]
pub struct GetCleanupHistoryRequest {
    pub offset: usize,
    pub limit: usize,
}

#[derive(Debug, Clone, Copy, PartialEq, Eq, Structural)]
pub enum CleanupItemStatus {
    MovedToTrash,
    PermanentlyDeleted,
    Skipped,
    Failed,
}

/// What happened to one plan item.
#[derive(Debug, Clone)]
pub struct CleanupItemResult {
    pub finding_id: String,
    pub rule_id: String,
    pub display_path: String,
    pub expected_bytes: u64,
    pub status: CleanupItemStatus,
    pub error: Option<CommandError>,
}

/// Progress of a running cleanup.
#[derive(Debug, Clone)]
pub struct CleanupProgress {
    pub operation_id: String,
    pub total_items: u64,
    pub completed_items: u64,
    pub success_count: u64,
    pub failure_count: u64,
    pub skipped_count: u64,
    pub processed_bytes: u64,
    pub current_path: Option<String>,
}

/// The recorded outcome of a cleanup. Times are milliseconds since the Unix epoch.
#[derive(Debug, Clone)]
pub struct CleanupSummary {
    pub operation_id: String,
    pub plan_id: String,
    pub started_at: i64,
    pub completed_at: i64,
    pub action: CleanupAction,
    pub selected_count: u64,
    pub success_count: u64,
    pub failure_count: u64,
    pub skipped_count: u64,
    pub expected_bytes: u64,
    pub actual_free_space_change_bytes: Option<u64>,
    pub cancelled: bool,
    pub items: Vec<CleanupItemResult>,
    pub disks: Vec<DiskInfo>,
}

} // verus!
