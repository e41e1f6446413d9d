use vstd::prelude::*;
use crate::domain::cleanup::CleanupAction;
use crate::domain::error::CommandError;

verus! {

#[derive(Debug, Clone, Copy, PartialEq, Eq, Structural)]
pub enum DuplicateScanPhase {
    Discovering,
    Grouping,
    PartialHashing,
    FullHashing,
    Verifying,
    Finalizing,
    Completed,
    Cancelled,
    Failed,
}

#[derive(Debug, Clone)]
pub struct StartDuplicateScanRequest {
    pub roots: Vec<String>,
    pub minimum_size_bytes: u64,
    pub byte_for_byte_verification: bool,
}

#[derive(Debug, Clone)]
pub struct StartDuplicateScanResponse {
    pub scan_id: String,
}

#[derive(Debug, Clone)]
pub struct DuplicateScanIdRequest {
    pub scan_id: String,
}

#[derive(Debug, Clone)]
pub struct GetDuplicateGroupsRequest {
    pub scan_id: String,
    pub offset: usize,
    pub limit: usize,
}

/// The page size used when a request names none.
pub fn default_group_page_size() -> (r: usize)
    ensures
        r == 100,
{
    100
}

/// One copy of a duplicated file. `modified_at` is in milliseconds since the Unix epoch.
#[derive(Debug, Clone)]
pub struct DuplicateCopy {
    pub id: String,
    pub path: String,
    pub display_path: String,
    pub modified_at: Option<i64>,
    pub owner: Option<String>,
}

/// Files with identical content.
#[derive(Debug, Clone)]
pub struct DuplicateGroup {
    pub id: String,
    pub scan_id: String,
    pub file_size: u64,
    pub reclaimable_bytes: u64,
    pub copies: Vec<DuplicateCopy>,
    pub recommended_keep_id: String,
    pub keep_reason: String,
    pub full_hash: String,
    pub byte_for_byte_verified: bool,
}

#[derive(Debug, Clone)]
pub struct DuplicateProgress {
    pub scan_id: String,
    pub phase: DuplicateScanPhase,
    pub current_path: Option<String>,
    pub files_scanned: u64,
    pub candidate_files: u64,
    pub bytes_hashed: u64,
    pub groups_found: u64,
    pub reclaimable_bytes: u64,
    pub skipped_count: u64,
    pub permission_denied_count: u64,
    pub elapsed_ms: u64,
}

/// The state of a duplicate scan. Times are milliseconds since the Unix epoch.
#[derive(Debug, Clone)]
pub struct DuplicateSummary {
    pub scan_id: String,
    pub phase: DuplicateScanPhase,
    pub roots: Vec<String>,
    pub minimum_size_bytes: u64,
    pub byte_for_byte_verification: bool,
    pub started_at: i64,
    pub completed_at: Option<i64>,
    pub files_scanned: u64,
    pub candidate_files: u64,
    pub bytes_hashed: u64,
    pub groups_found: u64,
    pub duplicate_files: u64,
    pub reclaimable_bytes: u64,
    pub skipped_count: u64,
    pub permission_denied_count: u64,
    pub elapsed_ms: u64,
    pub errors: Vec<CommandError>,
}

/// Which copy of a group to keep and which to move to the Trash.
#[derive(Debug, Clone)]
pub struct DuplicateCleanupSelection {
    pub group_id: String,
    pub keep_copy_id: String,
    pub trash_copy_ids: Vec<String>,
}

#[derive(Debug, Clone)]
pub struct CreateDuplicateCleanupPlanRequest {
    pub scan_id: String,
    pub selections: Vec<DuplicateCleanupSelection>,
    pub action: CleanupAction,
}

/// One copy to move, with the copy kept in its place.
#[derive(Debug, Clone)]
pub struct DuplicateCleanupPlanItem {
    pub group_id: String,
    pub copy_id: String,
    pub path: String,
    pub canonical_path: String,
    pub expected_size: u64,
    pub expected_modified_at: Option<i64>,
    pub full_hash: String,
    pub keep_copy_id: String,
    pub keep_path: String,
    pub keep_canonical_path: String,
    pub keep_modified_at: Option<i64>,
    pub byte_for_byte_verified: bool,
    pub validation_token: String,
}

/// An immutable duplicate cleanup plan. Times are milliseconds since the Unix epoch.
#[derive(Debug, Clone)]
pub struct DuplicateCleanupPlan {
    pub id: String,
    pub scan_id: String,
    pub created_at: i64,
    pub expires_at: i64,
    pub action: CleanupAction,
    pub items: Vec<DuplicateCleanupPlanItem>,
    pub expected_reclaimable_bytes: u64,
    pub kept_copy_count: u64,
    pub confirmation_token: String,
}

#[derive(Debug, Clone)]
pub struct ExecuteDuplicateCleanupRequest {
    pub plan_id: String,
    pub confirmation_token: String,
}

#[derive(Debug, Clone)]
pub struct CancelDuplicateCleanupRequest {
    pub operation_id: String,
}

} // verus!
