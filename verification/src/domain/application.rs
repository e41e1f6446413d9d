use vstd::prelude::*;
use crate::domain::error::ErrorCode;

verus! {

#[derive(Debug, Clone, Copy, PartialEq, Eq, Structural)]
pub enum ApplicationScope {
    User,
    Shared,
    System,
}

/// An installed application. `last_used_at` is in milliseconds since the Unix epoch.
#[derive(Debug, Clone)]
pub struct InstalledApplication {
    pub id: String,
    pub name: String,
    pub bundle_id: Option<String>,
    pub version: Option<String>,
    pub path: String,
    pub display_path: String,
    pub logical_size: u64,
    pub allocated_size: Option<u64>,
    pub last_used_at: Option<i64>,
    pub scope: ApplicationScope,
    pub uninstall_allowed: bool,
    pub uninstall_block_reason: Option<String>,
}

#[derive(Debug, Clone, Copy, PartialEq, Eq, Structural)]
pub enum ApplicationUninstallMode {
    AppOnly,
    Complete,
    DeepCleanup,
}

#[derive(Debug, Clone, Copy, PartialEq, Eq, Structural)]
pub enum RelatedItemConfidence {
    Identified,
    Ambiguous,
}

/// Data that belongs, or may belong, to an application.
#[derive(Debug, Clone)]
pub struct RelatedApplicationItem {
    pub id: String,
    pub path: String,
    pub display_path: String,
    pub category: String,
    pub logical_size: u64,
    pub allocated_size: Option<u64>,
    pub may_contain_user_data: bool,
    pub confidence: RelatedItemConfidence,
    pub default_selected: bool,
    pub reason: String,
}

#[derive(Debug, Clone)]
pub struct ApplicationIdRequest {
    pub application_id: String,
}

#[derive(Debug, Clone)]
pub struct CreateApplicationUninstallPlanRequest {
    pub application_id: String,
    pub mode: ApplicationUninstallMode,
}

/// A reviewed uninstall plan. Times are milliseconds since the Unix epoch.
#[derive(Debug, Clone)]
pub struct ApplicationUninstallPlan {
    pub id: String,
    pub created_at: i64,
    pub expires_at: i64,
    pub application: InstalledApplication,
    pub mode: ApplicationUninstallMode,
    pub related_items: Vec<RelatedApplicationItem>,
    pub total_expected_bytes: u64,
    pub required_confirmation_phrase: Option<String>,
    pub confirmation_token: String,
}

#[derive(Debug, Clone)]
pub struct ExecuteApplicationUninstallRequest {
    pub plan_id: String,
    pub confirmation_token: String,
    pub selected_related_item_ids: Vec<String>,
    pub typed_confirmation: Option<String>,
}

#[derive(Debug, Clone)]
pub struct ApplicationUninstallFailure {
    pub display_path: String,
    pub code: ErrorCode,
    pub message: String,
}

#[derive(Debug, Clone)]
pub struct ApplicationUninstallResult {
    pub application_id: String,
    pub name: String,
    pub display_path: String,
    pub moved_to_trash: bool,
    pub expected_bytes: u64,
    pub mode: ApplicationUninstallMode,
    pub related_items_planned: u64,
    pub related_items_moved: u64,
    pub related_items_failed: u64,
    pub failed_paths: Vec<String>,
    pub failed_items: Vec<ApplicationUninstallFailure>,
    pub remaining_items: Vec<RelatedApplicationItem>,
}

} // verus!
