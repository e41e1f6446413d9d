use vstd::prelude::*;

verus! {

#[derive(Debug, Clone, Copy, PartialEq, Eq, Structural)]
pub enum PermissionAccess {
    Available,
    Limited,
    NotPresent,
}

#[derive(Debug, Clone)]
pub struct PermissionLocation {
    pub label: String,
    pub display_path: String,
    pub access: PermissionAccess,
    pub guidance: String,
}

/// A read-only access report. `checked_at` is in milliseconds since the Unix epoch.
#[derive(Debug, Clone)]
pub struct PermissionReport {
    pub checked_at: i64,
    pub full_disk_access_likely: bool,
    pub locations: Vec<PermissionLocation>,
    pub note: String,
}

/// Application data whose owner was not found among installed applications.
#[derive(Debug, Clone)]
pub struct OrphanedApplicationData {
    pub id: String,
    pub path: String,
    pub display_path: String,
    pub identifier: String,
    pub category: String,
    pub logical_size: u64,
    pub allocated_size: u64,
    pub reason: String,
    pub default_selected: bool,
}

#[derive(Debug, Clone)]
pub struct StorageMapRequest {
    pub root: Option<String>,
}

#[derive(Debug, Clone)]
pub struct StorageMapEntry {
    pub id: String,
    pub name: String,
    pub path: String,
    pub display_path: String,
    pub logical_size: u64,
    pub allocated_size: u64,
    pub files_scanned: u64,
    pub directories_scanned: u64,
    pub permission_denied_count: u64,
    pub truncated: bool,
}

#[derive(Debug, Clone)]
pub struct StorageMapReport {
    pub root: String,
    pub display_root: String,
    pub entries: Vec<StorageMapEntry>,
    pub logical_size: u64,
    pub allocated_size: u64,
    pub files_scanned: u64,
    pub directories_scanned: u64,
    pub permission_denied_count: u64,
    pub truncated: bool,
    pub elapsed_ms: u64,
    pub note: String,
}

} // verus!
