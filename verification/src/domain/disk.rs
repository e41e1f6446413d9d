use vstd::prelude::*;

verus! {

/// A mounted disk. The used percentage is left to the presentation layer.
#[derive(Debug, Clone)]
pub struct DiskInfo {
    pub id: String,
    pub name: String,
    pub mount_path: String,
    pub file_system: String,
    pub total_bytes: u64,
    pub used_bytes: u64,
    pub available_bytes: u64,
    pub removable: bool,
}

} // verus!
