use disksage::domain::disk::DiskInfo;
use disksage::domain::error::ErrorCode;
use disksage::platform::{disk_info, get_disk, sort_disks};

fn disk(mount: &str, total: u64, available: u64) -> DiskInfo {
    disk_info(mount.to_string(), "Fixture".to_string(), "apfs".to_string(), total, available, false)
}

#[test]
fn rejects_empty_mount_path() {
    let error = get_disk("", &Vec::new()).unwrap_err();
    assert_eq!(error.code, ErrorCode::InvalidPath);
}

#[test]
fn rejects_a_mount_path_with_a_nul() {
    let disks = vec![disk("/", 100, 40)];
    let error = get_disk("/\0", &disks).unwrap_err();
    assert_eq!(error.code, ErrorCode::InvalidPath);
    assert_eq!(error.message, "The mount path is invalid.");
}

#[test]
fn an_unmounted_disk_is_reported_with_its_path() {
    let disks = vec![disk("/", 100, 40)];
    let error = get_disk("/Volumes/Gone", &disks).unwrap_err();
    assert_eq!(error.code, ErrorCode::PathNotFound);
    assert_eq!(error.message, "The mounted disk is no longer available.");
    assert_eq!(error.path.as_deref(), Some("/Volumes/Gone"));
}

#[test]
fn finds_the_disk_by_mount_path() {
    let disks = vec![disk("/", 100, 40), disk("/Volumes/Data", 500, 100)];
    let found = get_disk("/Volumes/Data", &disks).unwrap();
    assert_eq!(found.id, "/Volumes/Data");
    assert_eq!(found.total_bytes, 500);
    assert_eq!(found.used_bytes, 400);
}

#[test]
fn available_space_is_capped_at_the_total() {
    let d = disk("/", 100, 150);
    assert_eq!(d.available_bytes, 100);
    assert_eq!(d.used_bytes, 0);
    let d = disk("/", 100, 30);
    assert_eq!(d.available_bytes, 30);
    assert_eq!(d.used_bytes, 70);
}

#[test]
fn disks_are_listed_by_mount_path() {
    let sorted = sort_disks(vec![disk("/Volumes/B", 1, 1), disk("/", 1, 1), disk("/Volumes/A", 1, 1)]);
    let mounts: Vec<&str> = sorted.iter().map(|d| d.mount_path.as_str()).collect();
    assert_eq!(mounts, vec!["/", "/Volumes/A", "/Volumes/B"]);
}
