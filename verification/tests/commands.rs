use disksage::commands::{app_info, duplicate_copy_path, AppLink};
use disksage::domain::duplicate::{DuplicateCopy, DuplicateGroup};
use disksage::domain::error::ErrorCode;

#[test]
fn product_links_are_fixed_https_destinations() {
    for link in [AppLink::Repository, AppLink::Releases, AppLink::Privacy, AppLink::Security, AppLink::License] {
        let url = link.url();
        assert!(url.starts_with("https://github.com/talaatmagdyx/disk_sage"));
        assert!(!url.contains(' '));
    }
}

#[test]
fn each_product_link_has_its_own_page() {
    assert_eq!(AppLink::Releases.url(), "https://github.com/talaatmagdyx/disk_sage/releases");
    assert_eq!(AppLink::License.url(), "https://github.com/talaatmagdyx/disk_sage/blob/main/LICENSE");
}

#[test]
fn app_info_names_the_build_profile() {
    let info = app_info("1.2.3", "macos", "aarch64", true);
    assert_eq!(info.name, "DiskSage");
    assert_eq!(info.version, "1.2.3");
    assert_eq!(info.build_profile, "development");
    assert_eq!(info.runtime, "Tauri 2");
    assert!(info.destructive_commands_available);
    assert_eq!(app_info("1.2.3", "linux", "x86_64", false).build_profile, "release");
}

fn copy(id: &str, path: &str) -> DuplicateCopy {
    DuplicateCopy {
        id: id.to_string(),
        path: path.to_string(),
        display_path: path.to_string(),
        modified_at: None,
        owner: None,
    }
}

#[test]
fn reveals_the_requested_copy_of_a_group() {
    let group = DuplicateGroup {
        id: "group".to_string(),
        scan_id: "scan".to_string(),
        file_size: 4,
        reclaimable_bytes: 4,
        copies: vec![copy("a", "/tmp/a"), copy("b", "/tmp/b")],
        recommended_keep_id: "a".to_string(),
        keep_reason: "Oldest modification time".to_string(),
        full_hash: "hash".to_string(),
        byte_for_byte_verified: false,
    };
    assert_eq!(duplicate_copy_path(&group, "b").unwrap(), "/tmp/b");
    let error = duplicate_copy_path(&group, "c").unwrap_err();
    assert_eq!(error.code, ErrorCode::PathNotFound);
    assert_eq!(error.message, "That duplicate copy no longer exists in the group.");
}
