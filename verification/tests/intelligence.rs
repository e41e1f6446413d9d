use disksage::domain::error::ErrorCode;
use disksage::domain::intelligence::PermissionAccess;
use disksage::intelligence::{
    application_identifier, home_display_path_exec, identifier_is_installed, is_reported_orphan,
    looks_like_bundle_identifier, permission_report,
};
use disksage::domain::intelligence::StorageMapEntry;
use disksage::intelligence::{check_storage_root, storage_report, StorageRootFacts};
use disksage::scanner::walker::FsErrorKind;

#[test]
fn bundle_identifier_filter_is_narrow() {
    assert!(looks_like_bundle_identifier("com.example.fixture"));
    assert!(looks_like_bundle_identifier("group.com.example.fixture"));
    assert!(!looks_like_bundle_identifier("Application Support"));
    assert!(!looks_like_bundle_identifier("single"));
}

#[test]
fn malformed_dotted_names_are_not_identifiers() {
    assert!(!looks_like_bundle_identifier(".com.example"));
    assert!(!looks_like_bundle_identifier("com.example."));
    assert!(!looks_like_bundle_identifier("com..example"));
    assert!(!looks_like_bundle_identifier("com.exa mple"));
}

#[test]
fn group_identifiers_belong_to_their_application() {
    let installed = vec!["com.example.current".to_string()];
    assert!(identifier_is_installed("com.example.current", &installed));
    assert!(identifier_is_installed("group.com.example.current", &installed));
    assert!(!identifier_is_installed("com.example.retired", &installed));
}

#[test]
fn only_unowned_third_party_identifiers_are_orphans() {
    let installed = vec!["com.example.current".to_string()];
    assert!(is_reported_orphan("com.example.retired", &installed));
    assert!(!is_reported_orphan("com.example.current", &installed));
    assert!(!is_reported_orphan("com.apple.Safari", &installed));
    assert!(!is_reported_orphan("com.disksage.desktop", &installed));
    assert!(!is_reported_orphan("Caches", &installed));
}

#[test]
fn preferences_and_saved_states_lose_their_endings() {
    assert_eq!(
        application_identifier("/Users/a/Library/Preferences/com.example.app.plist", "Preference").as_deref(),
        Some("com.example.app")
    );
    assert_eq!(application_identifier("/Users/a/Library/Preferences/notes.txt", "Preference"), None);
    assert_eq!(
        application_identifier("/Users/a/Library/Saved Application State/com.example.app.savedState", "Saved Application State")
            .as_deref(),
        Some("com.example.app")
    );
    assert_eq!(
        application_identifier("/Users/a/Library/Caches/com.example.app", "Cache").as_deref(),
        Some("com.example.app")
    );
}

#[test]
fn home_paths_are_shown_with_a_tilde() {
    assert_eq!(home_display_path_exec("/Users/a", "/Users/a"), "~");
    assert_eq!(home_display_path_exec("/Users/a/Library/Caches", "/Users/a"), "~/Library/Caches");
    assert_eq!(home_display_path_exec("/Applications", "/Users/a"), "/Applications");
}

#[test]
fn permission_report_classifies_each_location() {
    let reads = vec![
        Ok(()),
        Err(FsErrorKind::NotFound),
        Err(FsErrorKind::PermissionDenied),
        Ok(()),
    ];
    let report = permission_report("/Users/a", "macos", reads, 42).unwrap();
    assert_eq!(report.checked_at, 42);
    assert_eq!(report.locations.len(), 4);
    assert_eq!(report.locations[0].display_path, "~");
    assert_eq!(report.locations[1].display_path, "~/Library/Application Support");
    assert_eq!(report.locations[0].access, PermissionAccess::Available);
    assert_eq!(report.locations[1].access, PermissionAccess::NotPresent);
    assert_eq!(report.locations[2].access, PermissionAccess::Limited);
    assert!(!report.full_disk_access_likely);
}

#[test]
fn readable_containers_suggest_full_disk_access() {
    let reads = vec![Ok(()), Ok(()), Ok(()), Ok(())];
    let report = permission_report("/Users/a", "macos", reads, 1).unwrap();
    assert!(report.full_disk_access_likely);
}

#[test]
fn permission_center_is_macos_only() {
    let reads = vec![Ok(()), Ok(()), Ok(()), Ok(())];
    let error = permission_report("/home/a", "linux", reads, 1).unwrap_err();
    assert_eq!(error.code, ErrorCode::CommandUnavailable);
    assert_eq!(error.message, "Permission Center is currently available on macOS.");
}

fn root_facts(canonical: &str) -> StorageRootFacts {
    StorageRootFacts { stat: Ok((false, true, 7)), canonical: Ok(canonical.to_string()), home_canonical: Ok("/home/alex".to_string()) }
}

#[test]
fn storage_map_rejects_roots_outside_home() {
    let error = check_storage_root(&Some("/tmp/outside".to_string()), "/home/alex", &root_facts("/tmp/outside")).unwrap_err();
    assert_eq!(error.code, ErrorCode::PathProtected);
}

#[test]
fn storage_map_starts_at_home_by_default() {
    let (root, device) = check_storage_root(&None, "/home/alex", &root_facts("/home/alex")).unwrap();
    assert_eq!(root, "/home/alex");
    assert_eq!(device, 7);
    let error = check_storage_root(&Some("relative".to_string()), "/home/alex", &root_facts("/home/alex/relative")).unwrap_err();
    assert_eq!(error.code, ErrorCode::InvalidPath);
}

fn map_entry(name: &str, allocated: u64) -> StorageMapEntry {
    StorageMapEntry {
        id: name.to_string(),
        name: name.to_string(),
        path: format!("/home/alex/{name}"),
        display_path: format!("~/{name}"),
        logical_size: allocated / 2,
        allocated_size: allocated,
        files_scanned: 1,
        directories_scanned: 1,
        permission_denied_count: 0,
        truncated: false,
    }
}

#[test]
fn storage_report_lists_largest_first_and_sums() {
    let report = storage_report("/home/alex", "/home/alex", vec![map_entry("a", 10), map_entry("b", 30), map_entry("c", 20)], false, 5);
    let names: Vec<&str> = report.entries.iter().map(|e| e.name.as_str()).collect();
    assert_eq!(names, vec!["b", "c", "a"]);
    assert_eq!(report.allocated_size, 60);
    assert_eq!(report.files_scanned, 3);
    assert!(!report.truncated);
    assert_eq!(report.display_root, "~");
}
