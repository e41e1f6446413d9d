use disksage::applications::bundles::{
    application_roots, check_installed_apps_platform, check_inventory_platform, is_allowed_application_path,
    last_used_from_spotlight, process_list_contains_bundle, valid_path_component, windows_registry_path,
};
use disksage::applications::coordinator::ApplicationManager;
use disksage::applications::inventory::{
    inspect_application, revalidate_application_identity, FileIdentity, IdentityFacts, InventoryEntry,
};
use disksage::domain::application::{ApplicationUninstallMode, ExecuteApplicationUninstallRequest};
use disksage::domain::error::ErrorCode;
use disksage::scanner::walker::{FsError, FsErrorKind};
use disksage::applications::plists::{application_groups, bundle_metadata};
use disksage::domain::application::ApplicationScope;

#[test]
fn system_roots_are_opt_in() {
    let home = "/Users/fixture";
    let default_roots = application_roots(home, false);
    assert!(default_roots.iter().all(|(_, scope)| *scope != ApplicationScope::System));

    let expanded_roots = application_roots(home, true);
    assert!(expanded_roots
        .iter()
        .any(|(path, scope)| path == "/System/Applications" && *scope == ApplicationScope::System));
    assert!(expanded_roots.iter().any(|(path, scope)| path
        == "/System/Library/CoreServices/Applications"
        && *scope == ApplicationScope::System));
}

#[test]
fn running_process_detection_is_bound_to_the_reviewed_bundle() {
    let processes = "/Applications/Fixture.app/Contents/MacOS/Fixture --restored\n/Applications/Other.app/Contents/MacOS/Other\n";
    assert!(process_list_contains_bundle(processes, "/Applications/Fixture.app"));
    assert!(!process_list_contains_bundle(processes, "/Applications/Missing.app"));
}

#[test]
fn malformed_bundle_names_cannot_escape_the_library_allowlist() {
    assert!(!valid_path_component("../Documents"));
    assert!(!valid_path_component("a/b"));
    assert!(!valid_path_component(".."));
    assert!(valid_path_component("com.example.safe"));
}

#[test]
fn default_roots_are_the_user_and_shared_folders() {
    let roots = application_roots("/Users/fixture", false);
    assert_eq!(roots.len(), 2);
    assert_eq!(roots[0].0, "/Users/fixture/Applications");
    assert_eq!(roots[0].1, ApplicationScope::User);
    assert_eq!(roots[1].0, "/Applications");
    assert_eq!(roots[1].1, ApplicationScope::Shared);
}

#[test]
fn indented_commands_of_the_bundle_count_as_running() {
    let processes = "   /Applications/Fixture.app/Contents/MacOS/Fixture\n";
    assert!(process_list_contains_bundle(processes, "/Applications/Fixture.app"));
    let other = "/Applications/Fixture.app.backup/Contents/MacOS/Fixture\n";
    assert!(!process_list_contains_bundle(other, "/Applications/Fixture.app"));
}

#[test]
fn only_shared_applications_outside_the_system_may_be_removed() {
    assert!(is_allowed_application_path("/Applications/Fixture.app"));
    assert!(!is_allowed_application_path("/System/Applications/Fixture.app"));
    assert!(!is_allowed_application_path("/Users/fixture/Documents/Fixture.app"));
}

#[test]
fn registry_values_name_quoted_and_indexed_paths() {
    assert_eq!(
        windows_registry_path("  \"C:\\Program Files\\Fixture\\fixture.exe\" --flag ").as_deref(),
        Some("C:\\Program Files\\Fixture\\fixture.exe")
    );
    assert_eq!(
        windows_registry_path("C:\\Fixture\\fixture.exe,0").as_deref(),
        Some("C:\\Fixture\\fixture.exe")
    );
    assert_eq!(windows_registry_path("   ").as_deref(), None);
    assert_eq!(windows_registry_path("\"\"").as_deref(), None);
    assert_eq!(windows_registry_path(" , 3").as_deref(), None);
}

#[test]
fn spotlight_dates_are_read_in_milliseconds() {
    assert_eq!(last_used_from_spotlight("2024-01-02 03:04:05 +0000\n"), Some(1_704_164_645_000));
    assert_eq!(last_used_from_spotlight("2024-01-02 05:04:05 +0200"), Some(1_704_164_645_000));
    assert_eq!(last_used_from_spotlight("(null)\n"), None);
    assert_eq!(last_used_from_spotlight("yesterday"), None);
}

const INFO_PLIST: &str = r#"<?xml version="1.0" encoding="UTF-8"?>
<!DOCTYPE plist PUBLIC "-//Apple//DTD PLIST 1.0//EN" "http://www.apple.com/DTDs/PropertyList-1.0.dtd">
<plist version="1.0">
<dict>
    <key>CFBundleName</key>
    <string>Fixture</string>
    <key>CFBundleIdentifier</key>
    <string>com.example.fixture</string>
    <key>CFBundleShortVersionString</key>
    <string>1.2.3</string>
    <key>LSMinimumSystemVersion</key>
    <integer>11</integer>
</dict>
</plist>
"#;

#[test]
fn info_plist_names_the_bundle() {
    let metadata = bundle_metadata(INFO_PLIST.as_bytes());
    assert_eq!(metadata.name.as_deref(), Some("Fixture"));
    assert_eq!(metadata.bundle_id.as_deref(), Some("com.example.fixture"));
    assert_eq!(metadata.version.as_deref(), Some("1.2.3"));
    let display = INFO_PLIST.replace(
        "<key>CFBundleName</key>",
        "<key>CFBundleDisplayName</key>\n    <string>Fixture Pro</string>\n    <key>CFBundleName</key>",
    );
    assert_eq!(bundle_metadata(display.as_bytes()).name.as_deref(), Some("Fixture Pro"));
    let unreadable = bundle_metadata(b"not a plist");
    assert!(unreadable.name.is_none() && unreadable.bundle_id.is_none() && unreadable.version.is_none());
}

#[test]
fn entitlements_declare_application_groups() {
    let entitlements = "Executable=/Applications/Fixture.app/Contents/MacOS/Fixture\n<?xml version=\"1.0\"?><plist version=\"1.0\"><dict><key>com.apple.security.application-groups</key><array><string>group.com.example.fixture</string><integer>3</integer><string>TEAM.shared</string></array></dict></plist>";
    let groups = application_groups(&vec![String::new(), entitlements.to_string()]);
    assert_eq!(groups, vec!["group.com.example.fixture".to_string(), "TEAM.shared".to_string()]);
    assert!(application_groups(&vec!["no entitlements".to_string()]).is_empty());
}

#[test]
fn inventory_runs_on_macos_and_windows() {
    assert!(check_inventory_platform("macos").is_ok());
    assert!(check_inventory_platform("windows").is_ok());
    let error = check_inventory_platform("linux").unwrap_err();
    assert_eq!(error.code, ErrorCode::CommandUnavailable);
    assert!(check_installed_apps_platform("windows").is_ok());
    assert!(check_installed_apps_platform("macos").is_err());
}

fn fixture_plist(name: &str, bundle_id: &str) -> String {
    format!("<?xml version=\"1.0\" encoding=\"UTF-8\"?><plist version=\"1.0\"><dict><key>CFBundleDisplayName</key><string>{name}</string><key>CFBundleIdentifier</key><string>{bundle_id}</string><key>CFBundleShortVersionString</key><string>1.2.3</string></dict></plist>")
}

fn fixture_entry(name: &str, bundle_id: &str, scope: ApplicationScope) -> InventoryEntry {
    let path = format!("/Applications/{name}.app");
    let identity = FileIdentity { canonical_path: path.clone(), is_directory: true, modified_at: Some(7), device: 1, inode: 42 };
    let metadata = bundle_metadata(fixture_plist(name, bundle_id).as_bytes());
    inspect_application(&path, scope, "/Users/fixture", identity, 8192, 8192, metadata, None)
}

#[test]
fn inspects_bundle_metadata_and_size() {
    let entry = fixture_entry("Fixture", "com.example.fixture", ApplicationScope::User);
    assert_eq!(entry.application.name, "Fixture");
    assert_eq!(entry.application.version.as_deref(), Some("1.2.3"));
    assert!(entry.application.logical_size > 7);
    assert!(entry.application.uninstall_allowed);
}

#[test]
fn blocks_system_and_disksage_bundles() {
    assert!(!fixture_entry("SystemFixture", "com.apple.fixture", ApplicationScope::System).application.uninstall_allowed);
    assert!(!fixture_entry("DiskSage", "com.disksage.desktop", ApplicationScope::User).application.uninstall_allowed);
}

#[test]
fn plan_is_inventory_bound_and_single_use() {
    let entry = fixture_entry("Fixture", "com.example.fixture", ApplicationScope::User);
    let id = entry.application.id.clone();
    let mut manager = ApplicationManager::new();
    manager.replace_inventory(vec![entry]);
    assert_eq!(manager.plan_entry("not-in-inventory").unwrap_err().code, ErrorCode::PlanValidationFailed);
    let (application, identity) = manager.plan_entry(&id).unwrap();
    let plan = manager.create_plan(application, identity, ApplicationUninstallMode::AppOnly, Vec::new(), 1_000).unwrap();
    let request = ExecuteApplicationUninstallRequest {
        plan_id: plan.id.clone(),
        confirmation_token: plan.confirmation_token.clone(),
        selected_related_item_ids: Vec::new(),
        typed_confirmation: None,
    };
    manager.consume_plan(&request, 2_000).unwrap();
    assert_eq!(manager.consume_plan(&request, 2_000).unwrap_err().code, ErrorCode::PlanValidationFailed);
}

#[test]
fn plan_fails_when_bundle_changes_after_review() {
    let entry = fixture_entry("Fixture", "com.example.fixture", ApplicationScope::User);
    let gone = FsError { kind: FsErrorKind::NotFound, details: "No such file or directory".to_string() };
    let facts = IdentityFacts { stat: Err(gone.clone()), canonical: Err(gone) };
    assert_eq!(revalidate_application_identity(&entry.identity, &facts).unwrap_err().code, ErrorCode::PathNotFound);
}

#[test]
fn application_plans_are_refused_only_when_sixty_four_wait() {
    let entry = fixture_entry("Fixture", "com.example.fixture", ApplicationScope::User);
    let id = entry.application.id.clone();
    let mut manager = ApplicationManager::new();
    manager.replace_inventory(vec![entry]);
    assert!(manager.is_well_formed());
    for _ in 0..64 {
        let (application, identity) = manager.plan_entry(&id).unwrap();
        manager.create_plan(application, identity, ApplicationUninstallMode::AppOnly, Vec::new(), 1_000).unwrap();
    }
    let (application, identity) = manager.plan_entry(&id).unwrap();
    let refused = manager.create_plan(application, identity, ApplicationUninstallMode::AppOnly, Vec::new(), 1_000).unwrap_err();
    assert_eq!(refused.code, ErrorCode::CommandUnavailable);
    assert_eq!(refused.message, "Too many application uninstall plans are awaiting review.");
    let (application, identity) = manager.plan_entry(&id).unwrap();
    assert!(manager.create_plan(application, identity, ApplicationUninstallMode::AppOnly, Vec::new(), 1_000 + 600_000).is_ok());
}
