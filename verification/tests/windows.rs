use disksage::applications::inventory::{FileIdentity, PathStat};
use disksage::applications::windows::{
    chosen_registry_path, dedupe_windows_entries, registry_entry, registry_paths, windows_identity, RegistryApp,
    WindowsPathFacts,
};
use disksage::domain::application::ApplicationScope;
use disksage::domain::error::ErrorCode;

fn app(name: Option<&str>, system: Option<u32>) -> RegistryApp {
    RegistryApp {
        key_name: "Fixture".to_string(),
        display_name: name.map(str::to_string),
        system_component: system,
        install_location: Some("  \"C:\\Program Files\\Fixture\" ".to_string()),
        display_icon: Some("C:\\Program Files\\Fixture\\fixture.exe,0".to_string()),
        estimated_size: Some(2),
        display_version: Some("1.0".to_string()),
    }
}

fn identity(path: &str) -> FileIdentity {
    FileIdentity { canonical_path: path.to_string(), is_directory: true, modified_at: None, device: 0, inode: 0 }
}

#[test]
fn unnamed_and_system_keys_are_not_listed() {
    assert!(registry_paths(&app(None, None), true).is_none());
    assert!(registry_paths(&app(Some("   "), None), true).is_none());
    assert!(registry_paths(&app(Some("Fixture"), Some(1)), false).is_none());
    assert!(registry_paths(&app(Some("Fixture"), Some(1)), true).is_some());
    assert!(registry_paths(&app(Some("Fixture"), Some(0)), false).is_some());
}

#[test]
fn registry_paths_prefer_an_existing_install_location() {
    let paths = registry_paths(&app(Some("Fixture"), None), false).unwrap();
    assert_eq!(paths.0.as_deref(), Some("C:\\Program Files\\Fixture"));
    assert_eq!(paths.1.as_deref(), Some("C:\\Program Files\\Fixture\\fixture.exe"));
    assert_eq!(chosen_registry_path(paths.clone(), true, true), paths.0.clone());
    assert_eq!(chosen_registry_path(paths.clone(), false, true), paths.1.clone());
    assert_eq!(chosen_registry_path(paths, false, false), None);
}

#[test]
fn redirected_program_paths_are_refused() {
    let stat = PathStat { is_symlink: false, is_dir: true, modified_at: None, device: 0, inode: 0 };
    let facts = WindowsPathFacts { stat: Ok((true, false, stat)), canonical: Ok("C:\\Fixture".to_string()) };
    let error = windows_identity("C:\\Fixture", &facts).unwrap_err();
    assert_eq!(error.code, ErrorCode::InvalidPath);
    let stat = PathStat { is_symlink: false, is_dir: true, modified_at: Some(5), device: 0, inode: 0 };
    let facts = WindowsPathFacts { stat: Ok((false, false, stat)), canonical: Ok("C:\\Fixture".to_string()) };
    let found = windows_identity("C:\\Fixture", &facts).unwrap();
    assert_eq!(found.canonical_path, "C:\\Fixture");
    assert_eq!(found.modified_at, Some(5));
}

#[test]
fn registry_listings_are_read_only() {
    let entry = registry_entry(&app(Some(" Fixture "), Some(1)), "C:\\Fixture", identity("C:\\Fixture"), ApplicationScope::Shared, "C:\\Users\\a");
    assert_eq!(entry.application.name, "Fixture");
    assert_eq!(entry.application.scope, ApplicationScope::System);
    assert_eq!(entry.application.logical_size, 2048);
    assert_eq!(entry.application.allocated_size, Some(2048));
    assert!(!entry.application.uninstall_allowed);
    assert_eq!(entry.application.id.len(), 64);
    let other = registry_entry(&app(Some("Fixture"), None), "C:\\Fixture", identity("C:\\Fixture"), ApplicationScope::Shared, "C:\\Users\\a");
    assert_eq!(other.application.scope, ApplicationScope::Shared);
    assert_ne!(entry.application.id, other.application.id);
}

#[test]
fn one_listing_per_program_is_kept() {
    let first = registry_entry(&app(Some("Fixture"), None), "C:\\Fixture", identity("C:\\Fixture"), ApplicationScope::User, "C:\\Users\\a");
    let same = registry_entry(&app(Some("FIXTURE"), None), "C:\\Fixture", identity("c:\\fixture"), ApplicationScope::Shared, "C:\\Users\\a");
    let other = registry_entry(&app(Some("Other"), None), "C:\\Other", identity("C:\\Other"), ApplicationScope::Shared, "C:\\Users\\a");
    let kept = dedupe_windows_entries(vec![first, same, other]);
    assert_eq!(kept.len(), 2);
    assert_eq!(kept[0].application.scope, ApplicationScope::User);
    assert_eq!(kept[1].application.name, "Other");
}
