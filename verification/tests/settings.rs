use disksage::domain::diagnostics::DiagnosticsReport;
use disksage::domain::error::ErrorCode;
use disksage::domain::settings::AppSettings;
use disksage::persistence::settings::SettingsRepository;

#[test]
fn project_roots_reject_roots_relative_paths_and_traversal() {
    for invalid in ["/", "relative/project", "/tmp/../etc"] {
        let settings = AppSettings {
            project_roots: vec![invalid.to_owned()],
            ..AppSettings::default()
        };
        assert_eq!(
            settings.validate().unwrap_err().code,
            ErrorCode::InvalidSettings
        );
    }
}

#[test]
fn destructive_defaults_remain_off_and_thresholds_are_ordered() {
    let settings = AppSettings::default();
    assert!(!settings.permanent_deletion_enabled);
    assert!(settings.large_file_threshold_bytes < settings.very_large_file_threshold_bytes);
    assert!(settings.very_large_file_threshold_bytes < settings.huge_file_threshold_bytes);
    settings.validate().unwrap();
}

#[test]
fn valid_project_roots_are_accepted() {
    let settings = AppSettings {
        project_roots: vec!["/Users/alex/code".to_owned(), "/Users/alex/work".to_owned()],
        ..AppSettings::default()
    };
    settings.validate().unwrap();
}

#[test]
fn repeated_project_roots_are_rejected() {
    let settings = AppSettings {
        project_roots: vec!["/Users/alex/code".to_owned(), "/Users/alex/code".to_owned()],
        ..AppSettings::default()
    };
    let error = settings.validate().unwrap_err();
    assert_eq!(error.code, ErrorCode::InvalidSettings);
    assert_eq!(
        error.message,
        "Project roots must be unique absolute non-root paths without traversal."
    );
}

#[test]
fn each_settings_rule_reports_its_own_message() {
    let cases: Vec<(AppSettings, &str, bool)> = vec![
        (AppSettings { schema_version: 2, ..AppSettings::default() }, "Unsupported settings version.", false),
        (AppSettings { follow_symlinks: true, ..AppSettings::default() }, "Following symlinks is disabled for safety.", true),
        (AppSettings { move_to_trash_by_default: false, ..AppSettings::default() }, "Move to Trash must remain the default action.", true),
        (AppSettings { maximum_concurrency: 0, ..AppSettings::default() }, "Filesystem concurrency must be between 1 and 8.", true),
        (AppSettings { maximum_concurrency: 9, ..AppSettings::default() }, "Filesystem concurrency must be between 1 and 8.", true),
        (AppSettings { large_file_threshold_bytes: 1, ..AppSettings::default() }, "Large-file threshold must be at least 10 MB.", true),
        (AppSettings { huge_file_threshold_bytes: 1, ..AppSettings::default() }, "Large-file thresholds must increase from large to very large to huge.", true),
        (AppSettings { old_file_threshold_days: 29, ..AppSettings::default() }, "Old-file age must be between 30 days and 10 years.", true),
        (AppSettings { duplicate_minimum_size_bytes: 1023, ..AppSettings::default() }, "Duplicate minimum size must be at least 1 KB.", true),
        (
            AppSettings { project_roots: (0..21).map(|i| format!("/p/{i}")).collect(), ..AppSettings::default() },
            "At most 20 project roots can be configured.",
            true,
        ),
    ];
    for (settings, message, recoverable) in cases {
        let error = settings.validate().unwrap_err();
        assert_eq!(error.code, ErrorCode::InvalidSettings);
        assert_eq!(error.message, message);
        assert_eq!(error.recoverable, recoverable);
    }
}

#[test]
fn missing_file_returns_safe_defaults() {
    let settings = SettingsRepository::missing_file_settings();
    assert!(!settings.follow_symlinks);
    assert!(settings.move_to_trash_by_default);
    assert!(!settings.permanent_deletion_enabled);
}

#[test]
fn corrupt_file_is_not_silently_replaced() {
    let error = SettingsRepository::accept_loaded(Err("expected value at line 1 column 1".to_owned())).unwrap_err();
    assert_eq!(error.code, ErrorCode::SerializationFailed);
    assert_eq!(error.details.as_deref(), Some("expected value at line 1 column 1"));
}

#[test]
fn loaded_settings_are_validated() {
    let invalid = AppSettings { follow_symlinks: true, ..AppSettings::default() };
    assert_eq!(SettingsRepository::accept_loaded(Ok(invalid)).unwrap_err().code, ErrorCode::InvalidSettings);
    let valid = AppSettings { reduced_motion: true, ..AppSettings::default() };
    assert_eq!(SettingsRepository::accept_loaded(Ok(valid.clone())).unwrap(), valid);
}

#[test]
fn serialized_report_never_contains_configured_paths() {
    let mut settings = disksage::domain::settings::AppSettings::default();
    settings.project_roots = vec!["/Users/private/secret-client".to_owned()];
    let report = DiagnosticsReport::from_local_state(&settings, &[], None, &[], "2024-01-01T00:00:00Z", "0.1.0", "macos", "aarch64");
    assert!(!format!("{report:?}").contains("secret-client"));
    assert_eq!(report.settings.configured_project_root_count, 1);
}
