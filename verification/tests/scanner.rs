use disksage::scanner::walker::TargetWalk;
use disksage::domain::error::ErrorCode;
use disksage::domain::scan::ScanProfileId;
use disksage::scanner::coordinator::ScanManager;
use disksage::scanner::exclusions::ExclusionMatcher;
use disksage::scanner::walker::{record_error, FsErrorKind, TargetMeasurement};

#[test]
fn exclusion_applies_before_descending() {
    let matcher = ExclusionMatcher::new(&["/tmp/cache/keep".to_owned()]).unwrap();
    assert!(matcher.is_excluded("/tmp/cache/keep/nested"));
    assert!(!matcher.is_excluded("/tmp/cache/remove"));
}

#[test]
fn relative_exclusion_is_rejected() {
    assert_eq!(
        ExclusionMatcher::new(&["relative".to_owned()])
            .unwrap_err()
            .code,
        ErrorCode::InvalidPath
    );
}

#[test]
fn exclusions_are_matched_after_lexical_normalization() {
    let matcher = ExclusionMatcher::new(&["/tmp/a/../cache".to_owned()]).unwrap();
    assert!(matcher.is_excluded("/tmp/./cache/x"));
    assert!(!matcher.is_excluded("/tmp/cachex"));
    assert!(!matcher.is_excluded("relative/cache"));
    let extended = ExclusionMatcher::default().with_additional_paths(&["/data".to_owned(), "relative".to_owned()]);
    assert!(extended.is_excluded("/data/x"));
    assert!(!extended.is_excluded("/tmp/cache"));
}

#[test]
fn at_most_sixty_four_exclusions() {
    let paths: Vec<String> = (0..65).map(|i| format!("/tmp/{i}")).collect();
    let error = ExclusionMatcher::new(&paths).unwrap_err();
    assert_eq!(error.code, ErrorCode::InvalidPath);
    assert_eq!(error.message, "A scan can contain at most 64 excluded paths.");
}

#[test]
fn permission_denial_is_counted_without_aborting_the_scan() {
    let mut measurement = TargetMeasurement::default();
    record_error(&mut measurement, "restricted", FsErrorKind::PermissionDenied, "fixture");

    assert_eq!(measurement.permission_denied_count, 1);
    assert_eq!(measurement.errors.len(), 1);
    assert_eq!(measurement.errors[0].code, ErrorCode::PermissionDenied);
}

#[test]
fn measurement_keeps_at_most_twenty_errors() {
    let mut measurement = TargetMeasurement::default();
    for _ in 0..25 {
        record_error(&mut measurement, "gone", FsErrorKind::Other, "fixture");
    }
    assert_eq!(measurement.skipped_count, 25);
    assert_eq!(measurement.errors.len(), 20);
    assert_eq!(measurement.errors[0].code, ErrorCode::FilesystemError);
}

#[test]
fn unavailable_profiles_are_explicit() {
    let profiles = ScanManager::profiles();
    assert_eq!(profiles.len(), 4);
    assert!(
        !profiles
            .iter()
            .find(|profile| profile.id == ScanProfileId::FullAnalysis)
            .unwrap()
            .available
    );
}

#[test]
fn cancellation_stops_before_work() {
    let walk = TargetWalk::new("/tmp", ExclusionMatcher::default());
    assert_eq!(walk.measurement.files_scanned, 0);
    assert_eq!(walk.measurement.directories_scanned, 0);
    assert!(walk.pending.is_empty());
}
