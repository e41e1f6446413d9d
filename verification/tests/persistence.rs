use disksage::domain::error::ErrorCode;
use disksage::persistence::duplicates::DuplicateRepository;
use disksage::persistence::scans::ScanRepository;

#[test]
fn rejects_traversal_identifiers() {
    let repository = DuplicateRepository::new("/tmp");
    assert_eq!(repository.scan_directory("../outside").unwrap_err().code, ErrorCode::InvalidPath);
    assert_eq!(DuplicateRepository::check_group_id("../outside").unwrap_err().code, ErrorCode::InvalidPath);
}

#[test]
fn rejects_traversal_as_scan_identifier() {
    let repository = ScanRepository::new("/tmp");
    assert_eq!(repository.scan_directory("../outside").unwrap_err().code, ErrorCode::InvalidPath);
}

#[test]
fn a_valid_scan_identifier_names_its_folder() {
    let repository = ScanRepository::new("/tmp/scans");
    let id = "0b8f7a2e-5d2c-4c39-9f7e-2d1c0a9b8e7f";
    assert_eq!(repository.scan_directory(id).unwrap(), format!("/tmp/scans/{id}"));
}

#[test]
fn oversized_pages_are_refused() {
    assert!(ScanRepository::check_page_size(500).is_ok());
    assert!(ScanRepository::check_page_size(501).is_err());
    assert!(ScanRepository::check_page_size(0).is_err());
}
