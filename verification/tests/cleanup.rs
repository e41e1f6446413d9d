use disksage::cleanup::coordinator::{next_item_step, ItemOutcome, ItemStep};
use disksage::cleanup::coordinator::{CleanupManager, PLAN_LIFETIME_MS};
use disksage::cleanup::permanent_executor::ItemKind;
use disksage::cleanup::revalidation::{snapshot_finding, validate_path_boundary, BoundaryFacts, SnapshotFacts};
use disksage::cleanup::trash_executor::classify_trash_error;
use disksage::domain::cleanup::{CleanupAction, CreateCleanupPlanRequest, ExecuteCleanupRequest};
use disksage::domain::error::{CommandError, ErrorCode};
use disksage::domain::finding::{Finding, FindingEvidence, FindingType};
use disksage::domain::rule::{RecommendedAction, RiskLevel, RuleCategory};
use disksage::domain::scan::ScanPhase;
use disksage::persistence::history::HistoryRepository;
use disksage::persistence::scans::ScanRepository;
use disksage::rules::registry::RulesRegistry;
use disksage::safety::protected_paths::ProtectedPathPolicy;
use disksage::scanner::walker::TargetMeasurement;

#[test]
fn container_permission_errors_explain_full_disk_access() {
    let error = classify_trash_error(
        "/Users/fixture/Library/Containers/com.example.app",
        "Operation not permitted (os error 1)",
    );
    assert_eq!(error.code, ErrorCode::PermissionDenied);
    assert!(error.message.contains("Full Disk Access"));
    assert!(!error.message.contains("/Users/fixture"));
}

#[test]
fn application_permission_errors_explain_finder_fallback() {
    let error = classify_trash_error("/Applications/Fixture.app", "Permission denied (os error 13)");
    assert_eq!(error.code, ErrorCode::PermissionDenied);
    assert!(error.message.contains("Finder"));
}

#[test]
fn busy_errors_recommend_closing_the_application() {
    let error = classify_trash_error("/Applications/Fixture.app", "Device or resource busy");
    assert_eq!(error.code, ErrorCode::TrashFailed);
    assert!(error.message.contains("Close the application"));
}

#[test]
fn other_trash_failures_point_to_finder() {
    let error = classify_trash_error("/Users/fixture/Downloads/a.zip", "no such file");
    assert_eq!(error.code, ErrorCode::TrashFailed);
    assert!(error.message.contains("review the item in Finder"));
    assert_eq!(error.path.as_deref(), Some("/Users/fixture/Downloads/a.zip"));
    assert_eq!(error.details.as_deref(), Some("no such file"));
}

#[test]
fn group_container_permission_errors_explain_full_disk_access() {
    let error = classify_trash_error(
        "/Users/fixture/Library/Group Containers/group.example",
        "Access denied",
    );
    assert_eq!(error.code, ErrorCode::PermissionDenied);
    assert!(error.message.contains("Full Disk Access in System Settings"));
}

fn manager() -> CleanupManager {
    CleanupManager::new(ScanRepository::new("/tmp/disksage-scans"), HistoryRepository::new("/tmp/disksage-history.ndjson"))
}

fn uuid() -> String {
    uuid::Uuid::new_v4().to_string()
}

#[test]
fn cannot_execute_outside_a_backend_plan() {
    let mut manager = manager();
    let request = ExecuteCleanupRequest { plan_id: uuid(), confirmation_token: uuid() };
    assert!(manager.consume_plan(&request, 0).is_err());
}

#[test]
fn permanent_delete_cannot_be_planned() {
    let request = CreateCleanupPlanRequest { scan_id: uuid(), finding_ids: Vec::new(), action: CleanupAction::PermanentDelete };
    let missing: Result<ScanPhase, CommandError> =
        Err(CommandError::new(ErrorCode::PathNotFound, "The scan summary is unavailable.", true));
    let error = CleanupManager::check_plan_request(&request, missing).unwrap_err();
    assert_eq!(error.code, ErrorCode::CommandUnavailable);
}

#[test]
fn cannot_reuse_a_consumed_plan() {
    let mut manager = manager();
    let now = 1_000_000;
    let plan = manager.store_plan(CleanupManager::build_plan(Vec::new(), now), now).unwrap();
    let request = ExecuteCleanupRequest { plan_id: plan.id.clone(), confirmation_token: plan.confirmation_token.clone() };
    manager.consume_plan(&request, now + 60_000).unwrap();
    assert_eq!(manager.consume_plan(&request, now + 60_000).unwrap_err().code, ErrorCode::PlanValidationFailed);
}

#[test]
fn cannot_reuse_an_expired_plan() {
    let mut manager = manager();
    let created = 1_000_000;
    let plan = manager.store_plan(CleanupManager::build_plan(Vec::new(), created), created).unwrap();
    let request = ExecuteCleanupRequest { plan_id: plan.id.clone(), confirmation_token: plan.confirmation_token.clone() };
    assert_eq!(
        manager.consume_plan(&request, created + PLAN_LIFETIME_MS + 1_000).unwrap_err().code,
        ErrorCode::PlanExpired
    );
}

#[test]
fn a_wrong_confirmation_keeps_the_plan_for_a_correct_one() {
    let mut manager = manager();
    let now = 1_000_000;
    let plan = manager.store_plan(CleanupManager::build_plan(Vec::new(), now), now).unwrap();
    let wrong = ExecuteCleanupRequest { plan_id: plan.id.clone(), confirmation_token: uuid() };
    assert_eq!(manager.consume_plan(&wrong, now).unwrap_err().code, ErrorCode::PlanValidationFailed);
    let right = ExecuteCleanupRequest { plan_id: plan.id.clone(), confirmation_token: plan.confirmation_token.clone() };
    assert!(manager.consume_plan(&right, now).is_ok());
}

fn resolved(path: &str) -> BoundaryFacts {
    BoundaryFacts { candidate_canonical: Ok(path.to_string()), target_canonical: Ok(path.to_string()), home_canonical: Some("/home/alex".to_string()) }
}

#[test]
fn rejects_root_home_and_sensitive_paths() {
    let home = "/home/alex";
    let policy = ProtectedPathPolicy::for_platform(home, "linux");
    assert_eq!(validate_path_boundary("/", "/", home, "linux", &resolved("/")).unwrap_err().code, ErrorCode::PathProtected);
    assert_eq!(validate_path_boundary(home, home, home, "linux", &resolved(home)).unwrap_err().code, ErrorCode::PathProtected);
    assert!(policy.check_cleanup_candidate("/home/alex/.ssh/key", true).is_some());
}

#[test]
fn duplicate_findings_have_no_cleanup_rule_in_this_phase() {
    let path = "/home/alex/Downloads/copy";
    let finding = Finding {
        id: uuid(),
        scan_id: uuid(),
        rule_id: "duplicate.content-v1".to_string(),
        rule_version: 1,
        category: RuleCategory::Duplicate,
        display_name: "Duplicate".to_string(),
        description: "fixture".to_string(),
        path: path.to_string(),
        display_path: path.to_string(),
        item_type: FindingType::File,
        logical_size: 4,
        allocated_size: Some(4096),
        modified_at: None,
        risk: RiskLevel::Safe,
        recommended_action: RecommendedAction::MoveToTrash,
        evidence: FindingEvidence::KnownPath,
        cleanup_allowed: false,
        cleanup_block_reason: None,
    };
    let facts = SnapshotFacts {
        chrome_targets: Vec::new(),
        existing_files: Vec::new(),
        boundary: resolved(path),
        canonical: Ok(path.to_string()),
        kind: Ok(ItemKind::File),
        measurement: TargetMeasurement {
            exists: true,
            logical_size: 4,
            allocated_size: 4096,
            files_scanned: 1,
            directories_scanned: 0,
            skipped_count: 0,
            permission_denied_count: 0,
            modified_at: None,
            errors: Vec::new(),
        },
    };
    assert!(snapshot_finding(&finding, "/home/alex", "linux", &RulesRegistry, &facts).is_err());
}

#[test]
fn the_store_refuses_only_when_the_unexpired_plans_fill_it() {
    let mut manager = manager();
    let now = 1_000_000;
    let mut first = None;
    for _ in 0..128 {
        let plan = manager.store_plan(CleanupManager::build_plan(Vec::new(), now), now).unwrap();
        if first.is_none() {
            first = Some(plan);
        }
    }
    let refused = manager.store_plan(CleanupManager::build_plan(Vec::new(), now), now).unwrap_err();
    assert_eq!(refused.code, ErrorCode::CommandUnavailable);
    assert_eq!(refused.message, "Too many cleanup plans are awaiting review.");
    let first = first.unwrap();
    let request = ExecuteCleanupRequest { plan_id: first.id.clone(), confirmation_token: first.confirmation_token.clone() };
    assert!(manager.consume_plan(&request, now).is_ok());
}

#[test]
fn expired_plans_make_room_in_the_store() {
    let mut manager = manager();
    let now = 1_000_000;
    for _ in 0..128 {
        manager.store_plan(CleanupManager::build_plan(Vec::new(), now), now).unwrap();
    }
    let later = now + PLAN_LIFETIME_MS;
    assert!(manager.store_plan(CleanupManager::build_plan(Vec::new(), later), later).is_ok());
}

#[test]
fn storing_a_plan_keeps_the_plans_still_waiting() {
    let mut manager = manager();
    let now = 1_000_000;
    let waiting = manager.store_plan(CleanupManager::build_plan(Vec::new(), now), now).unwrap();
    manager.store_plan(CleanupManager::build_plan(Vec::new(), now + 1_000), now + 1_000).unwrap();
    let request = ExecuteCleanupRequest { plan_id: waiting.id.clone(), confirmation_token: waiting.confirmation_token.clone() };
    assert!(manager.consume_plan(&request, now + 2_000).is_ok());
}

#[test]
fn an_item_is_moved_only_after_it_passes_revalidation() {
    let failed: Option<Result<(), CommandError>> =
        Some(Err(CommandError::new(ErrorCode::PlanValidationFailed, "changed", true)));
    assert!(matches!(next_item_step(true, &None, &None), ItemStep::Done(ItemOutcome::Cancelled)));
    assert!(matches!(next_item_step(false, &None, &None), ItemStep::Revalidate));
    assert!(matches!(next_item_step(false, &failed, &None), ItemStep::Done(ItemOutcome::Invalid(_))));
    assert!(matches!(next_item_step(false, &Some(Ok(())), &None), ItemStep::Move));
    assert!(matches!(next_item_step(false, &Some(Ok(())), &Some(Ok(()))), ItemStep::Done(ItemOutcome::Moved)));
    let move_failed: Option<Result<(), CommandError>> =
        Some(Err(CommandError::new(ErrorCode::TrashFailed, "busy", true)));
    assert!(matches!(next_item_step(false, &Some(Ok(())), &move_failed), ItemStep::Done(ItemOutcome::MoveFailed(_))));
}

#[test]
fn plan_identifiers_are_read_in_every_uuid_form() {
    let mut manager = manager();
    let forms = [
        "550e8400-e29b-41d4-a716-446655440000",
        "550E8400E29B41D4A716446655440000",
        "{550e8400-e29b-41d4-a716-446655440000}",
        "URN:uuid:550e8400-e29b-41d4-a716-446655440000",
    ];
    for id in forms {
        let request = ExecuteCleanupRequest { plan_id: id.to_string(), confirmation_token: uuid() };
        let error = manager.consume_plan(&request, 0).unwrap_err();
        assert_eq!(error.code, ErrorCode::PlanExpired, "{id}");
    }
    for id in ["550e8400-e29b-41d4-a716-44665544000g", "550e8400e29b41d4a716446655440000-", "urn:uuid:550e8400"] {
        let request = ExecuteCleanupRequest { plan_id: id.to_string(), confirmation_token: uuid() };
        let error = manager.consume_plan(&request, 0).unwrap_err();
        assert_eq!(error.message, "The cleanup plan identifier is invalid.", "{id}");
    }
}
