use disksage::duplicates::cleanup::{next_copy_check, CopyCheck};
use disksage::duplicates::groups::groups_from_clusters;
use disksage::duplicates::grouping::admit_for_full_hash;
use disksage::duplicates::scanner::initial_progress;
use disksage::domain::cleanup::CleanupAction;
use disksage::domain::duplicate::{
    CreateDuplicateCleanupPlanRequest, DuplicateCleanupSelection, DuplicateCopy, DuplicateGroup, DuplicateScanPhase,
};
use disksage::domain::error::ErrorCode;
use disksage::duplicates::cleanup::{CopyFacts, CopyStat, DuplicateCleanupManager};
use disksage::duplicates::hashing::{
    byte_for_byte_equal, compare_step, full_hash, partial_hash, partial_hash_offsets, ComparisonStep, ContentHasher,
    SAMPLE_BYTES,
};
use disksage::duplicates::roots::{validate_roots, LinkStat, RootFacts};
use disksage::persistence::duplicates::DuplicateRepository;
use disksage::persistence::history::HistoryRepository;

#[test]
fn same_size_non_identical_contents_have_distinct_full_hashes() {
    let left = full_hash(&vec![b"abcd".to_vec()]);
    let right = full_hash(&vec![b"abce".to_vec()]);
    assert_ne!(left.0, right.0);
    assert_eq!(left.1, 4);
    assert_eq!(left.0, blake3::hash(b"abcd").to_hex().to_string());
}

#[test]
fn full_hash_does_not_depend_on_how_the_content_was_read() {
    let whole = full_hash(&vec![b"identical".to_vec()]);
    let pieces = full_hash(&vec![b"iden".to_vec(), Vec::new(), b"tical".to_vec()]);
    assert_eq!(whole, pieces);
    assert_eq!(whole.0.len(), 64);
}

#[test]
fn content_hasher_counts_every_byte() {
    let mut hasher = ContentHasher::new();
    hasher.update(b"ab");
    hasher.update(b"cd");
    let (hex, total) = hasher.finish();
    assert_eq!(total, 4);
    assert_eq!(hex, blake3::hash(b"abcd").to_hex().to_string());
}

#[test]
fn partial_hash_covers_offsets_and_samples() {
    assert_eq!(partial_hash_offsets(4), vec![0]);
    let (hex, sampled) = partial_hash(4, &vec![b"same".to_vec()]);
    let mut input = 0u64.to_le_bytes().to_vec();
    input.extend_from_slice(b"same");
    assert_eq!(hex, blake3::hash(&input).to_hex().to_string());
    assert_eq!(sampled, 4);
}

#[test]
fn large_files_are_sampled_at_start_middle_and_end() {
    let size = (SAMPLE_BYTES as u64) * 3;
    let span = size - SAMPLE_BYTES as u64;
    assert_eq!(partial_hash_offsets(size), vec![0, span / 2, span]);
}

#[test]
fn optional_byte_verification_detects_difference() {
    assert_eq!(byte_for_byte_equal(&vec![(b"same".to_vec(), b"diff".to_vec())]), Some((false, 0)));
    assert_eq!(
        byte_for_byte_equal(&vec![(b"same".to_vec(), b"same".to_vec()), (Vec::new(), Vec::new())]),
        Some((true, 4))
    );
    assert_eq!(byte_for_byte_equal(&vec![(b"same".to_vec(), b"same".to_vec())]), None);
    assert_eq!(
        byte_for_byte_equal(&vec![(b"same".to_vec(), b"same".to_vec()), (b"x".to_vec(), Vec::new())]),
        Some((false, 4))
    );
}

#[test]
fn a_comparison_step_saturates_its_count() {
    assert_eq!(compare_step(b"ab", b"ab", u64::MAX - 1), ComparisonStep::Continue(u64::MAX));
    assert_eq!(compare_step(b"", b"", 7), ComparisonStep::Equal(7));
    assert_eq!(compare_step(b"a", b"ab", 7), ComparisonStep::Different(7));
}

fn fixture_group() -> DuplicateGroup {
    let copy = |id: &str, path: &str| DuplicateCopy {
        id: id.to_string(),
        path: path.to_string(),
        display_path: path.to_string(),
        modified_at: Some(1_000),
        owner: None,
    };
    DuplicateGroup {
        id: "group-1".to_string(),
        scan_id: "scan-1".to_string(),
        file_size: 4,
        reclaimable_bytes: 4,
        copies: vec![copy("copy-a", "/home/alex/Downloads/first"), copy("copy-b", "/home/alex/Downloads/second")],
        recommended_keep_id: String::new(),
        keep_reason: "fixture".to_string(),
        full_hash: "hash".to_string(),
        byte_for_byte_verified: true,
    }
}

fn facts_for(group: &DuplicateGroup) -> Vec<CopyFacts> {
    group
        .copies
        .iter()
        .map(|copy| CopyFacts {
            stat: Ok(CopyStat { is_symlink: false, is_file: true, len: 4, modified_at: Some(1_000) }),
            canonical: Ok(copy.path.clone()),
        })
        .collect()
}

fn manager() -> DuplicateCleanupManager {
    DuplicateCleanupManager::new(DuplicateRepository::new("/tmp/duplicates"), HistoryRepository::new("/tmp/history"))
}

#[test]
fn backend_rejects_a_plan_that_trashes_every_copy() {
    let group = fixture_group();
    let request = CreateDuplicateCleanupPlanRequest {
        scan_id: "scan-1".to_string(),
        selections: vec![DuplicateCleanupSelection {
            group_id: group.id.clone(),
            keep_copy_id: group.copies[0].id.clone(),
            trash_copy_ids: group.copies.iter().map(|copy| copy.id.clone()).collect(),
        }],
        action: CleanupAction::MoveToTrash,
    };
    let facts = vec![facts_for(&group)];
    let error = manager()
        .create_plan(&request, Ok(DuplicateScanPhase::Completed), &vec![Ok(group)], &facts, "/home/alex", "linux", 0)
        .unwrap_err();
    assert_eq!(error.code, ErrorCode::PlanValidationFailed);
}

#[test]
fn valid_plan_preserves_one_keep_copy() {
    let group = fixture_group();
    let request = CreateDuplicateCleanupPlanRequest {
        scan_id: "scan-1".to_string(),
        selections: vec![DuplicateCleanupSelection {
            group_id: group.id.clone(),
            keep_copy_id: group.copies[0].id.clone(),
            trash_copy_ids: vec![group.copies[1].id.clone()],
        }],
        action: CleanupAction::MoveToTrash,
    };
    let facts = vec![facts_for(&group)];
    let plan = manager()
        .create_plan(&request, Ok(DuplicateScanPhase::Completed), &vec![Ok(group)], &facts, "/home/alex", "linux", 0)
        .unwrap();
    assert_eq!(plan.kept_copy_count, 1);
    assert_eq!(plan.items.len(), 1);
    assert_ne!(plan.items[0].copy_id, plan.items[0].keep_copy_id);
    assert_eq!(plan.expires_at, 15 * 60 * 1000);
}

#[test]
fn duplicate_cleanup_is_trash_only() {
    let group = fixture_group();
    let request = CreateDuplicateCleanupPlanRequest {
        scan_id: "scan-1".to_string(),
        selections: vec![DuplicateCleanupSelection {
            group_id: group.id.clone(),
            keep_copy_id: group.copies[0].id.clone(),
            trash_copy_ids: vec![group.copies[1].id.clone()],
        }],
        action: CleanupAction::PermanentDelete,
    };
    let facts = vec![facts_for(&group)];
    let error = manager()
        .create_plan(&request, Ok(DuplicateScanPhase::Completed), &vec![Ok(group)], &facts, "/home/alex", "linux", 0)
        .unwrap_err();
    assert_eq!(error.code, ErrorCode::CommandUnavailable);
}

fn real_folder(path: &str) -> RootFacts {
    RootFacts { link: Ok(LinkStat { is_symlink: false, is_dir: true }), canonical: Ok(path.to_string()) }
}

#[test]
fn roots_must_be_narrower_than_home() {
    let home = "/home/alex";
    let roots = vec![home.to_string()];
    assert_eq!(validate_roots(&roots, home, "linux", &[real_folder(home)]).unwrap_err().code, ErrorCode::PathProtected);
}

#[test]
fn a_folder_inside_home_is_a_valid_root() {
    let home = "/home/alex";
    let roots = vec!["/home/alex/Downloads".to_string()];
    let accepted = validate_roots(&roots, home, "linux", &[real_folder("/home/alex/Downloads")]).unwrap();
    assert_eq!(accepted, vec!["/home/alex/Downloads".to_string()]);
}

fn candidate(path: &str) -> disksage::duplicates::scanner::Candidate {
    disksage::duplicates::scanner::Candidate { path: path.to_string(), size: 4, modified_at: Some(1_000), owner: None }
}

#[test]
fn only_clusters_with_several_members_become_groups() {
    let clusters = vec![
        vec![candidate("/home/alex/a.txt"), candidate("/home/alex/b.txt")],
        vec![candidate("/home/alex/c.txt")],
        vec![candidate("/home/alex/d.txt"), candidate("/home/alex/e.txt"), candidate("/home/alex/f.txt")],
    ];
    let groups = groups_from_clusters("scan-1", 4, "abc", &clusters, true, "/home/alex");
    assert_eq!(groups.len(), 2);
    assert_eq!(groups[0].copies.len(), 2);
    assert_eq!(groups[0].copies[1].path, "/home/alex/b.txt");
    assert_eq!(groups[1].copies.len(), 3);
    assert_eq!(groups[1].reclaimable_bytes, 8);
    assert!(groups.iter().all(|g| g.byte_for_byte_verified && g.full_hash == "abc"));
}

#[test]
fn a_changed_file_is_skipped_before_full_hashing() {
    let mut progress = initial_progress("scan-1");
    assert!(admit_for_full_hash(&mut progress, true));
    assert_eq!(progress.skipped_count, 0);
    assert!(!admit_for_full_hash(&mut progress, false));
    assert_eq!(progress.skipped_count, 1);
}

#[test]
fn duplicate_plans_are_refused_only_when_the_store_is_full() {
    let group = fixture_group();
    let request = CreateDuplicateCleanupPlanRequest {
        scan_id: "scan-1".to_string(),
        selections: vec![DuplicateCleanupSelection {
            group_id: group.id.clone(),
            keep_copy_id: group.copies[0].id.clone(),
            trash_copy_ids: vec![group.copies[1].id.clone()],
        }],
        action: CleanupAction::MoveToTrash,
    };
    let facts = vec![facts_for(&group)];
    let groups = vec![Ok(group)];
    let mut manager = manager();
    for _ in 0..128 {
        manager.create_plan(&request, Ok(DuplicateScanPhase::Completed), &groups, &facts, "/home/alex", "linux", 0).unwrap();
    }
    assert!(manager.plan_ids_are_unique());
    let error = manager
        .create_plan(&request, Ok(DuplicateScanPhase::Completed), &groups, &facts, "/home/alex", "linux", 0)
        .unwrap_err();
    assert_eq!(error.code, ErrorCode::CommandUnavailable);
    assert_eq!(error.message, "Too many duplicate cleanup plans are awaiting review.");
}

#[test]
fn copy_checks_run_in_order_and_bytes_only_when_verified() {
    let mut order = Vec::new();
    let mut last = None;
    while let Some(check) = next_copy_check(true, last) {
        order.push(check);
        last = Some(check);
    }
    assert_eq!(order, vec![CopyCheck::PathsBefore, CopyCheck::Hashes, CopyCheck::Bytes, CopyCheck::PathsAfter]);
    let mut order = Vec::new();
    let mut last = None;
    while let Some(check) = next_copy_check(false, last) {
        order.push(check);
        last = Some(check);
    }
    assert_eq!(order, vec![CopyCheck::PathsBefore, CopyCheck::Hashes, CopyCheck::PathsAfter]);
}
