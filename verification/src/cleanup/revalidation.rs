use vstd::prelude::*;
use crate::cleanup::permanent_executor::ItemKind;
use crate::domain::cleanup::CleanupPlanItem;
use crate::domain::error::{CommandError, ErrorCode};
use crate::domain::finding::{Finding, FindingType};
use crate::domain::rule::{RecommendedAction, RiskLevel};
use crate::domain::settings::has_parent;
use crate::ids::{is_hyphenated_uuid, new_v4_string};
use crate::rules::catalogs::project_artifacts::string_views;
use crate::paths::{components_exec, is_absolute, is_absolute_exec, same_path, same_path_exec, PathStyle};
use crate::persistence::common::{parse_uuid, uuid_parses};
use crate::rules::chrome::ChromeCacheTarget;
use crate::rules::registry::{resolve_spec, ResolvedRule, RulesRegistry};
use crate::safety::protected_paths::{policy_cleanup_check, ProtectedPathPolicy};
use crate::scanner::walker::{FsError, FsErrorKind, TargetMeasurement};
use crate::text::chars_of;

verus! {

/// The size a cleanup item may drift by between review and cleanup: 10% of
/// the reviewed size, and at least 1 MiB.
pub open spec fn allowed_drift(expected: u64) -> int {
    let tenfold: int = if expected * 10 > u64::MAX { u64::MAX as int } else { expected * 10 };
    let share = tenfold / 100;
    if share > 1_048_576 { share } else { 1_048_576 }
}

pub fn allowed_drift_exec(expected: u64) -> (r: u64)
    ensures
        r == allowed_drift(expected),
{
    let tenfold: u64 = if expected > u64::MAX / 10 { u64::MAX } else { expected * 10 };
    let share = tenfold / 100;
    if share > 1_048_576 { share } else { 1_048_576 }
}

/// What the file system said about a cleanup candidate and its approved target,
/// each with every link resolved, and about the home folder.
#[derive(Debug)]
pub struct BoundaryFacts {
    pub candidate_canonical: Result<String, FsError>,
    pub target_canonical: Result<String, FsError>,
    pub home_canonical: Option<String>,
}

/// A failure described by its code, message, whether it can be recovered from,
/// the path it names (if any) and its details (if any).
pub ghost struct Failure {
    pub code: ErrorCode,
    pub message: Seq<char>,
    pub recoverable: bool,
    pub path: Option<Seq<char>>,
    pub details: Option<Seq<char>>,
}

/// The error is the described failure.
pub open spec fn is_failure(e: CommandError, f: Failure) -> bool {
    &&& e.code == f.code
    &&& e.message@ == f.message
    &&& e.recoverable == f.recoverable
    &&& match f.path {
        None => e.path is None,
        Some(p) => e.path matches Some(x) && x@ == p,
    }
    &&& match f.details {
        None => e.details is None,
        Some(d) => e.details matches Some(x) && x@ == d,
    }
}

pub open spec fn fs_code(kind: FsErrorKind) -> ErrorCode {
    match kind {
        FsErrorKind::NotFound => ErrorCode::PathNotFound,
        FsErrorKind::PermissionDenied => ErrorCode::PermissionDenied,
        FsErrorKind::Other => ErrorCode::FilesystemError,
    }
}

pub open spec fn fs_failure(path: Seq<char>, message: Seq<char>, e: FsError) -> Failure {
    Failure { code: fs_code(e.kind), message, recoverable: true, path: Some(path), details: Some(e.details@) }
}

pub open spec fn validation_failure(path: Seq<char>, message: Seq<char>) -> Failure {
    Failure { code: ErrorCode::PlanValidationFailed, message, recoverable: true, path: Some(path), details: None }
}

pub open spec fn protected_failure(path: Seq<char>, details: Option<Seq<char>>) -> Failure {
    Failure { code: ErrorCode::PathProtected, message: "A protected location cannot be cleaned."@, recoverable: false, path: Some(path), details }
}

/// Why a candidate is outside its approved boundary, if it is: it must be an
/// absolute path with a parent other than the home folder, resolve to the same
/// place as its approved target, and not be protected there.
pub open spec fn boundary_failure(candidate: Seq<char>, target: Seq<char>, home: Seq<char>, platform: Seq<char>, facts: BoundaryFacts) -> Option<Failure> {
    if !is_absolute(candidate, PathStyle::Posix) || !has_parent(candidate, PathStyle::Posix) || same_path(candidate, home, PathStyle::Posix) {
        Some(protected_failure(candidate, None))
    } else {
        match facts.candidate_canonical {
            Err(e) => Some(fs_failure(candidate, "The cleanup item no longer exists."@, e)),
            Ok(cc) => match facts.target_canonical {
                Err(e) => Some(fs_failure(target, "The approved cleanup target is unavailable."@, e)),
                Ok(tc) => if !same_path(cc@, tc@, PathStyle::Posix) {
                    Some(validation_failure(candidate, "The cleanup path no longer matches its approved root."@))
                } else {
                    let h = match facts.home_canonical { Some(x) => x@, None => home };
                    match policy_cleanup_check(h, platform, cc@, true) {
                        Some((_, reason)) => Some(protected_failure(candidate, Some("protected by "@ + reason))),
                        None => None,
                    }
                },
            },
        }
    }
}

fn filesystem_error(path: &str, message: &str, e: &FsError) -> (r: CommandError)
    ensures
        is_failure(r, fs_failure(path@, message@, *e)),
{
    let code = match e.kind {
        FsErrorKind::NotFound => ErrorCode::PathNotFound,
        FsErrorKind::PermissionDenied => ErrorCode::PermissionDenied,
        FsErrorKind::Other => ErrorCode::FilesystemError,
    };
    CommandError::new(code, message, true).with_path(path).with_details(e.details.as_str())
}

fn validation_error(path: &str, message: &str) -> (r: CommandError)
    ensures
        is_failure(r, validation_failure(path@, message@)),
{
    CommandError::new(ErrorCode::PlanValidationFailed, message, true).with_path(path)
}

fn has_parent_exec(p: &str) -> (r: bool)
    ensures
        r == has_parent(p@, PathStyle::Posix),
{
    let c = components_exec(chars_of(p).as_slice(), PathStyle::Posix);
    if c.len() == 0 {
        return false;
    }
    assert(crate::paths::comp_views(c@).last() == c@[c@.len() - 1]@);
    match &c[c.len() - 1] {
        crate::paths::Component::RootDir => false,
        crate::paths::Component::Prefix(_) => false,
        _ => true,
    }
}

/// Checks that a cleanup candidate is within the boundary approved for it.
pub fn validate_path_boundary(candidate: &str, approved_target: &str, home: &str, platform: &str, facts: &BoundaryFacts) -> (r: Result<(), CommandError>)
    ensures
        match boundary_failure(candidate@, approved_target@, home@, platform@, *facts) {
            None => r is Ok,
            Some(f) => r matches Err(e) && is_failure(e, f),
        },
{
    let chars = chars_of(candidate);
    if !is_absolute_exec(chars.as_slice(), PathStyle::Posix) || !has_parent_exec(candidate)
        || same_path_exec(candidate, home, PathStyle::Posix) {
        return Err(CommandError::new(ErrorCode::PathProtected, "A protected location cannot be cleaned.", false).with_path(candidate));
    }
    let cc = match &facts.candidate_canonical {
        Err(e) => return Err(filesystem_error(candidate, "The cleanup item no longer exists.", e)),
        Ok(c) => c,
    };
    let tc = match &facts.target_canonical {
        Err(e) => return Err(filesystem_error(approved_target, "The approved cleanup target is unavailable.", e)),
        Ok(c) => c,
    };
    if !same_path_exec(cc.as_str(), tc.as_str(), PathStyle::Posix) {
        return Err(validation_error(candidate, "The cleanup path no longer matches its approved root."));
    }
    let h: &str = match &facts.home_canonical {
        Some(x) => x.as_str(),
        None => home,
    };
    let policy = ProtectedPathPolicy::for_platform(h, platform);
    match policy.check_cleanup_candidate(cc.as_str(), true) {
        Some(reason) => {
            let mut details = String::from_str("protected by ");
            details.append(reason.reason.as_str());
            Err(CommandError::new(ErrorCode::PathProtected, "A protected location cannot be cleaned.", false)
                .with_path(candidate).with_details(details.as_str()))
        },
        None => Ok(()),
    }
}

/// The type of an item from its stat, or why it cannot be cleaned.
pub open spec fn item_type_of(path: Seq<char>, stat: Result<ItemKind, FsError>) -> Result<FindingType, Failure> {
    match stat {
        Err(e) => Err(fs_failure(path, "The cleanup item is unavailable."@, e)),
        Ok(ItemKind::Symlink) => Ok(FindingType::Symlink),
        Ok(ItemKind::File) => Ok(FindingType::File),
        Ok(ItemKind::Directory) => Ok(FindingType::Directory),
        Ok(ItemKind::Other) => Err(validation_failure(path, "This filesystem item type is not supported for cleanup."@)),
    }
}

pub fn metadata_type(path: &str, stat: &Result<ItemKind, FsError>) -> (r: Result<FindingType, CommandError>)
    ensures
        match item_type_of(path@, *stat) {
            Ok(t) => r == Ok::<FindingType, CommandError>(t),
            Err(f) => r matches Err(e) && is_failure(e, f),
        },
{
    match stat {
        Err(e) => Err(filesystem_error(path, "The cleanup item is unavailable.", e)),
        Ok(ItemKind::Symlink) => Ok(FindingType::Symlink),
        Ok(ItemKind::File) => Ok(FindingType::File),
        Ok(ItemKind::Directory) => Ok(FindingType::Directory),
        Ok(ItemKind::Other) => Err(validation_error(path, "This filesystem item type is not supported for cleanup.")),
    }
}

/// What the file system said about a finding when its cleanup is planned.
#[derive(Debug)]
pub struct SnapshotFacts {
    pub chrome_targets: Vec<ChromeCacheTarget>,
    pub existing_files: Vec<String>,
    pub boundary: BoundaryFacts,
    pub canonical: Result<String, FsError>,
    pub kind: Result<ItemKind, FsError>,
    pub measurement: TargetMeasurement,
}

/// A finding may be planned for cleanup only when it was approved as a safe
/// move-to-trash finding.
pub open spec fn approved(f: Finding) -> bool {
    f.cleanup_allowed && f.risk == RiskLevel::Safe && f.recommended_action == RecommendedAction::MoveToTrash
}

/// The rule resolved for a path, kept only when its target is that path.
pub open spec fn matching_rule(resolved: Option<ResolvedRule>, path: Seq<char>) -> Option<ResolvedRule> {
    match resolved {
        Some(rule) => if same_path(rule.target@, path, PathStyle::Posix) { Some(rule) } else { None },
        None => None,
    }
}

/// Why a finding cannot be planned, given the rule that resolved for it.
pub open spec fn snapshot_failure(f: Finding, home: Seq<char>, platform: Seq<char>, facts: SnapshotFacts, resolved: Option<ResolvedRule>) -> Option<Failure> {
    let path = f.path@;
    if !approved(f) {
        Some(validation_failure(path, "The finding is not approved for safe cleanup."@))
    } else {
        match matching_rule(resolved, path) {
            None => Some(validation_failure(path, "The finding no longer matches a known cleanup rule."@)),
            Some(rule) => match boundary_failure(path, rule.target@, home, platform, facts.boundary) {
                Some(b) => Some(b),
                None => match facts.canonical {
                    Err(e) => Some(fs_failure(path, "The cleanup item is unavailable."@, e)),
                    Ok(_) => match item_type_of(path, facts.kind) {
                        Err(b) => Some(b),
                        Ok(t) => if t != f.item_type || t == FindingType::Symlink {
                            Some(validation_failure(path, "The finding type changed or is a symbolic link."@))
                        } else if !facts.measurement.exists || facts.measurement.errors@.len() > 0 {
                            Some(validation_failure(path, "The finding could not be measured safely."@))
                        } else {
                            None
                        },
                    },
                },
            },
        }
    }
}

/// The plan item records the finding as it is now.
pub open spec fn snapshot_of(item: CleanupPlanItem, f: Finding, facts: SnapshotFacts) -> bool {
    &&& item.scan_id == f.scan_id
    &&& item.finding_id == f.id
    &&& item.rule_id == f.rule_id
    &&& item.rule_version == f.rule_version
    &&& item.path == f.path
    &&& (facts.canonical matches Ok(c) && item.canonical_path == c)
    &&& item.expected_type == f.item_type
    &&& item.expected_size == facts.measurement.logical_size
    &&& item.expected_modified_at == facts.measurement.modified_at
    &&& item.risk == f.risk
    &&& is_hyphenated_uuid(item.validation_token@)
}

fn approved_exec(f: &Finding) -> (r: bool)
    ensures
        r == approved(*f),
{
    f.cleanup_allowed && f.risk == RiskLevel::Safe && f.recommended_action == RecommendedAction::MoveToTrash
}

fn resolve_matching(rules: &RulesRegistry, rule_id: &str, version: u32, home: &str, platform: &str, path: &str, chrome: &Vec<ChromeCacheTarget>, existing: &Vec<String>) -> (r: (Option<ResolvedRule>, Ghost<Option<ResolvedRule>>))
    ensures
        r.0 == matching_rule(r.1@, path@),
        exists|base: Seq<ResolvedRule>| #[trigger] resolve_spec(r.1@, base, rule_id@, version, home@, platform@, path@, chrome@, string_views(existing@)),
{
    let resolved = rules.resolve(rule_id, version, home, platform, path, chrome.as_slice(), existing.as_slice());
    let ghost g = resolved;
    let kept = match resolved {
        Some(rule) => if same_path_exec(rule.target.as_str(), path, PathStyle::Posix) { Some(rule) } else { None },
        None => None,
    };
    (kept, Ghost(g))
}

/// Plans the cleanup of a finding: it must be approved as safe, still resolve
/// to its rule, stay inside the rule's boundary, keep its type and not be a
/// link, and measure cleanly; the plan item records what it is now and gets a
/// fresh validation token.
pub fn snapshot_finding(finding: &Finding, home: &str, platform: &str, rules: &RulesRegistry, facts: &SnapshotFacts) -> (r: Result<CleanupPlanItem, CommandError>)
    ensures
        (exists|resolved: Option<ResolvedRule>, base: Seq<ResolvedRule>| {
            &&& #[trigger] resolve_spec(resolved, base, finding.rule_id@, finding.rule_version, home@, platform@, finding.path@,
                facts.chrome_targets@, string_views(facts.existing_files@))
            &&& match snapshot_failure(*finding, home@, platform@, *facts, resolved) {
                None => r matches Ok(item) && snapshot_of(item, *finding, *facts),
                Some(f) => r matches Err(e) && is_failure(e, f),
            }
        }) || (!approved(*finding) && (r matches Err(e) && is_failure(e, validation_failure(finding.path@, "The finding is not approved for safe cleanup."@)))),
{
    let path = finding.path.as_str();
    if !approved_exec(finding) {
        return Err(validation_error(path, "The finding is not approved for safe cleanup."));
    }
    let (rule, Ghost(resolved)) = resolve_matching(rules, finding.rule_id.as_str(), finding.rule_version, home, platform, path,
        &facts.chrome_targets, &facts.existing_files);
    let ghost base = choose|base: Seq<ResolvedRule>| #[trigger] resolve_spec(resolved, base, finding.rule_id@, finding.rule_version, home@, platform@, path@,
        facts.chrome_targets@, string_views(facts.existing_files@));
    let rule = match rule {
        None => return Err(validation_error(path, "The finding no longer matches a known cleanup rule.")),
        Some(rule) => rule,
    };
    validate_path_boundary(path, rule.target.as_str(), home, platform, &facts.boundary)?;
    let canonical = match &facts.canonical {
        Err(e) => return Err(filesystem_error(path, "The cleanup item is unavailable.", e)),
        Ok(c) => c.clone(),
    };
    let item_type = metadata_type(path, &facts.kind)?;
    if item_type != finding.item_type || item_type == FindingType::Symlink {
        return Err(validation_error(path, "The finding type changed or is a symbolic link."));
    }
    if !facts.measurement.exists || facts.measurement.errors.len() > 0 {
        return Err(validation_error(path, "The finding could not be measured safely."));
    }
    Ok(CleanupPlanItem {
        scan_id: finding.scan_id.clone(),
        finding_id: finding.id.clone(),
        rule_id: finding.rule_id.clone(),
        rule_version: finding.rule_version,
        path: finding.path.clone(),
        canonical_path: canonical,
        expected_type: item_type,
        expected_size: facts.measurement.logical_size,
        expected_modified_at: facts.measurement.modified_at,
        risk: finding.risk,
        validation_token: new_v4_string(),
    })
}

/// What the file system said about a plan item just before its cleanup, and
/// whether the cleanup was asked to stop meanwhile.
#[derive(Debug)]
pub struct RevalidationFacts {
    pub chrome_targets: Vec<ChromeCacheTarget>,
    pub existing_files: Vec<String>,
    pub boundary: BoundaryFacts,
    pub canonical: Result<String, FsError>,
    pub kind: Result<ItemKind, FsError>,
    pub measurement: TargetMeasurement,
    pub cancelled: bool,
}

/// The size drifted beyond what is allowed.
pub open spec fn drifted(expected: u64, actual: u64) -> bool {
    (if expected >= actual { expected - actual } else { actual - expected }) > allowed_drift(expected)
}

/// Why a plan item may no longer be cleaned, given the rule that resolved for it.
pub open spec fn revalidation_failure(item: CleanupPlanItem, home: Seq<char>, platform: Seq<char>, facts: RevalidationFacts, resolved: Option<ResolvedRule>) -> Option<Failure> {
    let path = item.path@;
    if !uuid_parses(item.validation_token@) {
        Some(validation_failure(path, "The cleanup item validation token is invalid."@))
    } else {
        match matching_rule(resolved, path) {
            None => Some(validation_failure(path, "The cleanup item no longer matches its original rule."@)),
            Some(rule) => match boundary_failure(path, rule.target@, home, platform, facts.boundary) {
                Some(b) => Some(b),
                None => match facts.canonical {
                    Err(e) => Some(fs_failure(path, "The cleanup item is unavailable."@, e)),
                    Ok(c) => if !same_path(c@, item.canonical_path@, PathStyle::Posix) {
                        Some(validation_failure(path, "The cleanup path was redirected after the plan was created."@))
                    } else {
                        match item_type_of(path, facts.kind) {
                            Err(b) => Some(b),
                            Ok(t) => if t != item.expected_type || t == FindingType::Symlink {
                                Some(validation_failure(path, "The cleanup item type changed after the plan was created."@))
                            } else if facts.cancelled {
                                Some(Failure { code: ErrorCode::ScanCancelled, message: "Cleanup was cancelled before this item was moved."@,
                                    recoverable: true, path: None, details: None })
                            } else if !facts.measurement.exists || facts.measurement.errors@.len() > 0 {
                                Some(validation_failure(path, "The cleanup item could not be revalidated safely."@))
                            } else if drifted(item.expected_size, facts.measurement.logical_size) {
                                Some(validation_failure(path, "The cleanup item size changed unexpectedly."@))
                            } else if item.expected_modified_at != facts.measurement.modified_at {
                                Some(validation_failure(path, "The cleanup item was modified after the plan was created."@))
                            } else {
                                None
                            },
                        }
                    },
                },
            },
        }
    }
}

/// Checks, just before cleanup, that a plan item is still what was reviewed.
pub fn revalidate_item(item: &CleanupPlanItem, home: &str, platform: &str, rules: &RulesRegistry, facts: &RevalidationFacts) -> (r: Result<(), CommandError>)
    ensures
        (exists|resolved: Option<ResolvedRule>, base: Seq<ResolvedRule>| {
            &&& #[trigger] resolve_spec(resolved, base, item.rule_id@, item.rule_version, home@, platform@, item.path@,
                facts.chrome_targets@, string_views(facts.existing_files@))
            &&& match revalidation_failure(*item, home@, platform@, *facts, resolved) {
                None => r is Ok,
                Some(f) => r matches Err(e) && is_failure(e, f),
            }
        }) || (!uuid_parses(item.validation_token@) && (r matches Err(e)
            && is_failure(e, validation_failure(item.path@, "The cleanup item validation token is invalid."@)))),
{
    let path = item.path.as_str();
    if !parse_uuid(item.validation_token.as_str()) {
        return Err(validation_error(path, "The cleanup item validation token is invalid."));
    }
    let (rule, Ghost(resolved)) = resolve_matching(rules, item.rule_id.as_str(), item.rule_version, home, platform, path,
        &facts.chrome_targets, &facts.existing_files);
    let ghost base = choose|base: Seq<ResolvedRule>| #[trigger] resolve_spec(resolved, base, item.rule_id@, item.rule_version, home@, platform@, path@,
        facts.chrome_targets@, string_views(facts.existing_files@));
    let rule = match rule {
        None => return Err(validation_error(path, "The cleanup item no longer matches its original rule.")),
        Some(rule) => rule,
    };
    validate_path_boundary(path, rule.target.as_str(), home, platform, &facts.boundary)?;
    match &facts.canonical {
        Err(e) => return Err(filesystem_error(path, "The cleanup item is unavailable.", e)),
        Ok(c) => {
            if !same_path_exec(c.as_str(), item.canonical_path.as_str(), PathStyle::Posix) {
                return Err(validation_error(path, "The cleanup path was redirected after the plan was created."));
            }
        },
    }
    let item_type = metadata_type(path, &facts.kind)?;
    if item_type != item.expected_type || item_type == FindingType::Symlink {
        return Err(validation_error(path, "The cleanup item type changed after the plan was created."));
    }
    if facts.cancelled {
        return Err(CommandError::new(ErrorCode::ScanCancelled, "Cleanup was cancelled before this item was moved.", true));
    }
    if !facts.measurement.exists || facts.measurement.errors.len() > 0 {
        return Err(validation_error(path, "The cleanup item could not be revalidated safely."));
    }
    let actual = facts.measurement.logical_size;
    let difference = if item.expected_size >= actual { item.expected_size - actual } else { actual - item.expected_size };
    if difference > allowed_drift_exec(item.expected_size) {
        return Err(validation_error(path, "The cleanup item size changed unexpectedly."));
    }
    if item.expected_modified_at != facts.measurement.modified_at {
        return Err(validation_error(path, "The cleanup item was modified after the plan was created."));
    }
    Ok(())
}

/// Only a finding approved as a safe move-to-trash finding, still a regular
/// file or directory of the reviewed type inside its rule's target and
/// allowed boundary, can become a plan item.
pub proof fn law_only_approved_findings_are_planned(
    f: Finding,
    home: Seq<char>,
    platform: Seq<char>,
    facts: SnapshotFacts,
    resolved: Option<ResolvedRule>,
)
    requires
        snapshot_failure(f, home, platform, facts, resolved) is None,
    ensures
        f.cleanup_allowed,
        f.risk == RiskLevel::Safe,
        f.recommended_action == RecommendedAction::MoveToTrash,
        matching_rule(resolved, f.path@) matches Some(rule)
            && boundary_failure(f.path@, rule.target@, home, platform, facts.boundary) is None,
        facts.canonical is Ok,
        item_type_of(f.path@, facts.kind) == Ok::<FindingType, Failure>(f.item_type),
        f.item_type != FindingType::Symlink,
{
}

/// An item is cleaned only when, just before, it still resolves where it did
/// when reviewed, inside its rule's target and allowed boundary, with the
/// reviewed type (never a symbolic link), size within the allowed drift and
/// modification time, and the cleanup was not cancelled.
pub proof fn law_changed_items_fail_closed(
    item: CleanupPlanItem,
    home: Seq<char>,
    platform: Seq<char>,
    facts: RevalidationFacts,
    resolved: Option<ResolvedRule>,
)
    requires
        revalidation_failure(item, home, platform, facts, resolved) is None,
    ensures
        matching_rule(resolved, item.path@) matches Some(rule)
            && boundary_failure(item.path@, rule.target@, home, platform, facts.boundary) is None,
        facts.canonical matches Ok(c) && same_path(c@, item.canonical_path@, PathStyle::Posix),
        item_type_of(item.path@, facts.kind) == Ok::<FindingType, Failure>(item.expected_type),
        item.expected_type != FindingType::Symlink,
        !facts.cancelled,
        facts.measurement.exists && facts.measurement.errors@.len() == 0,
        !drifted(item.expected_size, facts.measurement.logical_size),
        item.expected_modified_at == facts.measurement.modified_at,
{
}

} // verus!
