use vstd::prelude::*;
use crate::domain::error::{CommandError, ErrorCode};
use crate::domain::finding::{Finding, FindingEvidence, FindingType};
use crate::domain::rule::{RecommendedAction, RiskLevel, RuleCategory};
use crate::domain::scan::{ScanPhase, ScanProfile, ScanProfileId, ScanProgress, ScanSummary, StartScanRequest};
use crate::paths::{display_path, display_path_exec, file_name, file_name_exec, PathStyle};
use crate::persistence::scans::ScanRepository;
use crate::rules::registry::{ResolvedRule, RulesRegistry};
use crate::safety::protected_paths::{policy_cleanup_check, reason_view, ProtectedPathPolicy};
use crate::scanner::exclusions::{first_invalid, normalized_all, ExclusionMatcher};
use crate::scanner::walker::TargetMeasurement;
use crate::text::{same_text, string_of};

verus! {

/// The scan that is running, and whether it was asked to stop.
#[derive(Debug, Clone)]
pub struct ActiveScan {
    pub id: String,
    pub cancelled: bool,
}

/// The bookkeeping of rule scans: at most one runs at a time, and the latest
/// summary of each scan seen in this session is kept.
#[derive(Debug)]
pub struct ScanManager {
    pub active: Option<ActiveScan>,
    pub statuses: Vec<ScanSummary>,
    pub repository: ScanRepository,
    pub rules_registry: RulesRegistry,
}

/// The scan profiles: identifier, name, description, expected duration,
/// availability and warning.
pub open spec fn profile_row(i: int) -> (ScanProfileId, Seq<char>, Seq<char>, Seq<char>, bool, Option<Seq<char>>) {
    if i == 0 {
        (ScanProfileId::Quick, "Quick Scan"@, "Common low-risk caches"@, "Usually under 30 seconds"@, true, None)
    } else if i == 1 {
        (ScanProfileId::Developer, "Developer Scan"@, "Package caches, configured projects, IDEs, Docker, and emulators"@, "Usually under 2 minutes"@, true, None)
    } else if i == 2 {
        (ScanProfileId::FullAnalysis, "Full Analysis"@, "Large files, old files, duplicates, and project artifacts"@, "Can take significant time"@, false,
            Some("Full Analysis arrives after duplicate hashing and project-context rules are implemented."@))
    } else {
        (ScanProfileId::Custom, "Custom Scan"@, "User-selected roots and rule categories"@, "Depends on selected roots"@, false,
            Some("Custom roots remain disabled until root validation and advanced exclusions are complete."@))
    }
}

pub open spec fn profile_is(p: ScanProfile, row: (ScanProfileId, Seq<char>, Seq<char>, Seq<char>, bool, Option<Seq<char>>)) -> bool {
    &&& p.id == row.0
    &&& p.display_name@ == row.1
    &&& p.description@ == row.2
    &&& p.expected_duration@ == row.3
    &&& p.available == row.4
    &&& match row.5 {
        None => p.warning is None,
        Some(w) => p.warning matches Some(x) && x@ == w,
    }
}

fn profile(id: ScanProfileId, display_name: &str, description: &str, expected_duration: &str, available: bool, warning: Option<&str>) -> (p: ScanProfile)
    ensures
        p.id == id,
        p.display_name@ == display_name@,
        p.description@ == description@,
        p.expected_duration@ == expected_duration@,
        p.available == available,
        match warning {
            None => p.warning is None,
            Some(w) => p.warning matches Some(x) && x@ == w@,
        },
{
    ScanProfile {
        id,
        display_name: String::from_str(display_name),
        description: String::from_str(description),
        expected_duration: String::from_str(expected_duration),
        available,
        warning: match warning {
            Some(w) => Some(String::from_str(w)),
            None => None,
        },
    }
}

/// A scan summary that has just been created.
pub open spec fn initial_summary_of(s: ScanSummary, scan_id: Seq<char>, profile: ScanProfileId, started_at: i64) -> bool {
    &&& s.scan_id@ == scan_id
    &&& s.profile == profile
    &&& s.phase == ScanPhase::Preparing
    &&& s.started_at == started_at
    &&& s.completed_at is None
    &&& s.files_scanned == 0
    &&& s.directories_scanned == 0
    &&& s.bytes_examined == 0
    &&& s.findings_count == 0
    &&& s.reclaimable_bytes == 0
    &&& s.skipped_count == 0
    &&& s.permission_denied_count == 0
    &&& s.elapsed_ms == 0
    &&& s.errors@.len() == 0
}

/// The summary of a scan that has just been created at `started_at`.
pub fn initial_summary(scan_id: &str, profile: ScanProfileId, started_at: i64) -> (s: ScanSummary)
    ensures
        initial_summary_of(s, scan_id@, profile, started_at),
{
    ScanSummary {
        scan_id: String::from_str(scan_id),
        profile,
        phase: ScanPhase::Preparing,
        started_at,
        completed_at: None,
        files_scanned: 0,
        directories_scanned: 0,
        bytes_examined: 0,
        findings_count: 0,
        reclaimable_bytes: 0,
        skipped_count: 0,
        permission_denied_count: 0,
        elapsed_ms: 0,
        errors: Vec::new(),
    }
}

/// The most errors a scan summary keeps.
pub const MAX_SUMMARY_ERRORS: usize = 50;

/// Adds a target's measurement to the scan's counters; the summary keeps the
/// first 50 errors.
pub fn merge_measurement(summary: &mut ScanSummary, measurement: &TargetMeasurement)
    requires
        old(summary).files_scanned + measurement.files_scanned <= u64::MAX,
        old(summary).directories_scanned + measurement.directories_scanned <= u64::MAX,
        old(summary).skipped_count + measurement.skipped_count <= u64::MAX,
        old(summary).permission_denied_count + measurement.permission_denied_count <= u64::MAX,
    ensures
        final(summary).scan_id == old(summary).scan_id,
        final(summary).profile == old(summary).profile,
        final(summary).phase == old(summary).phase,
        final(summary).started_at == old(summary).started_at,
        final(summary).completed_at == old(summary).completed_at,
        final(summary).findings_count == old(summary).findings_count,
        final(summary).reclaimable_bytes == old(summary).reclaimable_bytes,
        final(summary).elapsed_ms == old(summary).elapsed_ms,
        final(summary).files_scanned == old(summary).files_scanned + measurement.files_scanned,
        final(summary).directories_scanned == old(summary).directories_scanned + measurement.directories_scanned,
        final(summary).bytes_examined == old(summary).bytes_examined.saturating_add(measurement.logical_size),
        final(summary).skipped_count == old(summary).skipped_count + measurement.skipped_count,
        final(summary).permission_denied_count == old(summary).permission_denied_count + measurement.permission_denied_count,
        final(summary).errors@ == (old(summary).errors@ + measurement.errors@).take(
            if old(summary).errors@.len() + measurement.errors@.len() <= MAX_SUMMARY_ERRORS {
                (old(summary).errors@.len() + measurement.errors@.len()) as int
            } else {
                MAX_SUMMARY_ERRORS as int
            },
        ),
{
    summary.files_scanned = summary.files_scanned + measurement.files_scanned;
    summary.directories_scanned = summary.directories_scanned + measurement.directories_scanned;
    summary.bytes_examined = summary.bytes_examined.saturating_add(measurement.logical_size);
    summary.skipped_count = summary.skipped_count + measurement.skipped_count;
    summary.permission_denied_count = summary.permission_denied_count + measurement.permission_denied_count;
    let ghost start = summary.errors@;
    let mut i: usize = 0;
    while i < measurement.errors.len() && summary.errors.len() < MAX_SUMMARY_ERRORS
        invariant
            i <= measurement.errors@.len(),
            summary.errors@ == (start + measurement.errors@).take((start.len() + i) as int),
            start.len() + i <= MAX_SUMMARY_ERRORS || i == 0,
            summary.scan_id == old(summary).scan_id,
            summary.profile == old(summary).profile,
            summary.phase == old(summary).phase,
            summary.started_at == old(summary).started_at,
            summary.completed_at == old(summary).completed_at,
            summary.findings_count == old(summary).findings_count,
            summary.reclaimable_bytes == old(summary).reclaimable_bytes,
            summary.elapsed_ms == old(summary).elapsed_ms,
            summary.files_scanned == old(summary).files_scanned + measurement.files_scanned,
            summary.directories_scanned == old(summary).directories_scanned + measurement.directories_scanned,
            summary.bytes_examined == old(summary).bytes_examined.saturating_add(measurement.logical_size),
            summary.skipped_count == old(summary).skipped_count + measurement.skipped_count,
            summary.permission_denied_count == old(summary).permission_denied_count + measurement.permission_denied_count,
            start == old(summary).errors@,
        decreases measurement.errors.len() - i,
    {
        summary.errors.push(measurement.errors[i].clone_error());
        i = i + 1;
        assert(summary.errors@ =~= (start + measurement.errors@).take((start.len() + i) as int));
    }
    if summary.errors.len() > MAX_SUMMARY_ERRORS {
        summary.errors.truncate(MAX_SUMMARY_ERRORS);
        assert(summary.errors@ =~= (start + measurement.errors@).take(MAX_SUMMARY_ERRORS as int));
    } else {
        if i < measurement.errors.len() {
            assert(summary.errors@ =~= (start + measurement.errors@).take(MAX_SUMMARY_ERRORS as int));
        } else {
            assert(summary.errors@ =~= (start + measurement.errors@).take((start.len() + measurement.errors@.len()) as int));
        }
    }
}

/// The evidence for a rule's finding: the package manager of a package cache,
/// the directory name of a build artifact or log, a known path otherwise.
pub open spec fn evidence_for(e: FindingEvidence, rule: ResolvedRule) -> bool {
    match rule.definition.category {
        RuleCategory::PackageManagerCache => e matches FindingEvidence::PackageManagerCache { manager } && manager@ == rule.definition.display_name@,
        RuleCategory::BuildArtifact | RuleCategory::Log => e matches FindingEvidence::DirectoryNameMatch { directory_name }
            && directory_name@ == (match file_name(rule.target@, PathStyle::Posix) {
                Some(n) => n,
                None => rule.definition.display_name@,
            }),
        _ => e is KnownPath,
    }
}

pub open spec fn risk_word(r: RiskLevel) -> Seq<char> {
    match r {
        RiskLevel::Careful => "Careful"@,
        RiskLevel::Expert => "Expert"@,
        RiskLevel::Safe => "Safe"@,
    }
}

/// A finding may be cleaned up only when it is a safe move-to-trash rule and
/// no protected root (other than the home folder itself) covers its target.
pub open spec fn cleanup_allowed_for(rule: ResolvedRule, home: Seq<char>, platform: Seq<char>) -> bool {
    policy_cleanup_check(home, platform, rule.target@, true) is None
        && rule.definition.risk == RiskLevel::Safe
        && rule.definition.recommended_action == RecommendedAction::MoveToTrash
}

/// Why cleanup is blocked, if it is.
pub open spec fn block_reason_for(rule: ResolvedRule, home: Seq<char>, platform: Seq<char>) -> Option<Seq<char>> {
    if cleanup_allowed_for(rule, home, platform) {
        None
    } else if rule.definition.risk != RiskLevel::Safe {
        Some(risk_word(rule.definition.risk) + " findings are review-only and are never selected automatically."@)
    } else {
        match policy_cleanup_check(home, platform, rule.target@, true) {
            Some((_, reason)) => Some("Protected by the "@ + reason + " policy."@),
            None => None,
        }
    }
}

/// The finding is the rule's target with its measurement.
pub open spec fn finding_of(f: Finding, id: Seq<char>, scan_id: Seq<char>, home: Seq<char>, platform: Seq<char>, rule: ResolvedRule, m: TargetMeasurement, is_file: bool) -> bool {
    &&& f.id@ == id
    &&& f.scan_id@ == scan_id
    &&& f.rule_id@ == rule.definition.id@
    &&& f.rule_version == rule.definition.version
    &&& f.category == rule.definition.category
    &&& f.display_name@ == rule.definition.display_name@
    &&& f.description@ == rule.definition.description@
    &&& f.path@ == rule.target@
    &&& f.display_path@ == display_path(rule.target@, home)
    &&& f.item_type == (if is_file { FindingType::File } else { FindingType::Directory })
    &&& f.logical_size == m.logical_size
    &&& f.allocated_size == Some(m.allocated_size)
    &&& f.modified_at == m.modified_at
    &&& f.risk == rule.definition.risk
    &&& f.recommended_action == rule.definition.recommended_action
    &&& evidence_for(f.evidence, rule)
    &&& f.cleanup_allowed == cleanup_allowed_for(rule, home, platform)
    &&& match block_reason_for(rule, home, platform) {
        None => f.cleanup_block_reason is None,
        Some(b) => f.cleanup_block_reason matches Some(x) && x@ == b,
    }
}

/// The finding for a measured rule target. `is_file` says whether the target
/// is a regular file (a directory otherwise, or when it could not be read).
pub fn build_finding(
    finding_id: &str,
    scan_id: &str,
    home: &str,
    platform: &str,
    rule: &ResolvedRule,
    measurement: &TargetMeasurement,
    is_file: bool,
) -> (f: Finding)
    ensures
        finding_of(f, finding_id@, scan_id@, home@, platform@, *rule, *measurement, is_file),
{
    let evidence = match rule.definition.category {
        RuleCategory::PackageManagerCache => FindingEvidence::PackageManagerCache { manager: rule.definition.display_name.clone() },
        RuleCategory::BuildArtifact | RuleCategory::Log => FindingEvidence::DirectoryNameMatch {
            directory_name: match file_name_exec(rule.target.as_str(), PathStyle::Posix) {
                Some(n) => string_of(n.as_slice()),
                None => rule.definition.display_name.clone(),
            },
        },
        _ => FindingEvidence::KnownPath,
    };
    let policy = ProtectedPathPolicy::for_platform(home, platform);
    let protection = policy.check_cleanup_candidate(rule.target.as_str(), true);
    let allowed = protection.is_none() && rule.definition.risk == RiskLevel::Safe
        && rule.definition.recommended_action == RecommendedAction::MoveToTrash;
    let block_reason = if allowed {
        None
    } else if rule.definition.risk != RiskLevel::Safe {
        let mut text = String::from_str(match rule.definition.risk {
            RiskLevel::Careful => "Careful",
            RiskLevel::Expert => "Expert",
            RiskLevel::Safe => "Safe",
        });
        text.append(" findings are review-only and are never selected automatically.");
        Some(text)
    } else {
        match protection {
            Some(reason) => {
                let mut text = String::from_str("Protected by the ");
                text.append(reason.reason.as_str());
                text.append(" policy.");
                Some(text)
            },
            None => None,
        }
    };
    Finding {
        id: String::from_str(finding_id),
        scan_id: String::from_str(scan_id),
        rule_id: rule.definition.id.clone(),
        rule_version: rule.definition.version,
        category: rule.definition.category,
        display_name: rule.definition.display_name.clone(),
        description: rule.definition.description.clone(),
        path: rule.target.clone(),
        display_path: display_path_exec(rule.target.as_str(), home),
        item_type: if is_file { FindingType::File } else { FindingType::Directory },
        logical_size: measurement.logical_size,
        allocated_size: Some(measurement.allocated_size),
        modified_at: measurement.modified_at,
        risk: rule.definition.risk,
        recommended_action: rule.definition.recommended_action,
        evidence,
        cleanup_allowed: allowed,
        cleanup_block_reason: block_reason,
    }
}

/// A rule's measurement becomes a finding when the target exists, reaches the
/// rule's minimum size (no minimum when none is set) and the scan was not cancelled.
pub open spec fn yields_finding(rule: ResolvedRule, m: TargetMeasurement, cancelled: bool) -> bool {
    m.exists && m.logical_size >= (match rule.definition.minimum_size { Some(s) => s, None => 0 }) && !cancelled
}

pub fn yields_finding_exec(rule: &ResolvedRule, measurement: &TargetMeasurement, cancelled: bool) -> (r: bool)
    ensures
        r == yields_finding(*rule, *measurement, cancelled),
{
    let minimum = match rule.definition.minimum_size {
        Some(s) => s,
        None => 0,
    };
    measurement.exists && measurement.logical_size >= minimum && !cancelled
}

/// Counts a stored finding and its reclaimable bytes.
pub fn record_finding(summary: &mut ScanSummary, allocated_size: u64)
    requires
        old(summary).findings_count < u64::MAX,
    ensures
        final(summary).findings_count == old(summary).findings_count + 1,
        final(summary).reclaimable_bytes == old(summary).reclaimable_bytes.saturating_add(allocated_size),
        final(summary).phase == old(summary).phase,
        final(summary).scan_id == old(summary).scan_id,
        final(summary).errors == old(summary).errors,
        final(summary).files_scanned == old(summary).files_scanned,
{
    summary.findings_count = summary.findings_count + 1;
    summary.reclaimable_bytes = summary.reclaimable_bytes.saturating_add(allocated_size);
}

/// A finding could not be stored: the error is kept and the scan has failed.
pub fn record_storage_failure(summary: &mut ScanSummary, error: CommandError)
    ensures
        final(summary).errors@ == old(summary).errors@.push(error),
        final(summary).phase == ScanPhase::Failed,
        final(summary).scan_id == old(summary).scan_id,
        final(summary).findings_count == old(summary).findings_count,
{
    summary.errors.push(error);
    summary.phase = ScanPhase::Failed;
}

/// The final phase of a scan: cancelled when asked to stop, failed when a
/// finding could not be stored, completed otherwise.
pub open spec fn final_phase(phase: ScanPhase, cancelled: bool) -> ScanPhase {
    if cancelled {
        ScanPhase::Cancelled
    } else if phase == ScanPhase::Failed {
        ScanPhase::Failed
    } else {
        ScanPhase::Completed
    }
}

/// Ends a scan at `completed_at` after `elapsed_ms`.
pub fn finish_scan(summary: &mut ScanSummary, cancelled: bool, completed_at: i64, elapsed_ms: u64)
    ensures
        final(summary).phase == final_phase(old(summary).phase, cancelled),
        final(summary).completed_at == Some(completed_at),
        final(summary).elapsed_ms == elapsed_ms,
        final(summary).scan_id == old(summary).scan_id,
        final(summary).findings_count == old(summary).findings_count,
        final(summary).errors == old(summary).errors,
{
    summary.elapsed_ms = elapsed_ms;
    summary.completed_at = Some(completed_at);
    summary.phase = if cancelled {
        ScanPhase::Cancelled
    } else if summary.phase == ScanPhase::Failed {
        ScanPhase::Failed
    } else {
        ScanPhase::Completed
    };
}

/// The progress event of a summary.
pub fn progress_from(summary: &ScanSummary, current_path: Option<String>) -> (p: ScanProgress)
    ensures
        p.scan_id@ == summary.scan_id@,
        p.phase == summary.phase,
        p.current_path == current_path,
        p.files_scanned == summary.files_scanned,
        p.directories_scanned == summary.directories_scanned,
        p.bytes_examined == summary.bytes_examined,
        p.findings_count == summary.findings_count,
        p.reclaimable_bytes == summary.reclaimable_bytes,
        p.skipped_count == summary.skipped_count,
        p.permission_denied_count == summary.permission_denied_count,
        p.elapsed_ms == summary.elapsed_ms,
{
    ScanProgress {
        scan_id: summary.scan_id.clone(),
        phase: summary.phase,
        current_path,
        files_scanned: summary.files_scanned,
        directories_scanned: summary.directories_scanned,
        bytes_examined: summary.bytes_examined,
        findings_count: summary.findings_count,
        reclaimable_bytes: summary.reclaimable_bytes,
        skipped_count: summary.skipped_count,
        permission_denied_count: summary.permission_denied_count,
        elapsed_ms: summary.elapsed_ms,
    }
}

/// The index of the status of a scan, if one is kept.
pub open spec fn status_index(statuses: Seq<ScanSummary>, scan_id: Seq<char>) -> Option<int> {
    if exists|k: int| 0 <= k < statuses.len() && (#[trigger] statuses[k]).scan_id@ == scan_id {
        Some(choose|k: int| 0 <= k < statuses.len() && (#[trigger] statuses[k]).scan_id@ == scan_id)
    } else {
        None
    }
}

/// No two kept statuses belong to the same scan.
pub open spec fn unique_statuses(statuses: Seq<ScanSummary>) -> bool {
    forall|a: int, b: int| 0 <= a < b < statuses.len() ==> (#[trigger] statuses[a]).scan_id@ != (#[trigger] statuses[b]).scan_id@
}

/// Whether a scan profile can be started in this version: quick and developer scans.
pub open spec fn startable(profile: ScanProfileId) -> bool {
    profile == ScanProfileId::Quick || profile == ScanProfileId::Developer
}

impl ScanManager {
    /// A manager with no scan running and no status kept.
    pub fn new(repository: ScanRepository) -> (m: Self)
        ensures
            m.active is None,
            m.statuses@.len() == 0,
            m.repository == repository,
    {
        ScanManager { active: None, statuses: Vec::new(), repository, rules_registry: RulesRegistry }
    }

    /// The scan profiles, in order: quick, developer, full analysis, custom.
    pub fn profiles() -> (r: Vec<ScanProfile>)
        ensures
            r@.len() == 4,
            forall|i: int| 0 <= i < 4 ==> profile_is(#[trigger] r@[i], profile_row(i)),
    {
        let mut r: Vec<ScanProfile> = Vec::new();
        r.push(profile(ScanProfileId::Quick, "Quick Scan", "Common low-risk caches", "Usually under 30 seconds", true, None));
        r.push(profile(ScanProfileId::Developer, "Developer Scan", "Package caches, configured projects, IDEs, Docker, and emulators", "Usually under 2 minutes", true, None));
        r.push(profile(
            ScanProfileId::FullAnalysis,
            "Full Analysis",
            "Large files, old files, duplicates, and project artifacts",
            "Can take significant time",
            false,
            Some("Full Analysis arrives after duplicate hashing and project-context rules are implemented."),
        ));
        r.push(profile(
            ScanProfileId::Custom,
            "Custom Scan",
            "User-selected roots and rule categories",
            "Depends on selected roots",
            false,
            Some("Custom roots remain disabled until root validation and advanced exclusions are complete."),
        ));
        assert forall|i: int| 0 <= i < 4 implies profile_is(#[trigger] r@[i], profile_row(i)) by {
            if i == 0 {} else if i == 1 {} else if i == 2 {} else {}
        }
        r
    }

    /// Whether a scan may start: the profile must be available in this
    /// version, the exclusions valid, and no other scan running.
    pub fn check_start(&self, request: &StartScanRequest) -> (r: Result<ExclusionMatcher, CommandError>)
        ensures
            !startable(request.profile) ==> (r matches Err(e) && e.code == ErrorCode::CommandUnavailable
                && e.message@ == "That scan profile is not available in this phase."@),
            startable(request.profile) && request.excluded_paths@.len() > 64 ==> (r matches Err(e) && e.code == ErrorCode::InvalidPath),
            startable(request.profile) && request.excluded_paths@.len() <= 64 && first_invalid(request.excluded_paths@, request.excluded_paths@.len() as int) is Some
                ==> (r matches Err(e) && e.code == ErrorCode::InvalidPath),
            startable(request.profile) && request.excluded_paths@.len() <= 64 && first_invalid(request.excluded_paths@, request.excluded_paths@.len() as int) is None
                ==> if self.active is Some {
                    r matches Err(e) && e.code == ErrorCode::ScanAlreadyRunning && e.message@ == "Another disk scan is already running."@
                } else {
                    r matches Ok(m) && m@ == normalized_all(request.excluded_paths@)
                },
    {
        if !(request.profile == ScanProfileId::Quick || request.profile == ScanProfileId::Developer) {
            return Err(CommandError::new(ErrorCode::CommandUnavailable, "That scan profile is not available in this phase.", true));
        }
        let exclusions = ExclusionMatcher::new(request.excluded_paths.as_slice())?;
        if self.active.is_some() {
            return Err(CommandError::new(ErrorCode::ScanAlreadyRunning, "Another disk scan is already running.", true));
        }
        Ok(exclusions)
    }

    /// Keeps the latest summary of a scan, replacing an earlier one of the same scan.
    pub fn publish_status(&mut self, summary: ScanSummary)
        requires
            unique_statuses(old(self).statuses@),
        ensures
            unique_statuses(final(self).statuses@),
            final(self).active == old(self).active,
            final(self).statuses@.contains(summary),
            forall|k: int| 0 <= k < old(self).statuses@.len() && (#[trigger] old(self).statuses@[k]).scan_id@ != summary.scan_id@
                ==> final(self).statuses@.contains(old(self).statuses@[k]),
            forall|k: int| 0 <= k < final(self).statuses@.len() ==> #[trigger] final(self).statuses@[k] == summary
                || old(self).statuses@.contains(final(self).statuses@[k]),
    {
        let mut i: usize = 0;
        while i < self.statuses.len()
            invariant
                i <= self.statuses@.len(),
                self.statuses == old(self).statuses,
                unique_statuses(self.statuses@),
                self.active == old(self).active,
                forall|k: int| 0 <= k < i ==> (#[trigger] self.statuses@[k]).scan_id@ != summary.scan_id@,
            decreases self.statuses.len() - i,
        {
            if same_text(self.statuses[i].scan_id.as_str(), summary.scan_id.as_str()) {
                let ghost before = self.statuses@;
                self.statuses.set(i, summary);
                proof {
                    let after = self.statuses@;
                    assert(after =~= before.update(i as int, summary));
                    assert(after[i as int] == summary);
                    assert forall|a: int, b: int| 0 <= a < b < after.len() implies (#[trigger] after[a]).scan_id@ != (#[trigger] after[b]).scan_id@ by {
                        if a != i && b != i {
                            assert(after[a] == before[a] && after[b] == before[b]);
                        } else if a == i {
                            assert(after[b] == before[b]);
                        } else {
                            assert(after[a] == before[a]);
                        }
                    }
                    assert forall|k: int| 0 <= k < before.len() && (#[trigger] before[k]).scan_id@ != summary.scan_id@ implies after.contains(before[k]) by {
                        assert(k != i);
                        assert(after[k] == before[k]);
                    }
                    assert forall|k: int| 0 <= k < after.len() implies #[trigger] after[k] == summary || before.contains(after[k]) by {
                        if k != i {
                            assert(after[k] == before[k]);
                        }
                    }
                }
                return;
            }
            i = i + 1;
        }
        let ghost before = self.statuses@;
        self.statuses.push(summary);
        proof {
            let after = self.statuses@;
            assert(after[after.len() - 1] == summary);
            assert forall|k: int| 0 <= k < before.len() && (#[trigger] before[k]).scan_id@ != summary.scan_id@ implies after.contains(before[k]) by {
                assert(after[k] == before[k]);
            }
            assert forall|k: int| 0 <= k < after.len() implies #[trigger] after[k] == summary || before.contains(after[k]) by {
                if k < before.len() {
                    assert(after[k] == before[k]);
                }
            }
        }
    }

    /// Marks a newly started scan as the running one and keeps its summary.
    pub fn register(&mut self, summary: ScanSummary)
        requires
            unique_statuses(old(self).statuses@),
        ensures
            unique_statuses(final(self).statuses@),
            final(self).active matches Some(a) && a.id@ == summary.scan_id@ && !a.cancelled,
            final(self).statuses@.contains(summary),
    {
        let id = summary.scan_id.clone();
        self.publish_status(summary);
        self.active = Some(ActiveScan { id, cancelled: false });
    }

    /// Asks the running scan to stop; only the running scan can be cancelled.
    pub fn cancel(&mut self, scan_id: &str) -> (r: Result<(), CommandError>)
        ensures
            final(self).statuses == old(self).statuses,
            match old(self).active {
                Some(a) => if a.id@ == scan_id@ {
                    r is Ok && (final(self).active matches Some(b) && b.id == a.id && b.cancelled)
                } else {
                    r matches Err(e) && e.code == ErrorCode::PathNotFound && e.message@ == "That scan is not currently running."@
                        && final(self).active == old(self).active
                },
                None => r matches Err(e) && e.code == ErrorCode::PathNotFound && e.message@ == "That scan is not currently running."@
                    && final(self).active == old(self).active,
            },
    {
        match &mut self.active {
            Some(active) => {
                if same_text(active.id.as_str(), scan_id) {
                    active.cancelled = true;
                    return Ok(());
                }
            },
            None => {},
        }
        Err(CommandError::new(ErrorCode::PathNotFound, "That scan is not currently running.", true))
    }

    /// Whether the running scan with this identifier was asked to stop.
    pub fn is_cancelled(&self, scan_id: &str) -> (r: bool)
        ensures
            r == (self.active matches Some(a) && a.id@ == scan_id@ && a.cancelled),
    {
        match &self.active {
            Some(a) => same_text(a.id.as_str(), scan_id) && a.cancelled,
            None => false,
        }
    }

    /// The kept status of a scan, if any (older scans are read from the repository).
    pub fn status(&self, scan_id: &str) -> (r: Option<&ScanSummary>)
        ensures
            match r {
                Some(s) => self.statuses@.contains(*s) && s.scan_id@ == scan_id@,
                None => forall|k: int| 0 <= k < self.statuses@.len() ==> (#[trigger] self.statuses@[k]).scan_id@ != scan_id@,
            },
    {
        let mut i: usize = 0;
        while i < self.statuses.len()
            invariant
                i <= self.statuses@.len(),
                forall|k: int| 0 <= k < i ==> (#[trigger] self.statuses@[k]).scan_id@ != scan_id@,
            decreases self.statuses.len() - i,
        {
            if same_text(self.statuses[i].scan_id.as_str(), scan_id) {
                return Some(&self.statuses[i]);
            }
            i = i + 1;
        }
        None
    }

    /// The repository that stores scans.
    pub fn repository(&self) -> (r: &ScanRepository)
        ensures
            *r == self.repository,
    {
        &self.repository
    }

    /// The scan is no longer running; another scan's record is left alone.
    pub fn clear_active(&mut self, scan_id: &str)
        ensures
            final(self).statuses == old(self).statuses,
            (old(self).active matches Some(a) && a.id@ == scan_id@) ==> final(self).active is None,
            !(old(self).active matches Some(a) && a.id@ == scan_id@) ==> final(self).active == old(self).active,
    {
        let matches = match &self.active {
            Some(a) => same_text(a.id.as_str(), scan_id),
            None => false,
        };
        if matches {
            self.active = None;
        }
    }
}

} // verus!
