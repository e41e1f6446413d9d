use vstd::prelude::*;
use crate::domain::cleanup::{CleanupAction, CleanupItemResult, CleanupSummary};
use crate::domain::disk::DiskInfo;
use crate::domain::error::{CommandError, ErrorCode};
use crate::domain::scan::{ScanPhase, ScanProfileId, ScanSummary};
use crate::domain::settings::{AppSettings, DuplicateVerificationMode, ScanMode, Theme};

verus! {

/// A privacy-preserving report of the local state: counts and switches, never paths.
#[derive(Debug, Clone)]
pub struct DiagnosticsReport {
    pub generated_at: String,
    pub application: ApplicationDiagnostics,
    pub settings: SettingsDiagnostics,
    pub storage: StorageDiagnostics,
    pub latest_scan: Option<ScanDiagnostics>,
    pub recent_cleanup: Vec<CleanupDiagnostics>,
}

#[derive(Debug, Clone)]
pub struct ApplicationDiagnostics {
    pub name: String,
    pub version: String,
    pub platform: String,
    pub architecture: String,
}

#[derive(Debug, Clone, Copy)]
pub struct SettingsDiagnostics {
    pub schema_version: u32,
    pub default_scan_mode: ScanMode,
    pub scan_external_drives: bool,
    pub scan_hidden_files: bool,
    pub maximum_concurrency: u8,
    pub duplicate_verification_mode: DuplicateVerificationMode,
    pub permanent_deletion_enabled: bool,
    pub diagnostic_logging: bool,
    pub theme: Theme,
    pub reduced_motion: bool,
    pub configured_project_root_count: usize,
}

#[derive(Debug, Clone, Copy)]
pub struct StorageDiagnostics {
    pub accessible_disk_count: usize,
    pub total_bytes: u64,
    pub available_bytes: u64,
    pub removable_disk_count: usize,
}

#[derive(Debug, Clone)]
pub struct ScanDiagnostics {
    pub profile: ScanProfileId,
    pub phase: ScanPhase,
    pub files_scanned: u64,
    pub directories_scanned: u64,
    pub bytes_examined: u64,
    pub findings_count: u64,
    pub reclaimable_bytes: u64,
    pub skipped_count: u64,
    pub permission_denied_count: u64,
    pub elapsed_ms: u64,
    pub error_codes: Vec<ErrorCode>,
}

#[derive(Debug, Clone)]
pub struct CleanupDiagnostics {
    pub action: CleanupAction,
    pub selected_count: u64,
    pub success_count: u64,
    pub failure_count: u64,
    pub skipped_count: u64,
    pub cancelled: bool,
    pub error_codes: Vec<ErrorCode>,
}

/// The total capacity of the given disks.
pub open spec fn total_capacity(disks: Seq<DiskInfo>) -> int
    decreases disks.len(),
{
    if disks.len() == 0 {
        0
    } else {
        total_capacity(disks.drop_last()) + disks.last().total_bytes
    }
}

/// The total free space of the given disks.
pub open spec fn total_available(disks: Seq<DiskInfo>) -> int
    decreases disks.len(),
{
    if disks.len() == 0 {
        0
    } else {
        total_available(disks.drop_last()) + disks.last().available_bytes
    }
}

/// How many of the given disks are removable.
pub open spec fn removable_count(disks: Seq<DiskInfo>) -> int
    decreases disks.len(),
{
    if disks.len() == 0 {
        0
    } else {
        removable_count(disks.drop_last()) + if disks.last().removable { 1int } else { 0int }
    }
}

/// The codes of the errors, in order.
pub open spec fn error_codes(errors: Seq<CommandError>) -> Seq<ErrorCode> {
    errors.map_values(|e: CommandError| e.code)
}

/// The codes of the failed items' errors, in order.
pub open spec fn item_error_codes(items: Seq<CleanupItemResult>) -> Seq<ErrorCode>
    decreases items.len(),
{
    if items.len() == 0 {
        Seq::empty()
    } else {
        let rest = item_error_codes(items.drop_last());
        match items.last().error {
            Some(e) => rest.push(e.code),
            None => rest,
        }
    }
}

proof fn lemma_totals_bounded(disks: Seq<DiskInfo>)
    ensures
        total_capacity(disks) >= 0,
        total_available(disks) >= 0,
        0 <= removable_count(disks) <= disks.len(),
    decreases disks.len(),
{
    if disks.len() > 0 {
        lemma_totals_bounded(disks.drop_last());
    }
}

proof fn lemma_totals_monotone(disks: Seq<DiskInfo>, i: int)
    requires
        0 <= i <= disks.len(),
    ensures
        0 <= total_capacity(disks.take(i)) <= total_capacity(disks),
        0 <= total_available(disks.take(i)) <= total_available(disks),
        0 <= removable_count(disks.take(i)) <= i,
    decreases disks.len(),
{
    lemma_totals_bounded(disks.take(i));
    if i < disks.len() {
        assert(disks.drop_last().take(i) =~= disks.take(i));
        lemma_totals_monotone(disks.drop_last(), i);
    } else {
        assert(disks.take(i) =~= disks);
    }
}

/// The diagnostics of one scan.
pub open spec fn scan_diagnostics_of(scan: ScanSummary, d: ScanDiagnostics) -> bool {
    &&& d.profile == scan.profile
    &&& d.phase == scan.phase
    &&& d.files_scanned == scan.files_scanned
    &&& d.directories_scanned == scan.directories_scanned
    &&& d.bytes_examined == scan.bytes_examined
    &&& d.findings_count == scan.findings_count
    &&& d.reclaimable_bytes == scan.reclaimable_bytes
    &&& d.skipped_count == scan.skipped_count
    &&& d.permission_denied_count == scan.permission_denied_count
    &&& d.elapsed_ms == scan.elapsed_ms
    &&& d.error_codes@ == error_codes(scan.errors@)
}

/// The diagnostics of one recorded cleanup.
pub open spec fn cleanup_diagnostics_of(c: CleanupSummary, d: CleanupDiagnostics) -> bool {
    &&& d.action == c.action
    &&& d.selected_count == c.selected_count
    &&& d.success_count == c.success_count
    &&& d.failure_count == c.failure_count
    &&& d.skipped_count == c.skipped_count
    &&& d.cancelled == c.cancelled
    &&& d.error_codes@ == item_error_codes(c.items@)
}

/// The settings as reported: every switch, and only the number of project roots.
pub open spec fn settings_diagnostics_of(s: AppSettings, d: SettingsDiagnostics) -> bool {
    &&& d.schema_version == s.schema_version
    &&& d.default_scan_mode == s.default_scan_mode
    &&& d.scan_external_drives == s.scan_external_drives
    &&& d.scan_hidden_files == s.scan_hidden_files
    &&& d.maximum_concurrency == s.maximum_concurrency
    &&& d.duplicate_verification_mode == s.duplicate_verification_mode
    &&& d.permanent_deletion_enabled == s.permanent_deletion_enabled
    &&& d.diagnostic_logging == s.diagnostic_logging
    &&& d.theme == s.theme
    &&& d.reduced_motion == s.reduced_motion
    &&& d.configured_project_root_count == s.project_roots.len()
}

fn collect_error_codes(errors: &Vec<CommandError>) -> (codes: Vec<ErrorCode>)
    ensures
        codes@ == error_codes(errors@),
{
    let mut codes: Vec<ErrorCode> = Vec::new();
    let mut i: usize = 0;
    while i < errors.len()
        invariant
            i <= errors.len(),
            codes@ == error_codes(errors@.take(i as int)),
        decreases errors.len() - i,
    {
        codes.push(errors[i].code);
        i = i + 1;
        assert(error_codes(errors@.take(i as int)) =~= error_codes(errors@.take(i - 1)).push(
            errors@[i - 1].code,
        ));
    }
    assert(errors@.take(i as int) =~= errors@);
    codes
}

fn collect_item_error_codes(items: &Vec<CleanupItemResult>) -> (codes: Vec<ErrorCode>)
    ensures
        codes@ == item_error_codes(items@),
{
    let mut codes: Vec<ErrorCode> = Vec::new();
    let mut i: usize = 0;
    while i < items.len()
        invariant
            i <= items.len(),
            codes@ == item_error_codes(items@.take(i as int)),
        decreases items.len() - i,
    {
        assert(items@.take(i + 1).drop_last() =~= items@.take(i as int));
        match &items[i].error {
            Some(e) => codes.push(e.code),
            None => {},
        }
        i = i + 1;
    }
    assert(items@.take(i as int) =~= items@);
    codes
}

/// The diagnostics of one scan summary.
pub fn scan_diagnostics(scan: &ScanSummary) -> (d: ScanDiagnostics)
    ensures
        scan_diagnostics_of(*scan, d),
{
    ScanDiagnostics {
        profile: scan.profile,
        phase: scan.phase,
        files_scanned: scan.files_scanned,
        directories_scanned: scan.directories_scanned,
        bytes_examined: scan.bytes_examined,
        findings_count: scan.findings_count,
        reclaimable_bytes: scan.reclaimable_bytes,
        skipped_count: scan.skipped_count,
        permission_denied_count: scan.permission_denied_count,
        elapsed_ms: scan.elapsed_ms,
        error_codes: collect_error_codes(&scan.errors),
    }
}

/// The diagnostics of one recorded cleanup.
pub fn cleanup_diagnostics(c: &CleanupSummary) -> (d: CleanupDiagnostics)
    ensures
        cleanup_diagnostics_of(*c, d),
{
    CleanupDiagnostics {
        action: c.action,
        selected_count: c.selected_count,
        success_count: c.success_count,
        failure_count: c.failure_count,
        skipped_count: c.skipped_count,
        cancelled: c.cancelled,
        error_codes: collect_item_error_codes(&c.items),
    }
}

/// The storage totals over the given disks.
pub fn storage_diagnostics(disks: &[DiskInfo]) -> (d: StorageDiagnostics)
    requires
        total_capacity(disks@) <= u64::MAX,
        total_available(disks@) <= u64::MAX,
    ensures
        d.accessible_disk_count == disks@.len(),
        d.total_bytes == total_capacity(disks@),
        d.available_bytes == total_available(disks@),
        d.removable_disk_count == removable_count(disks@),
{
    let mut total: u64 = 0;
    let mut available: u64 = 0;
    let mut removable: usize = 0;
    let mut i: usize = 0;
    while i < disks.len()
        invariant
            i <= disks.len(),
            total_capacity(disks@) <= u64::MAX,
            total_available(disks@) <= u64::MAX,
            total == total_capacity(disks@.take(i as int)),
            available == total_available(disks@.take(i as int)),
            removable == removable_count(disks@.take(i as int)),
        decreases disks.len() - i,
    {
        proof {
            lemma_totals_monotone(disks@, i + 1);
            assert(disks@.take(i + 1).drop_last() =~= disks@.take(i as int));
        }
        total = total + disks[i].total_bytes;
        available = available + disks[i].available_bytes;
        if disks[i].removable {
            removable = removable + 1;
        }
        i = i + 1;
    }
    assert(disks@.take(i as int) =~= disks@);
    StorageDiagnostics {
        accessible_disk_count: disks.len(),
        total_bytes: total,
        available_bytes: available,
        removable_disk_count: removable,
    }
}

/// The settings as reported.
pub fn settings_diagnostics(settings: &AppSettings) -> (d: SettingsDiagnostics)
    ensures
        settings_diagnostics_of(*settings, d),
{
    SettingsDiagnostics {
        schema_version: settings.schema_version,
        default_scan_mode: settings.default_scan_mode,
        scan_external_drives: settings.scan_external_drives,
        scan_hidden_files: settings.scan_hidden_files,
        maximum_concurrency: settings.maximum_concurrency,
        duplicate_verification_mode: settings.duplicate_verification_mode,
        permanent_deletion_enabled: settings.permanent_deletion_enabled,
        diagnostic_logging: settings.diagnostic_logging,
        theme: settings.theme,
        reduced_motion: settings.reduced_motion,
        configured_project_root_count: settings.project_roots.len(),
    }
}

impl DiagnosticsReport {
    /// The report of the local state. The time stamp, version, platform and
    /// architecture are handed in by the caller.
    pub fn from_local_state(
        settings: &AppSettings,
        disks: &[DiskInfo],
        latest_scan: Option<&ScanSummary>,
        cleanup: &[CleanupSummary],
        generated_at: &str,
        version: &str,
        platform: &str,
        architecture: &str,
    ) -> (r: Self)
        requires
            total_capacity(disks@) <= u64::MAX,
            total_available(disks@) <= u64::MAX,
        ensures
            r.generated_at@ == generated_at@,
            r.application.name@ == "DiskSage"@,
            r.application.version@ == version@,
            r.application.platform@ == platform@,
            r.application.architecture@ == architecture@,
            settings_diagnostics_of(*settings, r.settings),
            r.storage.accessible_disk_count == disks@.len(),
            r.storage.total_bytes == total_capacity(disks@),
            r.storage.available_bytes == total_available(disks@),
            r.storage.removable_disk_count == removable_count(disks@),
            latest_scan is None <==> r.latest_scan is None,
            latest_scan matches Some(s) ==> (r.latest_scan matches Some(d) && scan_diagnostics_of(
                *s,
                d,
            )),
            r.recent_cleanup@.len() == cleanup@.len(),
            forall|i: int|
                0 <= i < cleanup@.len() ==> cleanup_diagnostics_of(
                    #[trigger] cleanup@[i],
                    r.recent_cleanup@[i],
                ),
    {
        let latest = match latest_scan {
            Some(s) => Some(scan_diagnostics(s)),
            None => None,
        };
        let mut recent: Vec<CleanupDiagnostics> = Vec::new();
        let mut i: usize = 0;
        while i < cleanup.len()
            invariant
                i <= cleanup.len(),
                recent@.len() == i,
                forall|j: int|
                    0 <= j < i ==> cleanup_diagnostics_of(#[trigger] cleanup@[j], recent@[j]),
            decreases cleanup.len() - i,
        {
            recent.push(cleanup_diagnostics(&cleanup[i]));
            i = i + 1;
        }
        DiagnosticsReport {
            generated_at: String::from_str(generated_at),
            application: ApplicationDiagnostics {
                name: String::from_str("DiskSage"),
                version: String::from_str(version),
                platform: String::from_str(platform),
                architecture: String::from_str(architecture),
            },
            settings: settings_diagnostics(settings),
            storage: storage_diagnostics(disks),
            latest_scan: latest,
            recent_cleanup: recent,
        }
    }
}

} // verus!
