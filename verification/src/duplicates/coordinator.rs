//! The bookkeeping of duplicate scans: at most one runs at a time, it can be
//! cancelled, and its summary says how it ended.
use vstd::prelude::*;
use crate::domain::duplicate::{DuplicateProgress, DuplicateScanPhase, DuplicateSummary, StartDuplicateScanRequest};
use crate::domain::error::{CommandError, ErrorCode};
use crate::duplicates::cleanup::DuplicateCleanupManager;
use crate::duplicates::roots::{
    canonical_views, count_message, first_rejection, narrowed_roots, rejection_error, validate_roots, RootFacts,
};
use crate::path_order::string_views;
use crate::persistence::duplicates::DuplicateRepository;
use crate::persistence::history::HistoryRepository;
use crate::text::same_text;

verus! {

/// The largest minimum size a duplicate scan accepts: one tebibyte.
pub const MAX_MINIMUM_SIZE_BYTES: u64 = 1099511627776;

/// The duplicate scan that is running, and whether it was asked to stop.
#[derive(Debug, Clone)]
pub struct ActiveDuplicateScan {
    pub scan_id: String,
    pub cancelled: bool,
}

/// Duplicate scans and the cleanup of their results.
#[derive(Debug)]
pub struct DuplicateManager {
    pub active: Option<ActiveDuplicateScan>,
    pub repository: DuplicateRepository,
    pub cleanup: DuplicateCleanupManager,
}

/// The error for a minimum size out of range.
pub open spec fn minimum_size_error(e: CommandError) -> bool {
    &&& e.code == ErrorCode::InvalidSettings
    &&& e.message@ == "Duplicate minimum size must be between 1 byte and 1 TiB."@
    &&& e.recoverable
    &&& e.path is None
    &&& e.details is None
}

/// A duplicate summary with its request's settings and nothing counted yet.
pub open spec fn fresh_summary(
    s: DuplicateSummary,
    scan_id: Seq<char>,
    roots: Seq<Seq<char>>,
    request: StartDuplicateScanRequest,
    started_at: i64,
) -> bool {
    &&& s.scan_id@ == scan_id
    &&& string_views(s.roots@) == roots
    &&& s.minimum_size_bytes == request.minimum_size_bytes
    &&& s.byte_for_byte_verification == request.byte_for_byte_verification
    &&& s.started_at == started_at
    &&& s.files_scanned == 0
    &&& s.candidate_files == 0
    &&& s.bytes_hashed == 0
    &&& s.groups_found == 0
    &&& s.duplicate_files == 0
    &&& s.reclaimable_bytes == 0
    &&& s.skipped_count == 0
    &&& s.permission_denied_count == 0
    &&& s.elapsed_ms == 0
}

fn copy_roots(roots: &Vec<String>) -> (r: Vec<String>)
    ensures
        string_views(r@) == string_views(roots@),
{
    let mut r: Vec<String> = Vec::new();
    let mut i: usize = 0;
    while i < roots.len()
        invariant
            0 <= i <= roots@.len(),
            string_views(r@) == string_views(roots@.take(i as int)),
        decreases roots@.len() - i,
    {
        let ghost before = r@;
        r.push(roots[i].clone());
        assert(roots@.take(i + 1) =~= roots@.take(i as int).push(roots@[i as int]));
        assert(string_views(r@) =~= string_views(before).push(roots@[i as int]@));
        assert(string_views(r@) =~= string_views(roots@.take(i + 1)));
        i = i + 1;
    }
    assert(roots@.take(roots@.len() as int) =~= roots@);
    r
}

fn summary_with(
    scan_id: &str,
    phase: DuplicateScanPhase,
    roots: &Vec<String>,
    request: &StartDuplicateScanRequest,
    started_at: i64,
    completed_at: Option<i64>,
) -> (s: DuplicateSummary)
    ensures
        fresh_summary(s, scan_id@, string_views(roots@), *request, started_at),
        s.phase == phase,
        s.completed_at == completed_at,
        s.errors@.len() == 0,
{
    DuplicateSummary {
        scan_id: String::from_str(scan_id),
        phase,
        roots: copy_roots(roots),
        minimum_size_bytes: request.minimum_size_bytes,
        byte_for_byte_verification: request.byte_for_byte_verification,
        started_at,
        completed_at,
        files_scanned: 0,
        candidate_files: 0,
        bytes_hashed: 0,
        groups_found: 0,
        duplicate_files: 0,
        reclaimable_bytes: 0,
        skipped_count: 0,
        permission_denied_count: 0,
        elapsed_ms: 0,
        errors: Vec::new(),
    }
}

/// The summary stored when a scan starts: discovering, nothing counted yet.
pub fn initial_summary(scan_id: &str, roots: &Vec<String>, request: &StartDuplicateScanRequest, started_at: i64) -> (s: DuplicateSummary)
    ensures
        fresh_summary(s, scan_id@, string_views(roots@), *request, started_at),
        s.phase == DuplicateScanPhase::Discovering,
        s.completed_at is None,
        s.errors@.len() == 0,
{
    summary_with(scan_id, DuplicateScanPhase::Discovering, roots, request, started_at, None)
}

/// The summary stored when a scan failed: nothing counted, and the error.
pub fn failed_summary(
    scan_id: &str,
    roots: &Vec<String>,
    request: &StartDuplicateScanRequest,
    started_at: i64,
    completed_at: i64,
    error: CommandError,
) -> (s: DuplicateSummary)
    ensures
        fresh_summary(s, scan_id@, string_views(roots@), *request, started_at),
        s.phase == DuplicateScanPhase::Failed,
        s.completed_at == Some(completed_at),
        s.errors@ == seq![error],
{
    let mut s = summary_with(scan_id, DuplicateScanPhase::Failed, roots, request, started_at, Some(completed_at));
    s.errors.push(error);
    s
}

/// The summary stored when a scan was cancelled: the counters of the last
/// progress reported, if any, no duplicate files and no errors.
pub fn cancelled_summary(
    scan_id: &str,
    roots: &Vec<String>,
    request: &StartDuplicateScanRequest,
    started_at: i64,
    completed_at: i64,
    latest: &Option<DuplicateProgress>,
) -> (s: DuplicateSummary)
    ensures
        s.scan_id@ == scan_id@,
        s.phase == DuplicateScanPhase::Cancelled,
        string_views(s.roots@) == string_views(roots@),
        s.minimum_size_bytes == request.minimum_size_bytes,
        s.byte_for_byte_verification == request.byte_for_byte_verification,
        s.started_at == started_at,
        s.completed_at == Some(completed_at),
        s.duplicate_files == 0,
        s.errors@.len() == 0,
        match latest {
            Some(p) => s.files_scanned == p.files_scanned && s.candidate_files == p.candidate_files
                && s.bytes_hashed == p.bytes_hashed && s.groups_found == p.groups_found
                && s.reclaimable_bytes == p.reclaimable_bytes && s.skipped_count == p.skipped_count
                && s.permission_denied_count == p.permission_denied_count && s.elapsed_ms == p.elapsed_ms,
            None => s.files_scanned == 0 && s.candidate_files == 0 && s.bytes_hashed == 0 && s.groups_found == 0
                && s.reclaimable_bytes == 0 && s.skipped_count == 0 && s.permission_denied_count == 0 && s.elapsed_ms == 0,
        },
{
    let mut s = summary_with(scan_id, DuplicateScanPhase::Cancelled, roots, request, started_at, Some(completed_at));
    match latest {
        Some(p) => {
            s.files_scanned = p.files_scanned;
            s.candidate_files = p.candidate_files;
            s.bytes_hashed = p.bytes_hashed;
            s.groups_found = p.groups_found;
            s.reclaimable_bytes = p.reclaimable_bytes;
            s.skipped_count = p.skipped_count;
            s.permission_denied_count = p.permission_denied_count;
            s.elapsed_ms = p.elapsed_ms;
        },
        None => {},
    }
    s
}

/// The progress that reports a summary's counters, with no current path.
pub fn progress_from_summary(summary: &DuplicateSummary) -> (p: DuplicateProgress)
    ensures
        p.scan_id == summary.scan_id,
        p.phase == summary.phase,
        p.current_path is None,
        p.files_scanned == summary.files_scanned,
        p.candidate_files == summary.candidate_files,
        p.bytes_hashed == summary.bytes_hashed,
        p.groups_found == summary.groups_found,
        p.reclaimable_bytes == summary.reclaimable_bytes,
        p.skipped_count == summary.skipped_count,
        p.permission_denied_count == summary.permission_denied_count,
        p.elapsed_ms == summary.elapsed_ms,
{
    DuplicateProgress {
        scan_id: summary.scan_id.clone(),
        phase: summary.phase,
        current_path: None,
        files_scanned: summary.files_scanned,
        candidate_files: summary.candidate_files,
        bytes_hashed: summary.bytes_hashed,
        groups_found: summary.groups_found,
        reclaimable_bytes: summary.reclaimable_bytes,
        skipped_count: summary.skipped_count,
        permission_denied_count: summary.permission_denied_count,
        elapsed_ms: summary.elapsed_ms,
    }
}

impl DuplicateManager {
    pub fn new(repository: DuplicateRepository, history: HistoryRepository) -> (m: Self)
        ensures
            m.active is None,
            m.repository == repository,
            m.cleanup.repository == repository,
            m.cleanup.history == history,
            m.cleanup.wf(),
            m.cleanup.active is None,
    {
        let cleanup = DuplicateCleanupManager::new(DuplicateRepository { root: repository.root.clone() }, history);
        DuplicateManager { active: None, repository, cleanup }
    }

    /// Whether a new scan may start: the minimum size lies between 1 byte
    /// and 1 TiB, the roots validate (see `validate_roots`), and no duplicate
    /// scan is running. The result is the validated roots.
    pub fn check_start(
        &self,
        request: &StartDuplicateScanRequest,
        home: &str,
        platform: &str,
        facts: &[RootFacts],
    ) -> (r: Result<Vec<String>, CommandError>)
        requires
            facts@.len() == request.roots@.len(),
        ensures
            (request.minimum_size_bytes == 0 || request.minimum_size_bytes > MAX_MINIMUM_SIZE_BYTES) ==> (r matches Err(e)
                && minimum_size_error(e)),
            !(request.minimum_size_bytes == 0 || request.minimum_size_bytes > MAX_MINIMUM_SIZE_BYTES) ==> {
                let roots = request.roots@;
                if roots.len() == 0 || roots.len() > 8 {
                    r matches Err(e) && e.code == ErrorCode::InvalidPath && e.message@ == count_message(8)
                } else {
                    match first_rejection(roots, facts@, home@, platform@, roots.len() as int) {
                        Some((i, why)) => r matches Err(e) && rejection_error(e, roots[i]@, why),
                        None => if self.active is Some {
                            r matches Err(e) && e.code == ErrorCode::ScanAlreadyRunning
                                && e.message@ == "Another duplicate scan is already running."@
                        } else {
                            r matches Ok(v) && narrowed_roots(string_views(v@), canonical_views(facts@))
                        },
                    }
                }
            },
    {
        if request.minimum_size_bytes == 0 || request.minimum_size_bytes > MAX_MINIMUM_SIZE_BYTES {
            return Err(CommandError::new(
                ErrorCode::InvalidSettings,
                "Duplicate minimum size must be between 1 byte and 1 TiB.",
                true,
            ));
        }
        let roots = validate_roots(request.roots.as_slice(), home, platform, facts)?;
        if self.active.is_some() {
            return Err(CommandError::new(ErrorCode::ScanAlreadyRunning, "Another duplicate scan is already running.", true));
        }
        Ok(roots)
    }

    /// Marks a newly started scan as the running one.
    pub fn register(&mut self, scan_id: &str)
        ensures
            final(self).active matches Some(a) && a.scan_id@ == scan_id@ && !a.cancelled,
            final(self).repository == old(self).repository,
            final(self).cleanup == old(self).cleanup,
    {
        self.active = Some(ActiveDuplicateScan { scan_id: String::from_str(scan_id), cancelled: false });
    }

    /// Asks the running scan to stop; only the running scan can be cancelled.
    pub fn cancel(&mut self, scan_id: &str) -> (r: Result<(), CommandError>)
        ensures
            final(self).repository == old(self).repository,
            final(self).cleanup == old(self).cleanup,
            match old(self).active {
                Some(a) => if a.scan_id@ == scan_id@ {
                    r is Ok && (final(self).active matches Some(b) && b.scan_id == a.scan_id && b.cancelled)
                } else {
                    r matches Err(e) && e.code == ErrorCode::PathNotFound
                        && e.message@ == "That duplicate scan is not running."@ && final(self).active == old(self).active
                },
                None => r matches Err(e) && e.code == ErrorCode::PathNotFound
                    && e.message@ == "That duplicate scan is not running."@ && final(self).active == old(self).active,
            },
    {
        match &mut self.active {
            Some(active) => {
                if same_text(active.scan_id.as_str(), scan_id) {
                    active.cancelled = true;
                    return Ok(());
                }
            },
            None => {},
        }
        Err(CommandError::new(ErrorCode::PathNotFound, "That duplicate scan is not running.", true))
    }

    /// Whether the running scan with this identifier was asked to stop.
    pub fn is_cancelled(&self, scan_id: &str) -> (r: bool)
        ensures
            r == (self.active matches Some(a) && a.scan_id@ == scan_id@ && a.cancelled),
    {
        match &self.active {
            Some(a) => same_text(a.scan_id.as_str(), scan_id) && a.cancelled,
            None => false,
        }
    }

    /// The scan is no longer running; another scan's record is left alone.
    pub fn clear_active(&mut self, scan_id: &str)
        ensures
            final(self).repository == old(self).repository,
            final(self).cleanup == old(self).cleanup,
            (old(self).active matches Some(a) && a.scan_id@ == scan_id@) ==> final(self).active is None,
            !(old(self).active matches Some(a) && a.scan_id@ == scan_id@) ==> final(self).active == old(self).active,
    {
        let matches = match &self.active {
            Some(a) => same_text(a.scan_id.as_str(), scan_id),
            None => false,
        };
        if matches {
            self.active = None;
        }
    }

    /// The repository that stores duplicate scans.
    pub fn repository(&self) -> (r: &DuplicateRepository)
        ensures
            *r == self.repository,
    {
        &self.repository
    }

    /// The manager of duplicate cleanups.
    pub fn cleanup(&mut self) -> (r: &mut DuplicateCleanupManager)
        ensures
            *r == old(self).cleanup,
            *final(self) == (DuplicateManager { cleanup: *final(r), ..*old(self) }),
    {
        &mut self.cleanup
    }
}

} // verus!
