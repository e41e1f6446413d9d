//! The duplicate scan: discovery of candidate files under the chosen roots,
//! the counters and errors it keeps, and the order in which candidates are
//! considered. The file system is read by the caller, which reports what it
//! finds to these steps.
use vstd::prelude::*;
use vstd::hash_set::StringHashSet;
use crate::domain::duplicate::{DuplicateProgress, DuplicateScanPhase};
use crate::domain::error::{CommandError, ErrorCode};
use crate::path_order::{path_less, path_lt, lemma_comps_lt_total, lemma_comps_lt_transitive, lemma_comps_lt_irreflexive};
use crate::paths::{components, PathStyle};
use crate::scanner::walker::FsErrorKind;
use crate::sorting::KeyOrder;
use crate::text::{decimal, push_decimal};

verus! {

/// At most this many candidate files are collected by one scan.
pub const MAX_CANDIDATES: usize = 250000;

/// At most this many errors are kept with a scan's summary.
pub const MAX_RECORDED_ERRORS: usize = 100;

/// A regular file that may have duplicates. `modified_at` is in milliseconds
/// since the Unix epoch.
#[derive(Debug)]
pub struct Candidate {
    pub path: String,
    pub size: u64,
    pub modified_at: Option<i64>,
    pub owner: Option<String>,
}

pub fn clone_text_option(o: &Option<String>) -> (r: Option<String>)
    ensures
        r == *o,
{
    match o {
        Some(s) => Some(s.clone()),
        None => None,
    }
}

impl View for Candidate {
    type V = Candidate;

    open spec fn view(&self) -> Candidate {
        *self
    }
}

/// Candidates are ordered by path, component by component.
impl KeyOrder for Candidate {
    open spec fn before(a: Candidate, b: Candidate) -> bool {
        path_lt(a.path@, b.path@)
    }

    proof fn lemma_asymmetric(a: Candidate, b: Candidate) {
        let ca = components(a.path@, PathStyle::Posix);
        let cb = components(b.path@, PathStyle::Posix);
        if crate::path_order::comps_lt(cb, ca) {
            lemma_comps_lt_transitive(ca, cb, ca);
            lemma_comps_lt_irreflexive(ca);
        }
    }

    proof fn lemma_not_before_transitive(a: Candidate, b: Candidate, c: Candidate) {
        let ca = components(a.path@, PathStyle::Posix);
        let cb = components(b.path@, PathStyle::Posix);
        let cc = components(c.path@, PathStyle::Posix);
        if crate::path_order::comps_lt(cc, ca) && ca != cb {
            lemma_comps_lt_total(ca, cb);
            lemma_comps_lt_transitive(cc, ca, cb);
        }
    }

    fn less(&self, other: &Self) -> (r: bool) {
        path_less(self.path.as_str(), other.path.as_str())
    }

    fn duplicate(&self) -> (r: Self) {
        Candidate {
            path: self.path.clone(),
            size: self.size,
            modified_at: self.modified_at,
            owner: clone_text_option(&self.owner),
        }
    }
}

/// What the file system reports about one directory entry, read without
/// following a symbolic link.
pub enum EntryKind {
    SymbolicLink,
    /// A directory on the given device.
    Directory(u64),
    /// A regular file: its length, its modification time (milliseconds since
    /// the Unix epoch) when known, and its owner's user id when known.
    File(u64, Option<i64>, Option<u64>),
    /// Anything else: a socket, a device, a pipe.
    Other,
}

/// How a file's owner is shown: "UID " and the user id.
pub open spec fn owner_label(uid: u64) -> Seq<char> {
    "UID "@ + decimal(uid as nat)
}

pub fn owner_text(uid: Option<u64>) -> (r: Option<String>)
    ensures
        match uid {
            Some(u) => r matches Some(s) && s@ == owner_label(u),
            None => r is None,
        },
{
    match uid {
        Some(u) => {
            let mut s = String::from_str("UID ");
            proof {
                reveal_strlit("UID ");
            }
            push_decimal(&mut s, u);
            Some(s)
        },
        None => None,
    }
}

/// The error that stops a duplicate scan when it was cancelled.
pub fn check_cancelled(cancelled: bool) -> (r: Result<(), CommandError>)
    ensures
        !cancelled <==> r is Ok,
        r matches Err(e) ==> e.code == ErrorCode::ScanCancelled && e.message@ == "Duplicate analysis was cancelled."@
            && e.recoverable && e.path is None && e.details is None,
{
    if cancelled {
        Err(CommandError::new(ErrorCode::ScanCancelled, "Duplicate analysis was cancelled.", true))
    } else {
        Ok(())
    }
}

/// The error for a scan path that could not be accessed.
pub fn path_error(path: &str, kind: FsErrorKind, details: &str) -> (e: CommandError)
    ensures
        e.code == (match kind {
            FsErrorKind::NotFound => ErrorCode::PathNotFound,
            FsErrorKind::PermissionDenied => ErrorCode::PermissionDenied,
            FsErrorKind::Other => ErrorCode::FilesystemError,
        }),
        e.message@ == "A duplicate scan path could not be accessed."@,
        e.recoverable,
        e.path matches Some(p) && p@ == path@,
        e.details matches Some(d) && d@ == details@,
{
    let code = match kind {
        FsErrorKind::NotFound => ErrorCode::PathNotFound,
        FsErrorKind::PermissionDenied => ErrorCode::PermissionDenied,
        FsErrorKind::Other => ErrorCode::FilesystemError,
    };
    CommandError::new(code, "A duplicate scan path could not be accessed.", true).with_path(path).with_details(details)
}

/// The error that ends discovery once too many candidates were found.
pub open spec fn too_many_candidates(e: CommandError) -> bool {
    &&& e.code == ErrorCode::CommandUnavailable
    &&& e.message@ == "This folder contains too many duplicate candidates. Choose a narrower folder or increase the minimum size."@
    &&& e.recoverable
    &&& e.path is None
    &&& e.details is None
}

/// What counting a failure does: a permission denial or a skipped item is
/// counted, nothing else in the progress changes, and the error is kept
/// while fewer than 100 are.
pub open spec fn error_recorded(
    p0: DuplicateProgress,
    p1: DuplicateProgress,
    e0: Seq<CommandError>,
    e1: Seq<CommandError>,
    error: CommandError,
) -> bool {
    &&& if error.code == ErrorCode::PermissionDenied {
        p1 == DuplicateProgress { permission_denied_count: (p0.permission_denied_count + 1) as u64, ..p0 }
    } else {
        p1 == DuplicateProgress { skipped_count: (p0.skipped_count + 1) as u64, ..p0 }
    }
    &&& e1 == (if e0.len() < MAX_RECORDED_ERRORS { e0.push(error) } else { e0 })
}

/// Counts a failure that does not stop the scan: a permission denial or a
/// skipped item; the error itself is kept while fewer than 100 are.
pub fn record_error(error: CommandError, errors: &mut Vec<CommandError>, progress: &mut DuplicateProgress)
    requires
        old(progress).permission_denied_count < u64::MAX,
        old(progress).skipped_count < u64::MAX,
    ensures
        error_recorded(*old(progress), *final(progress), old(errors)@, final(errors)@, error),
{
    if error.code == ErrorCode::PermissionDenied {
        progress.permission_denied_count = progress.permission_denied_count + 1;
    } else {
        progress.skipped_count = progress.skipped_count + 1;
    }
    if errors.len() < MAX_RECORDED_ERRORS {
        errors.push(error);
    }
}

/// The progress of a scan that has just started.
pub fn initial_progress(scan_id: &str) -> (p: DuplicateProgress)
    ensures
        p.scan_id@ == scan_id@,
        p.phase == DuplicateScanPhase::Discovering,
        p.current_path is None,
        p.files_scanned == 0,
        p.candidate_files == 0,
        p.bytes_hashed == 0,
        p.groups_found == 0,
        p.reclaimable_bytes == 0,
        p.skipped_count == 0,
        p.permission_denied_count == 0,
        p.elapsed_ms == 0,
{
    DuplicateProgress {
        scan_id: String::from_str(scan_id),
        phase: DuplicateScanPhase::Discovering,
        current_path: None,
        files_scanned: 0,
        candidate_files: 0,
        bytes_hashed: 0,
        groups_found: 0,
        reclaimable_bytes: 0,
        skipped_count: 0,
        permission_denied_count: 0,
        elapsed_ms: 0,
    }
}

/// The walk that collects candidate files: a stack of directories still to
/// read, the candidates found, and the paths already taken.
pub struct Discovery {
    minimum_size_bytes: u64,
    candidates: Vec<Candidate>,
    seen: StringHashSet,
    stack: Vec<String>,
    root_device: u64,
}

pub open spec fn candidate_paths(c: Seq<Candidate>) -> Set<Seq<char>> {
    Set::new(|p: Seq<char>| exists|i: int| 0 <= i < c.len() && (#[trigger] c[i]).path@ == p)
}

impl Discovery {
    pub closed spec fn minimum_size_bytes(&self) -> u64 {
        self.minimum_size_bytes
    }

    /// The candidates found so far, in the order found.
    pub closed spec fn candidates(&self) -> Seq<Candidate> {
        self.candidates@
    }

    /// The directories still to read; the last is read next.
    pub closed spec fn stack(&self) -> Seq<Seq<char>> {
        self.stack@.map_values(|s: String| s@)
    }

    /// The device of the root being walked.
    pub closed spec fn root_device(&self) -> u64 {
        self.root_device
    }

    pub closed spec fn wf(&self) -> bool {
        &&& self.seen@ == candidate_paths(self.candidates@)
        &&& self.candidates@.len() <= MAX_CANDIDATES
    }

    /// A walk that has found nothing yet.
    pub fn new(minimum_size_bytes: u64) -> (d: Self)
        ensures
            d.wf(),
            d.minimum_size_bytes() == minimum_size_bytes,
            d.candidates() == Seq::<Candidate>::empty(),
            d.stack() == Seq::<Seq<char>>::empty(),
    {
        let d = Discovery {
            minimum_size_bytes,
            candidates: Vec::new(),
            seen: StringHashSet::new(),
            stack: Vec::new(),
            root_device: 0,
        };
        assert(candidate_paths(d.candidates@) =~= Set::<Seq<char>>::empty());
        assert(d.stack@.map_values(|s: String| s@) =~= Seq::<Seq<char>>::empty());
        d
    }

    /// Starts walking a root that lives on `device`.
    pub fn begin_root(&mut self, root: &str, device: u64)
        requires
            old(self).wf(),
        ensures
            final(self).wf(),
            final(self).minimum_size_bytes() == old(self).minimum_size_bytes(),
            final(self).candidates() == old(self).candidates(),
            final(self).stack() == seq![root@],
            final(self).root_device() == device,
    {
        self.root_device = device;
        self.stack = Vec::new();
        self.stack.push(String::from_str(root));
        assert(self.stack@.map_values(|s: String| s@) =~= seq![root@]);
    }

    /// The next directory to read, taken from the top of the stack.
    pub fn next_directory(&mut self) -> (r: Option<String>)
        requires
            old(self).wf(),
        ensures
            final(self).wf(),
            final(self).minimum_size_bytes() == old(self).minimum_size_bytes(),
            final(self).candidates() == old(self).candidates(),
            final(self).root_device() == old(self).root_device(),
            old(self).stack().len() == 0 ==> r is None && final(self).stack() == old(self).stack(),
            old(self).stack().len() > 0 ==> (r matches Some(d) && d@ == old(self).stack().last()
                && final(self).stack() == old(self).stack().drop_last()),
    {
        let r = self.stack.pop();
        proof {
            if old(self).stack@.len() > 0 {
                assert(self.stack@.map_values(|s: String| s@) =~= old(self).stack@.map_values(|s: String| s@).drop_last());
            }
        }
        r
    }

    /// Takes in one directory entry found in `directory`. Links and special
    /// files are skipped; a directory on the root's device is queued, one on
    /// another device skipped; a regular file is counted, and becomes a
    /// candidate when it is not empty, not below the minimum size and not
    /// already taken. Fails once the candidate limit is reached. The result
    /// says whether progress should be reported now (every 128 files that
    /// pass the size filter), with `directory` as the current path.
    pub fn record_entry(&mut self, progress: &mut DuplicateProgress, directory: &str, path: String, kind: EntryKind)
        -> (r: Result<bool, CommandError>)
        requires
            old(self).wf(),
            old(progress).files_scanned < u64::MAX,
            old(progress).skipped_count < u64::MAX,
        ensures
            final(self).wf(),
            final(self).minimum_size_bytes() == old(self).minimum_size_bytes(),
            final(self).root_device() == old(self).root_device(),
            final(progress).phase == old(progress).phase,
            final(progress).scan_id == old(progress).scan_id,
            final(progress).permission_denied_count == old(progress).permission_denied_count,
            final(progress).bytes_hashed == old(progress).bytes_hashed,
            match kind {
                EntryKind::Directory(device) => {
                    &&& r == Ok::<bool, CommandError>(false)
                    &&& final(self).candidates() == old(self).candidates()
                    &&& final(progress).files_scanned == old(progress).files_scanned
                    &&& final(progress).current_path == old(progress).current_path
                    &&& if device == old(self).root_device() {
                        &&& final(self).stack() == old(self).stack().push(path@)
                        &&& final(progress).skipped_count == old(progress).skipped_count
                    } else {
                        &&& final(self).stack() == old(self).stack()
                        &&& final(progress).skipped_count == old(progress).skipped_count + 1
                    }
                },
                EntryKind::File(size, modified_at, uid) => {
                    let too_small = size < old(self).minimum_size_bytes() || size == 0;
                    let taken = candidate_paths(old(self).candidates()).contains(path@);
                    &&& final(self).stack() == old(self).stack()
                    &&& final(progress).files_scanned == old(progress).files_scanned + 1
                    &&& final(progress).skipped_count == old(progress).skipped_count
                    &&& (too_small ==> r == Ok::<bool, CommandError>(false)
                        && final(self).candidates() == old(self).candidates()
                        && final(progress).current_path == old(progress).current_path)
                    &&& (!too_small && old(self).candidates().len() >= MAX_CANDIDATES ==> (r matches Err(e)
                        && too_many_candidates(e)) && final(self).candidates() == old(self).candidates()
                        && final(progress).current_path == old(progress).current_path)
                    &&& (!too_small && old(self).candidates().len() < MAX_CANDIDATES ==> {
                        let emit = final(progress).files_scanned % 128 == 0;
                        &&& r == Ok::<bool, CommandError>(emit)
                        &&& (emit ==> (final(progress).current_path matches Some(c) && c@ == directory@))
                        &&& (!emit ==> final(progress).current_path == old(progress).current_path)
                        &&& (taken ==> final(self).candidates() == old(self).candidates())
                        &&& (!taken ==> {
                            let c = final(self).candidates().last();
                            &&& final(self).candidates().drop_last() == old(self).candidates()
                            &&& final(self).candidates().len() == old(self).candidates().len() + 1
                            &&& c.path@ == path@
                            &&& c.size == size
                            &&& c.modified_at == modified_at
                            &&& match uid {
                                Some(u) => c.owner matches Some(o) && o@ == owner_label(u),
                                None => c.owner is None,
                            }
                        })
                    })
                },
                _ => {
                    &&& r == Ok::<bool, CommandError>(false)
                    &&& final(self).candidates() == old(self).candidates()
                    &&& final(self).stack() == old(self).stack()
                    &&& final(progress).files_scanned == old(progress).files_scanned
                    &&& final(progress).skipped_count == old(progress).skipped_count + 1
                    &&& final(progress).current_path == old(progress).current_path
                },
            },
    {
        match kind {
            EntryKind::SymbolicLink => {
                progress.skipped_count = progress.skipped_count + 1;
                Ok(false)
            },
            EntryKind::Other => {
                progress.skipped_count = progress.skipped_count + 1;
                Ok(false)
            },
            EntryKind::Directory(device) => {
                if device == self.root_device {
                    let ghost before = self.stack@;
                    self.stack.push(path);
                    assert(self.stack@.map_values(|s: String| s@) =~= before.map_values(|s: String| s@).push(path@));
                } else {
                    progress.skipped_count = progress.skipped_count + 1;
                }
                Ok(false)
            },
            EntryKind::File(size, modified_at, uid) => {
                progress.files_scanned = progress.files_scanned + 1;
                if size < self.minimum_size_bytes || size == 0 {
                    return Ok(false);
                }
                if self.candidates.len() >= MAX_CANDIDATES {
                    return Err(CommandError::new(
                        ErrorCode::CommandUnavailable,
                        "This folder contains too many duplicate candidates. Choose a narrower folder or increase the minimum size.",
                        true,
                    ));
                }
                let fresh = !self.seen.contains(path.as_str());
                if fresh {
                    let ghost before = self.candidates@;
                    self.seen.insert(path.clone());
                    let owner = owner_text(uid);
                    self.candidates.push(Candidate { path, size, modified_at, owner });
                    proof {
                        assert(self.candidates@.drop_last() =~= before);
                        assert forall|p: Seq<char>| #[trigger] candidate_paths(self.candidates@).contains(p)
                            <==> candidate_paths(before).insert(self.candidates@.last().path@).contains(p) by {
                            if candidate_paths(self.candidates@).contains(p) {
                                let i = choose|i: int| 0 <= i < self.candidates@.len() && (#[trigger] self.candidates@[i]).path@ == p;
                                if i < before.len() {
                                    assert(before[i] == self.candidates@[i]);
                                }
                            }
                            if candidate_paths(before).contains(p) {
                                let i = choose|i: int| 0 <= i < before.len() && (#[trigger] before[i]).path@ == p;
                                assert(self.candidates@[i] == before[i]);
                            }
                            if p == self.candidates@.last().path@ {
                                assert(self.candidates@[self.candidates@.len() - 1].path@ == p);
                            }
                        }
                        assert(self.seen@ =~= candidate_paths(self.candidates@));
                    }
                }
                let emit = progress.files_scanned % 128 == 0;
                if emit {
                    progress.current_path = Some(String::from_str(directory));
                }
                Ok(emit)
            },
        }
    }

    /// The candidates found, in the order found.
    pub fn into_candidates(self) -> (r: Vec<Candidate>)
        ensures
            r@ == self.candidates(),
    {
        self.candidates
    }
}

} // verus!
