use vstd::prelude::*;
use crate::domain::error::{CommandError, ErrorCode};
use crate::paths::{same_path, same_path_exec, PathStyle};
use crate::scanner::exclusions::{excluded_by, ExclusionMatcher};

verus! {

/// How a file-system operation failed.
#[derive(Debug, Clone, Copy, PartialEq, Eq, Structural)]
pub enum FsErrorKind {
    NotFound,
    PermissionDenied,
    Other,
}

/// A failed file-system operation: its kind and the system's description.
#[derive(Debug, Clone)]
pub struct FsError {
    pub kind: FsErrorKind,
    pub details: String,
}

/// What the walk of one rule target found. `modified_at` is the latest file
/// modification, in milliseconds since the Unix epoch.
#[derive(Debug, Clone)]
pub struct TargetMeasurement {
    pub exists: bool,
    pub logical_size: u64,
    pub allocated_size: u64,
    pub files_scanned: u64,
    pub directories_scanned: u64,
    pub skipped_count: u64,
    pub permission_denied_count: u64,
    pub modified_at: Option<i64>,
    pub errors: Vec<CommandError>,
}

/// The most errors a measurement keeps.
pub const MAX_MEASUREMENT_ERRORS: usize = 20;

impl Default for TargetMeasurement {
    fn default() -> (m: Self)
        ensures
            empty_measurement(m),
    {
        TargetMeasurement {
            exists: false,
            logical_size: 0,
            allocated_size: 0,
            files_scanned: 0,
            directories_scanned: 0,
            skipped_count: 0,
            permission_denied_count: 0,
            modified_at: None,
            errors: Vec::new(),
        }
    }
}

pub open spec fn empty_measurement(m: TargetMeasurement) -> bool {
    &&& !m.exists
    &&& m.logical_size == 0
    &&& m.allocated_size == 0
    &&& m.files_scanned == 0
    &&& m.directories_scanned == 0
    &&& m.skipped_count == 0
    &&& m.permission_denied_count == 0
    &&& m.modified_at is None
    &&& m.errors@.len() == 0
}

/// The error recorded for an unreadable location.
pub open spec fn walk_error(e: CommandError, path: Seq<char>, kind: FsErrorKind, details: Seq<char>) -> bool {
    &&& e.code == (if kind == FsErrorKind::PermissionDenied { ErrorCode::PermissionDenied } else { ErrorCode::FilesystemError })
    &&& e.message@ == (if kind == FsErrorKind::PermissionDenied {
        "A location could not be read because of its permissions."@
    } else {
        "A filesystem item changed or could not be read."@
    })
    &&& e.recoverable
    &&& e.path matches Some(p) && p@ == path
    &&& e.details matches Some(d) && d@ == details
}

/// The counters that a measurement carries, all below their maximum.
pub open spec fn counters_below_max(m: TargetMeasurement) -> bool {
    &&& m.files_scanned < u64::MAX
    &&& m.directories_scanned < u64::MAX
    &&& m.skipped_count < u64::MAX
    &&& m.permission_denied_count < u64::MAX
}

/// Counts an unreadable location: a permission denial, or a skipped item
/// otherwise; the error itself is kept while fewer than 20 are.
pub fn record_error(measurement: &mut TargetMeasurement, path: &str, kind: FsErrorKind, details: &str)
    requires
        old(measurement).skipped_count < u64::MAX,
        old(measurement).permission_denied_count < u64::MAX,
    ensures
        final(measurement).exists == old(measurement).exists,
        final(measurement).logical_size == old(measurement).logical_size,
        final(measurement).allocated_size == old(measurement).allocated_size,
        final(measurement).files_scanned == old(measurement).files_scanned,
        final(measurement).directories_scanned == old(measurement).directories_scanned,
        final(measurement).modified_at == old(measurement).modified_at,
        kind == FsErrorKind::PermissionDenied ==> final(measurement).permission_denied_count == old(measurement).permission_denied_count + 1
            && final(measurement).skipped_count == old(measurement).skipped_count,
        kind != FsErrorKind::PermissionDenied ==> final(measurement).skipped_count == old(measurement).skipped_count + 1
            && final(measurement).permission_denied_count == old(measurement).permission_denied_count,
        old(measurement).errors@.len() < MAX_MEASUREMENT_ERRORS ==> final(measurement).errors@.len() == old(measurement).errors@.len() + 1
            && final(measurement).errors@.drop_last() == old(measurement).errors@
            && walk_error(final(measurement).errors@.last(), path@, kind, details@),
        old(measurement).errors@.len() >= MAX_MEASUREMENT_ERRORS ==> final(measurement).errors@ == old(measurement).errors@,
{
    let (code, message) = if kind == FsErrorKind::PermissionDenied {
        measurement.permission_denied_count = measurement.permission_denied_count + 1;
        (ErrorCode::PermissionDenied, "A location could not be read because of its permissions.")
    } else {
        measurement.skipped_count = measurement.skipped_count + 1;
        (ErrorCode::FilesystemError, "A filesystem item changed or could not be read.")
    };
    if measurement.errors.len() < MAX_MEASUREMENT_ERRORS {
        let ghost before = measurement.errors@;
        measurement.errors.push(CommandError::new(code, message, true).with_path(path).with_details(details));
        assert(measurement.errors@.drop_last() =~= before);
    }
}

/// What the file system reports about the root of a target.
#[derive(Debug, Clone)]
pub enum RootStat {
    Found { device: u64 },
    Unreadable(FsError),
}

/// What the file system reports about one path of the walk, without following links.
#[derive(Debug, Clone)]
pub enum PathStat {
    Unreadable(FsError),
    Symlink,
    File { len: u64, allocated: u64, modified_at: Option<i64> },
    Directory { device: u64 },
    Other,
}

/// The entries of a directory, and the entries that could not be read.
#[derive(Debug, Clone)]
pub struct DirListing {
    pub entries: Vec<String>,
    pub entry_errors: Vec<FsError>,
}

/// What the walk asks of its driver after a path was recorded.
#[derive(Debug, Clone, Copy, PartialEq, Eq, Structural)]
pub enum WalkAction {
    Continue,
    ListDirectory,
}

/// The decisions of the walk of one rule target: the driver stats the paths
/// that `next_path` hands out and reports back; the walk never follows a
/// symbolic link, never crosses to another device below the root, and leaves
/// excluded subtrees alone.
#[derive(Debug, Clone)]
pub struct TargetWalk {
    pub root: String,
    pub exclusions: ExclusionMatcher,
    pub root_device: u64,
    pub pending: Vec<String>,
    pub measurement: TargetMeasurement,
}

/// The newer of two modification times.
pub open spec fn latest(current: Option<i64>, modified: i64) -> i64 {
    match current {
        Some(c) => if c >= modified { c } else { modified },
        None => modified,
    }
}

impl TargetWalk {
    /// A walk of `root` that has not looked at the file system yet.
    pub fn new(root: &str, exclusions: ExclusionMatcher) -> (w: Self)
        ensures
            w.root@ == root@,
            w.exclusions@ == exclusions@,
            w.pending@.len() == 0,
            empty_measurement(w.measurement),
    {
        TargetWalk {
            root: String::from_str(root),
            exclusions,
            root_device: 0,
            pending: Vec::new(),
            measurement: TargetMeasurement::default(),
        }
    }

    /// An excluded root is not looked at: its measurement stays empty.
    pub fn root_excluded(&self) -> (r: bool)
        ensures
            r == excluded_by(self.exclusions@, self.root@),
    {
        self.exclusions.is_excluded(self.root.as_str())
    }

    /// Starts the walk from what the root's metadata said: a missing root
    /// leaves the measurement empty, another failure is recorded, and a found
    /// root exists and is the first path to visit.
    pub fn begin(&mut self, stat: RootStat)
        requires
            empty_measurement(old(self).measurement),
            old(self).pending@.len() == 0,
        ensures
            final(self).root == old(self).root,
            final(self).exclusions == old(self).exclusions,
            match stat {
                RootStat::Found { device } => {
                    &&& final(self).measurement.exists
                    &&& final(self).root_device == device
                    &&& final(self).pending@.len() == 1
                    &&& final(self).pending@[0]@ == old(self).root@
                },
                RootStat::Unreadable(e) => {
                    &&& !final(self).measurement.exists
                    &&& final(self).pending@.len() == 0
                    &&& e.kind == FsErrorKind::NotFound ==> final(self).measurement.skipped_count == 0
                        && final(self).measurement.errors@.len() == 0
                    &&& e.kind != FsErrorKind::NotFound ==> final(self).measurement.errors@.len() == 1
                        && walk_error(final(self).measurement.errors@[0], old(self).root@, e.kind, e.details@)
                },
            },
    {
        match stat {
            RootStat::Found { device } => {
                self.measurement.exists = true;
                self.root_device = device;
                self.pending.push(self.root.clone());
            },
            RootStat::Unreadable(e) => {
                if e.kind != FsErrorKind::NotFound {
                    record_error(&mut self.measurement, self.root.as_str(), e.kind, e.details.as_str());
                }
            },
        }
    }

    /// The next path to stat, if any; excluded paths on the way are counted as
    /// skipped and dropped.
    pub fn next_path(&mut self) -> (r: Option<String>)
        requires
            old(self).measurement.skipped_count as int + old(self).pending@.len() < u64::MAX,
        ensures
            final(self).root == old(self).root,
            final(self).exclusions == old(self).exclusions,
            final(self).root_device == old(self).root_device,
            final(self).measurement.skipped_count as int + final(self).pending@.len() <= old(self).measurement.skipped_count as int + old(self).pending@.len(),
            final(self).pending@.len() <= old(self).pending@.len(),
            final(self).pending@ == old(self).pending@.subrange(0, final(self).pending@.len() as int),
            forall|k: int| final(self).pending@.len() + (if r is Some { 1int } else { 0int }) <= k < old(self).pending@.len()
                ==> excluded_by(old(self).exclusions@, #[trigger] old(self).pending@[k]@),
            match r {
                Some(p) => {
                    &&& final(self).pending@.len() < old(self).pending@.len()
                    &&& p@ == old(self).pending@[final(self).pending@.len() as int]@
                    &&& !excluded_by(old(self).exclusions@, p@)
                },
                None => final(self).pending@.len() == 0,
            },
            final(self).measurement.skipped_count == old(self).measurement.skipped_count
                + (old(self).pending@.len() - final(self).pending@.len() - (if r is Some { 1int } else { 0int })),
            final(self).measurement.exists == old(self).measurement.exists,
            final(self).measurement.logical_size == old(self).measurement.logical_size,
            final(self).measurement.allocated_size == old(self).measurement.allocated_size,
            final(self).measurement.files_scanned == old(self).measurement.files_scanned,
            final(self).measurement.directories_scanned == old(self).measurement.directories_scanned,
            final(self).measurement.permission_denied_count == old(self).measurement.permission_denied_count,
            final(self).measurement.modified_at == old(self).measurement.modified_at,
            final(self).measurement.errors == old(self).measurement.errors,
    {
        let ghost start = self.pending@;
        let ghost skipped = self.measurement.skipped_count;
        while self.pending.len() > 0
            invariant
                self.root == old(self).root,
                self.exclusions == old(self).exclusions,
                self.root_device == old(self).root_device,
                start == old(self).pending@,
                skipped == old(self).measurement.skipped_count,
                self.pending@.len() <= start.len(),
                self.pending@ == start.subrange(0, self.pending@.len() as int),
                self.measurement.skipped_count == skipped + (start.len() - self.pending@.len()),
                skipped + start.len() < u64::MAX,
                forall|k: int| self.pending@.len() <= k < start.len() ==> excluded_by(self.exclusions@, #[trigger] start[k]@),
                self.measurement.exists == old(self).measurement.exists,
                self.measurement.logical_size == old(self).measurement.logical_size,
                self.measurement.allocated_size == old(self).measurement.allocated_size,
                self.measurement.files_scanned == old(self).measurement.files_scanned,
                self.measurement.directories_scanned == old(self).measurement.directories_scanned,
                self.measurement.permission_denied_count == old(self).measurement.permission_denied_count,
                self.measurement.modified_at == old(self).measurement.modified_at,
                self.measurement.errors == old(self).measurement.errors,
            decreases self.pending@.len(),
        {
            let path = self.pending.pop().unwrap();
            assert(self.pending@ =~= start.subrange(0, self.pending@.len() as int));
            if self.exclusions.is_excluded(path.as_str()) {
                self.measurement.skipped_count = self.measurement.skipped_count + 1;
            } else {
                return Some(path);
            }
        }
        None
    }

    /// Records what the stat of a path said. A directory on the root's device
    /// (or the root itself) is counted and must then be listed.
    pub fn record(&mut self, path: &str, stat: PathStat) -> (action: WalkAction)
        requires
            counters_below_max(old(self).measurement),
        ensures
            final(self).root == old(self).root,
            final(self).exclusions == old(self).exclusions,
            final(self).root_device == old(self).root_device,
            final(self).pending == old(self).pending,
            final(self).measurement.exists == old(self).measurement.exists,
            match stat {
                PathStat::Unreadable(e) => action == WalkAction::Continue
                    && final(self).measurement.files_scanned == old(self).measurement.files_scanned
                    && final(self).measurement.logical_size == old(self).measurement.logical_size
                    && (e.kind == FsErrorKind::PermissionDenied ==> final(self).measurement.permission_denied_count == old(self).measurement.permission_denied_count + 1)
                    && (e.kind != FsErrorKind::PermissionDenied ==> final(self).measurement.skipped_count == old(self).measurement.skipped_count + 1),
                PathStat::Symlink | PathStat::Other => action == WalkAction::Continue
                    && final(self).measurement.skipped_count == old(self).measurement.skipped_count + 1
                    && final(self).measurement.files_scanned == old(self).measurement.files_scanned
                    && final(self).measurement.directories_scanned == old(self).measurement.directories_scanned
                    && final(self).measurement.logical_size == old(self).measurement.logical_size
                    && final(self).measurement.allocated_size == old(self).measurement.allocated_size
                    && final(self).measurement.errors == old(self).measurement.errors,
                PathStat::File { len, allocated, modified_at } => action == WalkAction::Continue
                    && final(self).measurement.files_scanned == old(self).measurement.files_scanned + 1
                    && final(self).measurement.logical_size == old(self).measurement.logical_size.saturating_add(len)
                    && final(self).measurement.allocated_size == old(self).measurement.allocated_size.saturating_add(allocated)
                    && final(self).measurement.modified_at == (match modified_at {
                        Some(m) => Some(latest(old(self).measurement.modified_at, m)),
                        None => old(self).measurement.modified_at,
                    })
                    && final(self).measurement.skipped_count == old(self).measurement.skipped_count
                    && final(self).measurement.directories_scanned == old(self).measurement.directories_scanned
                    && final(self).measurement.errors == old(self).measurement.errors,
                PathStat::Directory { device } => {
                    let other_device = !same_path(path@, old(self).root@, PathStyle::Posix) && device != old(self).root_device;
                    &&& other_device ==> action == WalkAction::Continue
                        && final(self).measurement.skipped_count == old(self).measurement.skipped_count + 1
                        && final(self).measurement.directories_scanned == old(self).measurement.directories_scanned
                    &&& !other_device ==> action == WalkAction::ListDirectory
                        && final(self).measurement.directories_scanned == old(self).measurement.directories_scanned + 1
                        && final(self).measurement.skipped_count == old(self).measurement.skipped_count
                    &&& final(self).measurement.files_scanned == old(self).measurement.files_scanned
                    &&& final(self).measurement.logical_size == old(self).measurement.logical_size
                    &&& final(self).measurement.errors == old(self).measurement.errors
                },
            },
    {
        match stat {
            PathStat::Unreadable(e) => {
                record_error(&mut self.measurement, path, e.kind, e.details.as_str());
                WalkAction::Continue
            },
            PathStat::Symlink | PathStat::Other => {
                self.measurement.skipped_count = self.measurement.skipped_count + 1;
                WalkAction::Continue
            },
            PathStat::File { len, allocated, modified_at } => {
                self.measurement.files_scanned = self.measurement.files_scanned + 1;
                self.measurement.logical_size = self.measurement.logical_size.saturating_add(len);
                self.measurement.allocated_size = self.measurement.allocated_size.saturating_add(allocated);
                if let Some(m) = modified_at {
                    self.measurement.modified_at = Some(match self.measurement.modified_at {
                        Some(c) => if c >= m { c } else { m },
                        None => m,
                    });
                }
                WalkAction::Continue
            },
            PathStat::Directory { device } => {
                if !same_path_exec(path, self.root.as_str(), PathStyle::Posix) && device != self.root_device {
                    self.measurement.skipped_count = self.measurement.skipped_count + 1;
                    WalkAction::Continue
                } else {
                    self.measurement.directories_scanned = self.measurement.directories_scanned + 1;
                    WalkAction::ListDirectory
                }
            },
        }
    }

    /// Queues the entries of a listed directory and records the entries that
    /// could not be read; `listing` is `Err` when the directory itself could not be read.
    pub fn add_listing(&mut self, path: &str, listing: Result<DirListing, FsError>)
        requires
            old(self).measurement.skipped_count as int + (match listing { Ok(l) => l.entry_errors@.len() as int, Err(_) => 1int }) < u64::MAX,
            old(self).measurement.permission_denied_count as int + (match listing { Ok(l) => l.entry_errors@.len() as int, Err(_) => 1int }) < u64::MAX,
        ensures
            final(self).root == old(self).root,
            final(self).exclusions == old(self).exclusions,
            final(self).root_device == old(self).root_device,
            final(self).measurement.files_scanned == old(self).measurement.files_scanned,
            final(self).measurement.directories_scanned == old(self).measurement.directories_scanned,
            final(self).measurement.logical_size == old(self).measurement.logical_size,
            final(self).measurement.exists == old(self).measurement.exists,
            match listing {
                Ok(l) => final(self).pending@ == old(self).pending@ + l.entries@
                    && final(self).measurement.skipped_count + final(self).measurement.permission_denied_count
                        == old(self).measurement.skipped_count + old(self).measurement.permission_denied_count + l.entry_errors@.len(),
                Err(e) => final(self).pending@ == old(self).pending@
                    && final(self).measurement.skipped_count + final(self).measurement.permission_denied_count
                        == old(self).measurement.skipped_count + old(self).measurement.permission_denied_count + 1,
            },
    {
        match listing {
            Err(e) => {
                record_error(&mut self.measurement, path, e.kind, e.details.as_str());
            },
            Ok(l) => {
                let DirListing { entries, entry_errors } = l;
                let mut entries = entries;
                self.pending.append(&mut entries);
                let mut i: usize = 0;
                while i < entry_errors.len()
                    invariant
                        i <= entry_errors@.len(),
                        self.root == old(self).root,
                        self.exclusions == old(self).exclusions,
                        self.root_device == old(self).root_device,
                        self.measurement.files_scanned == old(self).measurement.files_scanned,
                        self.measurement.directories_scanned == old(self).measurement.directories_scanned,
                        self.measurement.logical_size == old(self).measurement.logical_size,
                        self.measurement.exists == old(self).measurement.exists,
                        self.measurement.skipped_count + self.measurement.permission_denied_count
                            == old(self).measurement.skipped_count + old(self).measurement.permission_denied_count + i,
                        self.measurement.skipped_count <= old(self).measurement.skipped_count + i,
                        self.measurement.permission_denied_count <= old(self).measurement.permission_denied_count + i,
                        old(self).measurement.skipped_count as int + entry_errors@.len() < u64::MAX,
                        old(self).measurement.permission_denied_count as int + entry_errors@.len() < u64::MAX,
                        self.pending@ == old(self).pending@ + l.entries@,
                    decreases entry_errors.len() - i,
                {
                    record_error(&mut self.measurement, path, entry_errors[i].kind, entry_errors[i].details.as_str());
                    i = i + 1;
                }
            },
        }
    }
}

} // verus!
