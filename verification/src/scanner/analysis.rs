use vstd::prelude::*;
use crate::domain::error::{CommandError, ErrorCode};
use crate::domain::finding::{Finding, FindingEvidence, FindingType};
use crate::domain::rule::{RecommendedAction, RiskLevel, RuleCategory};
use crate::domain::scan::CustomScanOptions;
use crate::duplicates::roots::{
    canonical_views, count_message, first_rejection, narrowed_roots, rejection_error,
    validate_roots_with_limit, RootFacts,
};
use crate::path_order::string_views;
use crate::paths::{display_path, display_path_exec, file_name, file_name_exec, same_path, same_path_exec, PathStyle};
use crate::scanner::exclusions::{excluded_by, ExclusionMatcher};
use crate::scanner::walker::{DirListing, FsError, FsErrorKind, PathStat};
use crate::text::{decimal, has_prefix, lower, lower_chars, push_decimal, slices_equal};

verus! {

/// Counters of a custom analysis.
#[derive(Debug, Clone)]
pub struct AnalysisProgress {
    pub files_scanned: u64,
    pub directories_scanned: u64,
    pub bytes_examined: u64,
    pub skipped_count: u64,
    pub permission_denied_count: u64,
    pub errors: Vec<CommandError>,
}

impl Default for AnalysisProgress {
    fn default() -> (p: Self)
        ensures
            p.files_scanned == 0 && p.directories_scanned == 0 && p.bytes_examined == 0
                && p.skipped_count == 0 && p.permission_denied_count == 0 && p.errors@.len() == 0,
    {
        AnalysisProgress {
            files_scanned: 0,
            directories_scanned: 0,
            bytes_examined: 0,
            skipped_count: 0,
            permission_denied_count: 0,
            errors: Vec::new(),
        }
    }
}

/// A validated custom analysis.
#[derive(Debug, Clone)]
pub struct AnalysisConfig {
    pub roots: Vec<String>,
    pub enabled_categories: Vec<RuleCategory>,
    pub minimum_file_size_bytes: u64,
    pub maximum_depth: u16,
    pub include_hidden_files: bool,
    pub include_external_drives: bool,
    pub large_file_threshold_bytes: u64,
    pub very_large_file_threshold_bytes: u64,
    pub huge_file_threshold_bytes: u64,
    pub old_file_threshold_days: u32,
}

/// The categories a custom analysis supports: large files and old installers.
pub open spec fn supported_categories(c: Seq<RuleCategory>) -> bool {
    c.len() > 0 && forall|i: int| 0 <= i < c.len() ==> (#[trigger] c[i] == RuleCategory::LargeFile || c[i] == RuleCategory::OldFile)
}

/// The first rule of the custom options that fails, by its message.
pub open spec fn custom_options_failure(o: CustomScanOptions) -> Option<Seq<char>> {
    if o.maximum_depth == 0 || o.maximum_depth > 64 {
        Some("Custom scan depth must be between 1 and 64."@)
    } else if o.minimum_file_size_bytes > 1_099_511_627_776 {
        Some("Custom minimum file size cannot exceed 1 TiB."@)
    } else if !supported_categories(o.enabled_categories@) {
        Some("Custom analysis currently supports the Large files and Old installers categories."@)
    } else {
        None
    }
}

fn copy_categories(c: &Vec<RuleCategory>) -> (r: Vec<RuleCategory>)
    ensures
        r@ == c@,
{
    let mut r: Vec<RuleCategory> = Vec::new();
    let mut i: usize = 0;
    while i < c.len()
        invariant
            i <= c@.len(),
            r@ == c@.subrange(0, i as int),
        decreases c.len() - i,
    {
        r.push(c[i]);
        assert(r@ =~= c@.subrange(0, i + 1));
        i = i + 1;
    }
    assert(r@ =~= c@);
    r
}

/// Validates custom analysis options against the settings' thresholds and
/// what the file system said about each root (`root_facts[i]` for
/// `options.roots[i]`); at most 20 roots.
pub fn validate_custom_options(
    options: &CustomScanOptions,
    home: &str,
    platform: &str,
    large_file_threshold_bytes: u64,
    very_large_file_threshold_bytes: u64,
    huge_file_threshold_bytes: u64,
    old_file_threshold_days: u32,
    root_facts: &[RootFacts],
) -> (r: Result<AnalysisConfig, CommandError>)
    requires
        root_facts@.len() == options.roots@.len(),
    ensures
        match custom_options_failure(*options) {
            Some(message) => r matches Err(e) && e.code == ErrorCode::InvalidSettings && e.message@ == message
                && e.recoverable && e.path is None && e.details is None,
            None => {
                let roots = options.roots@;
                if roots.len() == 0 || roots.len() > 20 {
                    r matches Err(e) && e.code == ErrorCode::InvalidPath && e.message@ == count_message(20)
                } else {
                    match first_rejection(roots, root_facts@, home@, platform@, roots.len() as int) {
                        Some((i, why)) => r matches Err(e) && rejection_error(e, roots[i]@, why),
                        None => r matches Ok(c) && narrowed_roots(string_views(c.roots@), canonical_views(root_facts@))
                            && c.enabled_categories@ == options.enabled_categories@
                            && c.minimum_file_size_bytes == options.minimum_file_size_bytes
                            && c.maximum_depth == options.maximum_depth
                            && c.include_hidden_files == options.include_hidden_files
                            && c.include_external_drives == options.include_external_drives
                            && c.large_file_threshold_bytes == large_file_threshold_bytes
                            && c.very_large_file_threshold_bytes == very_large_file_threshold_bytes
                            && c.huge_file_threshold_bytes == huge_file_threshold_bytes
                            && c.old_file_threshold_days == old_file_threshold_days,
                    }
                }
            },
        },
{
    if options.maximum_depth == 0 || options.maximum_depth > 64 {
        return Err(CommandError::new(ErrorCode::InvalidSettings, "Custom scan depth must be between 1 and 64.", true));
    }
    if options.minimum_file_size_bytes > 1_099_511_627_776 {
        return Err(CommandError::new(ErrorCode::InvalidSettings, "Custom minimum file size cannot exceed 1 TiB.", true));
    }
    let mut supported = options.enabled_categories.len() > 0;
    let mut i: usize = 0;
    while i < options.enabled_categories.len()
        invariant
            i <= options.enabled_categories@.len(),
            supported == (options.enabled_categories@.len() > 0 && forall|k: int| 0 <= k < i
                ==> (#[trigger] options.enabled_categories@[k] == RuleCategory::LargeFile
                    || options.enabled_categories@[k] == RuleCategory::OldFile)),
        decreases options.enabled_categories.len() - i,
    {
        let c = options.enabled_categories[i];
        if !(c == RuleCategory::LargeFile || c == RuleCategory::OldFile) {
            supported = false;
        }
        i = i + 1;
    }
    if !supported {
        return Err(CommandError::new(ErrorCode::InvalidSettings, "Custom analysis currently supports the Large files and Old installers categories.", true));
    }
    let roots = validate_roots_with_limit(options.roots.as_slice(), home, platform, root_facts, 20)?;
    Ok(AnalysisConfig {
        roots,
        enabled_categories: copy_categories(&options.enabled_categories),
        minimum_file_size_bytes: options.minimum_file_size_bytes,
        maximum_depth: options.maximum_depth,
        include_hidden_files: options.include_hidden_files,
        include_external_drives: options.include_external_drives,
        large_file_threshold_bytes,
        very_large_file_threshold_bytes,
        huge_file_threshold_bytes,
        old_file_threshold_days,
    })
}

/// The position of the last `.` in a name, if any.
pub open spec fn last_dot(name: Seq<char>, n: int) -> Option<int>
    decreases n,
{
    if n <= 0 {
        None
    } else if name[n - 1] == '.' {
        Some(n - 1)
    } else {
        last_dot(name, n - 1)
    }
}

/// `Path::extension`: the text after the last `.` of the file name, unless
/// that dot is the name's first character.
pub open spec fn extension(path: Seq<char>) -> Option<Seq<char>> {
    match file_name(path, PathStyle::Posix) {
        None => None,
        Some(name) => match last_dot(name, name.len() as int) {
            Some(d) => if d > 0 { Some(name.subrange(d + 1, name.len() as int)) } else { None },
            None => None,
        },
    }
}

/// Installer images: `.dmg`, `.pkg`, `.appimage`, `.deb`, `.rpm` and `.iso`, in any case.
pub open spec fn is_installer(path: Seq<char>) -> bool {
    match extension(path) {
        None => false,
        Some(e) => {
            let l = lower(e);
            l == "dmg"@ || l == "pkg"@ || l == "appimage"@ || l == "deb"@ || l == "rpm"@ || l == "iso"@
        },
    }
}

pub fn extension_exec(path: &str) -> (r: Option<Vec<char>>)
    ensures
        match r {
            None => extension(path@) is None,
            Some(e) => extension(path@) == Some(e@),
        },
{
    let name = match file_name_exec(path, PathStyle::Posix) {
        None => return None,
        Some(n) => n,
    };
    let mut i: usize = name.len();
    while i > 0
        invariant
            i <= name@.len(),
            file_name(path@, PathStyle::Posix) == Some(name@),
            last_dot(name@, name@.len() as int) == last_dot(name@, i as int),
        decreases i,
    {
        if name[i - 1] == '.' {
            if i - 1 > 0 {
                return Some(crate::paths::slice_range(name.as_slice(), i, name.len()));
            }
            return None;
        }
        i = i - 1;
    }
    None
}

fn text_is(v: &[char], s: &str) -> (r: bool)
    ensures
        r == (v@ == s@),
{
    let t = crate::text::chars_of(s);
    slices_equal(v, t.as_slice())
}

/// Whether the path names an installer image.
pub fn is_installer_exec(path: &str) -> (r: bool)
    ensures
        r == is_installer(path@),
{
    match extension_exec(path) {
        None => false,
        Some(e) => {
            let l = lower_chars(e.as_slice());
            text_is(&l, "dmg") || text_is(&l, "pkg") || text_is(&l, "appimage") || text_is(&l, "deb")
                || text_is(&l, "rpm") || text_is(&l, "iso")
        },
    }
}

/// The label of a large file by its size.
pub open spec fn size_label(size: u64, c: AnalysisConfig) -> Seq<char> {
    if size >= c.huge_file_threshold_bytes {
        "Huge file"@
    } else if size >= c.very_large_file_threshold_bytes {
        "Very large file"@
    } else {
        "Large file"@
    }
}

pub fn size_label_exec(size: u64, config: &AnalysisConfig) -> (r: String)
    ensures
        r@ == size_label(size, *config),
{
    if size >= config.huge_file_threshold_bytes {
        String::from_str("Huge file")
    } else if size >= config.very_large_file_threshold_bytes {
        String::from_str("Very large file")
    } else {
        String::from_str("Large file")
    }
}

/// A path other than the root whose name starts with a dot.
pub open spec fn is_hidden(path: Seq<char>, root: Seq<char>) -> bool {
    !same_path(path, root, PathStyle::Posix) && match file_name(path, PathStyle::Posix) {
        Some(n) => n.len() > 0 && n[0] == '.',
        None => false,
    }
}

pub fn is_hidden_exec(path: &str, root: &str) -> (r: bool)
    ensures
        r == is_hidden(path@, root@),
{
    if same_path_exec(path, root, PathStyle::Posix) {
        return false;
    }
    match file_name_exec(path, PathStyle::Posix) {
        Some(n) => n.len() > 0 && n[0] == '.',
        None => false,
    }
}

/// Milliseconds in a day.
pub open spec fn day_ms() -> int {
    86_400_000
}

/// Whether the configuration enables a category.
pub open spec fn enables(c: AnalysisConfig, category: RuleCategory) -> bool {
    c.enabled_categories@.contains(category)
}

/// A large file: its category is enabled and it reaches the large-file threshold.
pub open spec fn is_large(c: AnalysisConfig, len: u64) -> bool {
    enables(c, RuleCategory::LargeFile) && len >= c.large_file_threshold_bytes
}

/// An old installer: its category is enabled, it is an installer image, and it
/// was last modified at least the configured number of days before `now`.
pub open spec fn is_old_installer(c: AnalysisConfig, path: Seq<char>, modified_at: Option<i64>, now: i64) -> bool {
    &&& enables(c, RuleCategory::OldFile)
    &&& is_installer(path)
    &&& modified_at matches Some(m) && m <= now - c.old_file_threshold_days * day_ms()
}

/// The description of an old installer finding.
pub open spec fn old_installer_description(days: u32) -> Seq<char> {
    "An installer image unchanged for at least "@ + decimal(days as nat)
        + " days. It remains a review suggestion and is never selected automatically."@
}

/// The fields every analysis finding shares: a careful, review-only file
/// finding that is never cleanup-authorized.
pub open spec fn analysis_finding_base(f: Finding, id: Seq<char>, scan_id: Seq<char>, home: Seq<char>, path: Seq<char>, len: u64, allocated: u64, modified_at: Option<i64>) -> bool {
    &&& f.id@ == id
    &&& f.scan_id@ == scan_id
    &&& f.rule_version == 1
    &&& f.path@ == path
    &&& f.display_path@ == display_path(path, home)
    &&& f.item_type == FindingType::File
    &&& f.logical_size == len
    &&& f.allocated_size == Some(allocated)
    &&& f.modified_at == modified_at
    &&& f.risk == RiskLevel::Careful
    &&& f.recommended_action == RecommendedAction::Review
    &&& !f.cleanup_allowed
    &&& f.cleanup_block_reason matches Some(b) && b@ == "Analysis suggestions are review-only and are never cleanup-authorized."@
}

/// A file that reached the minimum size is reported as a large file, else as
/// an old installer, else not at all.
pub fn classify_file(
    finding_id: &str,
    scan_id: &str,
    home: &str,
    path: &str,
    len: u64,
    allocated: u64,
    modified_at: Option<i64>,
    now: i64,
    config: &AnalysisConfig,
) -> (r: Option<Finding>)
    ensures
        is_large(*config, len) ==> (r matches Some(f)
            && analysis_finding_base(f, finding_id@, scan_id@, home@, path@, len, allocated, modified_at)
            && f.rule_id@ == "analysis.large-file-v1"@
            && f.category == RuleCategory::LargeFile
            && f.display_name@ == size_label(len, *config)
            && f.description@ == "A large file in an explicitly selected folder. DiskSage does not classify it as junk; review its ownership and contents before taking any action."@
            && f.evidence == (FindingEvidence::SizeThreshold { minimum_bytes: config.large_file_threshold_bytes })),
        !is_large(*config, len) && is_old_installer(*config, path@, modified_at, now) ==> (r matches Some(f)
            && analysis_finding_base(f, finding_id@, scan_id@, home@, path@, len, allocated, modified_at)
            && f.rule_id@ == "analysis.old-installer-v1"@
            && f.category == RuleCategory::OldFile
            && f.display_name@ == "Old installer"@
            && f.description@ == old_installer_description(config.old_file_threshold_days)
            && f.evidence == (FindingEvidence::AgeThreshold { older_than_days: config.old_file_threshold_days })),
        !is_large(*config, len) && !is_old_installer(*config, path@, modified_at, now) ==> r is None,
{
    let large_enabled = contains_category(&config.enabled_categories, RuleCategory::LargeFile);
    let old_enabled = contains_category(&config.enabled_categories, RuleCategory::OldFile);
    let large = large_enabled && len >= config.large_file_threshold_bytes;
    let old = old_enabled && is_installer_exec(path) && match modified_at {
        Some(m) => (m as i128) <= (now as i128) - (config.old_file_threshold_days as i128) * 86_400_000,
        None => false,
    };
    let (rule_id, category, display_name, description, evidence) = if large {
        (
            "analysis.large-file-v1",
            RuleCategory::LargeFile,
            size_label_exec(len, config),
            String::from_str("A large file in an explicitly selected folder. DiskSage does not classify it as junk; review its ownership and contents before taking any action."),
            FindingEvidence::SizeThreshold { minimum_bytes: config.large_file_threshold_bytes },
        )
    } else if old {
        let mut description = String::from_str("An installer image unchanged for at least ");
        push_decimal(&mut description, config.old_file_threshold_days as u64);
        description.append(" days. It remains a review suggestion and is never selected automatically.");
        (
            "analysis.old-installer-v1",
            RuleCategory::OldFile,
            String::from_str("Old installer"),
            description,
            FindingEvidence::AgeThreshold { older_than_days: config.old_file_threshold_days },
        )
    } else {
        return None;
    };
    Some(Finding {
        id: String::from_str(finding_id),
        scan_id: String::from_str(scan_id),
        rule_id: String::from_str(rule_id),
        rule_version: 1,
        category,
        display_name,
        description,
        path: String::from_str(path),
        display_path: display_path_exec(path, home),
        item_type: FindingType::File,
        logical_size: len,
        allocated_size: Some(allocated),
        modified_at,
        risk: RiskLevel::Careful,
        recommended_action: RecommendedAction::Review,
        evidence,
        cleanup_allowed: false,
        cleanup_block_reason: Some(String::from_str("Analysis suggestions are review-only and are never cleanup-authorized.")),
    })
}

fn contains_category(v: &Vec<RuleCategory>, c: RuleCategory) -> (r: bool)
    ensures
        r == v@.contains(c),
{
    let mut i: usize = 0;
    while i < v.len()
        invariant
            i <= v@.len(),
            forall|k: int| 0 <= k < i ==> v@[k] != c,
        decreases v.len() - i,
    {
        if v[i] == c {
            return true;
        }
        i = i + 1;
    }
    false
}

/// The most errors an analysis keeps.
pub const MAX_ANALYSIS_ERRORS: usize = 50;

/// The error recorded for an unreadable path of an analysis.
pub open spec fn analysis_error(e: CommandError, path: Seq<char>, kind: FsErrorKind, details: Seq<char>) -> bool {
    &&& e.code == (if kind == FsErrorKind::PermissionDenied { ErrorCode::PermissionDenied } else { ErrorCode::FilesystemError })
    &&& e.message@ == "A custom analysis path could not be read."@
    &&& e.recoverable
    &&& e.path matches Some(p) && p@ == path
    &&& e.details matches Some(d) && d@ == details
}

/// Counts an unreadable path as a permission denial or a skipped item; keeps
/// the error while fewer than 50 are kept.
pub fn record_error(progress: &mut AnalysisProgress, path: &str, kind: FsErrorKind, details: &str)
    requires
        old(progress).skipped_count < u64::MAX,
        old(progress).permission_denied_count < u64::MAX,
    ensures
        final(progress).files_scanned == old(progress).files_scanned,
        final(progress).directories_scanned == old(progress).directories_scanned,
        final(progress).bytes_examined == old(progress).bytes_examined,
        kind == FsErrorKind::PermissionDenied ==> final(progress).permission_denied_count == old(progress).permission_denied_count + 1
            && final(progress).skipped_count == old(progress).skipped_count,
        kind != FsErrorKind::PermissionDenied ==> final(progress).skipped_count == old(progress).skipped_count + 1
            && final(progress).permission_denied_count == old(progress).permission_denied_count,
        old(progress).errors@.len() < MAX_ANALYSIS_ERRORS ==> final(progress).errors@.len() == old(progress).errors@.len() + 1
            && final(progress).errors@.drop_last() == old(progress).errors@
            && analysis_error(final(progress).errors@.last(), path@, kind, details@),
        old(progress).errors@.len() >= MAX_ANALYSIS_ERRORS ==> final(progress).errors@ == old(progress).errors@,
{
    let code = if kind == FsErrorKind::PermissionDenied {
        progress.permission_denied_count = progress.permission_denied_count + 1;
        ErrorCode::PermissionDenied
    } else {
        progress.skipped_count = progress.skipped_count + 1;
        ErrorCode::FilesystemError
    };
    if progress.errors.len() < MAX_ANALYSIS_ERRORS {
        let ghost before = progress.errors@;
        progress.errors.push(CommandError::new(code, "A custom analysis path could not be read.", true).with_path(path).with_details(details));
        assert(progress.errors@.drop_last() =~= before);
    }
}

/// The error for a root that could not be accessed.
pub fn path_error(path: &str, kind: FsErrorKind, details: &str) -> (e: CommandError)
    ensures
        e.code == (if kind == FsErrorKind::PermissionDenied { ErrorCode::PermissionDenied } else { ErrorCode::InvalidPath }),
        e.message@ == "A custom scan root could not be accessed."@,
        e.recoverable,
        e.path matches Some(p) && p@ == path@,
        e.details matches Some(d) && d@ == details@,
{
    let code = if kind == FsErrorKind::PermissionDenied { ErrorCode::PermissionDenied } else { ErrorCode::InvalidPath };
    CommandError::new(code, "A custom scan root could not be accessed.", true).with_path(path).with_details(details)
}

/// The most paths an analysis keeps waiting.
pub const MAX_PENDING_PATHS: usize = 250_000;

/// What the analysis asks of its driver after a path was recorded.
#[derive(Debug, Clone, Copy, PartialEq, Eq, Structural)]
pub enum AnalysisAction {
    Continue,
    ListDirectory,
    ClassifyFile,
}

/// The decisions of a custom analysis walk over the configured roots, one
/// root at a time: the driver stats what `next_path` hands out and reports back.
#[derive(Debug, Clone)]
pub struct AnalysisWalk {
    pub config: AnalysisConfig,
    pub exclusions: ExclusionMatcher,
    pub next_root: usize,
    pub root: String,
    pub root_device: u64,
    pub pending: Vec<(String, u16)>,
    pub progress: AnalysisProgress,
}

impl AnalysisWalk {
    pub fn new(config: AnalysisConfig, exclusions: ExclusionMatcher) -> (w: Self)
        ensures
            w.config == config,
            w.exclusions == exclusions,
            w.next_root == 0,
            w.pending@.len() == 0,
            w.progress.files_scanned == 0 && w.progress.skipped_count == 0 && w.progress.errors@.len() == 0,
    {
        AnalysisWalk {
            config,
            exclusions,
            next_root: 0,
            root: String::new(),
            root_device: 0,
            pending: Vec::new(),
            progress: AnalysisProgress::default(),
        }
    }

    /// The next root to stat (following links) once the current one is done.
    pub fn take_root(&mut self) -> (r: Option<String>)
        ensures
            final(self).config == old(self).config,
            final(self).pending == old(self).pending,
            old(self).pending@.len() > 0 || old(self).next_root >= old(self).config.roots@.len() ==> r is None && final(self).next_root == old(self).next_root,
            old(self).pending@.len() == 0 && old(self).next_root < old(self).config.roots@.len() ==> (r matches Some(root)
                && root@ == old(self).config.roots@[old(self).next_root as int]@
                && final(self).root@ == root@
                && final(self).next_root == old(self).next_root + 1),
    {
        if self.pending.len() > 0 || self.next_root >= self.config.roots.len() {
            return None;
        }
        let root = self.config.roots[self.next_root].clone();
        self.root = root.clone();
        self.next_root = self.next_root + 1;
        Some(root)
    }

    /// Starts the current root from its metadata; an inaccessible root ends the analysis.
    pub fn begin_root(&mut self, stat: Result<u64, FsError>) -> (r: Result<(), CommandError>)
        requires
            old(self).pending@.len() == 0,
        ensures
            final(self).config == old(self).config,
            final(self).next_root == old(self).next_root,
            match stat {
                Ok(device) => r is Ok && final(self).root_device == device && final(self).pending@.len() == 1
                    && final(self).pending@[0].0@ == old(self).root@ && final(self).pending@[0].1 == 0,
                Err(e) => r matches Err(err) && err.code == (if e.kind == FsErrorKind::PermissionDenied { ErrorCode::PermissionDenied } else { ErrorCode::InvalidPath })
                    && err.message@ == "A custom scan root could not be accessed."@
                    && (err.path matches Some(p) && p@ == old(self).root@),
            },
    {
        match stat {
            Ok(device) => {
                self.root_device = device;
                self.pending.push((self.root.clone(), 0));
                Ok(())
            },
            Err(e) => Err(path_error(self.root.as_str(), e.kind, e.details.as_str())),
        }
    }

    /// The next path of the current root to stat, with its depth; excluded
    /// paths, and hidden ones unless hidden files are included, are counted as
    /// skipped and dropped.
    pub fn next_path(&mut self) -> (r: Option<(String, u16)>)
        requires
            old(self).progress.skipped_count as int + old(self).pending@.len() < u64::MAX,
        ensures
            final(self).config == old(self).config,
            final(self).next_root == old(self).next_root,
            final(self).root == old(self).root,
            final(self).root_device == old(self).root_device,
            final(self).progress.files_scanned == old(self).progress.files_scanned,
            final(self).progress.errors == old(self).progress.errors,
            final(self).pending@.len() <= old(self).pending@.len(),
            final(self).progress.skipped_count as int + final(self).pending@.len() <= old(self).progress.skipped_count as int + old(self).pending@.len(),
            match r {
                Some((p, _)) => !excluded_by(old(self).exclusions@, p@)
                    && (old(self).config.include_hidden_files || !is_hidden(p@, old(self).root@)),
                None => final(self).pending@.len() == 0,
            },
    {
        while self.pending.len() > 0
            invariant
                self.config == old(self).config,
                self.exclusions == old(self).exclusions,
                self.next_root == old(self).next_root,
                self.root == old(self).root,
                self.root_device == old(self).root_device,
                self.progress.files_scanned == old(self).progress.files_scanned,
                self.progress.errors == old(self).progress.errors,
                self.pending@.len() <= old(self).pending@.len(),
                self.progress.skipped_count as int + self.pending@.len() <= old(self).progress.skipped_count as int + old(self).pending@.len(),
                old(self).progress.skipped_count as int + old(self).pending@.len() < u64::MAX,
            decreases self.pending@.len(),
        {
            let (path, depth) = self.pending.pop().unwrap();
            if self.exclusions.is_excluded(path.as_str())
                || (!self.config.include_hidden_files && is_hidden_exec(path.as_str(), self.root.as_str())) {
                self.progress.skipped_count = self.progress.skipped_count + 1;
            } else {
                return Some((path, depth));
            }
        }
        None
    }

    /// Records what the stat of a path said. Directories are counted, and
    /// listed unless they are at the maximum depth or, with external drives
    /// excluded, on another device than the root; files are counted and
    /// handed back for classification when they reach the minimum size.
    pub fn record(&mut self, path: &str, depth: u16, stat: PathStat) -> (action: AnalysisAction)
        requires
            old(self).progress.files_scanned < u64::MAX,
            old(self).progress.directories_scanned < u64::MAX,
            old(self).progress.skipped_count < u64::MAX,
            old(self).progress.permission_denied_count < u64::MAX,
        ensures
            final(self).config == old(self).config,
            final(self).next_root == old(self).next_root,
            final(self).root == old(self).root,
            final(self).root_device == old(self).root_device,
            final(self).pending == old(self).pending,
            match stat {
                PathStat::Unreadable(_) => action == AnalysisAction::Continue,
                PathStat::Symlink | PathStat::Other => action == AnalysisAction::Continue
                    && final(self).progress.skipped_count == old(self).progress.skipped_count + 1,
                PathStat::Directory { device } => {
                    &&& final(self).progress.directories_scanned == old(self).progress.directories_scanned + 1
                    &&& (depth >= old(self).config.maximum_depth
                        || (!old(self).config.include_external_drives && device != old(self).root_device))
                        ==> action == AnalysisAction::Continue && final(self).progress.skipped_count == old(self).progress.skipped_count + 1
                    &&& !(depth >= old(self).config.maximum_depth
                        || (!old(self).config.include_external_drives && device != old(self).root_device))
                        ==> action == AnalysisAction::ListDirectory && final(self).progress.skipped_count == old(self).progress.skipped_count
                },
                PathStat::File { len, .. } => {
                    &&& final(self).progress.files_scanned == old(self).progress.files_scanned + 1
                    &&& final(self).progress.bytes_examined == old(self).progress.bytes_examined.saturating_add(len)
                    &&& action == (if len >= old(self).config.minimum_file_size_bytes { AnalysisAction::ClassifyFile } else { AnalysisAction::Continue })
                },
            },
    {
        match stat {
            PathStat::Unreadable(e) => {
                record_error(&mut self.progress, path, e.kind, e.details.as_str());
                AnalysisAction::Continue
            },
            PathStat::Symlink | PathStat::Other => {
                self.progress.skipped_count = self.progress.skipped_count + 1;
                AnalysisAction::Continue
            },
            PathStat::Directory { device } => {
                self.progress.directories_scanned = self.progress.directories_scanned + 1;
                if depth >= self.config.maximum_depth || (!self.config.include_external_drives && device != self.root_device) {
                    self.progress.skipped_count = self.progress.skipped_count + 1;
                    AnalysisAction::Continue
                } else {
                    AnalysisAction::ListDirectory
                }
            },
            PathStat::File { len, .. } => {
                self.progress.files_scanned = self.progress.files_scanned + 1;
                self.progress.bytes_examined = self.progress.bytes_examined.saturating_add(len);
                if len >= self.config.minimum_file_size_bytes { AnalysisAction::ClassifyFile } else { AnalysisAction::Continue }
            },
        }
    }

    /// Queues a listed directory's entries one level deeper and records the
    /// entries that could not be read; ends the analysis when more than
    /// 250,000 paths are waiting.
    pub fn add_listing(&mut self, path: &str, depth: u16, listing: Result<DirListing, FsError>) -> (r: Result<(), CommandError>)
        requires
            depth < u16::MAX,
            old(self).progress.skipped_count as int + (match listing { Ok(l) => l.entry_errors@.len() as int, Err(_) => 1int }) < u64::MAX,
            old(self).progress.permission_denied_count as int + (match listing { Ok(l) => l.entry_errors@.len() as int, Err(_) => 1int }) < u64::MAX,
        ensures
            final(self).config == old(self).config,
            final(self).next_root == old(self).next_root,
            final(self).root == old(self).root,
            final(self).root_device == old(self).root_device,
            match listing {
                Err(_) => r is Ok && final(self).pending == old(self).pending,
                Ok(l) => {
                    &&& final(self).pending@.len() == old(self).pending@.len() + l.entries@.len()
                    &&& forall|k: int| 0 <= k < l.entries@.len() ==> (#[trigger] final(self).pending@[old(self).pending@.len() + k]).0@ == l.entries@[k]@
                        && final(self).pending@[old(self).pending@.len() + k].1 == depth + 1
                    &&& (final(self).pending@.len() > MAX_PENDING_PATHS) <==> r is Err
                    &&& r matches Err(e) ==> e.code == ErrorCode::CommandUnavailable
                        && e.message@ == "Custom analysis found too many pending paths. Choose a narrower folder or lower the maximum depth."@
                },
            },
    {
        match listing {
            Err(e) => {
                record_error(&mut self.progress, path, e.kind, e.details.as_str());
                Ok(())
            },
            Ok(l) => {
                let ghost start = self.pending@;
                let mut i: usize = 0;
                while i < l.entries.len()
                    invariant
                        i <= l.entries@.len(),
                        self.config == old(self).config,
                        self.next_root == old(self).next_root,
                        self.root == old(self).root,
                        self.root_device == old(self).root_device,
                        start == old(self).pending@,
                        self.progress.skipped_count == old(self).progress.skipped_count,
                        self.progress.permission_denied_count == old(self).progress.permission_denied_count,
                        self.pending@.len() == start.len() + i,
                        depth < u16::MAX,
                        forall|k: int| 0 <= k < start.len() ==> self.pending@[k] == start[k],
                        forall|k: int| 0 <= k < i ==> (#[trigger] self.pending@[start.len() + k]).0@ == l.entries@[k]@
                            && self.pending@[start.len() + k].1 == depth + 1,
                    decreases l.entries.len() - i,
                {
                    self.pending.push((l.entries[i].clone(), depth + 1));
                    i = i + 1;
                }
                let mut j: usize = 0;
                while j < l.entry_errors.len()
                    invariant
                        j <= l.entry_errors@.len(),
                        self.config == old(self).config,
                        self.next_root == old(self).next_root,
                        self.root == old(self).root,
                        self.root_device == old(self).root_device,
                        self.pending@.len() == start.len() + l.entries@.len(),
                        forall|k: int| 0 <= k < l.entries@.len() ==> (#[trigger] self.pending@[start.len() + k]).0@ == l.entries@[k]@
                            && self.pending@[start.len() + k].1 == depth + 1,
                        self.progress.skipped_count <= old(self).progress.skipped_count + j,
                        self.progress.permission_denied_count <= old(self).progress.permission_denied_count + j,
                        old(self).progress.skipped_count as int + l.entry_errors@.len() < u64::MAX,
                        old(self).progress.permission_denied_count as int + l.entry_errors@.len() < u64::MAX,
                    decreases l.entry_errors.len() - j,
                {
                    record_error(&mut self.progress, path, l.entry_errors[j].kind, l.entry_errors[j].details.as_str());
                    j = j + 1;
                }
                if self.pending.len() > MAX_PENDING_PATHS {
                    return Err(CommandError::new(
                        ErrorCode::CommandUnavailable,
                        "Custom analysis found too many pending paths. Choose a narrower folder or lower the maximum depth.",
                        true,
                    ));
                }
                Ok(())
            },
        }
    }
}

/// Custom options are refused, before any root is looked at, exactly when the
/// depth is outside 1 to 64, the minimum size exceeds 1 TiB, or the
/// categories are empty or name one other than large files and old files.
pub proof fn law_custom_options_refused_exactly_when_out_of_range(o: CustomScanOptions)
    ensures
        (custom_options_failure(o) is Some) <==> (o.maximum_depth == 0 || o.maximum_depth > 64
            || o.minimum_file_size_bytes > 1_099_511_627_776
            || o.enabled_categories@.len() == 0
            || exists|i: int| 0 <= i < o.enabled_categories@.len()
                && #[trigger] o.enabled_categories@[i] != RuleCategory::LargeFile && o.enabled_categories@[i] != RuleCategory::OldFile),
{
}

/// A path is an installer image exactly when its extension, lower-cased, is
/// `dmg`, `pkg`, `appimage`, `deb`, `rpm` or `iso`.
pub proof fn law_installer_images_by_extension(path: Seq<char>)
    ensures
        is_installer(path) <==> (extension(path) matches Some(e) && (lower(e) == "dmg"@ || lower(e) == "pkg"@
            || lower(e) == "appimage"@ || lower(e) == "deb"@ || lower(e) == "rpm"@ || lower(e) == "iso"@)),
{
}

} // verus!
