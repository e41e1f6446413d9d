use vstd::prelude::*;
use crate::domain::error::{CommandError, ErrorCode};
use crate::paths::{Comp, PathStyle, components, components_exec, is_absolute, is_absolute_exec};
use crate::text::{chars_of, same_text};

verus! {

#[derive(Debug, Clone, Copy, PartialEq, Eq, Structural)]
pub enum ScanMode {
    Quick,
    Developer,
    FullAnalysis,
    Custom,
}

#[derive(Debug, Clone, Copy, PartialEq, Eq, Structural)]
pub enum DuplicateVerificationMode {
    FullHash,
    ByteForByte,
}

#[derive(Debug, Clone, Copy, PartialEq, Eq, Structural)]
pub enum Theme {
    System,
    Light,
    Dark,
}

/// The user's settings.
#[derive(Debug, Clone, PartialEq, Eq)]
pub struct AppSettings {
    pub schema_version: u32,
    pub default_scan_mode: ScanMode,
    pub follow_symlinks: bool,
    pub scan_external_drives: bool,
    pub scan_hidden_files: bool,
    pub maximum_concurrency: u8,
    pub large_file_threshold_bytes: u64,
    pub very_large_file_threshold_bytes: u64,
    pub huge_file_threshold_bytes: u64,
    pub old_file_threshold_days: u32,
    pub duplicate_minimum_size_bytes: u64,
    pub duplicate_verification_mode: DuplicateVerificationMode,
    pub move_to_trash_by_default: bool,
    pub permanent_deletion_enabled: bool,
    pub preselect_safe_items: bool,
    pub require_cleanup_confirmation: bool,
    pub show_expert_recommendations: bool,
    pub diagnostic_logging: bool,
    pub theme: Theme,
    pub reduced_motion: bool,
    pub project_roots: Vec<String>,
}

/// The default very-large-file threshold: 5 GiB.
pub fn default_very_large_file_threshold() -> (r: u64)
    ensures
        r == 5 * 1_073_741_824,
{
    5 * 1_073_741_824
}

/// The default huge-file threshold: 20 GiB.
pub fn default_huge_file_threshold() -> (r: u64)
    ensures
        r == 20 * 1_073_741_824,
{
    20 * 1_073_741_824
}

/// The default old-file age: one year.
pub fn default_old_file_threshold_days() -> (r: u32)
    ensures
        r == 365,
{
    365
}

/// The UTF-8 length of a text.
pub open spec fn byte_len(s: Seq<char>) -> nat {
    vstd::utf8::encode_utf8(s).len()
}

/// A path that `Path::parent` gives a parent: its last component is not a root.
pub open spec fn has_parent(s: Seq<char>, style: PathStyle) -> bool {
    let c = components(s, style);
    c.len() > 0 && !(c.last() is Root) && !(c.last() is Prefix)
}

/// A configured project root is acceptable on its own.
pub open spec fn project_root_ok(root: Seq<char>) -> bool {
    &&& byte_len(root) <= 4096
    &&& is_absolute(root, PathStyle::Posix)
    &&& has_parent(root, PathStyle::Posix)
    &&& !components(root, PathStyle::Posix).contains(Comp::Parent)
}

/// The texts of the configured project roots.
pub open spec fn root_views(roots: Seq<String>) -> Seq<Seq<char>> {
    roots.map_values(|r: String| r@)
}

/// Every project root is acceptable and none repeats an earlier one.
pub open spec fn project_roots_ok(roots: Seq<Seq<char>>) -> bool {
    forall|i: int| 0 <= i < roots.len() ==> project_root_ok(#[trigger] roots[i]) && !roots.subrange(0, i).contains(roots[i])
}

/// The message of the first settings rule that fails, if any.
pub open spec fn settings_failure(s: AppSettings) -> Option<Seq<char>> {
    if s.schema_version != 1 {
        Some("Unsupported settings version."@)
    } else if s.follow_symlinks {
        Some("Following symlinks is disabled for safety."@)
    } else if !s.move_to_trash_by_default {
        Some("Move to Trash must remain the default action."@)
    } else if !(1 <= s.maximum_concurrency <= 8) {
        Some("Filesystem concurrency must be between 1 and 8."@)
    } else if s.large_file_threshold_bytes < 10 * 1_048_576 {
        Some("Large-file threshold must be at least 10 MB."@)
    } else if s.very_large_file_threshold_bytes <= s.large_file_threshold_bytes
        || s.huge_file_threshold_bytes <= s.very_large_file_threshold_bytes {
        Some("Large-file thresholds must increase from large to very large to huge."@)
    } else if !(30 <= s.old_file_threshold_days <= 3_650) {
        Some("Old-file age must be between 30 days and 10 years."@)
    } else if s.duplicate_minimum_size_bytes < 1_024 {
        Some("Duplicate minimum size must be at least 1 KB."@)
    } else if s.project_roots@.len() > 20 {
        Some("At most 20 project roots can be configured."@)
    } else if !project_roots_ok(root_views(s.project_roots@)) {
        Some("Project roots must be unique absolute non-root paths without traversal."@)
    } else {
        None
    }
}

/// Whether a component list holds a parent step.
fn has_parent_step(c: &[crate::paths::Component]) -> (r: bool)
    ensures
        r == crate::paths::comp_views(c@).contains(Comp::Parent),
{
    let mut i: usize = 0;
    while i < c.len()
        invariant
            i <= c@.len(),
            forall|j: int| 0 <= j < i ==> c@[j]@ != Comp::Parent,
        decreases c.len() - i,
    {
        if let crate::paths::Component::ParentDir = &c[i] {
            assert(crate::paths::comp_views(c@)[i as int] == Comp::Parent);
            return true;
        }
        i = i + 1;
    }
    assert forall|j: int| 0 <= j < c@.len() implies crate::paths::comp_views(c@)[j] != Comp::Parent by {
        assert(crate::paths::comp_views(c@)[j] == c@[j]@);
    }
    false
}

/// A configured project root is acceptable on its own (see `project_root_ok`).
fn project_root_ok_exec(root: &str) -> (r: bool)
    ensures
        r == project_root_ok(root@),
{
    if root.as_bytes().len() > 4096 {
        return false;
    }
    let chars = chars_of(root);
    if !is_absolute_exec(chars.as_slice(), PathStyle::Posix) {
        return false;
    }
    let c = components_exec(chars.as_slice(), PathStyle::Posix);
    if c.len() == 0 {
        return false;
    }
    match &c[c.len() - 1] {
        crate::paths::Component::RootDir => return false,
        crate::paths::Component::Prefix(_) => return false,
        _ => {},
    }
    !has_parent_step(c.as_slice())
}

impl AppSettings {
    /// Accepts the settings, or reports the first rule they break.
    pub fn validate(&self) -> (r: Result<(), CommandError>)
        ensures
            match settings_failure(*self) {
                None => r is Ok,
                Some(message) => r matches Err(e) && e.code == ErrorCode::InvalidSettings
                    && e.message@ == message
                    && e.recoverable == (self.schema_version == 1)
                    && e.path is None && e.details is None,
            },
    {
        if self.schema_version != 1 {
            return Err(CommandError::new(ErrorCode::InvalidSettings, "Unsupported settings version.", false));
        }
        if self.follow_symlinks {
            return Err(CommandError::new(ErrorCode::InvalidSettings, "Following symlinks is disabled for safety.", true));
        }
        if !self.move_to_trash_by_default {
            return Err(CommandError::new(ErrorCode::InvalidSettings, "Move to Trash must remain the default action.", true));
        }
        if !(1 <= self.maximum_concurrency && self.maximum_concurrency <= 8) {
            return Err(CommandError::new(ErrorCode::InvalidSettings, "Filesystem concurrency must be between 1 and 8.", true));
        }
        if self.large_file_threshold_bytes < 10 * 1_048_576 {
            return Err(CommandError::new(ErrorCode::InvalidSettings, "Large-file threshold must be at least 10 MB.", true));
        }
        if self.very_large_file_threshold_bytes <= self.large_file_threshold_bytes
            || self.huge_file_threshold_bytes <= self.very_large_file_threshold_bytes {
            return Err(CommandError::new(ErrorCode::InvalidSettings, "Large-file thresholds must increase from large to very large to huge.", true));
        }
        if !(30 <= self.old_file_threshold_days && self.old_file_threshold_days <= 3_650) {
            return Err(CommandError::new(ErrorCode::InvalidSettings, "Old-file age must be between 30 days and 10 years.", true));
        }
        if self.duplicate_minimum_size_bytes < 1_024 {
            return Err(CommandError::new(ErrorCode::InvalidSettings, "Duplicate minimum size must be at least 1 KB.", true));
        }
        if self.project_roots.len() > 20 {
            return Err(CommandError::new(ErrorCode::InvalidSettings, "At most 20 project roots can be configured.", true));
        }
        let ghost roots = root_views(self.project_roots@);
        let mut i: usize = 0;
        while i < self.project_roots.len()
            invariant
                roots == root_views(self.project_roots@),
                i <= roots.len(),
                roots.len() <= 20,
                self.schema_version == 1,
                settings_failure(*self) is None <==> project_roots_ok(roots),
                !project_roots_ok(roots) ==> settings_failure(*self) == Some(
                    "Project roots must be unique absolute non-root paths without traversal."@,
                ),
                forall|k: int| 0 <= k < i ==> project_root_ok(#[trigger] roots[k]) && !roots.subrange(0, k).contains(roots[k]),
            decreases self.project_roots.len() - i,
        {
            let root = self.project_roots[i].as_str();
            let mut fresh = true;
            let mut j: usize = 0;
            while j < i
                invariant
                    roots == root_views(self.project_roots@),
                    i < roots.len(),
                    j <= i,
                    root@ == roots[i as int],
                    fresh == !roots.subrange(0, j as int).contains(roots[i as int]),
                decreases i - j,
            {
                if same_text(self.project_roots[j].as_str(), root) {
                    assert(roots.subrange(0, j + 1)[j as int] == roots[i as int]);
                    fresh = false;
                } else {
                    assert(roots.subrange(0, j + 1) =~= roots.subrange(0, j as int).push(roots[j as int]));
                }
                if !fresh {
                    assert(roots.subrange(0, j + 1).contains(roots[i as int])) by {
                        if roots.subrange(0, j as int).contains(roots[i as int]) {
                            let w = choose|w: int| 0 <= w < j && roots.subrange(0, j as int)[w] == roots[i as int];
                            assert(roots.subrange(0, j + 1)[w] == roots[i as int]);
                        }
                    }
                }
                j = j + 1;
            }
            if !project_root_ok_exec(root) || !fresh {
                assert(!project_roots_ok(roots));
                return Err(CommandError::new(ErrorCode::InvalidSettings, "Project roots must be unique absolute non-root paths without traversal.", true));
            }
            i = i + 1;
        }
        Ok(())
    }
}

/// The safe factory settings.
pub open spec fn default_settings(s: AppSettings) -> bool {
    &&& s.schema_version == 1
    &&& s.default_scan_mode == ScanMode::Quick
    &&& !s.follow_symlinks
    &&& !s.scan_external_drives
    &&& !s.scan_hidden_files
    &&& s.maximum_concurrency == 3
    &&& s.large_file_threshold_bytes == 1_073_741_824
    &&& s.very_large_file_threshold_bytes == 5 * 1_073_741_824
    &&& s.huge_file_threshold_bytes == 20 * 1_073_741_824
    &&& s.old_file_threshold_days == 365
    &&& s.duplicate_minimum_size_bytes == 1_048_576
    &&& s.duplicate_verification_mode == DuplicateVerificationMode::FullHash
    &&& s.move_to_trash_by_default
    &&& !s.permanent_deletion_enabled
    &&& !s.preselect_safe_items
    &&& s.require_cleanup_confirmation
    &&& !s.show_expert_recommendations
    &&& !s.diagnostic_logging
    &&& s.theme == Theme::System
    &&& !s.reduced_motion
    &&& s.project_roots@.len() == 0
}

impl Default for AppSettings {
    fn default() -> (s: Self)
        ensures
            default_settings(s),
    {
        AppSettings {
            schema_version: 1,
            default_scan_mode: ScanMode::Quick,
            follow_symlinks: false,
            scan_external_drives: false,
            scan_hidden_files: false,
            maximum_concurrency: 3,
            large_file_threshold_bytes: 1_073_741_824,
            very_large_file_threshold_bytes: default_very_large_file_threshold(),
            huge_file_threshold_bytes: default_huge_file_threshold(),
            old_file_threshold_days: default_old_file_threshold_days(),
            duplicate_minimum_size_bytes: 1_048_576,
            duplicate_verification_mode: DuplicateVerificationMode::FullHash,
            move_to_trash_by_default: true,
            permanent_deletion_enabled: false,
            preselect_safe_items: false,
            require_cleanup_confirmation: true,
            show_expert_recommendations: false,
            diagnostic_logging: false,
            theme: Theme::System,
            reduced_motion: false,
            project_roots: Vec::new(),
        }
    }
}

/// The factory settings keep destructive behavior off, order their size
/// thresholds, and pass validation.
pub proof fn law_defaults_are_safe_and_valid(s: AppSettings)
    requires
        default_settings(s),
    ensures
        !s.permanent_deletion_enabled,
        s.move_to_trash_by_default,
        !s.follow_symlinks,
        s.large_file_threshold_bytes < s.very_large_file_threshold_bytes,
        s.very_large_file_threshold_bytes < s.huge_file_threshold_bytes,
        settings_failure(s) is None,
{
    assert(root_views(s.project_roots@) =~= Seq::<Seq<char>>::empty());
}

/// Accepted settings never follow symbolic links and always default to the Trash.
pub proof fn law_valid_settings_are_trash_first(s: AppSettings)
    requires
        settings_failure(s) is None,
    ensures
        !s.follow_symlinks,
        s.move_to_trash_by_default,
        1 <= s.maximum_concurrency <= 8,
        s.large_file_threshold_bytes < s.very_large_file_threshold_bytes < s.huge_file_threshold_bytes,
        s.project_roots@.len() <= 20,
{
}

/// Settings are accepted exactly when every rule holds: version 1, symbolic
/// links not followed, the Trash as the default, between 1 and 8 concurrent
/// file system tasks, a large-file threshold of at least 10 MB below the
/// very large one below the huge one, an old-file age of 30 to 3650 days, a
/// duplicate minimum of at least 1 KB, and at most 20 project roots, each
/// acceptable and none repeated.
pub proof fn law_settings_accepted_exactly_when_every_rule_holds(s: AppSettings)
    ensures
        settings_failure(s) is None <==> {
            &&& s.schema_version == 1
            &&& !s.follow_symlinks
            &&& s.move_to_trash_by_default
            &&& 1 <= s.maximum_concurrency <= 8
            &&& 10_485_760 <= s.large_file_threshold_bytes
            &&& s.large_file_threshold_bytes < s.very_large_file_threshold_bytes
            &&& s.very_large_file_threshold_bytes < s.huge_file_threshold_bytes
            &&& 30 <= s.old_file_threshold_days <= 3_650
            &&& s.duplicate_minimum_size_bytes >= 1_024
            &&& s.project_roots@.len() <= 20
            &&& project_roots_ok(root_views(s.project_roots@))
        },
{
}

} // verus!
