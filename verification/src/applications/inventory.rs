//! Installed applications as listed, the identity of a bundle or data folder
//! as reviewed, and the data an application leaves behind.
use vstd::prelude::*;
use crate::applications::bundles::{content_id, content_id_exec, own_bundle_id, valid_path_component, valid_path_component_spec};
use crate::domain::application::{ApplicationScope, InstalledApplication, RelatedApplicationItem, RelatedItemConfidence};
use crate::domain::error::{CommandError, ErrorCode};
use crate::paths::{display_path, display_path_exec, file_name, file_name_exec, join, join_exec, path_starts_with, path_starts_with_exec, same_path, same_path_exec, PathStyle};
use crate::scanner::analysis::{extension, extension_exec, last_dot};
use crate::scanner::walker::{FsError, FsErrorKind};
use crate::sorting::{merge_sort, sorted_by_key, views_of, KeyOrder};
use crate::text::{chars_of, lemma_text_lt_irreflexive, lemma_text_lt_total, lemma_text_lt_transitive, same_text, slices_equal, string_of, text_less, text_lt};

verus! {

/// Where a bundle or data item resolves and what it is: the canonical path,
/// whether it is a folder, its modification time (milliseconds since the
/// Unix epoch) and its device and inode numbers.
#[derive(Debug)]
pub struct FileIdentity {
    pub canonical_path: String,
    pub is_directory: bool,
    pub modified_at: Option<i64>,
    pub device: u64,
    pub inode: u64,
}

/// Two identities are the same: the same place, kind, time and file.
pub open spec fn same_identity(a: FileIdentity, b: FileIdentity) -> bool {
    &&& same_path(a.canonical_path@, b.canonical_path@, PathStyle::Posix)
    &&& a.is_directory == b.is_directory
    &&& a.modified_at == b.modified_at
    &&& a.device == b.device
    &&& a.inode == b.inode
}

pub fn same_identity_exec(a: &FileIdentity, b: &FileIdentity) -> (r: bool)
    ensures
        r == same_identity(*a, *b),
{
    same_path_exec(a.canonical_path.as_str(), b.canonical_path.as_str(), PathStyle::Posix) && a.is_directory == b.is_directory
        && a.modified_at == b.modified_at && a.device == b.device && a.inode == b.inode
}

pub fn copy_identity(a: &FileIdentity) -> (r: FileIdentity)
    ensures
        r == *a,
{
    FileIdentity {
        canonical_path: a.canonical_path.clone(),
        is_directory: a.is_directory,
        modified_at: a.modified_at,
        device: a.device,
        inode: a.inode,
    }
}

/// What the file system reports about a path, read without following a
/// symbolic link.
#[derive(Debug)]
pub struct PathStat {
    pub is_symlink: bool,
    pub is_dir: bool,
    pub modified_at: Option<i64>,
    pub device: u64,
    pub inode: u64,
}

/// The report on a path and, when it resolves, its canonical form.
#[derive(Debug)]
pub struct IdentityFacts {
    pub stat: Result<PathStat, FsError>,
    pub canonical: Result<String, FsError>,
}

pub open spec fn fs_code(kind: FsErrorKind) -> ErrorCode {
    match kind {
        FsErrorKind::NotFound => ErrorCode::PathNotFound,
        FsErrorKind::PermissionDenied => ErrorCode::PermissionDenied,
        FsErrorKind::Other => ErrorCode::FilesystemError,
    }
}

/// The error for a path that could not be read.
pub open spec fn inspection_error(e: CommandError, path: Seq<char>, fe: FsError) -> bool {
    &&& e.code == fs_code(fe.kind)
    &&& e.message@ == "The application bundle could not be inspected."@
    &&& e.recoverable
    &&& e.path matches Some(p) && p@ == path
    &&& e.details matches Some(d) && d@ == fe.details@
}

pub fn filesystem_error(path: &str, fe: &FsError) -> (e: CommandError)
    ensures
        inspection_error(e, path@, *fe),
{
    let code = match fe.kind {
        FsErrorKind::NotFound => ErrorCode::PathNotFound,
        FsErrorKind::PermissionDenied => ErrorCode::PermissionDenied,
        FsErrorKind::Other => ErrorCode::FilesystemError,
    };
    CommandError::new(code, "The application bundle could not be inspected.", true).with_path(path).with_details(fe.details.as_str())
}

/// An error with this code, message and recoverability, naming this path.
pub open spec fn path_error(e: CommandError, code: ErrorCode, message: Seq<char>, recoverable: bool, path: Seq<char>) -> bool {
    &&& e.code == code
    &&& e.message@ == message
    &&& e.recoverable == recoverable
    &&& e.path matches Some(p) && p@ == path
    &&& e.details is None
}

pub open spec fn identity_of(i: FileIdentity, canonical: Seq<char>, s: PathStat) -> bool {
    &&& i.canonical_path@ == canonical
    &&& i.is_directory == s.is_dir
    &&& i.modified_at == s.modified_at
    &&& i.device == s.device
    &&& i.inode == s.inode
}

fn identity_from(canonical: &String, s: &PathStat) -> (i: FileIdentity)
    ensures
        identity_of(i, canonical@, *s),
{
    FileIdentity { canonical_path: canonical.clone(), is_directory: s.is_dir, modified_at: s.modified_at, device: s.device, inode: s.inode }
}

/// The identity of an application bundle: a real folder whose canonical
/// path ends in `.app`.
pub fn application_identity(path: &str, facts: &IdentityFacts) -> (r: Result<FileIdentity, CommandError>)
    ensures
        match facts.stat {
            Err(fe) => r matches Err(e) && inspection_error(e, path@, fe),
            Ok(s) => if s.is_symlink || !s.is_dir {
                r matches Err(e) && path_error(e, ErrorCode::PlanValidationFailed,
                    "The application bundle changed or is no longer a directory."@, true, path@)
            } else {
                match facts.canonical {
                    Err(fe) => r matches Err(e) && inspection_error(e, path@, fe),
                    Ok(c) => if extension(c@) != Some("app"@) {
                        r matches Err(e) && path_error(e, ErrorCode::InvalidPath,
                            "Only an exact .app bundle can be reviewed for uninstall."@, false, path@)
                    } else {
                        r matches Ok(i) && identity_of(i, c@, s)
                    },
                }
            },
        },
{
    let s = match &facts.stat {
        Err(fe) => return Err(filesystem_error(path, fe)),
        Ok(s) => s,
    };
    if s.is_symlink || !s.is_dir {
        return Err(CommandError::new(
            ErrorCode::PlanValidationFailed,
            "The application bundle changed or is no longer a directory.",
            true,
        ).with_path(path));
    }
    let c = match &facts.canonical {
        Err(fe) => return Err(filesystem_error(path, fe)),
        Ok(c) => c,
    };
    let is_app = match extension_exec(c.as_str()) {
        Some(e) => slices_equal(e.as_slice(), chars_of("app").as_slice()),
        None => false,
    };
    if !is_app {
        return Err(CommandError::new(
            ErrorCode::InvalidPath,
            "Only an exact .app bundle can be reviewed for uninstall.",
            false,
        ).with_path(path));
    }
    Ok(identity_from(c, s))
}

/// The identity of a related data item: not a symbolic link, and resolving
/// strictly inside its canonical allowlisted folder.
pub fn related_identity(path: &str, canonical_library: &str, facts: &IdentityFacts) -> (r: Result<FileIdentity, CommandError>)
    ensures
        match facts.stat {
            Err(fe) => r matches Err(e) && inspection_error(e, path@, fe),
            Ok(s) => if s.is_symlink {
                r matches Err(e) && path_error(e, ErrorCode::PlanValidationFailed,
                    "A symbolic link cannot be included in an application uninstall plan."@, false, path@)
            } else {
                match facts.canonical {
                    Err(fe) => r matches Err(e) && inspection_error(e, path@, fe),
                    Ok(c) => if !path_starts_with(c@, canonical_library@, PathStyle::Posix)
                        || same_path(c@, canonical_library@, PathStyle::Posix) {
                        r matches Err(e) && path_error(e, ErrorCode::PathProtected,
                            "Related application data moved outside its reviewed allowlisted folder."@, false, path@)
                    } else {
                        r matches Ok(i) && identity_of(i, c@, s)
                    },
                }
            },
        },
{
    let s = match &facts.stat {
        Err(fe) => return Err(filesystem_error(path, fe)),
        Ok(s) => s,
    };
    if s.is_symlink {
        return Err(CommandError::new(
            ErrorCode::PlanValidationFailed,
            "A symbolic link cannot be included in an application uninstall plan.",
            false,
        ).with_path(path));
    }
    let c = match &facts.canonical {
        Err(fe) => return Err(filesystem_error(path, fe)),
        Ok(c) => c,
    };
    if !path_starts_with_exec(c.as_str(), canonical_library, PathStyle::Posix)
        || same_path_exec(c.as_str(), canonical_library, PathStyle::Posix) {
        return Err(CommandError::new(
            ErrorCode::PathProtected,
            "Related application data moved outside its reviewed allowlisted folder.",
            false,
        ).with_path(path));
    }
    Ok(identity_from(c, s))
}

/// Checks that a reviewed bundle is still what it was: `facts` is the file
/// system's report on its canonical path now.
pub fn revalidate_application_identity(expected: &FileIdentity, facts: &IdentityFacts) -> (r: Result<(), CommandError>)
    ensures
        match application_identity_spec(expected.canonical_path@, *facts) {
            None => r matches Err(e) && application_identity_error(e, expected.canonical_path@, *facts),
            Some(current) => if same_identity(current, *expected) {
                r is Ok
            } else {
                r matches Err(e) && path_error(e, ErrorCode::PlanValidationFailed,
                    "The application changed after review. Scan applications and create a new plan."@, true,
                    expected.canonical_path@)
            },
        },
{
    let current = application_identity(expected.canonical_path.as_str(), facts)?;
    if !same_identity_exec(&current, expected) {
        return Err(CommandError::new(
            ErrorCode::PlanValidationFailed,
            "The application changed after review. Scan applications and create a new plan.",
            true,
        ).with_path(expected.canonical_path.as_str()));
    }
    Ok(())
}

/// The identity `application_identity` finds, if any.
pub open spec fn application_identity_spec(path: Seq<char>, facts: IdentityFacts) -> Option<FileIdentity> {
    match facts.stat {
        Err(_) => None,
        Ok(s) => if s.is_symlink || !s.is_dir {
            None
        } else {
            match facts.canonical {
                Err(_) => None,
                Ok(c) => if extension(c@) != Some("app"@) {
                    None
                } else {
                    Some(FileIdentity { canonical_path: c, is_directory: s.is_dir, modified_at: s.modified_at, device: s.device, inode: s.inode })
                },
            }
        },
    }
}

/// The error `application_identity` gives when it finds none.
pub open spec fn application_identity_error(e: CommandError, path: Seq<char>, facts: IdentityFacts) -> bool {
    match facts.stat {
        Err(fe) => inspection_error(e, path, fe),
        Ok(s) => if s.is_symlink || !s.is_dir {
            path_error(e, ErrorCode::PlanValidationFailed, "The application bundle changed or is no longer a directory."@, true, path)
        } else {
            match facts.canonical {
                Err(fe) => inspection_error(e, path, fe),
                Ok(c) => path_error(e, ErrorCode::InvalidPath, "Only an exact .app bundle can be reviewed for uninstall."@, false, path),
            }
        },
    }
}

/// The identity `related_identity` finds, if any.
pub open spec fn related_identity_spec(path: Seq<char>, canonical_library: Seq<char>, facts: IdentityFacts) -> Option<FileIdentity> {
    match facts.stat {
        Err(_) => None,
        Ok(s) => if s.is_symlink {
            None
        } else {
            match facts.canonical {
                Err(_) => None,
                Ok(c) => if !path_starts_with(c@, canonical_library, PathStyle::Posix)
                    || same_path(c@, canonical_library, PathStyle::Posix) {
                    None
                } else {
                    Some(FileIdentity { canonical_path: c, is_directory: s.is_dir, modified_at: s.modified_at, device: s.device, inode: s.inode })
                },
            }
        },
    }
}

/// The error `related_identity` gives when it finds none.
pub open spec fn related_identity_error(e: CommandError, path: Seq<char>, facts: IdentityFacts) -> bool {
    match facts.stat {
        Err(fe) => inspection_error(e, path, fe),
        Ok(s) => if s.is_symlink {
            path_error(e, ErrorCode::PlanValidationFailed,
                "A symbolic link cannot be included in an application uninstall plan."@, false, path)
        } else {
            match facts.canonical {
                Err(fe) => inspection_error(e, path, fe),
                Ok(c) => path_error(e, ErrorCode::PathProtected,
                    "Related application data moved outside its reviewed allowlisted folder."@, false, path),
            }
        },
    }
}

/// The name of a bundle without its extension, as `Path::file_stem` gives it.
pub open spec fn file_stem(path: Seq<char>) -> Option<Seq<char>> {
    match file_name(path, PathStyle::Posix) {
        None => None,
        Some(name) => match last_dot(name, name.len() as int) {
            Some(d) => if d > 0 { Some(name.subrange(0, d)) } else { Some(name) },
            None => Some(name),
        },
    }
}

fn file_stem_exec(path: &str) -> (r: Option<String>)
    ensures
        match r {
            None => file_stem(path@) is None,
            Some(s) => file_stem(path@) == Some(s@),
        },
{
    let name = match file_name_exec(path, PathStyle::Posix) {
        None => return None,
        Some(n) => n,
    };
    let mut k: usize = name.len();
    while k > 0
        invariant
            k <= name@.len(),
            file_name(path@, PathStyle::Posix) == Some(name@),
            last_dot(name@, name@.len() as int) == last_dot(name@, k as int),
        decreases k,
    {
        if name[k - 1] == '.' {
            if k - 1 > 0 {
                let stem = crate::paths::slice_range(name.as_slice(), 0, k - 1);
                return Some(string_of(stem.as_slice()));
            } else {
                return Some(string_of(name.as_slice()));
            }
        }
        k = k - 1;
    }
    Some(string_of(name.as_slice()))
}

/// What a bundle's `Info.plist` says: its display name, identifier and
/// version, each when present.
#[derive(Debug)]
pub struct BundleMetadata {
    pub name: Option<String>,
    pub bundle_id: Option<String>,
    pub version: Option<String>,
}

/// An application as listed, with the identity it was reviewed with.
#[derive(Debug)]
pub struct InventoryEntry {
    pub application: InstalledApplication,
    pub identity: FileIdentity,
}

/// The listed application for a bundle at `path`: named from its metadata,
/// else from its file name, else "Application"; identified by its canonical
/// path; movable unless it is a system application or this application.
pub open spec fn entry_of(
    e: InventoryEntry,
    path: Seq<char>,
    scope: ApplicationScope,
    home: Seq<char>,
    identity: FileIdentity,
    logical_size: u64,
    allocated_size: u64,
    metadata: BundleMetadata,
    last_used_at: Option<i64>,
) -> bool {
    let a = e.application;
    let canonical = identity.canonical_path@;
    let self_app = metadata.bundle_id matches Some(b) && b@ == own_bundle_id();
    &&& e.identity == identity
    &&& a.id@ == content_id(canonical)
    &&& a.name@ == (match metadata.name {
        Some(n) => n@,
        None => match file_stem(path) {
            Some(s) => s,
            None => "Application"@,
        },
    })
    &&& a.bundle_id == metadata.bundle_id
    &&& a.version == metadata.version
    &&& a.path@ == canonical
    &&& a.display_path@ == display_path(canonical, home)
    &&& a.logical_size == logical_size
    &&& a.allocated_size == Some(allocated_size)
    &&& a.last_used_at == last_used_at
    &&& a.scope == scope
    &&& a.uninstall_allowed == (scope != ApplicationScope::System && !self_app)
    &&& if scope == ApplicationScope::System {
        a.uninstall_block_reason matches Some(r) && r@ == "macOS system applications are protected and are list-only."@
    } else if self_app {
        a.uninstall_block_reason matches Some(r) && r@ == "DiskSage cannot move itself to Trash while it is running."@
    } else {
        a.uninstall_block_reason is None
    }
}

/// The listed application for an inspected bundle (see `entry_of`).
pub fn inspect_application(
    path: &str,
    scope: ApplicationScope,
    home: &str,
    identity: FileIdentity,
    logical_size: u64,
    allocated_size: u64,
    metadata: BundleMetadata,
    last_used_at: Option<i64>,
) -> (e: InventoryEntry)
    ensures
        entry_of(e, path@, scope, home@, identity, logical_size, allocated_size, metadata, last_used_at),
{
    let ghost meta = metadata;
    let name = match metadata.name {
        Some(n) => n,
        None => match file_stem_exec(path) {
            Some(s) => s,
            None => String::from_str("Application"),
        },
    };
    let self_app = match &metadata.bundle_id {
        Some(b) => same_text(b.as_str(), "com.disksage.desktop"),
        None => false,
    };
    let uninstall_block_reason = if scope == ApplicationScope::System {
        Some(String::from_str("macOS system applications are protected and are list-only."))
    } else if self_app {
        Some(String::from_str("DiskSage cannot move itself to Trash while it is running."))
    } else {
        None
    };
    let application = InstalledApplication {
        id: content_id_exec(identity.canonical_path.as_str()),
        name,
        bundle_id: metadata.bundle_id,
        version: metadata.version,
        path: identity.canonical_path.clone(),
        display_path: display_path_exec(identity.canonical_path.as_str(), home),
        logical_size,
        allocated_size: Some(allocated_size),
        last_used_at,
        scope,
        uninstall_allowed: scope != ApplicationScope::System && !self_app,
        uninstall_block_reason,
    };
    InventoryEntry { application, identity }
}

/// A place where an application may have left data: the path, the folder it
/// must stay inside, and how it is shown and selected.
#[derive(Debug)]
pub struct RelatedCandidate {
    pub path: String,
    pub root: String,
    pub category: String,
    pub may_contain_user_data: bool,
    pub confidence: RelatedItemConfidence,
    pub default_selected: bool,
    pub reason: String,
}

/// A candidate as plain values.
pub type CandidateView = (Seq<char>, Seq<char>, Seq<char>, bool, RelatedItemConfidence, bool, Seq<char>);

pub open spec fn candidate_view(c: RelatedCandidate) -> CandidateView {
    (c.path@, c.root@, c.category@, c.may_contain_user_data, c.confidence, c.default_selected, c.reason@)
}

pub open spec fn candidate_views(c: Seq<RelatedCandidate>) -> Seq<CandidateView> {
    c.map_values(|x: RelatedCandidate| candidate_view(x))
}

pub open spec fn under(base: Seq<char>, a: Seq<char>, b: Seq<char>) -> Seq<char> {
    join(join(base, a, PathStyle::Posix), b, PathStyle::Posix)
}

/// Identified data: exact matches in known Library folders, selected by default.
pub open spec fn identified(path: Seq<char>, root: Seq<char>, category: Seq<char>, user_data: bool, reason: Seq<char>) -> CandidateView {
    (path, root, category, user_data, RelatedItemConfidence::Identified, true, reason)
}

/// Ambiguous data: places other work may share, never selected by default.
pub open spec fn ambiguous(path: Seq<char>, root: Seq<char>, category: Seq<char>, user_data: bool, reason: Seq<char>) -> CandidateView {
    (path, root, category, user_data, RelatedItemConfidence::Ambiguous, false, reason)
}

pub open spec fn name_reason() -> Seq<char> {
    "Exact app-name match in a known Library location."@
}

pub open spec fn bundle_reason() -> Seq<char> {
    "Exact bundle-identifier match in a known Library location."@
}

/// The places named after the application.
pub open spec fn name_candidates(library: Seq<char>, name: Seq<char>) -> Seq<CandidateView> {
    if valid_path_component_spec(name) {
        seq![
            identified(under(library, "Application Support"@, name), library, "Application Support"@, true, name_reason()),
            identified(under(library, "Caches"@, name), library, "Cache"@, false, name_reason()),
            identified(under(library, "Logs"@, name), library, "Logs"@, false, name_reason()),
        ]
    } else {
        Seq::empty()
    }
}

/// The places named after the bundle identifier.
pub open spec fn bundle_candidates(library: Seq<char>, bundle_id: Option<Seq<char>>) -> Seq<CandidateView> {
    match bundle_id {
        Some(b) => if valid_path_component_spec(b) {
            seq![
                identified(under(library, "Application Support"@, b), library, "Application Support"@, true, bundle_reason()),
                identified(under(library, "Caches"@, b), library, "Cache"@, false, bundle_reason()),
                identified(under(library, "Preferences"@, b + ".plist"@), library, "Preferences"@, false,
                    "Exact bundle-identifier preference file."@),
                identified(under(library, "Saved Application State"@, b + ".savedState"@), library,
                    "Saved application state"@, false, "Exact bundle-identifier saved state."@),
                identified(under(library, "Logs"@, b), library, "Logs"@, false, bundle_reason()),
                identified(under(library, "WebKit"@, b), library, "Web data"@, true, "Exact bundle-identifier web storage."@),
                identified(under(library, "HTTPStorages"@, b), library, "HTTP storage"@, false,
                    "Exact bundle-identifier HTTP storage."@),
                identified(under(library, "Containers"@, b), library, "Sandbox container"@, true,
                    "Exact bundle-identifier sandbox container."@),
                identified(under(library, "Application Scripts"@, b), library, "Application scripts"@, false,
                    "Exact bundle-identifier application scripts."@),
                identified(under(library, "Cookies"@, b + ".binarycookies"@), library, "Cookies"@, false,
                    "Exact bundle-identifier cookie store."@),
            ]
        } else {
            Seq::empty()
        },
        None => Seq::empty(),
    }
}

/// The shared containers, one per group identifier.
pub open spec fn group_candidates(group_root: Seq<char>, groups: Seq<Seq<char>>) -> Seq<CandidateView> {
    groups.map_values(|g: Seq<char>| ambiguous(join(group_root, g, PathStyle::Posix), group_root,
        "Shared Group Container"@, true, "Declared or bundle-matched shared container; other apps may use it."@))
}

/// The places where an application may have left data, in this order: those
/// named after the application and after its bundle identifier; then, when
/// ambiguous places are wanted, a Documents folder named after it and the
/// shared group containers `groups` (see `group_identifiers`).
pub open spec fn related_candidates_spec(
    name: Seq<char>,
    bundle_id: Option<Seq<char>>,
    home: Seq<char>,
    include_ambiguous: bool,
    groups: Seq<Seq<char>>,
) -> Seq<CandidateView> {
    let library = join(home, "Library"@, PathStyle::Posix);
    let documents = join(home, "Documents"@, PathStyle::Posix);
    let group_root = join(library, "Group Containers"@, PathStyle::Posix);
    let known = name_candidates(library, name) + bundle_candidates(library, bundle_id);
    if include_ambiguous {
        known + (if valid_path_component_spec(name) {
            seq![ambiguous(join(documents, name, PathStyle::Posix), documents, "Documents folder"@, true,
                "Exact app-name folder in Documents; it may contain user-created work."@)]
        } else {
            Seq::empty()
        }) + group_candidates(group_root, groups)
    } else {
        known
    }
}

fn candidate(path: String, root: &str, category: &str, user_data: bool, confidence: RelatedItemConfidence, reason: &str)
    -> (c: RelatedCandidate)
    ensures
        candidate_view(c) == (path@, root@, category@, user_data, confidence,
            confidence == RelatedItemConfidence::Identified, reason@),
{
    RelatedCandidate {
        path,
        root: String::from_str(root),
        category: String::from_str(category),
        may_contain_user_data: user_data,
        confidence,
        default_selected: confidence == RelatedItemConfidence::Identified,
        reason: String::from_str(reason),
    }
}

fn under_exec(base: &str, a: &str, b: &str) -> (r: String)
    ensures
        r@ == under(base@, a@, b@),
{
    let first = join_exec(base, a, PathStyle::Posix);
    join_exec(first.as_str(), b, PathStyle::Posix)
}

fn with_suffix(b: &str, suffix: &str) -> (r: String)
    ensures
        r@ == b@ + suffix@,
{
    let mut v = chars_of(b);
    let s = chars_of(suffix);
    let mut i: usize = 0;
    let ghost start = v@;
    while i < s.len()
        invariant
            0 <= i <= s@.len(),
            v@ == start + s@.take(i as int),
        decreases s@.len() - i,
    {
        v.push(s[i]);
        assert(s@.take(i + 1) =~= s@.take(i as int).push(s@[i as int]));
        i = i + 1;
    }
    assert(s@.take(s@.len() as int) =~= s@);
    string_of(v.as_slice())
}

pub open spec fn opt_view(o: Option<String>) -> Option<Seq<char>> {
    match o {
        Some(s) => Some(s@),
        None => None,
    }
}

/// The places where an application may have left data (see
/// `related_candidates_spec`); `groups` are the group identifiers to look at.
pub fn related_candidates(
    application: &InstalledApplication,
    home: &str,
    include_ambiguous: bool,
    groups: &Vec<String>,
) -> (r: Vec<RelatedCandidate>)
    ensures
        candidate_views(r@) == related_candidates_spec(application.name@, opt_view(application.bundle_id), home@,
            include_ambiguous, groups@.map_values(|g: String| g@)),
{
    let library = join_exec(home, "Library", PathStyle::Posix);
    let lib = library.as_str();
    let name = application.name.as_str();
    let mut out: Vec<RelatedCandidate> = Vec::new();
    let ident = RelatedItemConfidence::Identified;
    if valid_path_component(name) {
        out.push(candidate(under_exec(lib, "Application Support", name), lib, "Application Support", true, ident,
            "Exact app-name match in a known Library location."));
        out.push(candidate(under_exec(lib, "Caches", name), lib, "Cache", false, ident,
            "Exact app-name match in a known Library location."));
        out.push(candidate(under_exec(lib, "Logs", name), lib, "Logs", false, ident,
            "Exact app-name match in a known Library location."));
    }
    let ghost after_name = candidate_views(out@);
    assert(after_name =~= name_candidates(library@, name@));
    match &application.bundle_id {
        Some(bid) => {
            let b = bid.as_str();
            if valid_path_component(b) {
                out.push(candidate(under_exec(lib, "Application Support", b), lib, "Application Support", true, ident,
                    "Exact bundle-identifier match in a known Library location."));
                out.push(candidate(under_exec(lib, "Caches", b), lib, "Cache", false, ident,
                    "Exact bundle-identifier match in a known Library location."));
                let plist = with_suffix(b, ".plist");
                out.push(candidate(under_exec(lib, "Preferences", plist.as_str()), lib, "Preferences", false, ident,
                    "Exact bundle-identifier preference file."));
                let state = with_suffix(b, ".savedState");
                out.push(candidate(under_exec(lib, "Saved Application State", state.as_str()), lib,
                    "Saved application state", false, ident, "Exact bundle-identifier saved state."));
                out.push(candidate(under_exec(lib, "Logs", b), lib, "Logs", false, ident,
                    "Exact bundle-identifier match in a known Library location."));
                out.push(candidate(under_exec(lib, "WebKit", b), lib, "Web data", true, ident,
                    "Exact bundle-identifier web storage."));
                out.push(candidate(under_exec(lib, "HTTPStorages", b), lib, "HTTP storage", false, ident,
                    "Exact bundle-identifier HTTP storage."));
                out.push(candidate(under_exec(lib, "Containers", b), lib, "Sandbox container", true, ident,
                    "Exact bundle-identifier sandbox container."));
                out.push(candidate(under_exec(lib, "Application Scripts", b), lib, "Application scripts", false, ident,
                    "Exact bundle-identifier application scripts."));
                let cookies = with_suffix(b, ".binarycookies");
                out.push(candidate(under_exec(lib, "Cookies", cookies.as_str()), lib, "Cookies", false, ident,
                    "Exact bundle-identifier cookie store."));
            }
        },
        None => {},
    }
    let ghost known = candidate_views(out@);
    assert(known =~= name_candidates(library@, name@) + bundle_candidates(library@, opt_view(application.bundle_id)));
    if include_ambiguous {
        let documents = join_exec(home, "Documents", PathStyle::Posix);
        let amb = RelatedItemConfidence::Ambiguous;
        if valid_path_component(name) {
            out.push(candidate(join_exec(documents.as_str(), name, PathStyle::Posix), documents.as_str(), "Documents folder",
                true, amb, "Exact app-name folder in Documents; it may contain user-created work."));
        }
        let ghost with_documents = candidate_views(out@);
        let group_root = join_exec(lib, "Group Containers", PathStyle::Posix);
        let mut i: usize = 0;
        while i < groups.len()
            invariant
                0 <= i <= groups@.len(),
                amb == RelatedItemConfidence::Ambiguous,
                candidate_views(out@) == with_documents + group_candidates(group_root@,
                    groups@.map_values(|g: String| g@).take(i as int)),
            decreases groups@.len() - i,
        {
            let ghost before = candidate_views(out@);
            let c = candidate(join_exec(group_root.as_str(), groups[i].as_str(), PathStyle::Posix), group_root.as_str(),
                "Shared Group Container", true, amb,
                "Declared or bundle-matched shared container; other apps may use it.");
            proof {
                reveal_strlit("Shared Group Container");
                reveal_strlit("Declared or bundle-matched shared container; other apps may use it.");
            }
            out.push(c);
            proof {
                let gv = groups@.map_values(|g: String| g@);
                assert(gv[i as int] == groups@[i as int]@);
                assert(candidate_view(c) == ambiguous(join(group_root@, gv[i as int], PathStyle::Posix), group_root@,
                    "Shared Group Container"@, true, "Declared or bundle-matched shared container; other apps may use it."@));
                assert(gv.take(i + 1) =~= gv.take(i as int).push(gv[i as int]));
                assert(group_candidates(group_root@, gv.take(i + 1)) =~= group_candidates(group_root@, gv.take(i as int)).push(
                    ambiguous(join(group_root@, gv[i as int], PathStyle::Posix), group_root@, "Shared Group Container"@, true,
                        "Declared or bundle-matched shared container; other apps may use it."@)));
                assert(candidate_views(out@) =~= before.push(candidate_view(out@.last())));
            }
            i = i + 1;
        }
        assert(groups@.map_values(|g: String| g@).take(groups@.len() as int) =~= groups@.map_values(|g: String| g@));
    }
    out
}

/// What a candidate list promises of each entry: identified data lies under
/// the Library folder and is selected by default; a Documents folder or a
/// shared group container is ambiguous and never selected by default; and
/// ambiguous data is offered only when it was asked for.
pub open spec fn candidates_well_classified(cands: Seq<CandidateView>, home: Seq<char>, include_ambiguous: bool) -> bool {
    forall|i: int| 0 <= i < cands.len() ==> {
        let v = #[trigger] cands[i];
        &&& (v.4 == RelatedItemConfidence::Identified <==> v.5)
        &&& v.4 == RelatedItemConfidence::Identified ==> v.1 == join(home, "Library"@, PathStyle::Posix)
        &&& (v.2 == "Documents folder"@ || v.2 == "Shared Group Container"@) ==> v.4 == RelatedItemConfidence::Ambiguous && !v.5
        &&& v.4 == RelatedItemConfidence::Ambiguous ==> include_ambiguous
    }
}

/// Every candidate place is classified as `candidates_well_classified` says:
/// exact Library matches are identified and selected by default, while a
/// Documents folder named after the application and shared group
/// containers are ambiguous, unselected, and offered only when asked for.
pub proof fn law_related_candidates_are_classified(
    name: Seq<char>,
    bundle_id: Option<Seq<char>>,
    home: Seq<char>,
    include_ambiguous: bool,
    groups: Seq<Seq<char>>,
)
    ensures
        candidates_well_classified(related_candidates_spec(name, bundle_id, home, include_ambiguous, groups), home, include_ambiguous),
{
    reveal_strlit("Documents folder");
    reveal_strlit("Shared Group Container");
    reveal_strlit("Application Support");
    reveal_strlit("Cache");
    reveal_strlit("Logs");
    reveal_strlit("Preferences");
    reveal_strlit("Saved application state");
    reveal_strlit("Web data");
    reveal_strlit("HTTP storage");
    reveal_strlit("Sandbox container");
    reveal_strlit("Application scripts");
    reveal_strlit("Cookies");
    let library = join(home, "Library"@, PathStyle::Posix);
    let documents = join(home, "Documents"@, PathStyle::Posix);
    let group_root = join(library, "Group Containers"@, PathStyle::Posix);
    let nc = name_candidates(library, name);
    let bc = bundle_candidates(library, bundle_id);
    let gc = group_candidates(group_root, groups);
    assert("Documents folder"@.len() == 16 && "Shared Group Container"@.len() == 22);
    assert(candidates_well_classified(nc, home, include_ambiguous)) by {
        assert forall|i: int| 0 <= i < nc.len() implies (#[trigger] nc[i]).2.len() != 16 && nc[i].2.len() != 22
            && nc[i].4 == RelatedItemConfidence::Identified && nc[i].5 && nc[i].1 == library by {
            if i == 0 {} else if i == 1 {} else {}
        }
    }
    assert(candidates_well_classified(bc, home, include_ambiguous)) by {
        assert forall|i: int| 0 <= i < bc.len() implies (#[trigger] bc[i]).2.len() != 16 && bc[i].2.len() != 22
            && bc[i].4 == RelatedItemConfidence::Identified && bc[i].5 && bc[i].1 == library by {
            if i == 0 {} else if i == 1 {} else if i == 2 {} else if i == 3 {} else if i == 4 {}
            else if i == 5 {} else if i == 6 {} else if i == 7 {} else if i == 8 {} else {}
        }
    }
    let known = nc + bc;
    assert(candidates_well_classified(known, home, include_ambiguous)) by {
        assert forall|i: int| 0 <= i < known.len() implies #[trigger] known[i] == (if i < nc.len() { nc[i] } else { bc[i - nc.len()] }) by {}
    }
    if include_ambiguous {
        let dc: Seq<CandidateView> = if valid_path_component_spec(name) {
            seq![ambiguous(join(documents, name, PathStyle::Posix), documents, "Documents folder"@, true,
                "Exact app-name folder in Documents; it may contain user-created work."@)]
        } else {
            Seq::empty()
        };
        assert(candidates_well_classified(dc, home, include_ambiguous));
        assert(candidates_well_classified(gc, home, include_ambiguous)) by {
            assert forall|i: int| 0 <= i < gc.len() implies #[trigger] gc[i] == ambiguous(join(group_root, groups[i], PathStyle::Posix), group_root,
                "Shared Group Container"@, true, "Declared or bundle-matched shared container; other apps may use it."@) by {}
        }
        let all = known + dc + gc;
        assert(related_candidates_spec(name, bundle_id, home, include_ambiguous, groups) == all);
        assert forall|i: int| 0 <= i < all.len() implies #[trigger] all[i] == (if i < known.len() { known[i] }
            else if i < known.len() + dc.len() { dc[i - known.len()] } else { gc[i - known.len() - dc.len()] }) by {}
    }
}

} // verus!
