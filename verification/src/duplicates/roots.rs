use vstd::prelude::*;
use crate::domain::error::{CommandError, ErrorCode};
use crate::domain::settings::has_parent;
use crate::path_order::{has_path, insert_path_sorted, string_views, strictly_sorted_paths, path_lt};
use crate::paths::{comp_views, components, components_exec, is_absolute, is_absolute_exec, join, join_exec,
    path_starts_with, path_starts_with_exec, same_path, same_path_exec, Comp, Component, PathStyle};
use crate::scanner::walker::{FsError, FsErrorKind};
use crate::text::{chars_of, decimal, push_decimal, same_text};

verus! {

/// What a symbolic-link-aware stat of a root said.
#[derive(Debug, Clone, Copy)]
pub struct LinkStat {
    pub is_symlink: bool,
    pub is_dir: bool,
}

/// What the file system said about one selected root: its own metadata, and
/// the root with every link resolved.
#[derive(Debug)]
pub struct RootFacts {
    pub link: Result<LinkStat, FsError>,
    pub canonical: Result<String, FsError>,
}

/// Why a selected root was refused.
pub ghost enum RootRejection {
    Traversal,
    Access { kind: FsErrorKind, details: Seq<char> },
    NotDirectory,
    Protected,
}

/// Folders under the home folder that hold credentials.
pub open spec fn sensitive_home_names() -> Seq<Seq<char>> {
    seq![".ssh"@, ".gnupg"@, ".aws"@, ".kube"@, "Library/Keychains"@]
}

/// System folders that are never analyzed.
pub open spec fn sensitive_system_roots(platform: Seq<char>) -> Seq<Seq<char>> {
    if platform == "macos"@ {
        seq!["/System"@, "/usr"@, "/bin"@, "/sbin"@, "/etc"@, "/var"@, "/private"@, "/Applications"@]
    } else {
        seq!["/usr"@, "/bin"@, "/sbin"@, "/etc"@, "/var"@, "/proc"@, "/sys"@, "/dev"@, "/run"@, "/root"@]
    }
}

/// The path lies in a credential folder of the home folder or in a system folder.
pub open spec fn is_sensitive_root(path: Seq<char>, home: Seq<char>, platform: Seq<char>) -> bool {
    (exists|k: int| 0 <= k < sensitive_home_names().len()
        && path_starts_with(path, join(home, #[trigger] sensitive_home_names()[k], PathStyle::Posix), PathStyle::Posix))
    || (exists|k: int| 0 <= k < sensitive_system_roots(platform).len()
        && path_starts_with(path, #[trigger] sensitive_system_roots(platform)[k], PathStyle::Posix))
}

/// Why a root is refused, if it is; checked in this order: the text, its
/// metadata, its kind, its resolution, and what it resolves to.
pub open spec fn root_rejection(root: Seq<char>, facts: RootFacts, home: Seq<char>, platform: Seq<char>) -> Option<RootRejection> {
    if !is_absolute(root, PathStyle::Posix) || components(root, PathStyle::Posix).contains(Comp::Parent) {
        Some(RootRejection::Traversal)
    } else {
        match facts.link {
            Err(e) => Some(RootRejection::Access { kind: e.kind, details: e.details@ }),
            Ok(stat) => if stat.is_symlink || !stat.is_dir {
                Some(RootRejection::NotDirectory)
            } else {
                match facts.canonical {
                    Err(e) => Some(RootRejection::Access { kind: e.kind, details: e.details@ }),
                    Ok(c) => if !has_parent(c@, PathStyle::Posix) || same_path(c@, home, PathStyle::Posix)
                        || is_sensitive_root(c@, home, platform) {
                        Some(RootRejection::Protected)
                    } else {
                        None
                    },
                }
            },
        }
    }
}

pub open spec fn access_code(kind: FsErrorKind) -> ErrorCode {
    match kind {
        FsErrorKind::NotFound => ErrorCode::PathNotFound,
        FsErrorKind::PermissionDenied => ErrorCode::PermissionDenied,
        FsErrorKind::Other => ErrorCode::FilesystemError,
    }
}

/// The error reported for a refused root.
pub open spec fn rejection_error(e: CommandError, root: Seq<char>, why: RootRejection) -> bool {
    &&& e.recoverable
    &&& e.path matches Some(p) && p@ == root
    &&& match why {
        RootRejection::Traversal => e.code == ErrorCode::InvalidPath
            && e.message@ == "Duplicate scan folders must be absolute and cannot contain traversal."@
            && e.details is None,
        RootRejection::Access { kind, details } => e.code == access_code(kind)
            && e.message@ == "A duplicate scan path could not be accessed."@
            && (e.details matches Some(d) && d@ == details),
        RootRejection::NotDirectory => e.code == ErrorCode::InvalidPath
            && e.message@ == "Duplicate scan roots must be real directories, not files or symbolic links."@
            && e.details is None,
        RootRejection::Protected => e.code == ErrorCode::PathProtected
            && e.message@ == "Choose a narrower folder. Filesystem, home, credential, and system roots are protected."@
            && e.details is None,
    }
}

/// The first refused root among the first `n`, with the reason.
pub open spec fn first_rejection(roots: Seq<String>, facts: Seq<RootFacts>, home: Seq<char>, platform: Seq<char>, n: int) -> Option<(int, RootRejection)>
    decreases n,
{
    if n <= 0 {
        None
    } else {
        match first_rejection(roots, facts, home, platform, n - 1) {
            Some(r) => Some(r),
            None => match root_rejection(roots[n - 1]@, facts[n - 1], home, platform) {
                Some(why) => Some((n - 1, why)),
                None => None,
            },
        }
    }
}

/// The resolved roots, when every root was accepted.
pub open spec fn canonical_views(facts: Seq<RootFacts>) -> Seq<Seq<char>> {
    facts.map_values(|f: RootFacts| f.canonical.unwrap()@)
}

/// A path strictly inside another of the given paths.
pub open spec fn nested_in_other(canons: Seq<Seq<char>>, q: Seq<char>) -> bool {
    exists|d: int| 0 <= d < canons.len() && !same_path(#[trigger] canons[d], q, PathStyle::Posix)
        && path_starts_with(q, canons[d], PathStyle::Posix)
}

/// The accepted roots: in `Path` order, without repeats, and without any root
/// nested inside another selected root.
pub open spec fn narrowed_roots(r: Seq<Seq<char>>, canons: Seq<Seq<char>>) -> bool {
    &&& strictly_sorted_paths(r)
    &&& forall|q: Seq<char>| has_path(r, q) <==> (has_path(canons, q) && !nested_in_other(canons, q))
}

/// Every element of `a` is one of the first `j` elements of `b`.
pub open spec fn drawn_from(a: Seq<Seq<char>>, b: Seq<Seq<char>>, j: int) -> bool {
    forall|k: int| 0 <= k < a.len() ==> exists|m: int| 0 <= m < j && #[trigger] a[k] == #[trigger] b[m]
}

proof fn lemma_nested_congruent(canons: Seq<Seq<char>>, a: Seq<char>, b: Seq<char>)
    requires
        same_path(a, b, PathStyle::Posix),
    ensures
        nested_in_other(canons, a) == nested_in_other(canons, b),
{
    if nested_in_other(canons, a) {
        let d = choose|d: int| 0 <= d < canons.len() && !same_path(#[trigger] canons[d], a, PathStyle::Posix)
            && path_starts_with(a, canons[d], PathStyle::Posix);
        assert(!same_path(canons[d], b, PathStyle::Posix) && path_starts_with(b, canons[d], PathStyle::Posix));
    }
    if nested_in_other(canons, b) {
        let d = choose|d: int| 0 <= d < canons.len() && !same_path(#[trigger] canons[d], b, PathStyle::Posix)
            && path_starts_with(b, canons[d], PathStyle::Posix);
        assert(!same_path(canons[d], a, PathStyle::Posix) && path_starts_with(a, canons[d], PathStyle::Posix));
    }
}

proof fn lemma_first_rejection_stable(roots: Seq<String>, facts: Seq<RootFacts>, home: Seq<char>, platform: Seq<char>, n: int, m: int)
    requires
        0 <= n <= m,
        first_rejection(roots, facts, home, platform, n) is Some,
    ensures
        first_rejection(roots, facts, home, platform, m) == first_rejection(roots, facts, home, platform, n),
    decreases m - n,
{
    if m > n {
        lemma_first_rejection_stable(roots, facts, home, platform, n, m - 1);
    }
}

fn sensitive_home_list() -> (v: Vec<String>)
    ensures
        string_views(v@) == sensitive_home_names(),
{
    let mut v: Vec<String> = Vec::new();
    v.push(String::from_str(".ssh"));
    v.push(String::from_str(".gnupg"));
    v.push(String::from_str(".aws"));
    v.push(String::from_str(".kube"));
    v.push(String::from_str("Library/Keychains"));
    assert(string_views(v@) =~= sensitive_home_names());
    v
}

fn sensitive_system_list(platform: &str) -> (v: Vec<String>)
    ensures
        string_views(v@) == sensitive_system_roots(platform@),
{
    let mut v: Vec<String> = Vec::new();
    if same_text(platform, "macos") {
        v.push(String::from_str("/System"));
        v.push(String::from_str("/usr"));
        v.push(String::from_str("/bin"));
        v.push(String::from_str("/sbin"));
        v.push(String::from_str("/etc"));
        v.push(String::from_str("/var"));
        v.push(String::from_str("/private"));
        v.push(String::from_str("/Applications"));
    } else {
        v.push(String::from_str("/usr"));
        v.push(String::from_str("/bin"));
        v.push(String::from_str("/sbin"));
        v.push(String::from_str("/etc"));
        v.push(String::from_str("/var"));
        v.push(String::from_str("/proc"));
        v.push(String::from_str("/sys"));
        v.push(String::from_str("/dev"));
        v.push(String::from_str("/run"));
        v.push(String::from_str("/root"));
    }
    assert(string_views(v@) =~= sensitive_system_roots(platform@));
    v
}

/// Whether a path lies in a credential folder of the home folder or in a system folder.
pub fn is_sensitive_root_exec(path: &str, home: &str, platform: &str) -> (r: bool)
    ensures
        r == is_sensitive_root(path@, home@, platform@),
{
    let names = sensitive_home_list();
    let mut k: usize = 0;
    while k < names.len()
        invariant
            k <= names@.len(),
            string_views(names@) == sensitive_home_names(),
            forall|j: int| 0 <= j < k ==> !path_starts_with(path@, join(home@, #[trigger] sensitive_home_names()[j], PathStyle::Posix), PathStyle::Posix),
        decreases names.len() - k,
    {
        let base = join_exec(home, names[k].as_str(), PathStyle::Posix);
        assert(sensitive_home_names()[k as int] == names@[k as int]@);
        if path_starts_with_exec(path, base.as_str(), PathStyle::Posix) {
            return true;
        }
        k = k + 1;
    }
    let roots = sensitive_system_list(platform);
    let mut k: usize = 0;
    while k < roots.len()
        invariant
            k <= roots@.len(),
            string_views(roots@) == sensitive_system_roots(platform@),
            forall|j: int| 0 <= j < sensitive_home_names().len() ==> !path_starts_with(path@, join(home@, #[trigger] sensitive_home_names()[j], PathStyle::Posix), PathStyle::Posix),
            forall|j: int| 0 <= j < k ==> !path_starts_with(path@, #[trigger] sensitive_system_roots(platform@)[j], PathStyle::Posix),
        decreases roots.len() - k,
    {
        assert(sensitive_system_roots(platform@)[k as int] == roots@[k as int]@);
        if path_starts_with_exec(path, roots[k].as_str(), PathStyle::Posix) {
            return true;
        }
        k = k + 1;
    }
    false
}

fn has_parent_exec(p: &str) -> (r: bool)
    ensures
        r == has_parent(p@, PathStyle::Posix),
{
    let c = components_exec(chars_of(p).as_slice(), PathStyle::Posix);
    if c.len() == 0 {
        return false;
    }
    assert(comp_views(c@).last() == c@[c@.len() - 1]@);
    match &c[c.len() - 1] {
        Component::RootDir => false,
        Component::Prefix(_) => false,
        _ => true,
    }
}

fn has_parent_dir(c: &[Component]) -> (r: bool)
    ensures
        r == comp_views(c@).contains(Comp::Parent),
{
    let mut i: usize = 0;
    while i < c.len()
        invariant
            i <= c@.len(),
            forall|j: int| 0 <= j < i ==> comp_views(c@)[j] != Comp::Parent,
        decreases c.len() - i,
    {
        if let Component::ParentDir = &c[i] {
            assert(comp_views(c@)[i as int] == Comp::Parent);
            return true;
        }
        assert(comp_views(c@)[i as int] == c@[i as int]@);
        i = i + 1;
    }
    false
}

fn access_error(root: &str, e: &FsError) -> (r: CommandError)
    ensures
        rejection_error(r, root@, RootRejection::Access { kind: e.kind, details: e.details@ }),
{
    let code = match e.kind {
        FsErrorKind::NotFound => ErrorCode::PathNotFound,
        FsErrorKind::PermissionDenied => ErrorCode::PermissionDenied,
        FsErrorKind::Other => ErrorCode::FilesystemError,
    };
    CommandError::new(code, "A duplicate scan path could not be accessed.", true).with_path(root).with_details(e.details.as_str())
}

/// Checks one root; returns its resolved path when it is accepted.
fn check_root(root: &str, facts: &RootFacts, home: &str, platform: &str) -> (r: Result<String, CommandError>)
    ensures
        match root_rejection(root@, *facts, home@, platform@) {
            None => r matches Ok(c) && facts.canonical matches Ok(fc) && c@ == fc@,
            Some(why) => r matches Err(e) && rejection_error(e, root@, why),
        },
{
    let chars = chars_of(root);
    let c = components_exec(chars.as_slice(), PathStyle::Posix);
    if !is_absolute_exec(chars.as_slice(), PathStyle::Posix) || has_parent_dir(c.as_slice()) {
        return Err(CommandError::new(ErrorCode::InvalidPath, "Duplicate scan folders must be absolute and cannot contain traversal.", true).with_path(root));
    }
    match &facts.link {
        Err(e) => return Err(access_error(root, e)),
        Ok(stat) => {
            if stat.is_symlink || !stat.is_dir {
                return Err(CommandError::new(ErrorCode::InvalidPath, "Duplicate scan roots must be real directories, not files or symbolic links.", true).with_path(root));
            }
        },
    }
    match &facts.canonical {
        Err(e) => Err(access_error(root, e)),
        Ok(canonical) => {
            if !has_parent_exec(canonical.as_str()) || same_path_exec(canonical.as_str(), home, PathStyle::Posix)
                || is_sensitive_root_exec(canonical.as_str(), home, platform) {
                Err(CommandError::new(ErrorCode::PathProtected, "Choose a narrower folder. Filesystem, home, credential, and system roots are protected.", true).with_path(root))
            } else {
                Ok(canonical.clone())
            }
        },
    }
}

/// The message for a root count outside `1..=limit`.
pub open spec fn count_message(limit: u64) -> Seq<char> {
    "Choose between 1 and "@ + decimal(limit as nat) + " folders for duplicate analysis."@
}

/// Validates between 1 and `limit` selected roots against what the file system
/// said about each (`facts[i]` for `roots[i]`) and the resolved home folder;
/// reports the first refused root, or returns the accepted roots resolved, in
/// `Path` order, without repeats or nested roots.
pub fn validate_roots_with_limit(
    roots: &[String],
    home: &str,
    platform: &str,
    facts: &[RootFacts],
    limit: u64,
) -> (r: Result<Vec<String>, CommandError>)
    requires
        facts@.len() == roots@.len(),
    ensures
        (roots@.len() == 0 || roots@.len() > limit) ==> (r matches Err(e) && e.code == ErrorCode::InvalidPath
            && e.message@ == count_message(limit) && e.recoverable && e.path is None && e.details is None),
        !(roots@.len() == 0 || roots@.len() > limit) ==> match first_rejection(roots@, facts@, home@, platform@, roots@.len() as int) {
            Some((i, why)) => r matches Err(e) && rejection_error(e, roots@[i]@, why),
            None => r matches Ok(v) && narrowed_roots(string_views(v@), canonical_views(facts@)),
        },
{
    if roots.len() == 0 || roots.len() as u64 > limit {
        let mut message = String::from_str("Choose between 1 and ");
        push_decimal(&mut message, limit);
        message.append(" folders for duplicate analysis.");
        return Err(CommandError { code: ErrorCode::InvalidPath, message, recoverable: true, path: None, details: None });
    }
    let mut sorted: Vec<String> = Vec::new();
    let mut i: usize = 0;
    while i < roots.len()
        invariant
            i <= roots@.len(),
            0 < roots@.len() <= limit,
            facts@.len() == roots@.len(),
            first_rejection(roots@, facts@, home@, platform@, i as int) is None,
            strictly_sorted_paths(string_views(sorted@)),
            forall|q: Seq<char>| has_path(string_views(sorted@), q) <==> has_path(canonical_views(facts@).subrange(0, i as int), q),
            forall|k: int| 0 <= k < sorted@.len() ==> canonical_views(facts@).subrange(0, i as int).contains(#[trigger] string_views(sorted@)[k]),
        decreases roots.len() - i,
    {
        match check_root(roots[i].as_str(), &facts[i], home, platform) {
            Err(e) => {
                proof { lemma_first_rejection_stable(roots@, facts@, home@, platform@, i + 1, roots@.len() as int); }
                return Err(e);
            },
            Ok(canonical) => {
                let ghost before = string_views(sorted@);
                let ghost prev = canonical_views(facts@).subrange(0, i as int);
                let ghost next = canonical_views(facts@).subrange(0, i + 1);
                assert(next =~= prev.push(canonical@));
                insert_path_sorted(&mut sorted, canonical);
                proof {
                    assert forall|q: Seq<char>| has_path(string_views(sorted@), q) <==> has_path(next, q) by {
                        if has_path(next, q) && !has_path(prev, q) {
                            let k = choose|k: int| 0 <= k < next.len() && same_path(#[trigger] next[k], q, PathStyle::Posix);
                            assert(k == i);
                        }
                        if has_path(prev, q) {
                            let k = choose|k: int| 0 <= k < prev.len() && same_path(#[trigger] prev[k], q, PathStyle::Posix);
                            assert(next[k] == prev[k]);
                        }
                        if same_path(canonical@, q, PathStyle::Posix) {
                            assert(next[i as int] == canonical@);
                        }
                    }
                    assert forall|k: int| 0 <= k < sorted@.len() implies next.contains(#[trigger] string_views(sorted@)[k]) by {
                        if before.contains(string_views(sorted@)[k]) {
                            let j = choose|j: int| 0 <= j < before.len() && before[j] == string_views(sorted@)[k];
                            assert(prev.contains(before[j]));
                            let m = choose|m: int| 0 <= m < prev.len() && prev[m] == before[j];
                            assert(next[m] == prev[m]);
                        } else {
                            assert(next[i as int] == canonical@);
                        }
                    }
                }
            },
        }
        i = i + 1;
    }
    let ghost canons = canonical_views(facts@);
    assert(canons.subrange(0, roots@.len() as int) =~= canons);
    let mut narrowed: Vec<String> = Vec::new();
    let mut j: usize = 0;
    while j < sorted.len()
        invariant
            j <= sorted@.len(),
            strictly_sorted_paths(string_views(sorted@)),
            forall|q: Seq<char>| has_path(string_views(sorted@), q) <==> has_path(canons, q),
            forall|k: int| 0 <= k < sorted@.len() ==> canons.contains(#[trigger] string_views(sorted@)[k]),
            strictly_sorted_paths(string_views(narrowed@)),
            drawn_from(string_views(narrowed@), string_views(sorted@), j as int),
            forall|q: Seq<char>| #![trigger has_path(string_views(narrowed@), q)] #![trigger has_path(string_views(sorted@).subrange(0, j as int), q)]
                has_path(string_views(narrowed@), q) <==> (has_path(string_views(sorted@).subrange(0, j as int), q) && !nested_in_other(canons, q)),
        decreases sorted.len() - j,
    {
        let x = sorted[j].as_str();
        let mut nested = false;
        let mut m: usize = 0;
        while m < sorted.len()
            invariant
                m <= sorted@.len(),
                j < sorted@.len(),
                x@ == string_views(sorted@)[j as int],
                nested == exists|d: int| 0 <= d < m && !same_path(#[trigger] string_views(sorted@)[d], x@, PathStyle::Posix)
                    && path_starts_with(x@, string_views(sorted@)[d], PathStyle::Posix),
            decreases sorted.len() - m,
        {
            assert(string_views(sorted@)[m as int] == sorted@[m as int]@);
            if !nested && !same_path_exec(sorted[m].as_str(), x, PathStyle::Posix)
                && path_starts_with_exec(x, sorted[m].as_str(), PathStyle::Posix) {
                nested = true;
            }
            m = m + 1;
        }
        proof {
            let sv = string_views(sorted@);
            // Nesting inside a kept path is nesting inside a selected root, and back.
            assert(nested == nested_in_other(canons, x@)) by {
                if nested {
                    let d = choose|d: int| 0 <= d < sorted@.len() && !same_path(#[trigger] sv[d], x@, PathStyle::Posix)
                        && path_starts_with(x@, sv[d], PathStyle::Posix);
                    assert(canons.contains(sv[d]));
                    let e = choose|e: int| 0 <= e < canons.len() && canons[e] == sv[d];
                    assert(!same_path(canons[e], x@, PathStyle::Posix));
                }
                if nested_in_other(canons, x@) {
                    let e = choose|e: int| 0 <= e < canons.len() && !same_path(#[trigger] canons[e], x@, PathStyle::Posix)
                        && path_starts_with(x@, canons[e], PathStyle::Posix);
                    assert(has_path(canons, canons[e]));
                    assert(has_path(sv, canons[e]));
                    let d = choose|d: int| 0 <= d < sv.len() && same_path(#[trigger] sv[d], canons[e], PathStyle::Posix);
                    assert(!same_path(sv[d], x@, PathStyle::Posix));
                }
            }
        }
        let ghost before = string_views(narrowed@);
        if !nested {
            narrowed.push(sorted[j].clone());
        }
        proof {
            let sv = string_views(sorted@);
            let after = string_views(narrowed@);
            if !nested {
                assert(after =~= before.push(sv[j as int]));
                assert forall|a: int, b: int| 0 <= a < b < after.len() implies path_lt(#[trigger] after[a], #[trigger] after[b]) by {
                    if b == after.len() - 1 {
                        let mm = choose|mm: int| 0 <= mm < j && before[a] == #[trigger] sv[mm];
                        assert(path_lt(sv[mm], sv[j as int]));
                    } else {
                        assert(after[a] == before[a] && after[b] == before[b]);
                    }
                }
                assert forall|k: int| 0 <= k < after.len() implies exists|mm: int| 0 <= mm < j + 1 && #[trigger] after[k] == #[trigger] sv[mm] by {
                    if k == after.len() - 1 {
                        assert(after[k] == sv[j as int]);
                    } else {
                        assert(after[k] == before[k]);
                        let mm = choose|mm: int| 0 <= mm < j && before[k] == #[trigger] sv[mm];
                        assert(after[k] == sv[mm]);
                    }
                }
                assert(drawn_from(after, sv, j + 1));
            } else {
                assert(after == before);
                assert forall|k: int| 0 <= k < after.len() implies exists|mm: int| 0 <= mm < j + 1 && #[trigger] after[k] == #[trigger] sv[mm] by {
                    let mm = choose|mm: int| 0 <= mm < j && before[k] == #[trigger] sv[mm];
                    assert(after[k] == sv[mm]);
                }
                assert(drawn_from(after, sv, j + 1));
            }
            assert(sv.subrange(0, j + 1) =~= sv.subrange(0, j as int).push(sv[j as int]));
            let pre = sv.subrange(0, j as int);
            let pre1 = sv.subrange(0, j + 1);
            assert forall|q: Seq<char>| has_path(after, q) implies (has_path(pre1, q) && !nested_in_other(canons, q)) by {
                let k = choose|k: int| 0 <= k < after.len() && same_path(#[trigger] after[k], q, PathStyle::Posix);
                if !nested && k == after.len() - 1 {
                    assert(after[k] == sv[j as int]);
                    assert(pre1[j as int] == sv[j as int]);
                    lemma_nested_congruent(canons, sv[j as int], q);
                } else {
                    assert(after[k] == before[k]);
                    assert(has_path(before, q));
                    assert(has_path(pre, q));
                    let m = choose|m: int| 0 <= m < pre.len() && same_path(#[trigger] pre[m], q, PathStyle::Posix);
                    assert(pre1[m] == pre[m]);
                }
            }
            assert forall|q: Seq<char>| (has_path(pre1, q) && !nested_in_other(canons, q)) implies has_path(after, q) by {
                let k = choose|k: int| 0 <= k < pre1.len() && same_path(#[trigger] pre1[k], q, PathStyle::Posix);
                if k == j {
                    assert(pre1[k] == sv[j as int]);
                    lemma_nested_congruent(canons, sv[j as int], q);
                    assert(!nested);
                    assert(after[after.len() - 1] == sv[j as int]);
                } else {
                    assert(pre[k] == pre1[k]);
                    assert(has_path(pre, q));
                    assert(has_path(before, q));
                    let m = choose|m: int| 0 <= m < before.len() && same_path(#[trigger] before[m], q, PathStyle::Posix);
                    assert(after[m] == before[m]);
                }
            }
        }
        j = j + 1;
    }
    assert(string_views(sorted@).subrange(0, sorted@.len() as int) =~= string_views(sorted@));
    Ok(narrowed)
}

/// Validates between 1 and 8 selected roots (see `validate_roots_with_limit`).
pub fn validate_roots(roots: &[String], home: &str, platform: &str, facts: &[RootFacts]) -> (r: Result<Vec<String>, CommandError>)
    requires
        facts@.len() == roots@.len(),
    ensures
        (roots@.len() == 0 || roots@.len() > 8) ==> (r matches Err(e) && e.code == ErrorCode::InvalidPath
            && e.message@ == count_message(8) && e.recoverable && e.path is None && e.details is None),
        !(roots@.len() == 0 || roots@.len() > 8) ==> match first_rejection(roots@, facts@, home@, platform@, roots@.len() as int) {
            Some((i, why)) => r matches Err(e) && rejection_error(e, roots@[i]@, why),
            None => r matches Ok(v) && narrowed_roots(string_views(v@), canonical_views(facts@)),
        },
{
    validate_roots_with_limit(roots, home, platform, facts, 8)
}

} // verus!
