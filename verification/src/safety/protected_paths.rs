use vstd::prelude::*;
use crate::paths::{
    PathStyle, components, components_exec, join, join_exec, names_prefix, names_prefix_ci,
    normalize, normalize_exec, opt_views, root_len, views, comp_views, comps_prefix_exec,
    is_sep, has_drive, has_drive_exec, is_sep_exec, slice_range, no_double_dot, lemma_rooted_name,
};
use crate::text::{chars_of, lower, lower_chars, same_text, slices_equal, string_of};

verus! {

/// Why a path is protected: the (normalized) protected root that covers it
/// and a short description of that root.
#[derive(Debug, Clone)]
pub struct ProtectionReason {
    pub protected_root: String,
    pub reason: String,
}

/// The lexical protection policy of one platform for one home folder.
#[derive(Debug, Clone)]
pub struct ProtectedPathPolicy {
    home: String,
    roots: Vec<(String, String)>,
    case_insensitive: bool,
    style: PathStyle,
}

/// `base.join(part)` for every relative part, each with its reason.
pub open spec fn joined(base: Seq<char>, style: PathStyle, parts: Seq<(Seq<char>, Seq<char>)>) -> Seq<(Seq<char>, Seq<char>)> {
    parts.map_values(|p: (Seq<char>, Seq<char>)| (join(base, p.0, style), p.1))
}

/// The root of a path that `Path::ancestors` ends with.
pub open spec fn last_ancestor(s: Seq<char>, style: PathStyle) -> Seq<char> {
    if has_drive(s, style) {
        if s.len() >= 3 && is_sep(s[2], style) { s.subrange(0, 3) } else { s.subrange(0, 2) }
    } else if s.len() > 0 && is_sep(s[0], style) {
        s.subrange(0, 1)
    } else {
        Seq::empty()
    }
}

pub open spec fn home_roots() -> Seq<(Seq<char>, Seq<char>)> {
    seq![
        (".ssh"@, "SSH credentials"@),
        (".gnupg"@, "GPG credentials"@),
        (".aws"@, "cloud credentials"@),
        (".kube/config"@, "Kubernetes credentials"@),
        ("Documents"@, "user documents"@),
        ("Desktop"@, "user desktop"@),
        ("Pictures"@, "user pictures"@),
        ("Movies"@, "user movies"@),
        ("Music"@, "user music"@),
    ]
}

pub open spec fn macos_system_roots() -> Seq<Seq<char>> {
    seq!["/System"@, "/usr"@, "/bin"@, "/sbin"@, "/etc"@, "/var"@, "/Applications"@, "/private/var/db"@]
}

pub open spec fn linux_system_roots() -> Seq<Seq<char>> {
    seq!["/usr"@, "/bin"@, "/sbin"@, "/etc"@, "/var"@, "/proc"@, "/sys"@, "/dev"@, "/run"@, "/root"@, "/lost+found"@]
}

pub open spec fn windows_system_names() -> Seq<Seq<char>> {
    seq!["Windows"@, "Program Files"@, "Program Files (x86)"@, "ProgramData"@, "Recovery"@, "System Volume Information"@, "$Recycle.Bin"@]
}

pub open spec fn macos_home_extras() -> Seq<(Seq<char>, Seq<char>)> {
    seq![
        ("Library/Keychains"@, "macOS keychains"@),
        ("Library/Mail"@, "mail data"@),
        ("Library/Messages"@, "message data"@),
    ]
}

pub open spec fn windows_home_extras() -> Seq<(Seq<char>, Seq<char>)> {
    seq![
        ("AppData/Roaming/Microsoft/Protect"@, "Windows data-protection keys"@),
        ("AppData/Roaming/Microsoft/Credentials"@, "Windows credentials"@),
        ("AppData/Local/Microsoft/Credentials"@, "Windows credentials"@),
    ]
}

/// The system roots of a platform, each marked as a system path.
pub open spec fn system_roots(home: Seq<char>, platform: Seq<char>) -> Seq<(Seq<char>, Seq<char>)> {
    if platform == "macos"@ {
        macos_system_roots().map_values(|p: Seq<char>| (p, "system path"@))
    } else if platform == "linux"@ {
        linux_system_roots().map_values(|p: Seq<char>| (p, "system path"@))
    } else if platform == "windows"@ {
        windows_system_names().map_values(|p: Seq<char>| (join(last_ancestor(home, PathStyle::Windows), p, PathStyle::Windows), "system path"@))
    } else {
        Seq::empty()
    }
}

pub open spec fn style_of(platform: Seq<char>) -> PathStyle {
    if platform == "windows"@ { PathStyle::Windows } else { PathStyle::Posix }
}

/// Every protected root of a platform with its reason, in declaration order.
pub open spec fn policy_roots(home: Seq<char>, platform: Seq<char>) -> Seq<(Seq<char>, Seq<char>)> {
    let style = style_of(platform);
    seq![("/"@, "filesystem root"@), (home, "home directory"@)]
        + joined(home, style, home_roots())
        + system_roots(home, platform)
        + (if platform == "macos"@ { joined(home, style, macos_home_extras()) } else { Seq::empty() })
        + (if platform == "windows"@ { joined(home, style, windows_home_extras()) } else { Seq::empty() })
}

/// A normalized candidate lies at or below a normalized root (ignoring ASCII
/// case when asked); a filesystem root covers only itself.
pub open spec fn covers(candidate: Seq<Seq<char>>, root: Seq<Seq<char>>, style: PathStyle, ci: bool) -> bool {
    &&& (if ci { names_prefix_ci(candidate, root) } else { names_prefix(candidate, root) })
    &&& (root.len() != root_len(style) || candidate.len() == root.len())
}

/// The root at `i` covers the normalized candidate.
pub open spec fn root_covers(roots: Seq<(Seq<char>, Seq<char>)>, i: int, candidate: Seq<Seq<char>>, style: PathStyle, ci: bool) -> bool {
    match normalize(roots[i].0, style) {
        None => false,
        Some(r) => covers(candidate, r, style, ci),
    }
}

/// The depth by which roots are ranked: the component count of the root as written.
pub open spec fn depth(roots: Seq<(Seq<char>, Seq<char>)>, i: int, style: PathStyle) -> int {
    components(roots[i].0, style).len() as int
}

/// Among the first `n` roots, the index of the deepest one that covers the
/// candidate, the earliest among equally deep ones.
pub open spec fn best_upto(roots: Seq<(Seq<char>, Seq<char>)>, n: int, candidate: Seq<Seq<char>>, style: PathStyle, ci: bool) -> Option<int>
    decreases n,
{
    if n <= 0 {
        None
    } else {
        let prev = best_upto(roots, n - 1, candidate, style, ci);
        if root_covers(roots, n - 1, candidate, style, ci) && (prev is None || depth(roots, n - 1, style) > depth(roots, prev->0, style)) {
            Some(n - 1)
        } else {
            prev
        }
    }
}

/// Normalized names rendered back to a path text.
pub open spec fn render(names: Seq<Seq<char>>, style: PathStyle) -> Seq<char> {
    match style {
        PathStyle::Posix => if names.len() == 0 { seq!['/'] } else { prefixed(names, '/') },
        PathStyle::Windows => if names.len() <= 1 {
            (if names.len() == 1 { names[0] } else { Seq::empty() }).push('\\')
        } else {
            names[0] + prefixed(names.skip(1), '\\')
        },
    }
}

/// Each name preceded by the separator, concatenated.
pub open spec fn prefixed(names: Seq<Seq<char>>, sep: char) -> Seq<char>
    decreases names.len(),
{
    if names.len() == 0 {
        Seq::empty()
    } else {
        prefixed(names.drop_last(), sep).push(sep) + names.last()
    }
}

/// What the protection policy of a home folder and platform answers for a
/// candidate (see `ProtectedPathPolicy::check_spec`).
pub open spec fn policy_check(home: Seq<char>, platform: Seq<char>, candidate: Seq<char>) -> Option<(Seq<char>, Seq<char>)> {
    let style = style_of(platform);
    let roots = policy_roots(home, platform);
    let ci = platform == "windows"@;
    match normalize(candidate, style) {
        None => None,
        Some(c) => match best_upto(roots, roots.len() as int, c, style, ci) {
            None => None,
            Some(i) => Some((render(normalize(roots[i].0, style)->0, style), roots[i].1)),
        },
    }
}

/// What the policy's cleanup check answers (see `ProtectedPathPolicy::cleanup_check_spec`).
pub open spec fn policy_cleanup_check(home: Seq<char>, platform: Seq<char>, candidate: Seq<char>, exact_known_rule_target: bool) -> Option<(Seq<char>, Seq<char>)> {
    match policy_check(home, platform, candidate) {
        None => None,
        Some(r) => if exact_known_rule_target && components(r.0, style_of(platform)) == components(home, style_of(platform)) {
            None
        } else {
            Some(r)
        },
    }
}

impl ProtectedPathPolicy {
    pub closed spec fn home_view(&self) -> Seq<char> {
        self.home@
    }

    pub closed spec fn style_view(&self) -> PathStyle {
        self.style
    }

    pub closed spec fn ci_view(&self) -> bool {
        self.case_insensitive
    }

    /// The protected roots with their reasons.
    pub closed spec fn roots_view(&self) -> Seq<(Seq<char>, Seq<char>)> {
        self.roots@.map_values(|r: (String, String)| (r.0@, r.1@))
    }

    /// What `check` answers for a candidate path text.
    pub open spec fn check_spec(&self, candidate: Seq<char>) -> Option<(Seq<char>, Seq<char>)> {
        match normalize(candidate, self.style_view()) {
            None => None,
            Some(c) => match best_upto(self.roots_view(), self.roots_view().len() as int, c, self.style_view(), self.ci_view()) {
                None => None,
                Some(i) => Some((render(normalize(self.roots_view()[i].0, self.style_view())->0, self.style_view()), self.roots_view()[i].1)),
            },
        }
    }

    /// What `check_cleanup_candidate` answers.
    pub open spec fn cleanup_check_spec(&self, candidate: Seq<char>, exact_known_rule_target: bool) -> Option<(Seq<char>, Seq<char>)> {
        match self.check_spec(candidate) {
            None => None,
            Some(r) => if exact_known_rule_target && components(r.0, self.style_view()) == components(self.home_view(), self.style_view()) {
                None
            } else {
                Some(r)
            },
        }
    }
}

pub open spec fn reason_view(r: Option<ProtectionReason>) -> Option<(Seq<char>, Seq<char>)> {
    match r {
        None => None,
        Some(x) => Some((x.protected_root@, x.reason@)),
    }
}


/// Appends `(text, reason)` as owned strings.
fn push_root(roots: &mut Vec<(String, String)>, text: &str, reason: &str)
    ensures
        final(roots)@.len() == old(roots)@.len() + 1,
        forall|j: int| 0 <= j < old(roots)@.len() ==> final(roots)@[j] == old(roots)@[j],
        final(roots)@.last().0@ == text@,
        final(roots)@.last().1@ == reason@,
{
    roots.push((String::from_str(text), String::from_str(reason)));
}

/// Appends `(base.join(part), reason)`.
fn push_joined(roots: &mut Vec<(String, String)>, base: &str, style: PathStyle, part: &str, reason: &str)
    ensures
        final(roots)@.len() == old(roots)@.len() + 1,
        forall|j: int| 0 <= j < old(roots)@.len() ==> final(roots)@[j] == old(roots)@[j],
        final(roots)@.last().0@ == join(base@, part@, style),
        final(roots)@.last().1@ == reason@,
{
    let joined = join_exec(base, part, style);
    roots.push((joined, String::from_str(reason)));
}

pub open spec fn pair_views(v: Seq<(String, String)>) -> Seq<(Seq<char>, Seq<char>)> {
    v.map_values(|r: (String, String)| (r.0@, r.1@))
}

/// The root that `Path::ancestors` ends with (see `last_ancestor`).
fn last_ancestor_exec(s: &str, style: PathStyle) -> (r: String)
    ensures
        r@ == last_ancestor(s@, style),
{
    let c = chars_of(s);
    if has_drive_exec(c.as_slice(), style) {
        if c.len() >= 3 && is_sep_exec(c[2], style) {
            string_of(slice_range(c.as_slice(), 0, 3).as_slice())
        } else {
            string_of(slice_range(c.as_slice(), 0, 2).as_slice())
        }
    } else if c.len() > 0 && is_sep_exec(c[0], style) {
        string_of(slice_range(c.as_slice(), 0, 1).as_slice())
    } else {
        String::new()
    }
}

/// Lower-cased views of a list of names agree on a prefix.
pub fn names_prefix_exec(names: &[Vec<char>], prefix: &[Vec<char>], ci: bool) -> (r: bool)
    ensures
        r == (if ci { names_prefix_ci(views(names@), views(prefix@)) } else { names_prefix(views(names@), views(prefix@)) }),
{
    if prefix.len() > names.len() {
        return false;
    }
    let mut i: usize = 0;
    while i < prefix.len()
        invariant
            prefix@.len() <= names@.len(),
            i <= prefix@.len(),
            forall|j: int| 0 <= j < i ==> (if ci { lower(#[trigger] views(names@)[j]) == lower(views(prefix@)[j]) } else { views(names@)[j] == views(prefix@)[j] }),
        decreases prefix.len() - i,
    {
        let same = if ci {
            let a = lower_chars(names[i].as_slice());
            let b = lower_chars(prefix[i].as_slice());
            slices_equal(a.as_slice(), b.as_slice())
        } else {
            slices_equal(names[i].as_slice(), prefix[i].as_slice())
        };
        if !same {
            assert(views(names@)[i as int] == names@[i as int]@);
            assert(views(prefix@)[i as int] == prefix@[i as int]@);
            return false;
        }
        assert(views(names@)[i as int] == names@[i as int]@);
        assert(views(prefix@)[i as int] == prefix@[i as int]@);
        i = i + 1;
    }
    true
}

/// Normalized names rendered back to a path text (see `render`).
fn render_exec(names: &[Vec<char>], style: PathStyle) -> (r: Vec<char>)
    requires
        style == PathStyle::Windows ==> names@.len() >= 1,
    ensures
        r@ == render(views(names@), style),
{
    let mut out: Vec<char> = Vec::new();
    let (sep, start): (char, usize) = match style {
        PathStyle::Posix => ('/', 0),
        PathStyle::Windows => ('\\', 1),
    };
    if style == PathStyle::Windows {
        crate::paths::append_chars(&mut out, names[0].as_slice());
        if names.len() == 1 {
            out.push('\\');
            return out;
        }
    } else if names.len() == 0 {
        out.push('/');
        assert(out@ =~= seq!['/']);
        return out;
    }
    let ghost base = out@;
    let mut i: usize = start;
    while i < names.len()
        invariant
            start <= i <= names@.len(),
            out@ == base + prefixed(views(names@).subrange(start as int, i as int), sep),
        decreases names.len() - i,
    {
        let ghost before = views(names@).subrange(start as int, i as int);
        let ghost after = views(names@).subrange(start as int, i + 1);
        assert(after.drop_last() =~= before);
        out.push(sep);
        crate::paths::append_chars(&mut out, names[i].as_slice());
        assert(out@ =~= base + prefixed(after, sep));
        i = i + 1;
    }
    assert(views(names@).subrange(start as int, names@.len() as int) =~= views(names@).skip(start as int));
    if style == PathStyle::Posix {
        assert(views(names@).skip(0) =~= views(names@));
        assert(out@ =~= render(views(names@), style));
    } else {
        assert(base == names@[0]@);
    }
    out
}

impl ProtectedPathPolicy {
    /// The protection policy of `platform` ("macos", "linux", "windows", or
    /// another name with only the common roots) for the given home folder.
    pub fn for_platform(home: &str, platform: &str) -> (p: Self)
        ensures
            p.home_view() == home@,
            p.style_view() == style_of(platform@),
            p.ci_view() == (platform@ == "windows"@),
            p.roots_view() == policy_roots(home@, platform@),
    {
        let is_windows = same_text(platform, "windows");
        let is_macos = same_text(platform, "macos");
        let is_linux = same_text(platform, "linux");
        let style = if is_windows { PathStyle::Windows } else { PathStyle::Posix };
        let mut roots: Vec<(String, String)> = Vec::new();
        push_root(&mut roots, "/", "filesystem root");
        push_root(&mut roots, home, "home directory");
        assert(pair_views(roots@) =~= seq![("/"@, "filesystem root"@), (home@, "home directory"@)]);
        let ghost r0 = pair_views(roots@);
        push_joined(&mut roots, home, style, ".ssh", "SSH credentials");
        push_joined(&mut roots, home, style, ".gnupg", "GPG credentials");
        push_joined(&mut roots, home, style, ".aws", "cloud credentials");
        push_joined(&mut roots, home, style, ".kube/config", "Kubernetes credentials");
        push_joined(&mut roots, home, style, "Documents", "user documents");
        push_joined(&mut roots, home, style, "Desktop", "user desktop");
        push_joined(&mut roots, home, style, "Pictures", "user pictures");
        push_joined(&mut roots, home, style, "Movies", "user movies");
        push_joined(&mut roots, home, style, "Music", "user music");
        assert(pair_views(roots@) =~= r0 + joined(home@, style, home_roots()));
        let ghost r1 = pair_views(roots@);
        if is_macos {
            push_root(&mut roots, "/System", "system path");
            push_root(&mut roots, "/usr", "system path");
            push_root(&mut roots, "/bin", "system path");
            push_root(&mut roots, "/sbin", "system path");
            push_root(&mut roots, "/etc", "system path");
            push_root(&mut roots, "/var", "system path");
            push_root(&mut roots, "/Applications", "system path");
            push_root(&mut roots, "/private/var/db", "system path");
        } else if is_linux {
            push_root(&mut roots, "/usr", "system path");
            push_root(&mut roots, "/bin", "system path");
            push_root(&mut roots, "/sbin", "system path");
            push_root(&mut roots, "/etc", "system path");
            push_root(&mut roots, "/var", "system path");
            push_root(&mut roots, "/proc", "system path");
            push_root(&mut roots, "/sys", "system path");
            push_root(&mut roots, "/dev", "system path");
            push_root(&mut roots, "/run", "system path");
            push_root(&mut roots, "/root", "system path");
            push_root(&mut roots, "/lost+found", "system path");
        } else if is_windows {
            let drive_root = last_ancestor_exec(home, PathStyle::Windows);
            push_joined(&mut roots, drive_root.as_str(), PathStyle::Windows, "Windows", "system path");
            push_joined(&mut roots, drive_root.as_str(), PathStyle::Windows, "Program Files", "system path");
            push_joined(&mut roots, drive_root.as_str(), PathStyle::Windows, "Program Files (x86)", "system path");
            push_joined(&mut roots, drive_root.as_str(), PathStyle::Windows, "ProgramData", "system path");
            push_joined(&mut roots, drive_root.as_str(), PathStyle::Windows, "Recovery", "system path");
            push_joined(&mut roots, drive_root.as_str(), PathStyle::Windows, "System Volume Information", "system path");
            push_joined(&mut roots, drive_root.as_str(), PathStyle::Windows, "$Recycle.Bin", "system path");
        }
        assert(pair_views(roots@) =~= r1 + system_roots(home@, platform@));
        let ghost r2 = pair_views(roots@);
        if is_macos {
            push_joined(&mut roots, home, style, "Library/Keychains", "macOS keychains");
            push_joined(&mut roots, home, style, "Library/Mail", "mail data");
            push_joined(&mut roots, home, style, "Library/Messages", "message data");
        }
        assert(pair_views(roots@) =~= r2 + (if platform@ == "macos"@ { joined(home@, style, macos_home_extras()) } else { Seq::empty() }));
        let ghost r3 = pair_views(roots@);
        if is_windows {
            push_joined(&mut roots, home, style, "AppData/Roaming/Microsoft/Protect", "Windows data-protection keys");
            push_joined(&mut roots, home, style, "AppData/Roaming/Microsoft/Credentials", "Windows credentials");
            push_joined(&mut roots, home, style, "AppData/Local/Microsoft/Credentials", "Windows credentials");
        }
        assert(pair_views(roots@) =~= r3 + (if platform@ == "windows"@ { joined(home@, style, windows_home_extras()) } else { Seq::empty() }));
        ProtectedPathPolicy { home: String::from_str(home), roots, case_insensitive: is_windows, style }
    }
}


/// Whether two component lists are equal.
fn comps_equal(a: &[crate::paths::Component], b: &[crate::paths::Component]) -> (r: bool)
    ensures
        r == (comp_views(a@) == comp_views(b@)),
{
    if a.len() != b.len() {
        return false;
    }
    let r = comps_prefix_exec(a, b);
    if r {
        assert(comp_views(a@).subrange(0, comp_views(b@).len() as int) =~= comp_views(a@));
    } else {
        assert(comp_views(a@).subrange(0, comp_views(b@).len() as int) =~= comp_views(a@));
    }
    r
}

impl ProtectedPathPolicy {
    /// The protection that covers a path, if any: the deepest covering root
    /// (the earliest among equally deep ones). Relative paths and paths that
    /// climb above their root are never reported.
    pub fn check(&self, candidate: &str) -> (r: Option<ProtectionReason>)
        ensures
            reason_view(r) == self.check_spec(candidate@),
    {
        let cand = match normalize_exec(chars_of(candidate).as_slice(), self.style) {
            None => return None,
            Some(c) => c,
        };
        let ghost roots = self.roots_view();
        let ghost cv = views(cand@);
        let mut best: Option<usize> = None;
        let mut best_depth: usize = 0;
        let mut best_names: Vec<Vec<char>> = Vec::new();
        let mut i: usize = 0;
        while i < self.roots.len()
            invariant
                roots == self.roots_view(),
                roots.len() == self.roots@.len(),
                cv == views(cand@),
                i <= roots.len(),
                best_upto(roots, i as int, cv, self.style, self.case_insensitive) == match best {
                    None => None::<int>,
                    Some(b) => Some(b as int),
                },
                best matches Some(b) ==> {
                    &&& b < i
                    &&& best_depth == depth(roots, b as int, self.style)
                    &&& normalize(roots[b as int].0, self.style) == Some(views(best_names@))
                },
            decreases self.roots.len() - i,
        {
            assert(roots[i as int].0 == self.roots@[i as int].0@);
            let root_chars = chars_of(self.roots[i].0.as_str());
            match normalize_exec(root_chars.as_slice(), self.style) {
                None => {},
                Some(rn) => {
                    let prefix_ok = names_prefix_exec(cand.as_slice(), rn.as_slice(), self.case_insensitive);
                    let rl: usize = match self.style {
                        PathStyle::Posix => 0,
                        PathStyle::Windows => 1,
                    };
                    let covered = prefix_ok && (rn.len() != rl || cand.len() == rn.len());
                    if covered {
                        let d = components_exec(root_chars.as_slice(), self.style).len();
                        if best.is_none() || d > best_depth {
                            best = Some(i);
                            best_depth = d;
                            best_names = rn;
                        }
                    }
                },
            }
            i = i + 1;
        }
        match best {
            None => None,
            Some(b) => {
                proof {
                    crate::paths::lemma_raw_segments_nonempty(roots[b as int].0, self.style);
                }
                let text = render_exec(best_names.as_slice(), self.style);
                Some(ProtectionReason { protected_root: string_of(text.as_slice()), reason: self.roots[b].1.clone() })
            },
        }
    }

    /// Like `check`, but a known exact rule target may lie inside the home
    /// folder itself: only the home-folder protection is lifted for it.
    pub fn check_cleanup_candidate(&self, candidate: &str, exact_known_rule_target: bool) -> (r: Option<ProtectionReason>)
        ensures
            reason_view(r) == self.cleanup_check_spec(candidate@, exact_known_rule_target),
    {
        match self.check(candidate) {
            None => None,
            Some(reason) => {
                if exact_known_rule_target {
                    let rc = components_exec(chars_of(reason.protected_root.as_str()).as_slice(), self.style);
                    let hc = components_exec(chars_of(self.home.as_str()).as_slice(), self.style);
                    if comps_equal(rc.as_slice(), hc.as_slice()) {
                        return None;
                    }
                }
                Some(reason)
            },
        }
    }
}


/// `best_upto` finds a covering root exactly when one exists, and the one it
/// finds is a deepest covering root, strictly deeper than every earlier one.
pub proof fn lemma_best_upto(roots: Seq<(Seq<char>, Seq<char>)>, n: int, c: Seq<Seq<char>>, style: PathStyle, ci: bool)
    requires
        0 <= n <= roots.len(),
    ensures
        (best_upto(roots, n, c, style, ci) is Some) <==> (exists|i: int| 0 <= i < n && root_covers(roots, i, c, style, ci)),
        best_upto(roots, n, c, style, ci) matches Some(b) ==> {
            &&& 0 <= b < n
            &&& root_covers(roots, b, c, style, ci)
            &&& forall|i: int| 0 <= i < n && root_covers(roots, i, c, style, ci) ==> depth(roots, i, style) <= depth(roots, b, style)
            &&& forall|i: int| 0 <= i < b && root_covers(roots, i, c, style, ci) ==> depth(roots, i, style) < depth(roots, b, style)
        },
    decreases n,
{
    if n > 0 {
        lemma_best_upto(roots, n - 1, c, style, ci);
        if root_covers(roots, n - 1, c, style, ci) {
        } else {
            assert forall|i: int| 0 <= i < n && root_covers(roots, i, c, style, ci) implies 0 <= i < n - 1 by {}
        }
    }
}

pub proof fn lemma_covers_transitive(d: Seq<Seq<char>>, c: Seq<Seq<char>>, r: Seq<Seq<char>>, style: PathStyle, ci: bool)
    requires
        covers(c, r, style, ci),
        r.len() != root_len(style),
        if ci { names_prefix_ci(d, c) } else { names_prefix(d, c) },
    ensures
        covers(d, r, style, ci),
{
    if ci {
        assert forall|i: int| 0 <= i < r.len() implies lower(#[trigger] d[i]) == lower(r[i]) by {
            assert(lower(d[i]) == lower(c[i]));
            assert(lower(c[i]) == lower(r[i]));
        }
    } else {
        assert forall|i: int| 0 <= i < r.len() implies d[i] == r[i] by {
            assert(d[i] == c[i]);
        }
    }
}

/// A path is reported as protected exactly when it is absolute, does not
/// climb above its root, and lies at or below one of the policy's roots.
pub proof fn law_check_reports_exactly_the_covered_paths(policy: ProtectedPathPolicy, candidate: Seq<char>)
    ensures
        (policy.check_spec(candidate) is Some) <==> (normalize(candidate, policy.style_view()) matches Some(c)
            && exists|i: int| 0 <= i < policy.roots_view().len() && root_covers(policy.roots_view(), i, c, policy.style_view(), policy.ci_view())),
{
    if let Some(c) = normalize(candidate, policy.style_view()) {
        lemma_best_upto(policy.roots_view(), policy.roots_view().len() as int, c, policy.style_view(), policy.ci_view());
    }
}

/// The reported root is a deepest root that covers the path.
pub proof fn law_check_reports_the_deepest_root(policy: ProtectedPathPolicy, candidate: Seq<char>, i: int)
    requires
        normalize(candidate, policy.style_view()) is Some,
        0 <= i < policy.roots_view().len(),
        root_covers(policy.roots_view(), i, normalize(candidate, policy.style_view())->0, policy.style_view(), policy.ci_view()),
    ensures
        policy.check_spec(candidate) is Some,
        best_upto(policy.roots_view(), policy.roots_view().len() as int, normalize(candidate, policy.style_view())->0, policy.style_view(), policy.ci_view()) matches Some(b)
            && depth(policy.roots_view(), i, policy.style_view()) <= depth(policy.roots_view(), b, policy.style_view())
            && root_covers(policy.roots_view(), b, normalize(candidate, policy.style_view())->0, policy.style_view(), policy.ci_view()),
{
    lemma_best_upto(policy.roots_view(), policy.roots_view().len() as int, normalize(candidate, policy.style_view())->0, policy.style_view(), policy.ci_view());
}

/// Protection is inherited: when a path lies below a protected root other than
/// the filesystem root, every path lexically below it is protected too.
pub proof fn law_protection_extends_to_descendants(policy: ProtectedPathPolicy, parent: Seq<char>, child: Seq<char>, i: int)
    requires
        normalize(parent, policy.style_view()) is Some,
        normalize(child, policy.style_view()) is Some,
        if policy.ci_view() {
            names_prefix_ci(normalize(child, policy.style_view())->0, normalize(parent, policy.style_view())->0)
        } else {
            names_prefix(normalize(child, policy.style_view())->0, normalize(parent, policy.style_view())->0)
        },
        0 <= i < policy.roots_view().len(),
        root_covers(policy.roots_view(), i, normalize(parent, policy.style_view())->0, policy.style_view(), policy.ci_view()),
        normalize(policy.roots_view()[i].0, policy.style_view())->0.len() != root_len(policy.style_view()),
    ensures
        policy.check_spec(child) is Some,
{
    let style = policy.style_view();
    let r = normalize(policy.roots_view()[i].0, style)->0;
    lemma_covers_transitive(normalize(child, style)->0, normalize(parent, style)->0, r, style, policy.ci_view());
    law_check_reports_the_deepest_root(policy, child, i);
}

/// A well-formed home folder is itself always protected.
pub proof fn law_home_is_protected(policy: ProtectedPathPolicy, home: Seq<char>, platform: Seq<char>)
    requires
        policy.roots_view() == policy_roots(home, platform),
        policy.style_view() == style_of(platform),
        policy.ci_view() == (platform == "windows"@),
        normalize(home, style_of(platform)) is Some,
    ensures
        policy.check_spec(home) is Some,
{
    let style = style_of(platform);
    assert(policy.roots_view()[1].0 == home);
    let h = normalize(home, style)->0;
    if policy.ci_view() {
        assert(names_prefix_ci(h, h));
    } else {
        assert(names_prefix(h, h));
    }
    assert(root_covers(policy.roots_view(), 1, h, style, policy.ci_view()));
    law_check_reports_the_deepest_root(policy, home, 1);
}

/// Cleanup checks differ from plain checks only by lifting the home-folder
/// protection for known exact rule targets.
pub proof fn law_cleanup_check_only_lifts_home(policy: ProtectedPathPolicy, candidate: Seq<char>)
    ensures
        policy.cleanup_check_spec(candidate, false) == policy.check_spec(candidate),
        policy.check_spec(candidate) is None ==> policy.cleanup_check_spec(candidate, true) is None,
        policy.cleanup_check_spec(candidate, true) matches Some(r) ==> policy.check_spec(candidate) == Some(r),
        policy.cleanup_check_spec(candidate, true) == (match policy.check_spec(candidate) {
            None => None,
            Some(r) => if components(r.0, policy.style_view()) == components(policy.home_view(), policy.style_view()) {
                None
            } else {
                Some(r)
            },
        }),
{
}

/// The reported protection names a root that covers the path, with that
/// root's reason, and no covering root has more components.
pub proof fn law_check_reports_a_covering_root_and_its_reason(policy: ProtectedPathPolicy, candidate: Seq<char>)
    ensures
        policy.check_spec(candidate) matches Some(x) ==> exists|i: int| {
            &&& 0 <= i < policy.roots_view().len()
            &&& #[trigger] root_covers(policy.roots_view(), i, normalize(candidate, policy.style_view())->0, policy.style_view(), policy.ci_view())
            &&& x == (render(normalize(policy.roots_view()[i].0, policy.style_view())->0, policy.style_view()), policy.roots_view()[i].1)
            &&& forall|j: int| 0 <= j < policy.roots_view().len()
                && root_covers(policy.roots_view(), j, normalize(candidate, policy.style_view())->0, policy.style_view(), policy.ci_view())
                ==> depth(policy.roots_view(), j, policy.style_view()) <= depth(policy.roots_view(), i, policy.style_view())
        },
{
    if let Some(c) = normalize(candidate, policy.style_view()) {
        lemma_best_upto(policy.roots_view(), policy.roots_view().len() as int, c, policy.style_view(), policy.ci_view());
    }
}

/// Every root of the policy that is a well-formed absolute path is itself
/// reported as protected.
pub proof fn law_every_root_is_protected(policy: ProtectedPathPolicy, i: int)
    requires
        0 <= i < policy.roots_view().len(),
        normalize(policy.roots_view()[i].0, policy.style_view()) is Some,
    ensures
        policy.check_spec(policy.roots_view()[i].0) is Some,
{
    let style = policy.style_view();
    let r = normalize(policy.roots_view()[i].0, style)->0;
    if policy.ci_view() {
        assert(names_prefix_ci(r, r));
    } else {
        assert(names_prefix(r, r));
    }
    assert(root_covers(policy.roots_view(), i, r, style, policy.ci_view()));
    law_check_reports_the_deepest_root(policy, policy.roots_view()[i].0, i);
}


/// A relative part that joins onto the home folder below it: not empty, not
/// rooted, and without a parent step.
pub open spec fn home_part_ok(x: Seq<char>) -> bool {
    x.len() > 0 && x[0] != '/' && no_double_dot(x)
}

#[verifier::spinoff_prover]
#[verifier::rlimit(50)]
proof fn lemma_home_parts_ok()
    ensures
        forall|i: int| 0 <= i < home_roots().len() ==> home_part_ok(#[trigger] home_roots()[i].0),
        forall|i: int| 0 <= i < macos_home_extras().len() ==> home_part_ok(#[trigger] macos_home_extras()[i].0),
{
    reveal_strlit(".ssh");
    reveal_strlit(".gnupg");
    reveal_strlit(".aws");
    reveal_strlit(".kube/config");
    reveal_strlit("Documents");
    reveal_strlit("Desktop");
    reveal_strlit("Pictures");
    reveal_strlit("Movies");
    reveal_strlit("Music");
    reveal_strlit("Library/Keychains");
    reveal_strlit("Library/Mail");
    reveal_strlit("Library/Messages");
    assert forall|i: int| 0 <= i < home_roots().len() implies home_part_ok(#[trigger] home_roots()[i].0) by {
        let x = home_roots()[i].0;
        assert forall|j: int| 0 <= j < x.len() - 1 implies !(#[trigger] x[j] == '.' && x[j + 1] == '.') by {}
    }
    assert forall|i: int| 0 <= i < macos_home_extras().len() implies home_part_ok(#[trigger] macos_home_extras()[i].0) by {
        let x = macos_home_extras()[i].0;
        assert forall|j: int| 0 <= j < x.len() - 1 implies !(#[trigger] x[j] == '.' && x[j + 1] == '.') by {}
    }
}

/// The system roots of Linux or macOS.
pub open spec fn platform_system_roots(platform: Seq<char>) -> Seq<Seq<char>> {
    if platform == "macos"@ { macos_system_roots() } else { linux_system_roots() }
}

/// Each system root of Linux or macOS normalizes to at least one name.
#[verifier::spinoff_prover]
#[verifier::rlimit(50)]
proof fn lemma_system_roots_normalize(platform: Seq<char>)
    requires
        platform == "linux"@ || platform == "macos"@,
    ensures
        forall|k: int| 0 <= k < platform_system_roots(platform).len() ==>
            (#[trigger] normalize(platform_system_roots(platform)[k], PathStyle::Posix)) is Some
            && normalize(platform_system_roots(platform)[k], PathStyle::Posix)->0.len() >= 1,
{
    reveal_strlit("linux");
    reveal_strlit("macos");
    assert("linux"@[0] != "macos"@[0]);
    if platform == "linux"@ {
        reveal_strlit("/usr");
        reveal_strlit("usr");
        assert(linux_system_roots()[0] =~= seq!['/'] + "usr"@);
        lemma_rooted_name("usr"@);
        reveal_strlit("/bin");
        reveal_strlit("bin");
        assert(linux_system_roots()[1] =~= seq!['/'] + "bin"@);
        lemma_rooted_name("bin"@);
        reveal_strlit("/sbin");
        reveal_strlit("sbin");
        assert(linux_system_roots()[2] =~= seq!['/'] + "sbin"@);
        lemma_rooted_name("sbin"@);
        reveal_strlit("/etc");
        reveal_strlit("etc");
        assert(linux_system_roots()[3] =~= seq!['/'] + "etc"@);
        lemma_rooted_name("etc"@);
        reveal_strlit("/var");
        reveal_strlit("var");
        assert(linux_system_roots()[4] =~= seq!['/'] + "var"@);
        lemma_rooted_name("var"@);
        reveal_strlit("/proc");
        reveal_strlit("proc");
        assert(linux_system_roots()[5] =~= seq!['/'] + "proc"@);
        lemma_rooted_name("proc"@);
        reveal_strlit("/sys");
        reveal_strlit("sys");
        assert(linux_system_roots()[6] =~= seq!['/'] + "sys"@);
        lemma_rooted_name("sys"@);
        reveal_strlit("/dev");
        reveal_strlit("dev");
        assert(linux_system_roots()[7] =~= seq!['/'] + "dev"@);
        lemma_rooted_name("dev"@);
        reveal_strlit("/run");
        reveal_strlit("run");
        assert(linux_system_roots()[8] =~= seq!['/'] + "run"@);
        lemma_rooted_name("run"@);
        reveal_strlit("/root");
        reveal_strlit("root");
        assert(linux_system_roots()[9] =~= seq!['/'] + "root"@);
        lemma_rooted_name("root"@);
        reveal_strlit("/lost+found");
        reveal_strlit("lost+found");
        assert(linux_system_roots()[10] =~= seq!['/'] + "lost+found"@);
        lemma_rooted_name("lost+found"@);
        assert forall|k: int| 0 <= k < platform_system_roots(platform).len() implies
            (#[trigger] normalize(platform_system_roots(platform)[k], PathStyle::Posix)) is Some
            && normalize(platform_system_roots(platform)[k], PathStyle::Posix)->0.len() >= 1 by {
            if k == 0 {} else if k == 1 {} else if k == 2 {} else if k == 3 {} else if k == 4 {} else if k == 5 {} else if k == 6 {} else if k == 7 {} else if k == 8 {} else if k == 9 {} else if k == 10 {}
        }
    } else {
        reveal_strlit("/System");
        reveal_strlit("System");
        assert(macos_system_roots()[0] =~= seq!['/'] + "System"@);
        lemma_rooted_name("System"@);
        reveal_strlit("/usr");
        reveal_strlit("usr");
        assert(macos_system_roots()[1] =~= seq!['/'] + "usr"@);
        lemma_rooted_name("usr"@);
        reveal_strlit("/bin");
        reveal_strlit("bin");
        assert(macos_system_roots()[2] =~= seq!['/'] + "bin"@);
        lemma_rooted_name("bin"@);
        reveal_strlit("/sbin");
        reveal_strlit("sbin");
        assert(macos_system_roots()[3] =~= seq!['/'] + "sbin"@);
        lemma_rooted_name("sbin"@);
        reveal_strlit("/etc");
        reveal_strlit("etc");
        assert(macos_system_roots()[4] =~= seq!['/'] + "etc"@);
        lemma_rooted_name("etc"@);
        reveal_strlit("/var");
        reveal_strlit("var");
        assert(macos_system_roots()[5] =~= seq!['/'] + "var"@);
        lemma_rooted_name("var"@);
        reveal_strlit("/Applications");
        reveal_strlit("Applications");
        assert(macos_system_roots()[6] =~= seq!['/'] + "Applications"@);
        lemma_rooted_name("Applications"@);
        reveal_strlit("/private/var/db");
        reveal_strlit("/private");
        reveal_strlit("private");
        reveal_strlit("var/db");
        assert("/private"@ =~= seq!['/'] + "private"@);
        lemma_rooted_name("private"@);
        assert(join("/private"@, "var/db"@, PathStyle::Posix) =~= "/private/var/db"@);
        assert(no_double_dot("var/db"@)) by {
            let x = "var/db"@;
            assert forall|j: int| 0 <= j < x.len() - 1 implies !(#[trigger] x[j] == '.' && x[j + 1] == '.') by {}
        }
        crate::paths::lemma_no_double_dot_no_parent("var/db"@, PathStyle::Posix);
        crate::paths::lemma_normalize_join("/private"@, "var/db"@);
        assert(macos_system_roots()[7] == "/private/var/db"@);
        assert(normalize(macos_system_roots()[7], PathStyle::Posix)->0[0] == "private"@);
        assert forall|k: int| 0 <= k < platform_system_roots(platform).len() implies
            (#[trigger] normalize(platform_system_roots(platform)[k], PathStyle::Posix)) is Some
            && normalize(platform_system_roots(platform)[k], PathStyle::Posix)->0.len() >= 1 by {
            if k == 0 {} else if k == 1 {} else if k == 2 {} else if k == 3 {} else if k == 4 {} else if k == 5 {} else if k == 6 {} else if k == 7 {}
        }
    }
}

/// The filesystem root normalizes to no names.
#[verifier::spinoff_prover]
#[verifier::rlimit(50)]
proof fn lemma_root_normalizes_to_nothing()
    ensures
        normalize("/"@, PathStyle::Posix) == Some(Seq::<Seq<char>>::empty()),
{
    reveal_strlit("/");
    let e = Seq::<char>::empty();
    crate::paths::lemma_raw_segments_after_sep(seq!['/'], e, PathStyle::Posix);
    assert(seq!['/'] + e =~= "/"@);
    assert(seq!['/'].drop_last() =~= e);
    let segs: Seq<Seq<char>> = seq![e, e];
    assert(crate::paths::raw_segments(e, PathStyle::Posix) =~= seq![e]);
    assert(crate::paths::raw_segments("/"@, PathStyle::Posix) =~= segs);
    assert(segs.drop_last() =~= seq![e]);
    assert(seq![e].drop_last() =~= Seq::<Seq<char>>::empty());
    assert(crate::paths::fold_names(Seq::<Seq<char>>::empty()) == Some(Seq::<Seq<char>>::empty()));
    assert(crate::paths::fold_names(seq![e]) == Some(Seq::<Seq<char>>::empty()));
    assert(crate::paths::fold_names(segs) == Some(Seq::<Seq<char>>::empty()));
}

/// A root made of the home folder and a relative part covers a path only
/// when the home folder does.
#[verifier::spinoff_prover]
#[verifier::rlimit(50)]
proof fn lemma_home_root_covers_only_under_home(home: Seq<char>, part: Seq<char>, c: Seq<Seq<char>>)
    requires
        normalize(home, PathStyle::Posix) is Some,
        home_part_ok(part),
        normalize(join(home, part, PathStyle::Posix), PathStyle::Posix) matches Some(r) && names_prefix(c, r),
    ensures
        names_prefix(c, normalize(home, PathStyle::Posix)->0),
{
    crate::paths::lemma_no_double_dot_no_parent(part, PathStyle::Posix);
    crate::paths::lemma_normalize_join(home, part);
    let hn = normalize(home, PathStyle::Posix)->0;
    let r = normalize(join(home, part, PathStyle::Posix), PathStyle::Posix)->0;
    assert forall|i: int| 0 <= i < hn.len() implies c[i] == hn[i] by {
        assert(r[i] == hn[i]);
    }
}

/// On Linux and macOS every system root of the platform is reported as a
/// system path, for any home folder that is a well-formed absolute path and
/// does not hold that root (the root is neither the home folder nor inside it).
#[verifier::spinoff_prover]
#[verifier::rlimit(50)]
pub proof fn law_system_roots_are_reported_as_system_paths(policy: ProtectedPathPolicy, home: Seq<char>, platform: Seq<char>, k: int)
    requires
        policy.roots_view() == policy_roots(home, platform),
        policy.style_view() == style_of(platform),
        policy.ci_view() == (platform == "windows"@),
        platform == "linux"@ || platform == "macos"@,
        normalize(home, PathStyle::Posix) is Some,
        0 <= k < platform_system_roots(platform).len(),
        !names_prefix(normalize(platform_system_roots(platform)[k], PathStyle::Posix)->0, normalize(home, PathStyle::Posix)->0),
    ensures
        policy.check_spec(platform_system_roots(platform)[k]) matches Some(x) && x.1 == "system path"@,
{
    reveal_strlit("linux");
    reveal_strlit("macos");
    reveal_strlit("windows");
    assert("linux"@[0] != "macos"@[0] && "linux"@[0] != "windows"@[0] && "macos"@[0] != "windows"@[0]);
    let style = PathStyle::Posix;
    assert(style_of(platform) == style);
    assert(policy.ci_view() == false);
    lemma_system_roots_normalize(platform);
    lemma_home_parts_ok();
    lemma_root_normalizes_to_nothing();
    let sys = platform_system_roots(platform);
    let roots = policy.roots_view();
    let s = sys[k];
    assert(normalize(s, style) is Some);
    let c = normalize(s, style)->0;
    let hn = normalize(home, style)->0;
    let first = 2 + home_roots().len();
    assert(first == 11);
    assert(system_roots(home, platform) =~= sys.map_values(|p: Seq<char>| (p, "system path"@)));
    assert(roots.len() >= first + sys.len());
    assert(roots[first + k] == (s, "system path"@));
    assert(names_prefix(c, c));
    assert(root_covers(roots, first + k, c, style, false));
    assert forall|j: int| 0 <= j < roots.len() && root_covers(roots, j, c, style, false)
        implies first <= j < first + sys.len() by {
        if j == 0 {
            assert(roots[0].0 == "/"@);
        } else if j == 1 {
            assert(roots[1].0 == home);
        } else if j < first {
            let part = home_roots()[j - 2].0;
            assert(roots[j].0 == join(home, part, style));
            lemma_home_root_covers_only_under_home(home, part, c);
        } else if j >= first + sys.len() {
            assert(platform == "macos"@);
            let part = macos_home_extras()[j - first - sys.len()].0;
            assert(roots[j].0 == join(home, part, style));
            lemma_home_root_covers_only_under_home(home, part, c);
        }
    }
    lemma_best_upto(roots, roots.len() as int, c, style, false);
    let b = best_upto(roots, roots.len() as int, c, style, false)->0;
    assert(roots[b] == (sys[b - first], "system path"@));
}

/// On Linux and macOS the sensitive entries under any well-formed home folder
/// are reported as protected: SSH, GPG and cloud credentials, the Kubernetes
/// configuration, and the documents, desktop, pictures, movies and music
/// folders; on macOS also the keychains, mail and messages.
#[verifier::spinoff_prover]
#[verifier::rlimit(50)]
pub proof fn law_sensitive_home_entries_are_protected(policy: ProtectedPathPolicy, home: Seq<char>, platform: Seq<char>, i: int)
    requires
        policy.roots_view() == policy_roots(home, platform),
        policy.style_view() == style_of(platform),
        policy.ci_view() == (platform == "windows"@),
        platform == "linux"@ || platform == "macos"@,
        normalize(home, PathStyle::Posix) is Some,
        0 <= i < home_roots().len() || (platform == "macos"@ && home_roots().len() <= i < home_roots().len() + macos_home_extras().len()),
    ensures
        policy.check_spec(join(home, if i < home_roots().len() { home_roots()[i].0 } else { macos_home_extras()[i - home_roots().len()].0 }, PathStyle::Posix)) is Some,
{
    reveal_strlit("linux");
    reveal_strlit("macos");
    reveal_strlit("windows");
    assert("linux"@[0] != "windows"@[0] && "macos"@[0] != "windows"@[0]);
    let style = PathStyle::Posix;
    assert(style_of(platform) == style);
    lemma_home_parts_ok();
    let part = if i < home_roots().len() { home_roots()[i].0 } else { macos_home_extras()[i - home_roots().len()].0 };
    let roots = policy.roots_view();
    let j = if i < home_roots().len() { 2 + i } else {
        2 + home_roots().len() + platform_system_roots(platform).len() + (i - home_roots().len())
    };
    assert(system_roots(home, platform) =~= platform_system_roots(platform).map_values(|p: Seq<char>| (p, "system path"@)));
    assert(roots[j].0 == join(home, part, style));
    crate::paths::lemma_no_double_dot_no_parent(part, style);
    crate::paths::lemma_normalize_join(home, part);
    law_every_root_is_protected(policy, j);
}

/// On Linux (`/usr`, `/bin`, `/sbin`, `/etc`, `/var`, `/proc`, `/sys`, `/dev`,
/// `/run`, `/root`, `/lost+found`) and macOS (`/System`, `/usr`, `/bin`,
/// `/sbin`, `/etc`, `/var`, `/Applications`, `/private/var/db`) each system
/// root is reported as a system path, for any home folder that is a
/// well-formed absolute path and does not hold that root.
pub proof fn law_named_system_roots_are_system_paths(policy: ProtectedPathPolicy, home: Seq<char>, platform: Seq<char>, root: Seq<char>)
    requires
        policy.roots_view() == policy_roots(home, platform),
        policy.style_view() == style_of(platform),
        policy.ci_view() == (platform == "windows"@),
        (platform == "linux"@ && (root == "/usr"@ || root == "/bin"@ || root == "/sbin"@ || root == "/etc"@ || root == "/var"@ || root == "/proc"@ || root == "/sys"@ || root == "/dev"@ || root == "/run"@ || root == "/root"@ || root == "/lost+found"@))
            || (platform == "macos"@ && (root == "/System"@ || root == "/usr"@ || root == "/bin"@ || root == "/sbin"@ || root == "/etc"@ || root == "/var"@ || root == "/Applications"@ || root == "/private/var/db"@)),
        normalize(home, PathStyle::Posix) is Some,
        !names_prefix(normalize(root, PathStyle::Posix)->0, normalize(home, PathStyle::Posix)->0),
    ensures
        policy.check_spec(root) matches Some(x) && x.1 == "system path"@,
{
    reveal_strlit("linux");
    reveal_strlit("macos");
    assert("linux"@[0] != "macos"@[0]);
    let sys = platform_system_roots(platform);
    assert(exists|k: int| 0 <= k < sys.len() && sys[k] == root) by {
        if platform == "linux"@ {
            if root == "/usr"@ { assert(linux_system_roots()[0] == root); } else if root == "/bin"@ { assert(linux_system_roots()[1] == root); } else if root == "/sbin"@ { assert(linux_system_roots()[2] == root); } else if root == "/etc"@ { assert(linux_system_roots()[3] == root); } else if root == "/var"@ { assert(linux_system_roots()[4] == root); } else if root == "/proc"@ { assert(linux_system_roots()[5] == root); } else if root == "/sys"@ { assert(linux_system_roots()[6] == root); } else if root == "/dev"@ { assert(linux_system_roots()[7] == root); } else if root == "/run"@ { assert(linux_system_roots()[8] == root); } else if root == "/root"@ { assert(linux_system_roots()[9] == root); } else if root == "/lost+found"@ { assert(linux_system_roots()[10] == root); }
        } else {
            if root == "/System"@ { assert(macos_system_roots()[0] == root); } else if root == "/usr"@ { assert(macos_system_roots()[1] == root); } else if root == "/bin"@ { assert(macos_system_roots()[2] == root); } else if root == "/sbin"@ { assert(macos_system_roots()[3] == root); } else if root == "/etc"@ { assert(macos_system_roots()[4] == root); } else if root == "/var"@ { assert(macos_system_roots()[5] == root); } else if root == "/Applications"@ { assert(macos_system_roots()[6] == root); } else if root == "/private/var/db"@ { assert(macos_system_roots()[7] == root); }
        }
    }
    let k = choose|k: int| 0 <= k < sys.len() && sys[k] == root;
    law_system_roots_are_reported_as_system_paths(policy, home, platform, k);
}

/// On Linux and macOS these entries under any well-formed home folder are
/// reported as protected: `.ssh`, `.gnupg`, `.aws`, `.kube/config`,
/// `Documents`, `Desktop`, `Pictures`, `Movies` and `Music`; on macOS also
/// `Library/Keychains`, `Library/Mail` and `Library/Messages`.
pub proof fn law_named_home_entries_are_protected(policy: ProtectedPathPolicy, home: Seq<char>, platform: Seq<char>, part: Seq<char>)
    requires
        policy.roots_view() == policy_roots(home, platform),
        policy.style_view() == style_of(platform),
        policy.ci_view() == (platform == "windows"@),
        platform == "linux"@ || platform == "macos"@,
        normalize(home, PathStyle::Posix) is Some,
        (part == ".ssh"@ || part == ".gnupg"@ || part == ".aws"@ || part == ".kube/config"@ || part == "Documents"@ || part == "Desktop"@ || part == "Pictures"@ || part == "Movies"@ || part == "Music"@) || (platform == "macos"@ && (part == "Library/Keychains"@ || part == "Library/Mail"@ || part == "Library/Messages"@)),
    ensures
        policy.check_spec(join(home, part, PathStyle::Posix)) is Some,
{
    let n = home_roots().len();
    if part == ".ssh"@ || part == ".gnupg"@ || part == ".aws"@ || part == ".kube/config"@ || part == "Documents"@ || part == "Desktop"@ || part == "Pictures"@ || part == "Movies"@ || part == "Music"@ {
        assert(exists|i: int| 0 <= i < n && home_roots()[i].0 == part) by {
            if part == ".ssh"@ { assert(home_roots()[0].0 == part); } else if part == ".gnupg"@ { assert(home_roots()[1].0 == part); } else if part == ".aws"@ { assert(home_roots()[2].0 == part); } else if part == ".kube/config"@ { assert(home_roots()[3].0 == part); } else if part == "Documents"@ { assert(home_roots()[4].0 == part); } else if part == "Desktop"@ { assert(home_roots()[5].0 == part); } else if part == "Pictures"@ { assert(home_roots()[6].0 == part); } else if part == "Movies"@ { assert(home_roots()[7].0 == part); } else if part == "Music"@ { assert(home_roots()[8].0 == part); }
        }
        let i = choose|i: int| 0 <= i < n && home_roots()[i].0 == part;
        law_sensitive_home_entries_are_protected(policy, home, platform, i);
    } else {
        assert(exists|i: int| 0 <= i < macos_home_extras().len() && macos_home_extras()[i].0 == part) by {
            if part == "Library/Keychains"@ { assert(macos_home_extras()[0].0 == part); } else if part == "Library/Mail"@ { assert(macos_home_extras()[1].0 == part); } else if part == "Library/Messages"@ { assert(macos_home_extras()[2].0 == part); }
        }
        let i = choose|i: int| 0 <= i < macos_home_extras().len() && macos_home_extras()[i].0 == part;
        law_sensitive_home_entries_are_protected(policy, home, platform, n + i);
    }
}

/// A root made of the home folder and a relative part covers a path only
/// when the home folder does (Windows paths).
proof fn lemma_windows_home_root_covers_only_under_home(home: Seq<char>, part: Seq<char>, c: Seq<Seq<char>>)
    requires
        normalize(home, PathStyle::Windows) is Some,
        home_part_ok(part),
        !crate::paths::is_absolute(part, PathStyle::Windows),
        normalize(join(home, part, PathStyle::Windows), PathStyle::Windows) matches Some(r) && names_prefix_ci(c, r),
    ensures
        names_prefix_ci(c, normalize(home, PathStyle::Windows)->0),
{
    crate::paths::lemma_no_double_dot_no_parent(part, PathStyle::Windows);
    crate::paths::lemma_normalize_join_windows(home, part);
    let hn = normalize(home, PathStyle::Windows)->0;
    let r = normalize(join(home, part, PathStyle::Windows), PathStyle::Windows)->0;
    assert forall|i: int| 0 <= i < hn.len() implies lower(#[trigger] c[i]) == lower(hn[i]) by {
        assert(r[i] == hn[i]);
    }
}

proof fn lemma_windows_home_parts_ok()
    ensures
        forall|i: int| 0 <= i < home_roots().len() ==> home_part_ok(#[trigger] home_roots()[i].0)
            && !crate::paths::is_absolute(home_roots()[i].0, PathStyle::Windows),
        forall|i: int| 0 <= i < windows_home_extras().len() ==> home_part_ok(#[trigger] windows_home_extras()[i].0)
            && !crate::paths::is_absolute(windows_home_extras()[i].0, PathStyle::Windows),
{
    lemma_home_parts_ok();
    reveal_strlit("AppData/Roaming/Microsoft/Protect");
    reveal_strlit("AppData/Roaming/Microsoft/Credentials");
    reveal_strlit("AppData/Local/Microsoft/Credentials");
    reveal_strlit(".ssh");
    reveal_strlit(".gnupg");
    reveal_strlit(".aws");
    reveal_strlit(".kube/config");
    reveal_strlit("Documents");
    reveal_strlit("Desktop");
    reveal_strlit("Pictures");
    reveal_strlit("Movies");
    reveal_strlit("Music");
    assert forall|i: int| 0 <= i < home_roots().len() implies home_part_ok(#[trigger] home_roots()[i].0)
        && !crate::paths::is_absolute(home_roots()[i].0, PathStyle::Windows) by {}
    assert forall|i: int| 0 <= i < windows_home_extras().len() implies home_part_ok(#[trigger] windows_home_extras()[i].0)
        && !crate::paths::is_absolute(windows_home_extras()[i].0, PathStyle::Windows) by {
        let x = windows_home_extras()[i].0;
        assert forall|j: int| 0 <= j < x.len() - 1 implies !(#[trigger] x[j] == '.' && x[j + 1] == '.') by {}
    }
}

/// On Windows each system folder at the root of the home folder's drive
/// (`Windows`, `Program Files`, `Program Files (x86)`, `ProgramData`,
/// `Recovery`, `System Volume Information`, `$Recycle.Bin`) is reported as a
/// system path, for any home folder that is a well-formed absolute path and
/// does not hold that folder.
#[verifier::spinoff_prover]
#[verifier::rlimit(50)]
pub proof fn law_windows_system_folders_are_system_paths(policy: ProtectedPathPolicy, home: Seq<char>, name: Seq<char>)
    requires
        policy.roots_view() == policy_roots(home, "windows"@),
        policy.style_view() == PathStyle::Windows,
        policy.ci_view(),
        normalize(home, PathStyle::Windows) is Some,
        name == "Windows"@ || name == "Program Files"@ || name == "Program Files (x86)"@ || name == "ProgramData"@ || name == "Recovery"@ || name == "System Volume Information"@ || name == "$Recycle.Bin"@,
        !names_prefix_ci(seq![home.subrange(0, 2), name], normalize(home, PathStyle::Windows)->0),
    ensures
        policy.check_spec(join(last_ancestor(home, PathStyle::Windows), name, PathStyle::Windows)) matches Some(x)
            && x.1 == "system path"@,
{
    reveal_strlit("windows");
    reveal_strlit("macos");
    reveal_strlit("/");
    reveal_strlit("linux");
    assert("windows"@[0] != "macos"@[0] && "windows"@[0] != "linux"@[0]);
    let style = PathStyle::Windows;
    let names = windows_system_names();
    assert(exists|k: int| 0 <= k < names.len() && names[k] == name) by {
        if name == "Windows"@ { assert(windows_system_names()[0] == name); } else if name == "Program Files"@ { assert(windows_system_names()[1] == name); } else if name == "Program Files (x86)"@ { assert(windows_system_names()[2] == name); } else if name == "ProgramData"@ { assert(windows_system_names()[3] == name); } else if name == "Recovery"@ { assert(windows_system_names()[4] == name); } else if name == "System Volume Information"@ { assert(windows_system_names()[5] == name); } else if name == "$Recycle.Bin"@ { assert(windows_system_names()[6] == name); }
    }
    let k = choose|k: int| 0 <= k < names.len() && names[k] == name;
    reveal_strlit("Windows");
    reveal_strlit("Program Files");
    reveal_strlit("Program Files (x86)");
    reveal_strlit("ProgramData");
    reveal_strlit("Recovery");
    reveal_strlit("System Volume Information");
    reveal_strlit("$Recycle.Bin");
    assert(name.len() > 0);
    assert(forall|j: int| 0 <= j < name.len() ==> !is_sep(#[trigger] name[j], style));
    assert(name != crate::paths::dot() && name != crate::paths::dot_dot());
    assert(!crate::paths::is_absolute(name, style));
    assert(crate::paths::is_absolute(home, style));
    let d = last_ancestor(home, style);
    assert(d == home.subrange(0, 3));
    crate::paths::lemma_windows_drive_folder(home, name, d);
    let cand = join(d, name, style);
    let c = seq![home.subrange(0, 2), name];
    assert(normalize(cand, style) == Some(c));
    lemma_windows_home_parts_ok();
    let roots = policy.roots_view();
    let first = 2 + home_roots().len();
    assert(first == 11);
    assert(system_roots(home, "windows"@) =~= names.map_values(|p: Seq<char>| (join(d, p, style), "system path"@)));
    assert(roots[first + k] == (cand, "system path"@));
    assert(names_prefix_ci(c, c));
    assert(root_covers(roots, first + k, c, style, true));
    assert forall|j: int| 0 <= j < roots.len() && root_covers(roots, j, c, style, true)
        implies first <= j < first + names.len() by {
        if j == 0 {
            assert(roots[0].0 == "/"@);
            assert(!crate::paths::is_absolute("/"@, style));
        } else if j == 1 {
            assert(roots[1].0 == home);
        } else if j < first {
            let part = home_roots()[j - 2].0;
            assert(roots[j].0 == join(home, part, style));
            lemma_windows_home_root_covers_only_under_home(home, part, c);
        } else if j >= first + names.len() {
            let part = windows_home_extras()[j - first - names.len()].0;
            assert(roots[j].0 == join(home, part, style));
            lemma_windows_home_root_covers_only_under_home(home, part, c);
        }
    }
    lemma_best_upto(roots, roots.len() as int, c, style, true);
    let b = best_upto(roots, roots.len() as int, c, style, true)->0;
    assert(roots[b] == (join(d, names[b - first], style), "system path"@));
}

/// On Windows these entries under any well-formed home folder are reported
/// as protected: `.ssh`, `.gnupg`, `.aws`, `.kube/config`, `Documents`,
/// `Desktop`, `Pictures`, `Movies`, `Music`, and the data-protection keys and
/// credentials under `AppData` (`AppData/Roaming/Microsoft/Protect`,
/// `AppData/Roaming/Microsoft/Credentials`, `AppData/Local/Microsoft/Credentials`).
#[verifier::spinoff_prover]
#[verifier::rlimit(50)]
pub proof fn law_named_windows_home_entries_are_protected(policy: ProtectedPathPolicy, home: Seq<char>, part: Seq<char>)
    requires
        policy.roots_view() == policy_roots(home, "windows"@),
        policy.style_view() == PathStyle::Windows,
        policy.ci_view(),
        normalize(home, PathStyle::Windows) is Some,
        (part == ".ssh"@ || part == ".gnupg"@ || part == ".aws"@ || part == ".kube/config"@ || part == "Documents"@ || part == "Desktop"@ || part == "Pictures"@ || part == "Movies"@ || part == "Music"@) || (part == "AppData/Roaming/Microsoft/Protect"@ || part == "AppData/Roaming/Microsoft/Credentials"@ || part == "AppData/Local/Microsoft/Credentials"@),
    ensures
        policy.check_spec(join(home, part, PathStyle::Windows)) is Some,
{
    reveal_strlit("windows");
    reveal_strlit("macos");
    reveal_strlit("linux");
    assert("windows"@[0] != "macos"@[0] && "windows"@[0] != "linux"@[0]);
    let style = PathStyle::Windows;
    lemma_windows_home_parts_ok();
    let roots = policy.roots_view();
    let n = home_roots().len();
    let names = windows_system_names();
    assert(system_roots(home, "windows"@) =~= names.map_values(|p: Seq<char>| (join(last_ancestor(home, style), p, style), "system path"@)));
    let j: int;
    if part == ".ssh"@ || part == ".gnupg"@ || part == ".aws"@ || part == ".kube/config"@ || part == "Documents"@ || part == "Desktop"@ || part == "Pictures"@ || part == "Movies"@ || part == "Music"@ {
        assert(exists|i: int| 0 <= i < n && home_roots()[i].0 == part) by {
            if part == ".ssh"@ { assert(home_roots()[0].0 == part); } else if part == ".gnupg"@ { assert(home_roots()[1].0 == part); } else if part == ".aws"@ { assert(home_roots()[2].0 == part); } else if part == ".kube/config"@ { assert(home_roots()[3].0 == part); } else if part == "Documents"@ { assert(home_roots()[4].0 == part); } else if part == "Desktop"@ { assert(home_roots()[5].0 == part); } else if part == "Pictures"@ { assert(home_roots()[6].0 == part); } else if part == "Movies"@ { assert(home_roots()[7].0 == part); } else if part == "Music"@ { assert(home_roots()[8].0 == part); }
        }
        let i = choose|i: int| 0 <= i < n && home_roots()[i].0 == part;
        j = 2 + i;
    } else {
        assert(exists|i: int| 0 <= i < windows_home_extras().len() && windows_home_extras()[i].0 == part) by {
            if part == "AppData/Roaming/Microsoft/Protect"@ { assert(windows_home_extras()[0].0 == part); } else if part == "AppData/Roaming/Microsoft/Credentials"@ { assert(windows_home_extras()[1].0 == part); } else if part == "AppData/Local/Microsoft/Credentials"@ { assert(windows_home_extras()[2].0 == part); }
        }
        let i = choose|i: int| 0 <= i < windows_home_extras().len() && windows_home_extras()[i].0 == part;
        j = 2 + n + names.len() + i;
    }
    assert(roots[j].0 == join(home, part, style));
    crate::paths::lemma_no_double_dot_no_parent(part, style);
    crate::paths::lemma_normalize_join_windows(home, part);
    law_every_root_is_protected(policy, j);
}

} // verus!
