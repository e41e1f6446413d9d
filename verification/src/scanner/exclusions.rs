use vstd::prelude::*;
use crate::domain::error::{CommandError, ErrorCode};
use crate::paths::{names_prefix, normalize, normalize_exec, opt_views, views, PathStyle};
use crate::safety::protected_paths::names_prefix_exec;
use crate::text::{chars_of, slices_equal};

verus! {

/// Absolute paths whose whole subtrees a scan leaves alone, kept in
/// lexically normalized form.
#[derive(Debug, Clone)]
pub struct ExclusionMatcher {
    paths: Vec<Vec<Vec<char>>>,
}

/// The name lists of normalized paths.
pub open spec fn path_views(v: Seq<Vec<Vec<char>>>) -> Seq<Seq<Seq<char>>> {
    v.map_values(|p: Vec<Vec<char>>| views(p@))
}

impl View for ExclusionMatcher {
    type V = Seq<Seq<Seq<char>>>;

    closed spec fn view(&self) -> Seq<Seq<Seq<char>>> {
        path_views(self.paths@)
    }
}

/// A candidate is excluded when it is absolute and lies at or under one of the
/// excluded paths, after lexical normalization of both.
pub open spec fn excluded_by(excluded: Seq<Seq<Seq<char>>>, candidate: Seq<char>) -> bool {
    match normalize(candidate, PathStyle::Posix) {
        None => false,
        Some(c) => exists|k: int| 0 <= k < excluded.len() && names_prefix(c, #[trigger] excluded[k]),
    }
}

/// The index of the first path, among the first `n`, that is not absolute or
/// climbs above the root.
pub open spec fn first_invalid(paths: Seq<String>, n: int) -> Option<int>
    decreases n,
{
    if n <= 0 {
        None
    } else {
        match first_invalid(paths, n - 1) {
            Some(i) => Some(i),
            None => if normalize(paths[n - 1]@, PathStyle::Posix) is None { Some(n - 1) } else { None },
        }
    }
}

/// The normalized forms of paths that are all valid.
pub open spec fn normalized_all(paths: Seq<String>) -> Seq<Seq<Seq<char>>> {
    paths.map_values(|p: String| normalize(p@, PathStyle::Posix).unwrap())
}

/// The normalized forms of the valid paths among the given ones.
pub open spec fn valid_normalized(paths: Seq<String>, n: int) -> Set<Seq<Seq<char>>>
    decreases n,
{
    if n <= 0 {
        Set::empty()
    } else {
        let rest = valid_normalized(paths, n - 1);
        match normalize(paths[n - 1]@, PathStyle::Posix) {
            Some(c) => rest.insert(c),
            None => rest,
        }
    }
}

proof fn lemma_first_invalid_stable(paths: Seq<String>, n: int, m: int)
    requires
        0 <= n <= m,
        first_invalid(paths, n) is Some,
    ensures
        first_invalid(paths, m) == first_invalid(paths, n),
    decreases m - n,
{
    if m > n {
        lemma_first_invalid_stable(paths, n, m - 1);
    }
}

fn copy_names(p: &Vec<Vec<char>>) -> (r: Vec<Vec<char>>)
    ensures
        views(r@) == views(p@),
{
    let mut r: Vec<Vec<char>> = Vec::new();
    let mut i: usize = 0;
    while i < p.len()
        invariant
            i <= p@.len(),
            views(r@) == views(p@).subrange(0, i as int),
        decreases p.len() - i,
    {
        let ghost before = r@;
        let name = crate::paths::slice_range(p[i].as_slice(), 0, p[i].len());
        assert(name@ =~= p@[i as int]@);
        r.push(name);
        assert(views(r@) =~= views(before).push(p@[i as int]@));
        assert(views(p@).subrange(0, i + 1) =~= views(p@).subrange(0, i as int).push(p@[i as int]@));
        i = i + 1;
    }
    assert(views(p@).subrange(0, p@.len() as int) =~= views(p@));
    r
}

fn same_names(a: &Vec<Vec<char>>, b: &Vec<Vec<char>>) -> (r: bool)
    ensures
        r == (views(a@) == views(b@)),
{
    if a.len() != b.len() {
        assert(views(a@).len() != views(b@).len());
        return false;
    }
    let mut i: usize = 0;
    while i < a.len()
        invariant
            a@.len() == b@.len(),
            i <= a@.len(),
            forall|j: int| 0 <= j < i ==> views(a@)[j] == views(b@)[j],
        decreases a.len() - i,
    {
        if !slices_equal(a[i].as_slice(), b[i].as_slice()) {
            assert(views(a@)[i as int] != views(b@)[i as int]);
            return false;
        }
        i = i + 1;
    }
    assert(views(a@) =~= views(b@));
    true
}

impl ExclusionMatcher {
    /// A matcher for at most 64 absolute paths.
    pub fn new(paths: &[String]) -> (r: Result<Self, CommandError>)
        ensures
            paths@.len() > 64 ==> (r matches Err(e) && e.code == ErrorCode::InvalidPath
                && e.message@ == "A scan can contain at most 64 excluded paths."@
                && e.recoverable && e.path is None && e.details is None),
            paths@.len() <= 64 ==> match first_invalid(paths@, paths@.len() as int) {
                Some(i) => r matches Err(e) && e.code == ErrorCode::InvalidPath
                    && e.message@ == "Excluded paths must be absolute."@
                    && e.recoverable && (e.path matches Some(p) && p@ == paths@[i]@) && e.details is None,
                None => r matches Ok(m) && m@ == normalized_all(paths@),
            },
    {
        if paths.len() > 64 {
            return Err(CommandError::new(ErrorCode::InvalidPath, "A scan can contain at most 64 excluded paths.", true));
        }
        let mut out: Vec<Vec<Vec<char>>> = Vec::new();
        let mut i: usize = 0;
        while i < paths.len()
            invariant
                i <= paths@.len(),
                paths@.len() <= 64,
                first_invalid(paths@, i as int) is None,
                path_views(out@) == normalized_all(paths@.subrange(0, i as int)),
            decreases paths.len() - i,
        {
            let chars = chars_of(paths[i].as_str());
            match normalize_exec(chars.as_slice(), PathStyle::Posix) {
                None => {
                    proof { lemma_first_invalid_stable(paths@, i + 1, paths@.len() as int); }
                    return Err(CommandError::new(ErrorCode::InvalidPath, "Excluded paths must be absolute.", true)
                        .with_path(paths[i].as_str()));
                },
                Some(names) => {
                    let ghost before = out@;
                    out.push(names);
                    assert(path_views(out@) =~= path_views(before).push(views(names@)));
                    assert(normalized_all(paths@.subrange(0, i + 1)) =~= normalized_all(paths@.subrange(0, i as int)).push(
                        normalize(paths@[i as int]@, PathStyle::Posix).unwrap(),
                    ));
                },
            }
            i = i + 1;
        }
        assert(paths@.subrange(0, paths@.len() as int) =~= paths@);
        Ok(ExclusionMatcher { paths: out })
    }

    /// Whether the candidate is absolute and lies at or under an excluded path.
    pub fn is_excluded(&self, candidate: &str) -> (r: bool)
        ensures
            r == excluded_by(self@, candidate@),
    {
        let chars = chars_of(candidate);
        let c = match normalize_exec(chars.as_slice(), PathStyle::Posix) {
            None => return false,
            Some(c) => c,
        };
        let mut k: usize = 0;
        while k < self.paths.len()
            invariant
                k <= self.paths@.len(),
                normalize(candidate@, PathStyle::Posix) == Some(views(c@)),
                forall|j: int| 0 <= j < k ==> !names_prefix(views(c@), #[trigger] path_views(self.paths@)[j]),
            decreases self.paths.len() - k,
        {
            if names_prefix_exec(c.as_slice(), self.paths[k].as_slice(), false) {
                assert(path_views(self.paths@)[k as int] == views(self.paths@[k as int]@));
                return true;
            }
            assert(path_views(self.paths@)[k as int] == views(self.paths@[k as int]@));
            k = k + 1;
        }
        false
    }

    /// The matcher extended with the valid paths among `paths`, without repeats.
    pub fn with_additional_paths(&self, paths: &[String]) -> (r: Self)
        ensures
            r@.to_set() == self@.to_set() + valid_normalized(paths@, paths@.len() as int),
            forall|c: Seq<char>| excluded_by(self@, c) ==> excluded_by(r@, c),
    {
        let mut out: Vec<Vec<Vec<char>>> = Vec::new();
        let mut i: usize = 0;
        while i < self.paths.len()
            invariant
                i <= self.paths@.len(),
                path_views(out@).to_set() == path_views(self.paths@).subrange(0, i as int).to_set(),
            decreases self.paths.len() - i,
        {
            let p = copy_names(&self.paths[i]);
            let ghost before = out@;
            self::push_unique(&mut out, p);
            assert(path_views(self.paths@).subrange(0, i + 1) =~= path_views(self.paths@).subrange(0, i as int).push(views(self.paths@[i as int]@)));
            proof { path_views(self.paths@).subrange(0, i as int).lemma_push_to_set_commute(views(self.paths@[i as int]@)); }
            i = i + 1;
        }
        assert(path_views(self.paths@).subrange(0, self.paths@.len() as int) =~= path_views(self.paths@));
        let mut j: usize = 0;
        while j < paths.len()
            invariant
                j <= paths@.len(),
                path_views(out@).to_set() == path_views(self.paths@).to_set() + valid_normalized(paths@, j as int),
            decreases paths.len() - j,
        {
            let chars = chars_of(paths[j].as_str());
            if let Some(names) = normalize_exec(chars.as_slice(), PathStyle::Posix) {
                self::push_unique(&mut out, names);
            }
            j = j + 1;
        }
        let r = ExclusionMatcher { paths: out };
        proof {
            assert forall|c: Seq<char>| excluded_by(self@, c) implies excluded_by(r@, c) by {
                let n = normalize(c, PathStyle::Posix).unwrap();
                let k = choose|k: int| 0 <= k < self@.len() && names_prefix(n, #[trigger] self@[k]);
                assert(self@.to_set().contains(self@[k]));
                assert(r@.to_set().contains(self@[k]));
                let m = choose|m: int| 0 <= m < r@.len() && r@[m] == self@[k];
                assert(names_prefix(n, r@[m]));
            }
        }
        r
    }
}

/// Appends a normalized path unless an equal one is already present.
fn push_unique(out: &mut Vec<Vec<Vec<char>>>, p: Vec<Vec<char>>)
    ensures
        path_views(final(out)@).to_set() == path_views(old(out)@).to_set().insert(views(p@)),
{
    let mut k: usize = 0;
    while k < out.len()
        invariant
            k <= out@.len(),
            forall|j: int| 0 <= j < k ==> #[trigger] path_views(out@)[j] != views(p@),
        decreases out.len() - k,
    {
        if same_names(&out[k], &p) {
            proof {
                assert(path_views(out@)[k as int] == views(p@));
                assert(path_views(out@).to_set().contains(views(p@)));
                assert(path_views(out@).to_set().insert(views(p@)) =~= path_views(out@).to_set());
            }
            return;
        }
        assert(path_views(out@)[k as int] == views(out@[k as int]@));
        k = k + 1;
    }
    let ghost before = out@;
    out.push(p);
    assert(path_views(out@) =~= path_views(before).push(views(p@)));
    proof { path_views(before).lemma_push_to_set_commute(views(p@)); }
}

impl Default for ExclusionMatcher {
    fn default() -> (r: Self)
        ensures
            r@ == Seq::<Seq<Seq<char>>>::empty(),
    {
        let r = ExclusionMatcher { paths: Vec::new() };
        assert(r@ =~= Seq::<Seq<Seq<char>>>::empty());
        r
    }
}

/// The valid paths among the first `n` are exactly the normalized forms of
/// the paths that normalize.
proof fn lemma_valid_normalized(paths: Seq<String>, n: int)
    requires
        0 <= n <= paths.len(),
    ensures
        forall|p: Seq<Seq<char>>| #[trigger] valid_normalized(paths, n).contains(p)
            <==> exists|j: int| 0 <= j < n && normalize(paths[j]@, PathStyle::Posix) == Some(p),
    decreases n,
{
    if n > 0 {
        lemma_valid_normalized(paths, n - 1);
        assert forall|p: Seq<Seq<char>>| #[trigger] valid_normalized(paths, n).contains(p)
            <==> exists|j: int| 0 <= j < n && normalize(paths[j]@, PathStyle::Posix) == Some(p) by {
            if valid_normalized(paths, n).contains(p) && !valid_normalized(paths, n - 1).contains(p) {
                assert(normalize(paths[n - 1]@, PathStyle::Posix) == Some(p));
            }
            if exists|j: int| 0 <= j < n && normalize(paths[j]@, PathStyle::Posix) == Some(p) {
                let j = choose|j: int| 0 <= j < n && normalize(paths[j]@, PathStyle::Posix) == Some(p);
                if j < n - 1 {
                    assert(valid_normalized(paths, n - 1).contains(p));
                }
            }
        }
    }
}

/// Adding paths to a matcher excludes exactly what it excluded before and
/// what lies at or under one of the added paths that is absolute and does
/// not climb above the root; the other added paths are ignored.
pub proof fn law_additional_paths_extend_exclusion(
    m: ExclusionMatcher,
    m2: ExclusionMatcher,
    paths: Seq<String>,
    candidate: Seq<char>,
)
    requires
        m2@.to_set() == m@.to_set() + valid_normalized(paths, paths.len() as int),
    ensures
        excluded_by(m2@, candidate) <==> (excluded_by(m@, candidate) || (normalize(candidate, PathStyle::Posix) is Some
            && exists|j: int| 0 <= j < paths.len() && (#[trigger] normalize(paths[j]@, PathStyle::Posix)) is Some
                && names_prefix(normalize(candidate, PathStyle::Posix)->0, normalize(paths[j]@, PathStyle::Posix)->0))),
{
    lemma_valid_normalized(paths, paths.len() as int);
    if let Some(c) = normalize(candidate, PathStyle::Posix) {
        if excluded_by(m2@, candidate) {
            let k = choose|k: int| 0 <= k < m2@.len() && names_prefix(c, #[trigger] m2@[k]);
            let e = m2@[k];
            assert(m2@.to_set().contains(e));
            if m@.to_set().contains(e) {
                let i = choose|i: int| 0 <= i < m@.len() && m@[i] == e;
                assert(names_prefix(c, m@[i]));
            } else {
                assert(valid_normalized(paths, paths.len() as int).contains(e));
                let j = choose|j: int| 0 <= j < paths.len() && normalize(paths[j]@, PathStyle::Posix) == Some(e);
                assert(normalize(paths[j]@, PathStyle::Posix) is Some);
            }
        }
        if excluded_by(m@, candidate) {
            let k = choose|k: int| 0 <= k < m@.len() && names_prefix(c, #[trigger] m@[k]);
            let e = m@[k];
            assert(m@.to_set().contains(e));
            assert(m2@.to_set().contains(e));
            let i = choose|i: int| 0 <= i < m2@.len() && m2@[i] == e;
            assert(names_prefix(c, m2@[i]));
        }
        if exists|j: int| 0 <= j < paths.len() && (#[trigger] normalize(paths[j]@, PathStyle::Posix)) is Some
            && names_prefix(c, normalize(paths[j]@, PathStyle::Posix)->0) {
            let j = choose|j: int| 0 <= j < paths.len() && (#[trigger] normalize(paths[j]@, PathStyle::Posix)) is Some
                && names_prefix(c, normalize(paths[j]@, PathStyle::Posix)->0);
            let e = normalize(paths[j]@, PathStyle::Posix)->0;
            assert(valid_normalized(paths, paths.len() as int).contains(e));
            assert(m2@.to_set().contains(e));
            let i = choose|i: int| 0 <= i < m2@.len() && m2@[i] == e;
            assert(names_prefix(c, m2@[i]));
        }
    }
}

} // verus!
