//! Finding project directories under the configured roots: a bounded,
//! depth-limited walk that skips dependency and build directories. The
//! walk's decisions live here; listing directories is the caller's part.
use vstd::prelude::*;
use crate::path_order::{has_path, insert_path_sorted, string_views, strictly_sorted_paths};
use crate::paths::{same_path, PathStyle};
use crate::rules::catalogs::project_artifacts::{project_indicator_names, project_indicators};
use crate::text::same_text;

verus! {

/// How deep below a configured root the walk looks.
pub const MAX_DEPTH: usize = 4;
/// How many projects the walk reports at most.
pub const MAX_PROJECTS: usize = 200;

/// Directories the walk never enters.
pub open spec fn skipped_name(name: Seq<char>) -> bool {
    ||| name == ".git"@
    ||| name == "node_modules"@
    ||| name == "target"@
    ||| name == "build"@
    ||| name == "dist"@
    ||| name == ".venv"@
    ||| name == "Pods"@
}

/// Whether a directory with this name is left out of the walk.
pub fn should_skip(name: &str) -> (r: bool)
    ensures
        r == skipped_name(name@),
{
    same_text(name, ".git") || same_text(name, "node_modules") || same_text(name, "target")
        || same_text(name, "build") || same_text(name, "dist") || same_text(name, ".venv")
        || same_text(name, "Pods")
}

/// A directory is a project when one of the project manifests is a file in
/// it; `files` are the manifest names found there as files.
pub fn is_project(files: &Vec<String>) -> (r: bool)
    ensures
        r == (exists|i: int| 0 <= i < project_indicator_names().len()
            && string_views(files@).contains(#[trigger] project_indicator_names()[i])),
{
    let indicators = project_indicators();
    let mut i: usize = 0;
    while i < indicators.len()
        invariant
            string_views(indicators@) == project_indicator_names(),
            0 <= i <= indicators@.len(),
            forall|k: int| 0 <= k < i ==> !string_views(files@).contains(#[trigger] project_indicator_names()[k]),
        decreases indicators@.len() - i,
    {
        let mut j: usize = 0;
        while j < files.len()
            invariant
                string_views(indicators@) == project_indicator_names(),
                0 <= j <= files@.len(),
                0 <= i < indicators@.len(),
                forall|k: int| 0 <= k < j ==> string_views(files@)[k] != indicators@[i as int]@,
            decreases files@.len() - j,
        {
            if same_text(files[j].as_str(), indicators[i].as_str()) {
                assert(project_indicator_names()[i as int] == indicators@[i as int]@);
                assert(string_views(files@)[j as int] == project_indicator_names()[i as int]);
                return true;
            }
            j = j + 1;
        }
        assert(project_indicator_names()[i as int] == indicators@[i as int]@);
        assert(!string_views(files@).contains(project_indicator_names()[i as int]));
        i = i + 1;
    }
    false
}

/// The walk's state: the projects found so far, in the order found, and the
/// directories still to look at with their depth below their root (the last
/// one is looked at next).
pub struct ProjectSearch {
    found: Vec<String>,
    pending: Vec<(String, usize)>,
}

/// The views of pending directories.
pub open spec fn pending_views(p: Seq<(String, usize)>) -> Seq<(Seq<char>, usize)> {
    p.map_values(|e: (String, usize)| (e.0@, e.1))
}

impl ProjectSearch {
    pub closed spec fn found_paths(&self) -> Seq<Seq<char>> {
        string_views(self.found@)
    }

    pub closed spec fn pending_dirs(&self) -> Seq<(Seq<char>, usize)> {
        pending_views(self.pending@)
    }

    /// At most the cap of projects is found, and no pending directory lies
    /// deeper than the depth limit.
    pub open spec fn wf(&self) -> bool {
        &&& self.found_paths().len() <= MAX_PROJECTS
        &&& forall|k: int| 0 <= k < self.pending_dirs().len() ==> (#[trigger] self.pending_dirs()[k]).1 <= MAX_DEPTH
    }

    /// A walk that has found nothing yet.
    pub fn new() -> (s: Self)
        ensures
            s.wf(),
            s.found_paths() == Seq::<Seq<char>>::empty(),
            s.pending_dirs() == Seq::<(Seq<char>, usize)>::empty(),
    {
        let s = ProjectSearch { found: Vec::new(), pending: Vec::new() };
        assert(s.found_paths() =~= Seq::<Seq<char>>::empty());
        assert(s.pending_dirs() =~= Seq::<(Seq<char>, usize)>::empty());
        s
    }

    /// Whether the cap of projects has been reached, which ends the walk.
    pub fn is_full(&self) -> (r: bool)
        ensures
            r == (self.found_paths().len() >= MAX_PROJECTS),
    {
        self.found.len() >= MAX_PROJECTS
    }

    /// Starts on a configured root that is a real directory: it alone is
    /// pending, at depth zero.
    pub fn begin_root(&mut self, root: String)
        requires
            old(self).wf(),
        ensures
            final(self).wf(),
            final(self).found_paths() == old(self).found_paths(),
            final(self).pending_dirs() == seq![(root@, 0usize)],
    {
        self.pending = Vec::new();
        self.pending.push((root, 0));
        assert(self.pending_dirs() =~= seq![(root@, 0usize)]);
    }

    /// The next directory to look at with its depth, taken off the pending
    /// list; `None` when none is pending or the cap is reached, and then
    /// nothing stays pending.
    pub fn next_directory(&mut self) -> (r: Option<(String, usize)>)
        requires
            old(self).wf(),
        ensures
            final(self).wf(),
            final(self).found_paths() == old(self).found_paths(),
            (old(self).pending_dirs().len() == 0 || old(self).found_paths().len() >= MAX_PROJECTS) ==> (r is None
                && final(self).pending_dirs().len() == 0),
            old(self).pending_dirs().len() > 0 && old(self).found_paths().len() < MAX_PROJECTS ==> (r matches Some(d)
                && (d.0@, d.1) == old(self).pending_dirs().last()
                && final(self).pending_dirs() == old(self).pending_dirs().drop_last()),
    {
        if self.pending.len() == 0 {
            return None;
        }
        if self.found.len() >= MAX_PROJECTS {
            self.pending = Vec::new();
            assert(self.pending_dirs() =~= Seq::<(Seq<char>, usize)>::empty());
            return None;
        }
        let ghost before = self.pending@;
        let d = self.pending.pop().unwrap();
        assert(self.pending_dirs() =~= pending_views(before).drop_last());
        proof {
            assert forall|k: int| 0 <= k < self.pending_dirs().len() implies (#[trigger] self.pending_dirs()[k]).1 <= MAX_DEPTH by {
                assert(self.pending_dirs()[k] == pending_views(before)[k]);
            }
        }
        Some(d)
    }

    /// Records a looked-at directory: it joins the projects when it is one
    /// and the cap is not reached.
    pub fn visit(&mut self, path: &str, project: bool)
        requires
            old(self).wf(),
        ensures
            final(self).wf(),
            final(self).pending_dirs() == old(self).pending_dirs(),
            final(self).found_paths() == if project && old(self).found_paths().len() < MAX_PROJECTS {
                old(self).found_paths().push(path@)
            } else {
                old(self).found_paths()
            },
    {
        if project && self.found.len() < MAX_PROJECTS {
            self.found.push(String::from_str(path));
            assert(self.found_paths() =~= old(self).found_paths().push(path@));
        }
        assert(self.pending_dirs() == old(self).pending_dirs());
    }

    /// Offers a child of a directory at `depth`: a real directory (not a
    /// link) whose name is not skipped becomes pending one level deeper,
    /// unless its parent is already at the depth limit.
    pub fn add_child(&mut self, child: String, name: &str, depth: usize, real_directory: bool)
        requires
            old(self).wf(),
        ensures
            final(self).wf(),
            final(self).found_paths() == old(self).found_paths(),
            final(self).pending_dirs() == if depth < MAX_DEPTH && !skipped_name(name@) && real_directory {
                old(self).pending_dirs().push((child@, (depth + 1) as usize))
            } else {
                old(self).pending_dirs()
            },
    {
        if depth < MAX_DEPTH && !should_skip(name) && real_directory {
            let ghost before = self.pending@;
            self.pending.push((child, depth + 1));
            assert(self.pending_dirs() =~= pending_views(before).push((child@, (depth + 1) as usize)));
            assert forall|k: int| 0 <= k < self.pending_dirs().len() implies (#[trigger] self.pending_dirs()[k]).1 <= MAX_DEPTH by {
                if k < pending_views(before).len() {
                    assert(self.pending_dirs()[k] == old(self).pending_dirs()[k]);
                }
            }
        }
    }

    /// The projects found, each once as a path, in `Path` order.
    pub fn finish(self) -> (r: Vec<String>)
        requires
            self.wf(),
        ensures
            strictly_sorted_paths(string_views(r@)),
            forall|q: Seq<char>| has_path(string_views(r@), q) <==> has_path(self.found_paths(), q),
            r@.len() <= MAX_PROJECTS,
    {
        let mut sorted: Vec<String> = Vec::new();
        let mut i: usize = 0;
        assert(string_views(sorted@) =~= Seq::<Seq<char>>::empty());
        while i < self.found.len()
            invariant
                0 <= i <= self.found@.len(),
                self.found@.len() <= MAX_PROJECTS,
                strictly_sorted_paths(string_views(sorted@)),
                sorted@.len() <= i,
                forall|q: Seq<char>| has_path(string_views(sorted@), q)
                    <==> has_path(string_views(self.found@).take(i as int), q),
            decreases self.found@.len() - i,
        {
            let ghost prev = sorted@;
            insert_path_sorted(&mut sorted, self.found[i].clone());
            proof {
                let all = string_views(self.found@);
                assert(all.take(i + 1) =~= all.take(i as int).push(all[i as int]));
                assert forall|q: Seq<char>| has_path(string_views(sorted@), q)
                    <==> has_path(all.take(i + 1), q) by {
                    if has_path(all.take(i + 1), q) {
                        let k = choose|k: int| 0 <= k < all.take(i + 1).len() && same_path(#[trigger] all.take(i + 1)[k], q, PathStyle::Posix);
                        if k < i {
                            assert(all.take(i as int)[k] == all.take(i + 1)[k]);
                        }
                    }
                    if has_path(all.take(i as int), q) {
                        let k = choose|k: int| 0 <= k < all.take(i as int).len() && same_path(#[trigger] all.take(i as int)[k], q, PathStyle::Posix);
                        assert(all.take(i + 1)[k] == all.take(i as int)[k]);
                    }
                    if same_path(all[i as int], q, PathStyle::Posix) {
                        assert(all.take(i + 1)[i as int] == all[i as int]);
                    }
                }
            }
            i = i + 1;
        }
        assert(string_views(self.found@).take(self.found@.len() as int) =~= string_views(self.found@));
        sorted
    }
}

} // verus!
