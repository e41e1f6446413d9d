//! The data an application leaves behind: which group containers to look
//! at, and the related items found, each once, in review order.
use vstd::prelude::*;
use vstd::hash_set::StringHashSet;
use crate::applications::bundles::{content_id, content_id_exec, valid_path_component, valid_path_component_spec};
use crate::applications::inventory::{
    candidate_view, candidate_views, copy_identity, identity_of, path_error, related_identity, related_identity_error,
    related_identity_spec, same_identity, same_identity_exec, CandidateView, FileIdentity, IdentityFacts, RelatedCandidate,
};
use crate::domain::error::{CommandError, ErrorCode};
use crate::domain::application::{RelatedApplicationItem, RelatedItemConfidence};
use crate::paths::{display_path, display_path_exec, path_starts_with, same_path, PathStyle};
use crate::sorting::{merge_sort, sorted_by_key, views_of, KeyOrder};
use crate::text::{chars_of, lemma_text_lt_irreflexive, lemma_text_lt_total, lemma_text_lt_transitive, text_less, text_lt};

verus! {

/// Texts in character order.
impl KeyOrder for String {
    open spec fn before(a: Seq<char>, b: Seq<char>) -> bool {
        text_lt(a, b)
    }

    proof fn lemma_asymmetric(a: Seq<char>, b: Seq<char>) {
        if text_lt(b, a) {
            lemma_text_lt_transitive(a, b, a);
            lemma_text_lt_irreflexive(a);
        }
    }

    proof fn lemma_not_before_transitive(a: Seq<char>, b: Seq<char>, c: Seq<char>) {
        if text_lt(c, a) && a != b {
            lemma_text_lt_total(a, b);
            lemma_text_lt_transitive(c, a, b);
        }
    }

    fn less(&self, other: &Self) -> (r: bool) {
        text_less(chars_of(self.as_str()).as_slice(), chars_of(other.as_str()).as_slice())
    }

    fn duplicate(&self) -> (r: Self) {
        self.clone()
    }
}

/// The group identifiers looked at: those the application declares and its
/// bundle identifier, each valid as a path component, once each, in order.
pub open spec fn group_identifiers_spec(declared: Seq<Seq<char>>, bundle_id: Option<Seq<char>>, r: Seq<Seq<char>>) -> bool {
    &&& forall|a: int, b: int| 0 <= a < b < r.len() ==> text_lt(#[trigger] r[a], #[trigger] r[b])
    &&& forall|v: Seq<char>| #[trigger] r.contains(v) <==> valid_path_component_spec(v)
        && (declared.contains(v) || bundle_id == Some(v))
}

pub fn group_identifiers(declared: Vec<String>, bundle_id: &Option<String>) -> (r: Vec<String>)
    ensures
        group_identifiers_spec(declared@.map_values(|g: String| g@),
            match bundle_id { Some(b) => Some(b@), None => None }, r@.map_values(|g: String| g@)),
{
    let ghost dv = declared@.map_values(|g: String| g@);
    let ghost bv: Option<Seq<char>> = match bundle_id { Some(b) => Some(b@), None => None };
    let mut all = declared;
    let ghost start = all@;
    match bundle_id {
        Some(b) => {
            if valid_path_component(b.as_str()) {
                all.push(b.clone());
            }
        },
        None => {},
    }
    let ghost pool = views_of(all@);
    assert(pool =~= all@.map_values(|g: String| g@));
    assert forall|v: Seq<char>| valid_path_component_spec(v) implies (#[trigger] pool.contains(v)
        <==> (dv.contains(v) || bv == Some(v))) by {
        if pool.contains(v) {
            let k = choose|k: int| 0 <= k < pool.len() && pool[k] == v;
            if k < start.len() {
                assert(dv[k] == v);
            }
        }
        if dv.contains(v) {
            let k = choose|k: int| 0 <= k < dv.len() && dv[k] == v;
            assert(pool[k] == v);
        }
        if bv == Some(v) {
            assert(pool[pool.len() - 1] == v);
        }
    }
    let sorted = merge_sort(all);
    let ghost sv = views_of(sorted@);
    proof {
        assert forall|v: Seq<char>| #[trigger] sv.contains(v) <==> pool.contains(v) by {
            vstd::seq_lib::to_multiset_contains(sv, v);
            vstd::seq_lib::to_multiset_contains(pool, v);
        }
    }
    let mut out: Vec<String> = Vec::new();
    let mut i: usize = 0;
    while i < sorted.len()
        invariant
            sv == views_of(sorted@),
            sorted_by_key::<String>(sv),
            0 <= i <= sv.len(),
            forall|a: int, b: int| 0 <= a < b < out@.len() ==> text_lt(#[trigger] views_of(out@)[a], #[trigger] views_of(out@)[b]),
            forall|a: int| 0 <= a < out@.len() && i < sv.len() ==> !text_lt(sv[i as int], #[trigger] views_of(out@)[a]),
            forall|v: Seq<char>| #[trigger] views_of(out@).contains(v) <==> valid_path_component_spec(v) && sv.take(i as int).contains(v),
        decreases sv.len() - i,
    {
        let x = &sorted[i];
        let keep = valid_path_component(x.as_str()) && (out.len() == 0 || !crate::text::same_text(out[out.len() - 1].as_str(), x.as_str()));
        let ghost before = views_of(out@);
        let ghost xv = sv[i as int];
        if keep {
            out.push(x.clone());
        }
        proof {
            broadcast use vstd::seq_lib::group_seq_properties;
            assert(sv.take(i + 1) =~= sv.take(i as int).push(xv));
            assert forall|v: Seq<char>| #[trigger] views_of(out@).contains(v) <==> valid_path_component_spec(v) && sv.take(i + 1).contains(v) by {
                if keep {
                    assert(views_of(out@) =~= before.push(xv));
                } else {
                    assert(views_of(out@) =~= before);
                    if v == xv && valid_path_component_spec(v) {
                        assert(before.len() > 0 && before[before.len() - 1] == xv);
                    }
                }
                if sv.take(i + 1).contains(v) && v != xv {
                    let k = choose|k: int| 0 <= k < i + 1 && #[trigger] sv.take(i + 1)[k] == v;
                    assert(sv.take(i as int)[k] == v);
                }
            }
            if keep && before.len() > 0 {
                let last = before[before.len() - 1];
                assert(!text_lt(xv, last));
                if last != xv {
                    lemma_text_lt_total(last, xv);
                }
            }
            if i + 1 < sv.len() {
                assert(!text_lt(sv[i + 1], sv[i as int]));
                assert forall|a: int| 0 <= a < out@.len() implies !text_lt(sv[i + 1], #[trigger] views_of(out@)[a]) by {
                    if keep && a == out@.len() - 1 {
                        assert(views_of(out@)[a] == xv);
                    } else {
                        assert(views_of(out@)[a] == before[a]);
                        <String as KeyOrder>::lemma_not_before_transitive(before[a], xv, sv[i + 1]);
                    }
                }
            }
            if keep {
                assert forall|a: int, b: int| 0 <= a < b < out@.len() implies text_lt(#[trigger] views_of(out@)[a], #[trigger] views_of(out@)[b]) by {
                    assert(views_of(out@)[a] == before[a]);
                    if b < before.len() {
                        assert(views_of(out@)[b] == before[b]);
                    } else {
                        let last = before[before.len() - 1];
                        if a < before.len() - 1 {
                            lemma_text_lt_transitive(before[a], last, xv);
                        }
                    }
                }
            }
        }
        i = i + 1;
    }
    assert(sv.take(sv.len() as int) =~= sv);
    assert(views_of(out@) =~= out@.map_values(|g: String| g@));
    out
}


/// A related item as reviewed: what is shown, and the identity and
/// allowlisted folder it was found with.
#[derive(Debug)]
pub struct PlannedRelatedItem {
    pub public: RelatedApplicationItem,
    pub identity: FileIdentity,
    pub canonical_root: String,
}

/// A related item as plain values.
pub ghost struct RelatedView {
    pub id: Seq<char>,
    pub path: Seq<char>,
    pub display_path: Seq<char>,
    pub category: Seq<char>,
    pub logical_size: u64,
    pub allocated_size: Option<u64>,
    pub may_contain_user_data: bool,
    pub confidence: RelatedItemConfidence,
    pub default_selected: bool,
    pub reason: Seq<char>,
    pub is_directory: bool,
    pub modified_at: Option<i64>,
    pub device: u64,
    pub inode: u64,
    pub canonical_path: Seq<char>,
    pub canonical_root: Seq<char>,
}

impl View for PlannedRelatedItem {
    type V = RelatedView;

    open spec fn view(&self) -> RelatedView {
        RelatedView {
            id: self.public.id@,
            path: self.public.path@,
            display_path: self.public.display_path@,
            category: self.public.category@,
            logical_size: self.public.logical_size,
            allocated_size: self.public.allocated_size,
            may_contain_user_data: self.public.may_contain_user_data,
            confidence: self.public.confidence,
            default_selected: self.public.default_selected,
            reason: self.public.reason@,
            is_directory: self.identity.is_directory,
            modified_at: self.identity.modified_at,
            device: self.identity.device,
            inode: self.identity.inode,
            canonical_path: self.identity.canonical_path@,
            canonical_root: self.canonical_root@,
        }
    }
}

/// A copy of a related item as shown.
pub fn copy_related_public(p: &RelatedApplicationItem) -> (r: RelatedApplicationItem)
    ensures
        r == *p,
{
    RelatedApplicationItem {
        id: p.id.clone(),
        path: p.path.clone(),
        display_path: p.display_path.clone(),
        category: p.category.clone(),
        logical_size: p.logical_size,
        allocated_size: p.allocated_size,
        may_contain_user_data: p.may_contain_user_data,
        confidence: p.confidence,
        default_selected: p.default_selected,
        reason: p.reason.clone(),
    }
}

pub fn copy_planned(p: &PlannedRelatedItem) -> (r: PlannedRelatedItem)
    ensures
        r == *p,
{
    PlannedRelatedItem {
        public: copy_related_public(&p.public),
        identity: copy_identity(&p.identity),
        canonical_root: p.canonical_root.clone(),
    }
}

/// Items selected by default come first, then in order of their shown path.
impl KeyOrder for PlannedRelatedItem {
    open spec fn before(a: RelatedView, b: RelatedView) -> bool {
        (a.default_selected && !b.default_selected)
            || (a.default_selected == b.default_selected && text_lt(a.display_path, b.display_path))
    }

    proof fn lemma_asymmetric(a: RelatedView, b: RelatedView) {
        if a.default_selected == b.default_selected && text_lt(a.display_path, b.display_path)
            && text_lt(b.display_path, a.display_path) {
            lemma_text_lt_transitive(a.display_path, b.display_path, a.display_path);
            lemma_text_lt_irreflexive(a.display_path);
        }
    }

    proof fn lemma_not_before_transitive(a: RelatedView, b: RelatedView, c: RelatedView) {
        if c.default_selected == a.default_selected && a.default_selected == b.default_selected
            && text_lt(c.display_path, a.display_path) && a.display_path != b.display_path {
            lemma_text_lt_total(a.display_path, b.display_path);
            lemma_text_lt_transitive(c.display_path, a.display_path, b.display_path);
        }
    }

    fn less(&self, other: &Self) -> (r: bool) {
        if self.public.default_selected != other.public.default_selected {
            self.public.default_selected
        } else {
            text_less(chars_of(self.public.display_path.as_str()).as_slice(),
                chars_of(other.public.display_path.as_str()).as_slice())
        }
    }

    fn duplicate(&self) -> (r: Self) {
        copy_planned(self)
    }
}

/// The canonical path and report of a candidate that qualifies: not a link,
/// and strictly inside its canonical allowlisted folder.
pub open spec fn related_found(path: Seq<char>, library: Seq<char>, facts: IdentityFacts) -> Option<(Seq<char>, crate::applications::inventory::PathStat)> {
    match facts.stat {
        Err(_) => None,
        Ok(s) => if s.is_symlink {
            None
        } else {
            match facts.canonical {
                Err(_) => None,
                Ok(c) => if !path_starts_with(c@, library, PathStyle::Posix) || same_path(c@, library, PathStyle::Posix) {
                    None
                } else {
                    Some((c@, s))
                },
            }
        },
    }
}

/// The folder a candidate must stay inside: its root, resolved when it could be.
pub open spec fn resolved_root(c: CandidateView, root: Option<String>) -> Seq<char> {
    match root {
        Some(r) => r@,
        None => c.1,
    }
}

pub open spec fn has_canonical(items: Seq<RelatedView>, canonical: Seq<char>) -> bool {
    exists|k: int| 0 <= k < items.len() && (#[trigger] items[k]).path == canonical
}

/// The related items from the first `n` candidates, in candidate order: each
/// candidate that qualifies and resolves to a place not found before, with
/// its measured size, an identifier from its canonical path, and that path
/// shown relative to `home`.
pub open spec fn related_spec(
    cands: Seq<CandidateView>,
    roots: Seq<Option<String>>,
    facts: Seq<IdentityFacts>,
    sizes: Seq<(u64, u64)>,
    home: Seq<char>,
    n: int,
) -> Seq<RelatedView>
    decreases n,
{
    if n <= 0 {
        Seq::empty()
    } else {
        let prev = related_spec(cands, roots, facts, sizes, home, n - 1);
        let c = cands[n - 1];
        let root = resolved_root(c, roots[n - 1]);
        match related_found(c.0, root, facts[n - 1]) {
            None => prev,
            Some((canonical, s)) => if has_canonical(prev, canonical) {
                prev
            } else {
                prev.push(RelatedView {
                    id: content_id(canonical),
                    path: canonical,
                    display_path: display_path(canonical, home),
                    category: c.2,
                    logical_size: sizes[n - 1].0,
                    allocated_size: Some(sizes[n - 1].1),
                    may_contain_user_data: c.3,
                    confidence: c.4,
                    default_selected: c.5,
                    reason: c.6,
                    is_directory: s.is_dir,
                    modified_at: s.modified_at,
                    device: s.device,
                    inode: s.inode,
                    canonical_path: canonical,
                    canonical_root: root,
                })
            },
        }
    }
}

pub open spec fn canonical_set(items: Seq<RelatedView>) -> Set<Seq<char>> {
    Set::new(|p: Seq<char>| has_canonical(items, p))
}

/// The related items found for the candidates (see `related_spec`), where
/// `roots` holds each candidate's root as resolved (when it could be),
/// `facts` the file system's report on each candidate, and `sizes` each
/// candidate's measured logical and allocated size; selected-by-default
/// items first, then by shown path.
pub fn assemble_related(
    candidates: &Vec<RelatedCandidate>,
    roots: &Vec<Option<String>>,
    facts: &Vec<IdentityFacts>,
    sizes: &Vec<(u64, u64)>,
    home: &str,
) -> (r: Vec<PlannedRelatedItem>)
    requires
        roots@.len() == candidates@.len(),
        facts@.len() == candidates@.len(),
        sizes@.len() == candidates@.len(),
    ensures
        sorted_by_key::<PlannedRelatedItem>(views_of(r@)),
        views_of(r@).to_multiset() == related_spec(candidate_views(candidates@), roots@, facts@, sizes@, home@,
            candidates@.len() as int).to_multiset(),
        forall|i: int| 0 <= i < r@.len() ==> (#[trigger] r@[i]).identity.canonical_path@ == r@[i].public.path@,
{
    let ghost cv = candidate_views(candidates@);
    let mut found: Vec<PlannedRelatedItem> = Vec::new();
    let mut seen = StringHashSet::new();
    let mut i: usize = 0;
    while i < candidates.len()
        invariant
            cv == candidate_views(candidates@),
            roots@.len() == candidates@.len(),
            facts@.len() == candidates@.len(),
            sizes@.len() == candidates@.len(),
            0 <= i <= candidates@.len(),
            views_of(found@) == related_spec(cv, roots@, facts@, sizes@, home@, i as int),
            seen@ == canonical_set(views_of(found@)),
            forall|k: int| 0 <= k < found@.len() ==> (#[trigger] found@[k]).identity.canonical_path@ == found@[k].public.path@,
        decreases candidates@.len() - i,
    {
        let c = &candidates[i];
        let ghost prev = views_of(found@);
        assert(cv[i as int] == candidate_view(*c));
        let root = match &roots[i] {
            Some(r) => r.clone(),
            None => c.root.clone(),
        };
        assert(root@ == resolved_root(cv[i as int], roots@[i as int]));
        match related_identity(c.path.as_str(), root.as_str(), &facts[i]) {
            Err(_) => {},
            Ok(identity) => {
                if !seen.contains(identity.canonical_path.as_str()) {
                    seen.insert(identity.canonical_path.clone());
                    let (logical, allocated) = sizes[i];
                    let public = RelatedApplicationItem {
                        id: content_id_exec(identity.canonical_path.as_str()),
                        path: identity.canonical_path.clone(),
                        display_path: display_path_exec(identity.canonical_path.as_str(), home),
                        category: c.category.clone(),
                        logical_size: logical,
                        allocated_size: Some(allocated),
                        may_contain_user_data: c.may_contain_user_data,
                        confidence: c.confidence,
                        default_selected: c.default_selected,
                        reason: c.reason.clone(),
                    };
                    found.push(PlannedRelatedItem { public, identity, canonical_root: root });
                    proof {
                        assert(views_of(found@) =~= prev.push(found@.last()@));
                        assert(seen@ =~= canonical_set(views_of(found@))) by {
                            assert forall|p: Seq<char>| seen@.contains(p) <==> #[trigger] has_canonical(views_of(found@), p) by {
                                if has_canonical(prev, p) {
                                    let k = choose|k: int| 0 <= k < prev.len() && (#[trigger] prev[k]).path == p;
                                    assert(views_of(found@)[k] == prev[k]);
                                }
                                if has_canonical(views_of(found@), p) {
                                    let k = choose|k: int| 0 <= k < views_of(found@).len() && (#[trigger] views_of(found@)[k]).path == p;
                                    if k < prev.len() {
                                        assert(views_of(found@)[k] == prev[k]);
                                    }
                                }
                                assert(views_of(found@)[prev.len() as int].path == found@.last().public.path@);
                            }
                        }
                    }
                }
            },
        }
        i = i + 1;
    }
    let ghost before = views_of(found@);
    let r = merge_sort(found);
    proof {
        broadcast use vstd::seq_lib::group_to_multiset_ensures;
        assert forall|i: int| 0 <= i < r@.len() implies (#[trigger] r@[i]).identity.canonical_path@ == r@[i].public.path@ by {
            let v = views_of(r@)[i];
            assert(views_of(r@).contains(v));
            assert(views_of(r@).to_multiset().count(v) > 0);
            assert(before.contains(v));
            let k = choose|k: int| 0 <= k < before.len() && before[k] == v;
            assert(before[k].canonical_path == before[k].path);
        }
    }
    r
}
/// Checks that a reviewed related item is still what it was: `facts` is the
/// file system's report on its canonical path now.
pub fn revalidate_related_identity(expected: &PlannedRelatedItem, facts: &IdentityFacts) -> (r: Result<(), CommandError>)
    ensures
        match related_identity_spec(expected.identity.canonical_path@, expected.canonical_root@, *facts) {
            None => r matches Err(e) && related_identity_error(e, expected.identity.canonical_path@, *facts),
            Some(current) => if same_identity(current, expected.identity) {
                r is Ok
            } else {
                r matches Err(e) && path_error(e, ErrorCode::PlanValidationFailed,
                    "Related application data changed after review. Create a new uninstall plan."@, true,
                    expected.identity.canonical_path@)
            },
        },
{
    let current = related_identity(expected.identity.canonical_path.as_str(), expected.canonical_root.as_str(), facts)?;
    if !same_identity_exec(&current, &expected.identity) {
        return Err(CommandError::new(
            ErrorCode::PlanValidationFailed,
            "Related application data changed after review. Create a new uninstall plan.",
            true,
        ).with_path(expected.identity.canonical_path.as_str()));
    }
    Ok(())
}

} // verus!
