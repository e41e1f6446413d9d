use vstd::prelude::*;
use crate::paths::{comp_views, components, components_exec, same_path, Comp, Component, PathStyle};
use crate::text::{lemma_text_lt_irreflexive, lemma_text_lt_total, lemma_text_lt_transitive, text_less, text_lt};

verus! {

/// The rank of a component kind in `Path` order.
pub open spec fn comp_rank(c: Comp) -> int {
    match c {
        Comp::Prefix(_) => 0,
        Comp::Root => 1,
        Comp::Cur => 2,
        Comp::Parent => 3,
        Comp::Normal(_) => 4,
    }
}

/// `Path` order on single components: by kind, then by text.
pub open spec fn comp_lt(a: Comp, b: Comp) -> bool {
    if comp_rank(a) != comp_rank(b) {
        comp_rank(a) < comp_rank(b)
    } else {
        match (a, b) {
            (Comp::Prefix(x), Comp::Prefix(y)) => text_lt(x, y),
            (Comp::Normal(x), Comp::Normal(y)) => text_lt(x, y),
            _ => false,
        }
    }
}

/// `Path` order: component lists compared lexicographically.
pub open spec fn comps_lt(a: Seq<Comp>, b: Seq<Comp>) -> bool
    decreases a.len(),
{
    if b.len() == 0 {
        false
    } else if a.len() == 0 {
        true
    } else if a[0] != b[0] {
        comp_lt(a[0], b[0])
    } else {
        comps_lt(a.drop_first(), b.drop_first())
    }
}

/// `Path` order on path texts.
pub open spec fn path_lt(a: Seq<char>, b: Seq<char>) -> bool {
    comps_lt(components(a, PathStyle::Posix), components(b, PathStyle::Posix))
}

proof fn lemma_comp_lt_transitive(a: Comp, b: Comp, c: Comp)
    requires
        comp_lt(a, b),
        comp_lt(b, c),
    ensures
        comp_lt(a, c),
{
    match (a, b, c) {
        (Comp::Prefix(x), Comp::Prefix(y), Comp::Prefix(z)) => lemma_text_lt_transitive(x, y, z),
        (Comp::Normal(x), Comp::Normal(y), Comp::Normal(z)) => lemma_text_lt_transitive(x, y, z),
        _ => {},
    }
}

proof fn lemma_comp_lt_irreflexive(a: Comp)
    ensures
        !comp_lt(a, a),
{
    match a {
        Comp::Prefix(x) => lemma_text_lt_irreflexive(x),
        Comp::Normal(x) => lemma_text_lt_irreflexive(x),
        _ => {},
    }
}

proof fn lemma_comp_lt_total(a: Comp, b: Comp)
    requires
        a != b,
    ensures
        comp_lt(a, b) || comp_lt(b, a),
{
    match (a, b) {
        (Comp::Prefix(x), Comp::Prefix(y)) => lemma_text_lt_total(x, y),
        (Comp::Normal(x), Comp::Normal(y)) => lemma_text_lt_total(x, y),
        _ => {},
    }
}

pub proof fn lemma_comps_lt_irreflexive(a: Seq<Comp>)
    ensures
        !comps_lt(a, a),
    decreases a.len(),
{
    if a.len() > 0 {
        lemma_comps_lt_irreflexive(a.drop_first());
    }
}

pub proof fn lemma_comps_lt_transitive(a: Seq<Comp>, b: Seq<Comp>, c: Seq<Comp>)
    requires
        comps_lt(a, b),
        comps_lt(b, c),
    ensures
        comps_lt(a, c),
    decreases a.len(),
{
    if a.len() > 0 && b.len() > 0 && c.len() > 0 {
        if a[0] == b[0] && b[0] == c[0] {
            lemma_comps_lt_transitive(a.drop_first(), b.drop_first(), c.drop_first());
        } else if a[0] != b[0] && b[0] != c[0] {
            lemma_comp_lt_transitive(a[0], b[0], c[0]);
            if a[0] == c[0] {
                lemma_comp_lt_irreflexive(a[0]);
            }
        }
    }
}

pub proof fn lemma_comps_lt_total(a: Seq<Comp>, b: Seq<Comp>)
    requires
        a != b,
    ensures
        comps_lt(a, b) || comps_lt(b, a),
    decreases a.len(),
{
    if a.len() > 0 && b.len() > 0 {
        if a[0] == b[0] {
            if a.drop_first() == b.drop_first() {
                assert(a =~= seq![a[0]] + a.drop_first());
                assert(b =~= seq![b[0]] + b.drop_first());
            }
            lemma_comps_lt_total(a.drop_first(), b.drop_first());
        } else {
            lemma_comp_lt_total(a[0], b[0]);
        }
    } else if a.len() == 0 && b.len() == 0 {
        assert(a =~= b);
    }
}

fn comp_less(a: &Component, b: &Component) -> (r: bool)
    ensures
        r == comp_lt(a@, b@),
{
    let ra: u8 = match a {
        Component::Prefix(_) => 0,
        Component::RootDir => 1,
        Component::CurDir => 2,
        Component::ParentDir => 3,
        Component::Normal(_) => 4,
    };
    let rb: u8 = match b {
        Component::Prefix(_) => 0,
        Component::RootDir => 1,
        Component::CurDir => 2,
        Component::ParentDir => 3,
        Component::Normal(_) => 4,
    };
    if ra != rb {
        return ra < rb;
    }
    match (a, b) {
        (Component::Prefix(x), Component::Prefix(y)) => text_less(x.as_slice(), y.as_slice()),
        (Component::Normal(x), Component::Normal(y)) => text_less(x.as_slice(), y.as_slice()),
        _ => false,
    }
}

/// Whether one component list comes before another in `Path` order.
pub fn comps_less(a: &[Component], b: &[Component]) -> (r: bool)
    ensures
        r == comps_lt(comp_views(a@), comp_views(b@)),
{
    let mut i: usize = 0;
    assert(comp_views(a@).skip(0) =~= comp_views(a@));
    assert(comp_views(b@).skip(0) =~= comp_views(b@));
    while i < a.len() && i < b.len()
        invariant
            i <= a@.len(),
            i <= b@.len(),
            comps_lt(comp_views(a@), comp_views(b@)) == comps_lt(comp_views(a@).skip(i as int), comp_views(b@).skip(i as int)),
        decreases a.len() - i,
    {
        assert(comp_views(a@).skip(i as int)[0] == a@[i as int]@);
        assert(comp_views(b@).skip(i as int)[0] == b@[i as int]@);
        if !crate::paths::same_component(&a[i], &b[i]) {
            return comp_less(&a[i], &b[i]);
        }
        assert(comp_views(a@).skip(i as int).drop_first() =~= comp_views(a@).skip(i + 1));
        assert(comp_views(b@).skip(i as int).drop_first() =~= comp_views(b@).skip(i + 1));
        i = i + 1;
    }
    assert(comp_views(a@).skip(i as int).len() == 0 || comp_views(b@).skip(i as int).len() == 0);
    i < b.len()
}

/// Whether one path comes before another in `Path` order.
pub fn path_less(a: &str, b: &str) -> (r: bool)
    ensures
        r == path_lt(a@, b@),
{
    let ac = components_exec(crate::text::chars_of(a).as_slice(), PathStyle::Posix);
    let bc = components_exec(crate::text::chars_of(b).as_slice(), PathStyle::Posix);
    comps_less(ac.as_slice(), bc.as_slice())
}

/// Paths in strictly increasing `Path` order: sorted, no two equal.
pub open spec fn strictly_sorted_paths(s: Seq<Seq<char>>) -> bool {
    forall|a: int, b: int| 0 <= a < b < s.len() ==> path_lt(#[trigger] s[a], #[trigger] s[b])
}

/// Some path of `s` is equal, as a path, to `p`.
pub open spec fn has_path(s: Seq<Seq<char>>, p: Seq<char>) -> bool {
    exists|k: int| 0 <= k < s.len() && same_path(#[trigger] s[k], p, PathStyle::Posix)
}

pub open spec fn string_views(v: Seq<String>) -> Seq<Seq<char>> {
    v.map_values(|s: String| s@)
}

/// Inserts a path into a strictly sorted list unless an equal path is there.
pub fn insert_path_sorted(list: &mut Vec<String>, p: String)
    requires
        strictly_sorted_paths(string_views(old(list)@)),
    ensures
        strictly_sorted_paths(string_views(final(list)@)),
        forall|q: Seq<char>| has_path(string_views(final(list)@), q) <==> (has_path(string_views(old(list)@), q)
            || same_path(p@, q, PathStyle::Posix)),
        forall|k: int| 0 <= k < final(list)@.len() ==> string_views(old(list)@).contains(#[trigger] string_views(final(list)@)[k]) || string_views(final(list)@)[k] == p@,
        final(list)@.len() <= old(list)@.len() + 1,
{
    let ghost before = string_views(list@);
    let mut i: usize = 0;
    while i < list.len() && path_less(list[i].as_str(), p.as_str())
        invariant
            string_views(list@) == before,
            i <= list@.len(),
            forall|j: int| 0 <= j < i ==> path_lt(#[trigger] before[j], p@),
        decreases list.len() - i,
    {
        i = i + 1;
    }
    if i < list.len() && crate::paths::same_path_exec(list[i].as_str(), p.as_str(), PathStyle::Posix) {
        proof {
            assert forall|q: Seq<char>| has_path(before, q) <==> (has_path(before, q) || same_path(p@, q, PathStyle::Posix)) by {
                if same_path(p@, q, PathStyle::Posix) {
                    assert(same_path(before[i as int], q, PathStyle::Posix));
                }
            }
            assert forall|k: int| 0 <= k < list@.len() implies before.contains(#[trigger] string_views(list@)[k]) || string_views(list@)[k] == p@ by {
                assert(before[k] == string_views(list@)[k]);
            }
        }
        return;
    }
    proof {
        if i < before.len() {
            assert(!path_lt(before[i as int], p@));
            let ci = components(before[i as int], PathStyle::Posix);
            let cp = components(p@, PathStyle::Posix);
            lemma_comps_lt_total(ci, cp);
            assert(path_lt(p@, before[i as int]));
            assert forall|j: int| i <= j < before.len() implies path_lt(p@, #[trigger] before[j]) by {
                if j > i {
                    lemma_comps_lt_transitive(cp, ci, components(before[j], PathStyle::Posix));
                }
            }
        }
    }
    let ghost old_list = list@;
    list.insert(i, p);
    proof {
        let after = string_views(list@);
        assert(list@ == old_list.insert(i as int, p));
        assert(after =~= before.insert(i as int, p@));
        assert forall|a: int, b: int| 0 <= a < b < after.len() implies path_lt(#[trigger] after[a], #[trigger] after[b]) by {
            if b < i {
            } else if b == i {
            } else if a < i {
                lemma_comps_lt_transitive(components(before[a], PathStyle::Posix), components(p@, PathStyle::Posix), components(before[b - 1], PathStyle::Posix));
            } else if a == i {
            } else {
            }
        }
        assert forall|q: Seq<char>| has_path(after, q) <==> (has_path(before, q) || same_path(p@, q, PathStyle::Posix)) by {
            if has_path(after, q) {
                let k = choose|k: int| 0 <= k < after.len() && same_path(#[trigger] after[k], q, PathStyle::Posix);
                if k < i {
                    assert(before[k] == after[k]);
                } else if k > i {
                    assert(before[k - 1] == after[k]);
                }
            }
            if has_path(before, q) {
                let k = choose|k: int| 0 <= k < before.len() && same_path(#[trigger] before[k], q, PathStyle::Posix);
                if k < i {
                    assert(after[k] == before[k]);
                } else {
                    assert(after[k + 1] == before[k]);
                }
            }
            if same_path(p@, q, PathStyle::Posix) {
                assert(after[i as int] == p@);
            }
        }
        assert forall|k: int| 0 <= k < after.len() implies before.contains(#[trigger] after[k]) || after[k] == p@ by {
            if k < i {
                assert(before[k] == after[k]);
            } else if k > i {
                assert(before[k - 1] == after[k]);
            }
        }
    }
}

} // verus!
