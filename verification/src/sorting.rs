//! A merge sort for values ordered by a key with a strict weak order.
use vstd::prelude::*;
use vstd::seq_lib::lemma_multiset_commutative;
use vstd::multiset::Multiset;

verus! {

/// Values ordered by a key of their view: `before` is a strict weak order on
/// views, `less` decides it, and `duplicate` copies a value's view exactly.
pub trait KeyOrder: View + Sized {
    spec fn before(a: Self::V, b: Self::V) -> bool;

    proof fn lemma_asymmetric(a: Self::V, b: Self::V)
        requires
            Self::before(a, b),
        ensures
            !Self::before(b, a),
    ;

    proof fn lemma_not_before_transitive(a: Self::V, b: Self::V, c: Self::V)
        requires
            !Self::before(b, a),
            !Self::before(c, b),
        ensures
            !Self::before(c, a),
    ;

    fn less(&self, other: &Self) -> (r: bool)
        ensures
            r == Self::before(self@, other@),
    ;

    fn duplicate(&self) -> (r: Self)
        ensures
            r@ == self@,
    ;
}

/// The views of a sequence of values.
pub open spec fn views_of<T: View>(s: Seq<T>) -> Seq<T::V> {
    s.map_values(|x: T| x@)
}

/// No view comes before one that precedes it.
pub open spec fn sorted_by_key<T: KeyOrder>(s: Seq<T::V>) -> bool {
    forall|i: int, j: int| #![trigger s[i], s[j]] 0 <= i < j < s.len() ==> !T::before(s[j], s[i])
}

proof fn lemma_skip_one<V>(s: Seq<V>, i: int)
    requires
        0 <= i < s.len(),
    ensures
        s.skip(i).to_multiset() == s.skip(i + 1).to_multiset().insert(s[i]),
{
    broadcast use vstd::multiset::group_multiset_axioms;
    assert(s.skip(i) =~= seq![s[i]] + s.skip(i + 1));
    lemma_multiset_commutative(seq![s[i]], s.skip(i + 1));
    assert(seq![s[i]] =~= Seq::<V>::empty().push(s[i]));
    vstd::seq_lib::to_multiset_build(Seq::<V>::empty(), s[i]);
    lemma_empty_multiset::<V>();
}

proof fn lemma_empty_multiset<V>()
    ensures
        Seq::<V>::empty().to_multiset() =~= Multiset::<V>::empty(),
{
    broadcast use vstd::seq_lib::to_multiset_len;
    vstd::multiset::lemma_multiset_empty_len(Seq::<V>::empty().to_multiset());
}

fn merge<T: KeyOrder>(l: &Vec<T>, r: &Vec<T>) -> (out: Vec<T>)
    requires
        sorted_by_key::<T>(views_of(l@)),
        sorted_by_key::<T>(views_of(r@)),
    ensures
        sorted_by_key::<T>(views_of(out@)),
        views_of(out@).to_multiset() == views_of(l@).to_multiset().add(views_of(r@).to_multiset()),
{
    broadcast use vstd::multiset::group_multiset_axioms;
    let ghost lv = views_of(l@);
    let ghost rv = views_of(r@);
    let mut out: Vec<T> = Vec::new();
    let mut i: usize = 0;
    let mut j: usize = 0;
    assert(lv.skip(0) =~= lv);
    assert(rv.skip(0) =~= rv);
    proof {
        assert(views_of(out@) =~= Seq::<T::V>::empty());
        lemma_empty_multiset::<T::V>();
    }
    while i < l.len() || j < r.len()
        invariant
            lv == views_of(l@),
            rv == views_of(r@),
            sorted_by_key::<T>(lv),
            sorted_by_key::<T>(rv),
            0 <= i <= lv.len(),
            0 <= j <= rv.len(),
            sorted_by_key::<T>(views_of(out@)),
            views_of(out@).to_multiset().add(lv.skip(i as int).to_multiset()).add(rv.skip(j as int).to_multiset())
                == lv.to_multiset().add(rv.to_multiset()),
            forall|k: int| #![trigger views_of(out@)[k]] 0 <= k < out@.len() && i < lv.len() ==> !T::before(lv[i as int], views_of(out@)[k]),
            forall|k: int| #![trigger views_of(out@)[k]] 0 <= k < out@.len() && j < rv.len() ==> !T::before(rv[j as int], views_of(out@)[k]),
        decreases lv.len() - i + rv.len() - j,
    {
        let take_left = if i >= l.len() {
            false
        } else if j >= r.len() {
            true
        } else {
            !r[j].less(&l[i])
        };
        let ghost before = views_of(out@);
        if take_left {
            let x = l[i].duplicate();
            let ghost xv = x@;
            proof {
                assert(xv == lv[i as int]);
                lemma_skip_one(lv, i as int);
                assert forall|k: int| #![trigger before.push(xv)[k]] 0 <= k < before.len() + 1 && i + 1 < lv.len() implies
                    !T::before(lv[i + 1], before.push(xv)[k]) by {
                    assert(!T::before(lv[i + 1], lv[i as int]));
                    if k < before.len() {
                        assert(before.push(xv)[k] == before[k]);
                        T::lemma_not_before_transitive(before[k], lv[i as int], lv[i + 1]);
                    }
                }
                assert forall|a: int, b: int| #![trigger before.push(xv)[a], before.push(xv)[b]] 0 <= a < b < before.len() + 1 implies
                    !T::before(before.push(xv)[b], before.push(xv)[a]) by {
                    assert(before.push(xv)[a] == before[a]);
                    if b < before.len() {
                        assert(before.push(xv)[b] == before[b]);
                    }
                }
            }
            out.push(x);
            proof {
                assert(views_of(out@) =~= before.push(xv));
                vstd::seq_lib::to_multiset_build(before, xv);
                assert(views_of(out@).to_multiset().add(lv.skip(i + 1).to_multiset()).add(rv.skip(j as int).to_multiset())
                    =~= before.to_multiset().add(lv.skip(i as int).to_multiset()).add(rv.skip(j as int).to_multiset()));
            }
            i = i + 1;
        } else {
            let x = r[j].duplicate();
            let ghost xv = x@;
            proof {
                assert(xv == rv[j as int]);
                lemma_skip_one(rv, j as int);
                if i < lv.len() {
                    T::lemma_asymmetric(rv[j as int], lv[i as int]);
                }
                assert forall|k: int| #![trigger before.push(xv)[k]] 0 <= k < before.len() + 1 && j + 1 < rv.len() implies
                    !T::before(rv[j + 1], before.push(xv)[k]) by {
                    assert(!T::before(rv[j + 1], rv[j as int]));
                    if k < before.len() {
                        assert(before.push(xv)[k] == before[k]);
                        T::lemma_not_before_transitive(before[k], rv[j as int], rv[j + 1]);
                    }
                }
                assert forall|a: int, b: int| #![trigger before.push(xv)[a], before.push(xv)[b]] 0 <= a < b < before.len() + 1 implies
                    !T::before(before.push(xv)[b], before.push(xv)[a]) by {
                    assert(before.push(xv)[a] == before[a]);
                    if b < before.len() {
                        assert(before.push(xv)[b] == before[b]);
                    }
                }
            }
            out.push(x);
            proof {
                assert(views_of(out@) =~= before.push(xv));
                vstd::seq_lib::to_multiset_build(before, xv);
                assert(views_of(out@).to_multiset().add(lv.skip(i as int).to_multiset()).add(rv.skip(j + 1).to_multiset())
                    =~= before.to_multiset().add(lv.skip(i as int).to_multiset()).add(rv.skip(j as int).to_multiset()));
            }
            j = j + 1;
        }
    }
    proof {
        assert(lv.skip(i as int) =~= Seq::<T::V>::empty());
        assert(rv.skip(j as int) =~= Seq::<T::V>::empty());
        lemma_empty_multiset::<T::V>();
    }
    out
}

/// The values in key order: the same views, none before one that precedes it.
pub fn merge_sort<T: KeyOrder>(v: Vec<T>) -> (r: Vec<T>)
    ensures
        sorted_by_key::<T>(views_of(r@)),
        views_of(r@).to_multiset() == views_of(v@).to_multiset(),
    decreases v@.len(),
{
    if v.len() <= 1 {
        return v;
    }
    let ghost whole = v@;
    let mid = v.len() / 2;
    let mut left = v;
    let right = left.split_off(mid);
    proof {
        assert(whole =~= left@ + right@);
        assert(views_of(whole) =~= views_of(left@) + views_of(right@));
        lemma_multiset_commutative(views_of(left@), views_of(right@));
    }
    let sorted_left = merge_sort(left);
    let sorted_right = merge_sort(right);
    merge(&sorted_left, &sorted_right)
}

} // verus!
