//! How candidates narrow down to duplicates: by shared size, then by equal
//! sample fingerprints, then by equal full fingerprints, and, when asked, by
//! byte-for-byte comparison.
use vstd::prelude::*;
use vstd::hash_map::{HashMapWithView, StringHashMap};
use crate::domain::duplicate::DuplicateProgress;
use crate::domain::error::{CommandError, ErrorCode};
use crate::duplicates::scanner::{error_recorded, record_error, Candidate};
use crate::sorting::{merge_sort, sorted_by_key, views_of, KeyOrder};
use crate::text::{
    chars_of, decimal, is_digit_char, lemma_decimal_digits, lemma_decimal_injective, lemma_text_lt_irreflexive,
    lemma_text_lt_total, lemma_text_lt_transitive, push_char, push_decimal, text_less, text_lt,
};

verus! {

/// How many of `s` have the given size.
pub open spec fn size_count(s: Seq<Candidate>, size: u64) -> nat
    decreases s.len(),
{
    if s.len() == 0 {
        0
    } else {
        size_count(s.drop_last(), size) + if s.last().size == size { 1nat } else { 0nat }
    }
}

proof fn lemma_size_count_bound(s: Seq<Candidate>, size: u64)
    ensures
        size_count(s, size) <= s.len(),
    decreases s.len(),
{
    if s.len() > 0 {
        lemma_size_count_bound(s.drop_last(), size);
    }
}

/// The members of `s`, in order, whose size at least one other member of
/// `all` shares.
pub open spec fn with_shared_size(all: Seq<Candidate>, s: Seq<Candidate>) -> Seq<Candidate>
    decreases s.len(),
{
    if s.len() == 0 {
        Seq::empty()
    } else {
        let rest = with_shared_size(all, s.drop_last());
        if size_count(all, s.last().size) >= 2 { rest.push(s.last()) } else { rest }
    }
}

/// The candidates whose size another candidate shares, in path order.
pub fn size_candidates(candidates: Vec<Candidate>) -> (r: Vec<Candidate>)
    ensures
        sorted_by_key::<Candidate>(views_of(r@)),
        views_of(r@).to_multiset() == with_shared_size(candidates@, candidates@).to_multiset(),
{
    broadcast use vstd::std_specs::hash::axiom_u64_obeys_hash_table_key_model;
    let ghost all = candidates@;
    let mut counts: HashMapWithView<u64, usize> = HashMapWithView::new();
    let mut i: usize = 0;
    while i < candidates.len()
        invariant
            all == candidates@,
            0 <= i <= all.len(),
            forall|sz: u64| #[trigger] size_count(all.take(i as int), sz)
                == (if counts@.contains_key(sz) { counts@[sz] as nat } else { 0nat }),
        decreases all.len() - i,
    {
        let size = candidates[i].size;
        let count: usize = match counts.get(&size) {
            Some(n) => *n,
            None => 0,
        };
        proof {
            assert(all.take(i + 1).drop_last() =~= all.take(i as int));
            assert(count == size_count(all.take(i as int), size));
            lemma_size_count_bound(all.take(i as int), size);
        }
        let ghost before = counts@;
        counts.insert(size, count + 1);
        proof {
            assert forall|sz: u64| #[trigger] size_count(all.take(i + 1), sz)
                == (if counts@.contains_key(sz) { counts@[sz] as nat } else { 0nat }) by {
                assert(all.take(i + 1).drop_last() =~= all.take(i as int));
                assert(all.take(i + 1).last() == all[i as int]);
                assert(size_count(all.take(i as int), sz)
                    == (if before.contains_key(sz) { before[sz] as nat } else { 0nat }));
            }
        }
        i = i + 1;
    }
    assert(all.take(all.len() as int) =~= all);
    let mut kept: Vec<Candidate> = Vec::new();
    let mut j: usize = 0;
    assert(all.take(0) =~= Seq::<Candidate>::empty());
    while j < candidates.len()
        invariant
            all == candidates@,
            0 <= j <= all.len(),
            forall|sz: u64| #[trigger] size_count(all, sz)
                == (if counts@.contains_key(sz) { counts@[sz] as nat } else { 0nat }),
            kept@ == with_shared_size(all, all.take(j as int)),
        decreases all.len() - j,
    {
        let size = candidates[j].size;
        let shared = match counts.get(&size) {
            Some(n) => *n >= 2,
            None => false,
        };
        proof {
            assert(all.take(j + 1).drop_last() =~= all.take(j as int));
            assert(all.take(j + 1).last() == all[j as int]);
            assert(shared == (size_count(all, size) >= 2));
        }
        if shared {
            kept.push(candidates[j].duplicate());
        }
        j = j + 1;
    }
    assert(views_of(kept@) =~= kept@);
    merge_sort(kept)
}


/// Candidates that agree on a size and a fingerprint.
#[derive(Debug)]
pub struct CandidateGroup {
    pub size: u64,
    pub hash: String,
    pub members: Vec<Candidate>,
}

/// A group as plain values: size, fingerprint, members.
pub type GroupView = (u64, Seq<char>, Seq<Candidate>);

pub open spec fn group_view(g: CandidateGroup) -> GroupView {
    (g.size, g.hash@, g.members@)
}

pub open spec fn group_views(g: Seq<CandidateGroup>) -> Seq<GroupView> {
    g.map_values(|x: CandidateGroup| group_view(x))
}

/// Some group has this size and fingerprint.
pub open spec fn has_key(g: Seq<GroupView>, size: u64, hash: Seq<char>) -> bool {
    exists|i: int| 0 <= i < g.len() && (#[trigger] g[i]).0 == size && g[i].1 == hash
}

/// No two groups share a size and a fingerprint.
pub open spec fn distinct_keys(g: Seq<GroupView>) -> bool {
    forall|i: int, j: int| #![trigger g[i], g[j]] 0 <= i < j < g.len() ==> !(g[i].0 == g[j].0 && g[i].1 == g[j].1)
}

/// The groups after adding `c` under a size and a fingerprint: appended to
/// the group with that key, or opening a new group after the others.
pub open spec fn add_member(g: Seq<GroupView>, size: u64, hash: Seq<char>, c: Candidate) -> Seq<GroupView> {
    if has_key(g, size, hash) {
        let i = choose|i: int| 0 <= i < g.len() && (#[trigger] g[i]).0 == size && g[i].1 == hash;
        g.update(i, (size, hash, g[i].2.push(c)))
    } else {
        g.push((size, hash, seq![c]))
    }
}

/// The text under which a group is found: its size in decimal, a colon and
/// its fingerprint.
pub open spec fn group_key(size: u64, hash: Seq<char>) -> Seq<char> {
    decimal(size as nat) + seq![':'] + hash
}

proof fn lemma_group_key_injective(s1: u64, h1: Seq<char>, s2: u64, h2: Seq<char>)
    requires
        group_key(s1, h1) == group_key(s2, h2),
    ensures
        s1 == s2,
        h1 == h2,
{
    let d1 = decimal(s1 as nat);
    let d2 = decimal(s2 as nat);
    lemma_decimal_digits(s1 as nat);
    lemma_decimal_digits(s2 as nat);
    let k = group_key(s1, h1);
    if d1.len() < d2.len() {
        assert(k[d1.len() as int] == ':');
        assert(group_key(s2, h2)[d1.len() as int] == d2[d1.len() as int]);
        assert(is_digit_char(d2[d1.len() as int]));
    } else if d2.len() < d1.len() {
        assert(group_key(s2, h2)[d2.len() as int] == ':');
        assert(k[d2.len() as int] == d1[d2.len() as int]);
        assert(is_digit_char(d1[d2.len() as int]));
    } else {
        assert(d1 =~= k.subrange(0, d1.len() as int));
        assert(d2 =~= group_key(s2, h2).subrange(0, d2.len() as int));
        lemma_decimal_injective(s1 as nat, s2 as nat);
        assert(h1 =~= k.skip(d1.len() as int + 1));
        assert(h2 =~= group_key(s2, h2).skip(d2.len() as int + 1));
    }
}

fn group_key_exec(size: u64, hash: &str) -> (r: String)
    ensures
        r@ == group_key(size, hash@),
{
    let mut k = String::new();
    push_decimal(&mut k, size);
    push_char(&mut k, ':');
    let chars = chars_of(hash);
    let mut i: usize = 0;
    assert(k@ =~= decimal(size as nat) + seq![':']);
    while i < chars.len()
        invariant
            chars@ == hash@,
            0 <= i <= chars@.len(),
            k@ == decimal(size as nat) + seq![':'] + chars@.take(i as int),
        decreases chars@.len() - i,
    {
        push_char(&mut k, chars[i]);
        assert(chars@.take(i + 1) =~= chars@.take(i as int).push(chars@[i as int]));
        i = i + 1;
    }
    assert(chars@.take(chars@.len() as int) =~= chars@);
    k
}

/// Groups of candidates keyed by size and fingerprint, in the order their
/// keys first appeared.
pub struct KeyedGroups {
    groups: Vec<CandidateGroup>,
    index: StringHashMap<usize>,
}

impl KeyedGroups {
    pub closed spec fn groups(&self) -> Seq<GroupView> {
        group_views(self.groups@)
    }

    pub closed spec fn wf(&self) -> bool {
        &&& forall|i: int| #![trigger self.groups@[i]] 0 <= i < self.groups@.len()
            ==> self.index@.contains_key(group_key(self.groups@[i].size, self.groups@[i].hash@))
            && self.index@[group_key(self.groups@[i].size, self.groups@[i].hash@)] == i
        &&& forall|k: Seq<char>| #[trigger] self.index@.contains_key(k) ==> self.index@[k] < self.groups@.len()
            && group_key(self.groups@[self.index@[k] as int].size, self.groups@[self.index@[k] as int].hash@) == k
    }

    proof fn lemma_distinct(&self)
        requires
            self.wf(),
        ensures
            distinct_keys(self.groups()),
    {
        assert forall|i: int, j: int| #![trigger self.groups()[i], self.groups()[j]]
            0 <= i < j < self.groups().len() implies !(self.groups()[i].0 == self.groups()[j].0
            && self.groups()[i].1 == self.groups()[j].1) by {
            let gi = self.groups@[i];
            let gj = self.groups@[j];
            assert(self.groups()[i] == group_view(gi));
            assert(self.groups()[j] == group_view(gj));
        }
    }

    pub fn new() -> (r: Self)
        ensures
            r.wf(),
            r.groups() == Seq::<GroupView>::empty(),
    {
        let r = KeyedGroups { groups: Vec::new(), index: StringHashMap::new() };
        assert(group_views(r.groups@) =~= Seq::<GroupView>::empty());
        r
    }

    /// Adds a candidate under its size and a fingerprint.
    pub fn add(&mut self, size: u64, hash: String, c: Candidate)
        requires
            old(self).wf(),
        ensures
            final(self).wf(),
            final(self).groups() == add_member(old(self).groups(), size, hash@, c),
    {
        proof {
            self.lemma_distinct();
        }
        let ghost g0 = self.groups();
        let key = group_key_exec(size, hash.as_str());
        match self.index.get(key.as_str()) {
            Some(found) => {
                let i = *found;
                let ghost old_groups = self.groups@;
                let mut group = CandidateGroup { size: 0, hash: String::new(), members: Vec::new() };
                proof {
                    let gi = self.groups@[i as int];
                    lemma_group_key_injective(gi.size, gi.hash@, size, hash@);
                    assert(g0[i as int] == group_view(gi));
                    assert(has_key(g0, size, hash@));
                    let j = choose|j: int| 0 <= j < g0.len() && (#[trigger] g0[j]).0 == size && g0[j].1 == hash@;
                    if j != i as int {
                        if j < i { assert(!(g0[j].0 == g0[i as int].0 && g0[j].1 == g0[i as int].1)); }
                        else { assert(!(g0[i as int].0 == g0[j].0 && g0[i as int].1 == g0[j].1)); }
                    }
                }
                std::mem::swap(&mut group, &mut self.groups[i]);
                group.members.push(c);
                std::mem::swap(&mut group, &mut self.groups[i]);
                proof {
                    assert(self.groups@ == old_groups.update(i as int, self.groups@[i as int]));
                    assert(group_views(self.groups@) =~= add_member(g0, size, hash@, c));
                    assert forall|k: Seq<char>| #[trigger] self.index@.contains_key(k) implies self.index@[k] < self.groups@.len()
                        && group_key(self.groups@[self.index@[k] as int].size, self.groups@[self.index@[k] as int].hash@) == k by {
                        let t = self.index@[k] as int;
                        if t != i as int {
                            assert(self.groups@[t] == old_groups[t]);
                        }
                    }
                    assert forall|t: int| #![trigger self.groups@[t]] 0 <= t < self.groups@.len()
                        implies self.index@.contains_key(group_key(self.groups@[t].size, self.groups@[t].hash@))
                        && self.index@[group_key(self.groups@[t].size, self.groups@[t].hash@)] == t by {
                        if t != i as int {
                            assert(self.groups@[t] == old_groups[t]);
                        }
                    }
                }
            },
            None => {
                let ghost old_groups = self.groups@;
                let n = self.groups.len();
                proof {
                    if has_key(g0, size, hash@) {
                        let j = choose|j: int| 0 <= j < g0.len() && (#[trigger] g0[j]).0 == size && g0[j].1 == hash@;
                        assert(g0[j] == group_view(self.groups@[j]));
                        assert(self.index@.contains_key(group_key(self.groups@[j].size, self.groups@[j].hash@)));
                    }
                }
                self.index.insert(key, n);
                let members = vec![c];
                self.groups.push(CandidateGroup { size, hash, members });
                proof {
                    assert(self.groups@.drop_last() == old_groups);
                    assert(!has_key(g0, size, self.groups@[n as int].hash@));
                    assert(self.groups@[n as int].members@ =~= seq![self.groups@[n as int].members@[0]]);
                    assert(group_views(self.groups@) =~= g0.push((size, self.groups@[n as int].hash@, seq![self.groups@[n as int].members@[0]])));
                    assert forall|k: Seq<char>| #[trigger] self.index@.contains_key(k) implies self.index@[k] < self.groups@.len()
                        && group_key(self.groups@[self.index@[k] as int].size, self.groups@[self.index@[k] as int].hash@) == k by {
                        let t = self.index@[k] as int;
                        if t != n as int {
                            assert(self.groups@[t] == old_groups[t]);
                        }
                    }
                    assert forall|t: int| #![trigger self.groups@[t]] 0 <= t < self.groups@.len()
                        implies self.index@.contains_key(group_key(self.groups@[t].size, self.groups@[t].hash@))
                        && self.index@[group_key(self.groups@[t].size, self.groups@[t].hash@)] == t by {
                        if t != n as int {
                            assert(self.groups@[t] == old_groups[t]);
                            if group_key(self.groups@[t].size, self.groups@[t].hash@) == group_key(size, self.groups@[n as int].hash@) {
                                lemma_group_key_injective(self.groups@[t].size, self.groups@[t].hash@, size, self.groups@[n as int].hash@);
                            }
                        }
                    }
                }
            },
        }
    }

    /// The groups, in the order their keys first appeared.
    pub fn into_groups(self) -> (r: Vec<CandidateGroup>)
        ensures
            group_views(r@) == self.groups(),
    {
        self.groups
    }
}


/// `a + b`, held at `u64::MAX`.
pub open spec fn saturating_sum(a: u64, b: u64) -> u64 {
    if a + b > u64::MAX { u64::MAX } else { (a + b) as u64 }
}

pub fn saturating_add_u64(a: u64, b: u64) -> (r: u64)
    ensures
        r == saturating_sum(a, b),
{
    if a > u64::MAX - b { u64::MAX } else { a + b }
}

/// Takes in the outcome of fingerprinting one candidate: its fingerprint and
/// the bytes read, or the error that stopped it. A fingerprint files the
/// candidate under its size and fingerprint; a cancellation ends the scan
/// with that error; any other error is counted and the scan goes on.
pub fn record_fingerprint(
    groups: &mut KeyedGroups,
    progress: &mut DuplicateProgress,
    errors: &mut Vec<CommandError>,
    candidate: Candidate,
    outcome: Result<(String, u64), CommandError>,
) -> (r: Result<(), CommandError>)
    requires
        old(groups).wf(),
        old(progress).permission_denied_count < u64::MAX,
        old(progress).skipped_count < u64::MAX,
    ensures
        final(groups).wf(),
        match outcome {
            Ok((hash, bytes)) => {
                &&& r is Ok
                &&& final(groups).groups() == add_member(old(groups).groups(), candidate.size, hash@, candidate)
                &&& *final(progress) == (DuplicateProgress {
                    bytes_hashed: saturating_sum(old(progress).bytes_hashed, bytes),
                    ..*old(progress)
                })
                &&& final(errors)@ == old(errors)@
            },
            Err(e) => {
                &&& final(groups).groups() == old(groups).groups()
                &&& if e.code == ErrorCode::ScanCancelled {
                    &&& r == Err::<(), CommandError>(e)
                    &&& *final(progress) == *old(progress)
                    &&& final(errors)@ == old(errors)@
                } else {
                    &&& r is Ok
                    &&& error_recorded(*old(progress), *final(progress), old(errors)@, final(errors)@, e)
                }
            },
        },
{
    match outcome {
        Ok((hash, bytes)) => {
            progress.bytes_hashed = saturating_add_u64(progress.bytes_hashed, bytes);
            let size = candidate.size;
            groups.add(size, hash, candidate);
            Ok(())
        },
        Err(e) => {
            if e.code == ErrorCode::ScanCancelled {
                Err(e)
            } else {
                record_error(e, errors, progress);
                Ok(())
            }
        },
    }
}

/// Whether a candidate goes on to full hashing: one that changed since it
/// was found is not hashed, and is counted as skipped.
pub fn admit_for_full_hash(progress: &mut DuplicateProgress, unchanged: bool) -> (r: bool)
    requires
        old(progress).skipped_count < u64::MAX,
    ensures
        r == unchanged,
        unchanged ==> *final(progress) == *old(progress),
        !unchanged ==> *final(progress) == (DuplicateProgress { skipped_count: (old(progress).skipped_count + 1) as u64, ..*old(progress) }),
{
    if !unchanged {
        record_changed(progress);
    }
    unchanged
}

/// Counts a candidate skipped because it changed since it was found.
pub fn record_changed(progress: &mut DuplicateProgress)
    requires
        old(progress).skipped_count < u64::MAX,
    ensures
        *final(progress) == (DuplicateProgress { skipped_count: (old(progress).skipped_count + 1) as u64, ..*old(progress) }),
{
    progress.skipped_count = progress.skipped_count + 1;
}

/// Takes in the outcome of the full fingerprint of a candidate, and whether
/// the file still had the size and modification time it was found with once
/// read: as `record_fingerprint`, except that a file that changed while
/// being read is counted as skipped and not filed.
pub fn record_full_fingerprint(
    groups: &mut KeyedGroups,
    progress: &mut DuplicateProgress,
    errors: &mut Vec<CommandError>,
    candidate: Candidate,
    outcome: Result<(String, u64), CommandError>,
    unchanged: bool,
) -> (r: Result<(), CommandError>)
    requires
        old(groups).wf(),
        old(progress).permission_denied_count < u64::MAX,
        old(progress).skipped_count < u64::MAX,
    ensures
        final(groups).wf(),
        match outcome {
            Ok((hash, bytes)) => {
                &&& r is Ok
                &&& final(errors)@ == old(errors)@
                &&& if unchanged {
                    &&& final(groups).groups() == add_member(old(groups).groups(), candidate.size, hash@, candidate)
                    &&& *final(progress) == (DuplicateProgress {
                        bytes_hashed: saturating_sum(old(progress).bytes_hashed, bytes),
                        ..*old(progress)
                    })
                } else {
                    &&& final(groups).groups() == old(groups).groups()
                    &&& *final(progress) == (DuplicateProgress {
                        skipped_count: (old(progress).skipped_count + 1) as u64,
                        ..*old(progress)
                    })
                }
            },
            Err(e) => {
                &&& final(groups).groups() == old(groups).groups()
                &&& if e.code == ErrorCode::ScanCancelled {
                    &&& r == Err::<(), CommandError>(e)
                    &&& *final(progress) == *old(progress)
                    &&& final(errors)@ == old(errors)@
                } else {
                    &&& r is Ok
                    &&& error_recorded(*old(progress), *final(progress), old(errors)@, final(errors)@, e)
                }
            },
        },
{
    match outcome {
        Ok((hash, bytes)) => {
            if unchanged {
                progress.bytes_hashed = saturating_add_u64(progress.bytes_hashed, bytes);
                let size = candidate.size;
                groups.add(size, hash, candidate);
            } else {
                record_changed(progress);
            }
            Ok(())
        },
        Err(e) => {
            if e.code == ErrorCode::ScanCancelled {
                Err(e)
            } else {
                record_error(e, errors, progress);
                Ok(())
            }
        },
    }
}

/// The groups of `g` with more than one member, in order.
pub open spec fn several(g: Seq<GroupView>) -> Seq<GroupView>
    decreases g.len(),
{
    if g.len() == 0 {
        Seq::empty()
    } else {
        let rest = several(g.drop_last());
        if g.last().2.len() > 1 { rest.push(g.last()) } else { rest }
    }
}

/// The groups with more than one member, in order.
pub fn keep_several(groups: Vec<CandidateGroup>) -> (r: Vec<CandidateGroup>)
    ensures
        group_views(r@) == several(group_views(groups@)),
{
    let count: usize = groups.len();
    let ghost all = group_views(groups@);
    let ghost original = groups@;
    let mut source = groups;
    let mut rest: Vec<CandidateGroup> = Vec::new();
    while source.len() > 0
        invariant
            source@ == original.take(source@.len() as int),
            rest@.len() == original.len() - source@.len(),
            forall|k: int| 0 <= k < rest@.len() ==> #[trigger] rest@[k] == original[original.len() - 1 - k],
        decreases source@.len(),
    {
        let g = source.pop().unwrap();
        proof {
            assert(source@ =~= original.take(source@.len() as int));
        }
        rest.push(g);
    }
    let ghost reversed = rest@;
    let mut out: Vec<CandidateGroup> = Vec::new();
    let mut n: usize = 0;
    assert(all.take(0) =~= Seq::<GroupView>::empty());
    assert(group_views(out@) =~= Seq::<GroupView>::empty());
    while rest.len() > 0
        invariant
            all.len() == reversed.len(),
            forall|k: int| 0 <= k < reversed.len() ==> group_view(#[trigger] reversed[k]) == all[all.len() - 1 - k],
            0 <= n <= all.len(),
            all.len() <= usize::MAX,
            rest@.len() == all.len() - n,
            forall|k: int| 0 <= k < rest@.len() ==> #[trigger] rest@[k] == reversed[k],
            group_views(out@) == several(all.take(n as int)),
        decreases rest@.len(),
    {
        let g = rest.pop().unwrap();
        proof {
            assert(g == reversed[rest@.len() as int]);
            assert(group_view(g) == all[n as int]);
            assert(all.take(n + 1).drop_last() =~= all.take(n as int));
            assert(all.take(n + 1).last() == all[n as int]);
        }
        if g.members.len() > 1 {
            let ghost before = out@;
            out.push(g);
            assert(group_views(out@) =~= group_views(before).push(group_view(g)));
        }
        n = n + 1;
    }
    assert(all.take(all.len() as int) =~= all);
    out
}

fn duplicate_candidates(v: &Vec<Candidate>) -> (r: Vec<Candidate>)
    ensures
        r@ == v@,
{
    let mut r: Vec<Candidate> = Vec::new();
    let mut i: usize = 0;
    while i < v.len()
        invariant
            0 <= i <= v@.len(),
            r@ == v@.take(i as int),
        decreases v@.len() - i,
    {
        r.push(v[i].duplicate());
        assert(v@.take(i + 1) =~= v@.take(i as int).push(v@[i as int]));
        i = i + 1;
    }
    assert(v@.take(v@.len() as int) =~= v@);
    r
}

impl View for CandidateGroup {
    type V = GroupView;

    open spec fn view(&self) -> GroupView {
        group_view(*self)
    }
}

/// Groups are ordered by size, then by fingerprint text.
impl KeyOrder for CandidateGroup {
    open spec fn before(a: GroupView, b: GroupView) -> bool {
        a.0 < b.0 || (a.0 == b.0 && text_lt(a.1, b.1))
    }

    proof fn lemma_asymmetric(a: GroupView, b: GroupView) {
        if a.0 == b.0 && text_lt(a.1, b.1) && text_lt(b.1, a.1) {
            lemma_text_lt_transitive(a.1, b.1, a.1);
            lemma_text_lt_irreflexive(a.1);
        }
    }

    proof fn lemma_not_before_transitive(a: GroupView, b: GroupView, c: GroupView) {
        if c.0 == a.0 && a.0 == b.0 && text_lt(c.1, a.1) {
            if a.1 != b.1 {
                lemma_text_lt_total(a.1, b.1);
                lemma_text_lt_transitive(c.1, a.1, b.1);
            }
        }
    }

    fn less(&self, other: &Self) -> (r: bool) {
        if self.size != other.size {
            self.size < other.size
        } else {
            let a = chars_of(self.hash.as_str());
            let b = chars_of(other.hash.as_str());
            text_less(a.as_slice(), b.as_slice())
        }
    }

    fn duplicate(&self) -> (r: Self) {
        CandidateGroup { size: self.size, hash: self.hash.clone(), members: duplicate_candidates(&self.members) }
    }
}

/// The groups ordered by size, then by fingerprint.
pub fn order_groups(groups: Vec<CandidateGroup>) -> (r: Vec<CandidateGroup>)
    ensures
        sorted_by_key::<CandidateGroup>(group_views(r@)),
        group_views(r@).to_multiset() == group_views(groups@).to_multiset(),
{
    let r = merge_sort(groups);
    assert(views_of(r@) =~= group_views(r@));
    assert(views_of(groups@) =~= group_views(groups@));
    r
}

/// Candidates of one group split into clusters of byte-for-byte equal
/// contents. Each candidate is compared with the first member of each
/// cluster in turn, joins the first cluster it equals, or opens a new one.
pub struct Clusters {
    clusters: Vec<Vec<Candidate>>,
    pending: Option<Candidate>,
    next: usize,
}

pub open spec fn cluster_views(c: Seq<Vec<Candidate>>) -> Seq<Seq<Candidate>> {
    c.map_values(|v: Vec<Candidate>| v@)
}

impl Clusters {
    pub closed spec fn clusters(&self) -> Seq<Seq<Candidate>> {
        cluster_views(self.clusters@)
    }

    /// The candidate being placed, if any.
    pub closed spec fn pending(&self) -> Option<Candidate> {
        self.pending
    }

    /// The cluster the pending candidate is compared with next.
    pub closed spec fn next(&self) -> int {
        self.next as int
    }

    pub closed spec fn wf(&self) -> bool {
        &&& forall|k: int| 0 <= k < self.clusters@.len() ==> (#[trigger] self.clusters@[k])@.len() > 0
        &&& self.pending is Some ==> self.next < self.clusters@.len()
    }

    pub fn new() -> (r: Self)
        ensures
            r.wf(),
            r.clusters() == Seq::<Seq<Candidate>>::empty(),
            r.pending() is None,
    {
        let r = Clusters { clusters: Vec::new(), pending: None, next: 0 };
        assert(cluster_views(r.clusters@) =~= Seq::<Seq<Candidate>>::empty());
        r
    }

    fn reference_path(&self) -> (r: String)
        requires
            self.wf(),
            self.pending is Some,
        ensures
            r@ == self.clusters@[self.next as int]@[0].path@,
    {
        let cluster = &self.clusters[self.next];
        assert(cluster@.len() > 0);
        cluster[0].path.clone()
    }

    /// Offers the next candidate. With no cluster yet it opens the first and
    /// nothing is to be compared; otherwise the result is the path of the
    /// file to compare it with, the first member of the first cluster.
    pub fn offer(&mut self, candidate: Candidate) -> (r: Option<String>)
        requires
            old(self).wf(),
            old(self).pending() is None,
        ensures
            final(self).wf(),
            old(self).clusters().len() == 0 ==> r is None && final(self).pending() is None
                && final(self).clusters() == seq![seq![candidate]],
            old(self).clusters().len() > 0 ==> (r matches Some(p) && p@ == old(self).clusters()[0][0].path@)
                && final(self).pending() == Some(candidate) && final(self).next() == 0
                && final(self).clusters() == old(self).clusters(),
    {
        if self.clusters.len() == 0 {
            let members = vec![candidate];
            assert(members@ =~= seq![candidate]);
            self.clusters.push(members);
            assert(cluster_views(self.clusters@) =~= seq![seq![candidate]]);
            None
        } else {
            self.pending = Some(candidate);
            self.next = 0;
            assert(self.clusters@[0]@ == cluster_views(self.clusters@)[0]);
            Some(self.reference_path())
        }
    }

    /// Takes in the comparison of the pending candidate with the first member
    /// of cluster `next()`: whether they were equal, and how many bytes were
    /// read from each. Equal joins that cluster; otherwise the candidate is
    /// compared with the next cluster, or opens a new cluster after the last.
    /// The bytes read from both files are added to the progress.
    pub fn compared(&mut self, progress: &mut DuplicateProgress, equal: bool, bytes: u64) -> (r: Option<String>)
        requires
            old(self).wf(),
            old(self).pending() is Some,
        ensures
            final(self).wf(),
            *final(progress) == (DuplicateProgress {
                bytes_hashed: saturating_sum(old(progress).bytes_hashed, saturating_sum(bytes, bytes)),
                ..*old(progress)
            }),
            ({
                let c = old(self).pending()->0;
                let k = old(self).next();
                let n = old(self).clusters().len();
                if equal {
                    &&& r is None
                    &&& final(self).pending() is None
                    &&& final(self).clusters() == old(self).clusters().update(k, old(self).clusters()[k].push(c))
                } else if k + 1 < n {
                    &&& (r matches Some(p) && p@ == old(self).clusters()[k + 1][0].path@)
                    &&& final(self).pending() == old(self).pending()
                    &&& final(self).next() == k + 1
                    &&& final(self).clusters() == old(self).clusters()
                } else {
                    &&& r is None
                    &&& final(self).pending() is None
                    &&& final(self).clusters() == old(self).clusters().push(seq![c])
                }
            }),
    {
        let doubled = saturating_add_u64(bytes, bytes);
        progress.bytes_hashed = saturating_add_u64(progress.bytes_hashed, doubled);
        let k = self.next;
        let n = self.clusters.len();
        assert(k < n);
        let candidate = self.pending.take().unwrap();
        let ghost before = self.clusters@;
        if equal {
            let mut cluster: Vec<Candidate> = Vec::new();
            std::mem::swap(&mut cluster, &mut self.clusters[k]);
            cluster.push(candidate);
            std::mem::swap(&mut cluster, &mut self.clusters[k]);
            proof {
                assert(self.clusters@ == before.update(k as int, self.clusters@[k as int]));
                assert(cluster_views(self.clusters@) =~= cluster_views(before).update(k as int, cluster_views(before)[k as int].push(candidate)));
                assert forall|j: int| 0 <= j < self.clusters@.len() implies (#[trigger] self.clusters@[j])@.len() > 0 by {
                    if j != k as int {
                        assert(self.clusters@[j] == before[j]);
                    }
                }
            }
            None
        } else if k + 1 < n {
            self.pending = Some(candidate);
            self.next = k + 1;
            assert(self.clusters@[k + 1]@ == cluster_views(self.clusters@)[k + 1]);
            Some(self.reference_path())
        } else {
            let members = vec![candidate];
            assert(members@ =~= seq![candidate]);
            self.clusters.push(members);
            proof {
                assert(cluster_views(self.clusters@) =~= cluster_views(before).push(seq![candidate]));
                assert forall|j: int| 0 <= j < self.clusters@.len() implies (#[trigger] self.clusters@[j])@.len() > 0 by {
                    if j < before.len() {
                        assert(self.clusters@[j] == before[j]);
                    }
                }
            }
            None
        }
    }

    /// The clusters, in the order they were opened.
    pub fn into_clusters(self) -> (r: Vec<Vec<Candidate>>)
        ensures
            cluster_views(r@) == self.clusters(),
    {
        self.clusters
    }
}
} // verus!
