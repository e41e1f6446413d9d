//! Turning a cluster of identical files into a reported duplicate group: the
//! copy recommended to keep, the reason given, and the space the other copies
//! take; and the summary of a finished scan.
use vstd::prelude::*;
use crate::domain::duplicate::{DuplicateCopy, DuplicateGroup, DuplicateProgress, DuplicateScanPhase, DuplicateSummary};
use crate::domain::error::CommandError;
use crate::duplicates::grouping::{cluster_views, saturating_add_u64, saturating_sum};
use crate::duplicates::scanner::{clone_text_option, Candidate};
use crate::ids::{is_hyphenated_uuid, new_v4_string};
use crate::path_order::{comps_less, comps_lt, lemma_comps_lt_irreflexive, lemma_comps_lt_total, lemma_comps_lt_transitive};
use crate::paths::{comp_views, components, components_exec, display_path, display_path_exec, Comp, Component, PathStyle};
use crate::text::{chars_of, lower, lower_chars, slices_equal};

verus! {

/// A folder name that marks caches and generated artifacts.
pub open spec fn is_cache_name(name: Seq<char>) -> bool {
    let n = lower(name);
    n == "cache"@ || n == "caches"@ || n == ".cache"@ || n == "node_modules"@ || n == "target"@
        || n == "dist"@ || n == "build"@ || n == ".gradle"@
}

pub open spec fn is_cache_comp(c: Comp) -> bool {
    c matches Comp::Normal(n) && is_cache_name(n)
}

/// Some component of the path is a cache or generated-artifact folder name,
/// compared without regard to ASCII case.
pub open spec fn is_cache_path(path: Seq<char>) -> bool {
    exists|i: int| 0 <= i < components(path, PathStyle::Posix).len()
        && is_cache_comp(#[trigger] components(path, PathStyle::Posix)[i])
}

fn is_cache_name_exec(name: &[char]) -> (r: bool)
    ensures
        r == is_cache_name(name@),
{
    let n = lower_chars(name);
    let s = n.as_slice();
    slices_equal(s, chars_of("cache").as_slice()) || slices_equal(s, chars_of("caches").as_slice())
        || slices_equal(s, chars_of(".cache").as_slice()) || slices_equal(s, chars_of("node_modules").as_slice())
        || slices_equal(s, chars_of("target").as_slice()) || slices_equal(s, chars_of("dist").as_slice())
        || slices_equal(s, chars_of("build").as_slice()) || slices_equal(s, chars_of(".gradle").as_slice())
}

fn is_cache_components(c: &Vec<Component>) -> (r: bool)
    ensures
        r == (exists|i: int| 0 <= i < c@.len() && is_cache_comp(#[trigger] comp_views(c@)[i])),
{
    let mut i: usize = 0;
    while i < c.len()
        invariant
            0 <= i <= c@.len(),
            forall|k: int| 0 <= k < i ==> !is_cache_comp(#[trigger] comp_views(c@)[k]),
        decreases c@.len() - i,
    {
        let hit = match &c[i] {
            Component::Normal(n) => is_cache_name_exec(n.as_slice()),
            _ => false,
        };
        assert(comp_views(c@)[i as int] == c@[i as int]@);
        if hit {
            return true;
        }
        i = i + 1;
    }
    false
}

pub fn is_cache_path_exec(path: &str) -> (r: bool)
    ensures
        r == is_cache_path(path@),
{
    let c = components_exec(chars_of(path).as_slice(), PathStyle::Posix);
    is_cache_components(&c)
}

/// `None` comes before any time; earlier times come first.
pub open spec fn time_lt(a: Option<i64>, b: Option<i64>) -> bool {
    match (a, b) {
        (None, Some(_)) => true,
        (Some(x), Some(y)) => x < y,
        _ => false,
    }
}

/// What decides which copy to keep: whether it lies in a cache folder, its
/// modification time, its number of path components, and its components.
pub type KeepKey = (bool, Option<i64>, nat, Seq<Comp>);

pub open spec fn keep_key(c: Candidate) -> KeepKey {
    let comps = components(c.path@, PathStyle::Posix);
    (is_cache_path(c.path@), c.modified_at, comps.len(), comps)
}

/// One copy is preferred to another: outside a cache first, then older
/// (unknown times first), then fewer path components, then path order.
pub open spec fn key_lt(a: KeepKey, b: KeepKey) -> bool {
    if a.0 != b.0 {
        !a.0
    } else if a.1 != b.1 {
        time_lt(a.1, b.1)
    } else if a.2 != b.2 {
        a.2 < b.2
    } else {
        comps_lt(a.3, b.3)
    }
}

pub open spec fn keep_lt(a: Candidate, b: Candidate) -> bool {
    key_lt(keep_key(a), keep_key(b))
}

proof fn lemma_key_lt_transitive(a: KeepKey, b: KeepKey, c: KeepKey)
    requires
        key_lt(a, b),
        key_lt(b, c),
    ensures
        key_lt(a, c),
{
    if a.0 == b.0 && b.0 == c.0 && a.1 == b.1 && b.1 == c.1 && a.2 == b.2 && b.2 == c.2 {
        lemma_comps_lt_transitive(a.3, b.3, c.3);
    }
}

proof fn lemma_key_lt_irreflexive(a: KeepKey)
    ensures
        !key_lt(a, a),
{
    lemma_comps_lt_irreflexive(a.3);
}

proof fn lemma_key_lt_total(a: KeepKey, b: KeepKey)
    requires
        a != b,
    ensures
        key_lt(a, b) || key_lt(b, a),
{
    if a.0 == b.0 && a.1 == b.1 && a.2 == b.2 {
        lemma_comps_lt_total(a.3, b.3);
    }
}

/// `k` is the first copy that no other copy is preferred to: every earlier
/// copy is less preferred, and no later copy is preferred to it.
pub open spec fn is_keep_index(c: Seq<Candidate>, k: int) -> bool {
    &&& 0 <= k < c.len()
    &&& forall|j: int| 0 <= j < k ==> keep_lt(c[k], #[trigger] c[j])
    &&& forall|j: int| k < j < c.len() ==> !keep_lt(#[trigger] c[j], c[k])
}

struct ExecKey {
    cache: bool,
    modified_at: Option<i64>,
    count: usize,
    comps: Vec<Component>,
}

spec fn exec_key_view(k: ExecKey) -> KeepKey {
    (k.cache, k.modified_at, k.count as nat, comp_views(k.comps@))
}

fn keep_key_exec(c: &Candidate) -> (r: ExecKey)
    ensures
        exec_key_view(r) == keep_key(*c),
{
    let comps = components_exec(chars_of(c.path.as_str()).as_slice(), PathStyle::Posix);
    let cache = is_cache_components(&comps);
    assert(comp_views(comps@).len() == comps@.len());
    ExecKey { cache, modified_at: c.modified_at, count: comps.len(), comps }
}

fn time_less(a: Option<i64>, b: Option<i64>) -> (r: bool)
    ensures
        r == time_lt(a, b),
{
    match (a, b) {
        (None, Some(_)) => true,
        (Some(x), Some(y)) => x < y,
        _ => false,
    }
}

fn key_less(a: &ExecKey, b: &ExecKey) -> (r: bool)
    ensures
        r == key_lt(exec_key_view(*a), exec_key_view(*b)),
{
    if a.cache != b.cache {
        !a.cache
    } else if a.modified_at != b.modified_at {
        time_less(a.modified_at, b.modified_at)
    } else if a.count != b.count {
        a.count < b.count
    } else {
        comps_less(a.comps.as_slice(), b.comps.as_slice())
    }
}

/// The copy recommended to keep (see `is_keep_index`).
pub fn keep_index(c: &Vec<Candidate>) -> (k: usize)
    requires
        c@.len() > 0,
    ensures
        is_keep_index(c@, k as int),
{
    let mut best: usize = 0;
    let mut best_key = keep_key_exec(&c[0]);
    let mut i: usize = 1;
    while i < c.len()
        invariant
            0 <= best < i <= c@.len(),
            exec_key_view(best_key) == keep_key(c@[best as int]),
            forall|j: int| 0 <= j < best ==> keep_lt(c@[best as int], #[trigger] c@[j]),
            forall|j: int| best < j < i ==> !keep_lt(#[trigger] c@[j], c@[best as int]),
        decreases c@.len() - i,
    {
        let key = keep_key_exec(&c[i]);
        if key_less(&key, &best_key) {
            proof {
                let a = keep_key(c@[i as int]);
                let b = keep_key(c@[best as int]);
                assert forall|j: int| 0 <= j < i implies keep_lt(c@[i as int], #[trigger] c@[j]) by {
                    let kj = keep_key(c@[j]);
                    if j < best {
                        lemma_key_lt_transitive(a, b, kj);
                    } else if j > best {
                        if kj != b {
                            lemma_key_lt_total(kj, b);
                            lemma_key_lt_transitive(a, b, kj);
                        }
                    }
                }
            }
            best = i;
            best_key = key;
        } else {
            proof {
                lemma_key_lt_irreflexive(keep_key(c@[best as int]));
            }
        }
        i = i + 1;
    }
    best
}

/// Why the kept copy was chosen.
pub open spec fn keep_reason(c: Seq<Candidate>, k: int) -> Seq<char> {
    if !is_cache_path(c[k].path@) && exists|j: int| 0 <= j < c.len() && is_cache_path((#[trigger] c[j]).path@) {
        "Preferred because it is outside a cache or generated-artifact folder."@
    } else if c[k].modified_at is Some {
        "Preferred as the oldest stable copy, then by the shortest path."@
    } else {
        "Preferred by the shortest stable path."@
    }
}

pub fn keep_reason_exec(c: &Vec<Candidate>, k: usize) -> (r: String)
    requires
        k < c@.len(),
    ensures
        r@ == keep_reason(c@, k as int),
{
    let mut any_cache = false;
    let mut i: usize = 0;
    while i < c.len()
        invariant
            0 <= i <= c@.len(),
            any_cache == exists|j: int| 0 <= j < i && is_cache_path((#[trigger] c@[j]).path@),
        decreases c@.len() - i,
    {
        if is_cache_path_exec(c[i].path.as_str()) {
            any_cache = true;
        }
        i = i + 1;
    }
    if !is_cache_path_exec(c[k].path.as_str()) && any_cache {
        String::from_str("Preferred because it is outside a cache or generated-artifact folder.")
    } else if c[k].modified_at.is_some() {
        String::from_str("Preferred as the oldest stable copy, then by the shortest path.")
    } else {
        String::from_str("Preferred by the shortest stable path.")
    }
}

/// `size` times `count`, held at `u64::MAX`.
pub open spec fn saturating_product(size: u64, count: int) -> u64 {
    if size * count > u64::MAX { u64::MAX } else { (size * count) as u64 }
}

fn saturating_mul_u64(a: u64, b: u64) -> (r: u64)
    ensures
        r == saturating_product(a, b as int),
{
    if b == 0 || a <= u64::MAX / b {
        assert(a * b <= u64::MAX) by (nonlinear_arith)
            requires
                b == 0 || a <= u64::MAX / b,
        ;
        a * b
    } else {
        assert(a * b > u64::MAX) by (nonlinear_arith)
            requires
                b > 0,
                a > u64::MAX / b,
        ;
        u64::MAX
    }
}

/// A group as reported for these candidates (see `build_group`).
pub open spec fn group_built(
    g: DuplicateGroup,
    scan_id: Seq<char>,
    size: u64,
    full_hash: Seq<char>,
    candidates: Seq<Candidate>,
    byte_for_byte_verified: bool,
    home: Seq<char>,
) -> bool {
    &&& is_hyphenated_uuid(g.id@)
    &&& g.scan_id@ == scan_id
    &&& g.file_size == size
    &&& g.reclaimable_bytes == saturating_product(size, candidates.len() - 1)
    &&& g.copies@.len() == candidates.len()
    &&& forall|i: int| 0 <= i < candidates.len() ==> {
        let copy = #[trigger] g.copies@[i];
        &&& is_hyphenated_uuid(copy.id@)
        &&& copy.path@ == candidates[i].path@
        &&& copy.display_path@ == display_path(candidates[i].path@, home)
        &&& copy.modified_at == candidates[i].modified_at
        &&& copy.owner == candidates[i].owner
    }
    &&& exists|k: int| is_keep_index(candidates, k) && g.recommended_keep_id@ == g.copies@[k].id@
        && g.keep_reason@ == keep_reason(candidates, k)
    &&& g.full_hash@ == full_hash
    &&& g.byte_for_byte_verified == byte_for_byte_verified
}

/// The clusters with more than one member, in order.
pub open spec fn several(clusters: Seq<Seq<Candidate>>) -> Seq<Seq<Candidate>>
    decreases clusters.len(),
{
    if clusters.len() == 0 {
        Seq::empty()
    } else if clusters.last().len() > 1 {
        several(clusters.drop_last()).push(clusters.last())
    } else {
        several(clusters.drop_last())
    }
}

/// The groups reported for the clusters of one fingerprint: one for each
/// cluster with more than one member, in order; a file equal to no other
/// is no duplicate.
pub fn groups_from_clusters(
    scan_id: &str,
    size: u64,
    full_hash: &str,
    clusters: &Vec<Vec<Candidate>>,
    byte_for_byte_verified: bool,
    home: &str,
) -> (r: Vec<DuplicateGroup>)
    ensures
        r@.len() == several(cluster_views(clusters@)).len(),
        forall|i: int| 0 <= i < r@.len() ==> group_built(#[trigger] r@[i], scan_id@, size, full_hash@,
            several(cluster_views(clusters@))[i], byte_for_byte_verified, home@),
{
    let ghost cv = cluster_views(clusters@);
    let mut r: Vec<DuplicateGroup> = Vec::new();
    let mut i: usize = 0;
    while i < clusters.len()
        invariant
            cv == cluster_views(clusters@),
            0 <= i <= clusters@.len(),
            r@.len() == several(cv.take(i as int)).len(),
            forall|j: int| 0 <= j < r@.len() ==> group_built(#[trigger] r@[j], scan_id@, size, full_hash@,
                several(cv.take(i as int))[j], byte_for_byte_verified, home@),
        decreases clusters@.len() - i,
    {
        let ghost prev = several(cv.take(i as int));
        assert(cv.take(i + 1).drop_last() =~= cv.take(i as int));
        assert(cv.take(i + 1).last() == clusters@[i as int]@);
        if clusters[i].len() > 1 {
            let g = build_group(scan_id, size, full_hash, &clusters[i], byte_for_byte_verified, home);
            let ghost rb = r@;
            r.push(g);
            proof {
                let next = several(cv.take(i + 1));
                assert(next == prev.push(clusters@[i as int]@));
                assert forall|j: int| 0 <= j < r@.len() implies group_built(#[trigger] r@[j], scan_id@, size, full_hash@,
                    next[j], byte_for_byte_verified, home@) by {
                    if j < rb.len() {
                        assert(r@[j] == rb[j]);
                        assert(next[j] == prev[j]);
                    }
                }
            }
        }
        i = i + 1;
    }
    assert(cv.take(clusters@.len() as int) =~= cv);
    r
}

/// A group as reported: each candidate becomes a copy with a fresh
/// identifier, the path shown relative to `home`, and its time and owner;
/// the copy at the keep index is recommended; every copy but one counts as
/// reclaimable.
pub fn build_group(
    scan_id: &str,
    size: u64,
    full_hash: &str,
    candidates: &Vec<Candidate>,
    byte_for_byte_verified: bool,
    home: &str,
) -> (g: DuplicateGroup)
    requires
        candidates@.len() > 0,
    ensures
        group_built(g, scan_id@, size, full_hash@, candidates@, byte_for_byte_verified, home@),
{
    let k = keep_index(candidates);
    let mut copies: Vec<DuplicateCopy> = Vec::new();
    let mut i: usize = 0;
    while i < candidates.len()
        invariant
            0 <= i <= candidates@.len(),
            copies@.len() == i,
            forall|j: int| 0 <= j < i ==> {
                let copy = #[trigger] copies@[j];
                &&& is_hyphenated_uuid(copy.id@)
                &&& copy.path@ == candidates@[j].path@
                &&& copy.display_path@ == display_path(candidates@[j].path@, home@)
                &&& copy.modified_at == candidates@[j].modified_at
                &&& copy.owner == candidates@[j].owner
            },
        decreases candidates@.len() - i,
    {
        let c = &candidates[i];
        copies.push(DuplicateCopy {
            id: new_v4_string(),
            path: c.path.clone(),
            display_path: display_path_exec(c.path.as_str(), home),
            modified_at: c.modified_at,
            owner: clone_text_option(&c.owner),
        });
        i = i + 1;
    }
    let recommended_keep_id = copies[k].id.clone();
    let reason = keep_reason_exec(candidates, k);
    let reclaimable_bytes = saturating_mul_u64(size, (candidates.len() - 1) as u64);
    DuplicateGroup {
        id: new_v4_string(),
        scan_id: String::from_str(scan_id),
        file_size: size,
        reclaimable_bytes,
        copies,
        recommended_keep_id,
        keep_reason: reason,
        full_hash: String::from_str(full_hash),
        byte_for_byte_verified,
    }
}

/// Counts a reported group: one more group, and its reclaimable bytes.
pub fn record_group(progress: &mut DuplicateProgress, group: &DuplicateGroup)
    requires
        old(progress).groups_found < u64::MAX,
    ensures
        *final(progress) == (DuplicateProgress {
            groups_found: (old(progress).groups_found + 1) as u64,
            reclaimable_bytes: saturating_sum(old(progress).reclaimable_bytes, group.reclaimable_bytes),
            ..*old(progress)
        }),
{
    progress.groups_found = progress.groups_found + 1;
    progress.reclaimable_bytes = saturating_add_u64(progress.reclaimable_bytes, group.reclaimable_bytes);
}

/// Moves a scan to its next phase, with no current path.
pub fn enter_phase(progress: &mut DuplicateProgress, phase: DuplicateScanPhase)
    ensures
        *final(progress) == (DuplicateProgress { phase, current_path: None, ..*old(progress) }),
{
    progress.phase = phase;
    progress.current_path = None;
}

/// How many copies the groups hold in all.
pub open spec fn copies_total(groups: Seq<DuplicateGroup>) -> int
    decreases groups.len(),
{
    if groups.len() == 0 { 0 } else { copies_total(groups.drop_last()) + groups.last().copies@.len() }
}

/// The summary of a completed scan. Times are milliseconds since the Unix
/// epoch.
pub fn completed_summary(
    progress: &DuplicateProgress,
    errors: Vec<CommandError>,
    roots: Vec<String>,
    minimum_size_bytes: u64,
    byte_for_byte_verification: bool,
    started_at: i64,
    completed_at: i64,
    elapsed_ms: u64,
    groups: &Vec<DuplicateGroup>,
) -> (s: DuplicateSummary)
    requires
        copies_total(groups@) <= u64::MAX,
    ensures
        s.scan_id == progress.scan_id,
        s.phase == DuplicateScanPhase::Completed,
        s.roots@ == roots@,
        s.minimum_size_bytes == minimum_size_bytes,
        s.byte_for_byte_verification == byte_for_byte_verification,
        s.started_at == started_at,
        s.completed_at == Some(completed_at),
        s.files_scanned == progress.files_scanned,
        s.candidate_files == progress.candidate_files,
        s.bytes_hashed == progress.bytes_hashed,
        s.groups_found == progress.groups_found,
        s.duplicate_files == copies_total(groups@),
        s.reclaimable_bytes == progress.reclaimable_bytes,
        s.skipped_count == progress.skipped_count,
        s.permission_denied_count == progress.permission_denied_count,
        s.elapsed_ms == elapsed_ms,
        s.errors@ == errors@,
{
    let mut total: u64 = 0;
    let mut i: usize = 0;
    while i < groups.len()
        invariant
            0 <= i <= groups@.len(),
            copies_total(groups@) <= u64::MAX,
            total == copies_total(groups@.take(i as int)),
        decreases groups@.len() - i,
    {
        proof {
            assert(groups@.take(i + 1).drop_last() =~= groups@.take(i as int));
            lemma_copies_total_prefix(groups@, i + 1);
        }
        total = total + groups[i].copies.len() as u64;
        i = i + 1;
    }
    assert(groups@.take(groups@.len() as int) =~= groups@);
    DuplicateSummary {
        scan_id: progress.scan_id.clone(),
        phase: DuplicateScanPhase::Completed,
        roots,
        minimum_size_bytes,
        byte_for_byte_verification,
        started_at,
        completed_at: Some(completed_at),
        files_scanned: progress.files_scanned,
        candidate_files: progress.candidate_files,
        bytes_hashed: progress.bytes_hashed,
        groups_found: progress.groups_found,
        duplicate_files: total,
        reclaimable_bytes: progress.reclaimable_bytes,
        skipped_count: progress.skipped_count,
        permission_denied_count: progress.permission_denied_count,
        elapsed_ms,
        errors,
    }
}

proof fn lemma_copies_total_prefix(g: Seq<DuplicateGroup>, n: int)
    requires
        0 <= n <= g.len(),
    ensures
        copies_total(g.take(n)) <= copies_total(g),
    decreases g.len() - n,
{
    if n < g.len() {
        lemma_copies_total_prefix(g, n + 1);
        assert(g.take(n + 1).drop_last() =~= g.take(n));
    } else {
        assert(g.take(n) =~= g);
    }
}

/// Every cluster that `several` keeps has more than one member.
proof fn lemma_several_have_several(clusters: Seq<Seq<Candidate>>)
    ensures
        forall|i: int| 0 <= i < several(clusters).len() ==> (#[trigger] several(clusters)[i]).len() > 1,
    decreases clusters.len(),
{
    if clusters.len() > 0 {
        let prev = several(clusters.drop_last());
        lemma_several_have_several(clusters.drop_last());
        if clusters.last().len() > 1 {
            assert forall|i: int| 0 <= i < several(clusters).len() implies (#[trigger] several(clusters)[i]).len() > 1 by {
                if i < prev.len() {
                    assert(several(clusters)[i] == prev[i]);
                }
            }
        }
    }
}

/// Every group reported for a fingerprint's clusters holds at least two
/// copies, one for each member of its cluster, in the cluster's order.
pub proof fn law_reported_groups_have_several_copies(
    scan_id: Seq<char>,
    size: u64,
    full_hash: Seq<char>,
    clusters: Seq<Seq<Candidate>>,
    byte_for_byte_verified: bool,
    home: Seq<char>,
    groups: Seq<DuplicateGroup>,
)
    requires
        groups.len() == several(clusters).len(),
        forall|i: int| 0 <= i < groups.len() ==> group_built(#[trigger] groups[i], scan_id, size, full_hash,
            several(clusters)[i], byte_for_byte_verified, home),
    ensures
        forall|i: int| 0 <= i < groups.len() ==> (#[trigger] groups[i]).copies@.len() >= 2
            && groups[i].copies@.len() == several(clusters)[i].len()
            && forall|k: int| 0 <= k < groups[i].copies@.len() ==> (#[trigger] groups[i].copies@[k]).path@ == several(clusters)[i][k].path@,
{
    lemma_several_have_several(clusters);
    assert forall|i: int| 0 <= i < groups.len() implies (#[trigger] groups[i]).copies@.len() >= 2
        && groups[i].copies@.len() == several(clusters)[i].len()
        && forall|k: int| 0 <= k < groups[i].copies@.len() ==> (#[trigger] groups[i].copies@[k]).path@ == several(clusters)[i][k].path@ by {
        assert(group_built(groups[i], scan_id, size, full_hash, several(clusters)[i], byte_for_byte_verified, home));
        assert(several(clusters)[i].len() > 1);
    }
}

/// The copy recommended to keep lies outside every cache or
/// generated-artifact folder whenever some copy of the group does.
pub proof fn law_keep_copy_avoids_cache_folders(c: Seq<Candidate>, k: int, j: int)
    requires
        is_keep_index(c, k),
        0 <= j < c.len(),
        !is_cache_path(c[j].path@),
    ensures
        !is_cache_path(c[k].path@),
{
    if is_cache_path(c[k].path@) {
        if j < k {
            assert(keep_lt(c[k], c[j]));
        } else {
            assert(j != k);
            assert(!keep_lt(c[j], c[k]));
        }
    }
}

/// A reported group recommends a copy outside every cache or
/// generated-artifact folder whenever one of its candidates lies outside
/// them, and says so when another candidate lies inside one.
pub proof fn law_group_recommends_a_copy_outside_caches(
    g: DuplicateGroup,
    scan_id: Seq<char>,
    size: u64,
    full_hash: Seq<char>,
    candidates: Seq<Candidate>,
    byte_for_byte_verified: bool,
    home: Seq<char>,
    j: int,
)
    requires
        group_built(g, scan_id, size, full_hash, candidates, byte_for_byte_verified, home),
        0 <= j < candidates.len(),
        !is_cache_path(candidates[j].path@),
    ensures
        exists|k: int| 0 <= k < g.copies@.len() && g.recommended_keep_id@ == (#[trigger] g.copies@[k]).id@
            && !is_cache_path(g.copies@[k].path@)
            && ((exists|i: int| 0 <= i < candidates.len() && is_cache_path((#[trigger] candidates[i]).path@))
                ==> g.keep_reason@ == "Preferred because it is outside a cache or generated-artifact folder."@),
{
    let k = choose|k: int| is_keep_index(candidates, k) && g.recommended_keep_id@ == g.copies@[k].id@
        && g.keep_reason@ == keep_reason(candidates, k);
    law_keep_copy_avoids_cache_folders(candidates, k, j);
    assert(g.copies@[k].path@ == candidates[k].path@);
}

/// A path lies in a cache or generated-artifact folder exactly when one of
/// its components is named, in any ASCII case, `cache`, `caches`, `.cache`,
/// `node_modules`, `target`, `dist`, `build` or `.gradle`.
pub proof fn law_cache_folders_by_name(path: Seq<char>)
    ensures
        is_cache_path(path) <==> exists|i: int| 0 <= i < components(path, PathStyle::Posix).len()
            && (#[trigger] components(path, PathStyle::Posix)[i] matches Comp::Normal(n) && {
                let l = lower(n);
                l == "cache"@ || l == "caches"@ || l == ".cache"@ || l == "node_modules"@ || l == "target"@
                    || l == "dist"@ || l == "build"@ || l == ".gradle"@
            }),
{
}

/// Among the copies that lie in cache folders exactly when the kept copy
/// does, none is older than the kept copy: a copy with an unknown time is
/// kept before any dated copy, and a dated copy is kept only when no copy
/// of the same kind carries an earlier time.
pub proof fn law_keep_copy_is_the_oldest_of_its_kind(c: Seq<Candidate>, k: int, j: int)
    requires
        is_keep_index(c, k),
        0 <= j < c.len(),
        is_cache_path(c[j].path@) == is_cache_path(c[k].path@),
    ensures
        c[j].modified_at is None ==> c[k].modified_at is None,
        (c[j].modified_at is Some && c[k].modified_at is Some) ==> c[k].modified_at->0 <= c[j].modified_at->0,
{
    if j < k {
        assert(keep_lt(c[k], c[j]));
    } else if j > k {
        assert(!keep_lt(c[j], c[k]));
    }
}

} // verus!
