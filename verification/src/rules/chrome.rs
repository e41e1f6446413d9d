use vstd::prelude::*;
use crate::paths::{join, join_exec, PathStyle};
use crate::text::{chars_of, has_prefix, lemma_text_lt_asymmetric, lemma_text_lt_irreflexive,
    lemma_text_lt_total, lemma_text_lt_transitive, same_text, starts_with_text, text_less, text_lt};

verus! {

/// A directory found under one of the Chrome cache roots, with what the file
/// system said about it. `root` indexes `chrome_root`.
#[derive(Debug, Clone)]
pub struct ChromeProfileDir {
    pub root: usize,
    pub profile: String,
    pub is_directory: bool,
    pub cache_is_directory: bool,
}

/// The cache directory of one Chrome profile, with the label shown for it.
#[derive(Debug, Clone)]
pub struct ChromeCacheTarget {
    pub root: usize,
    pub profile: String,
    pub path: String,
    pub label: String,
}

/// The number of Chrome cache roots on each platform.
pub const CHROME_ROOT_COUNT: usize = 4;

pub open spec fn is_macos(platform: Seq<char>) -> bool {
    platform == "macos"@
}

/// The Chrome cache roots of a platform, home-relative, with the channel
/// shown to the user; they are listed in the order of their paths.
pub open spec fn chrome_root(platform: Seq<char>, k: int) -> (Seq<char>, Seq<char>) {
    if is_macos(platform) {
        if k == 0 {
            ("Library/Caches/Google/Chrome"@, "Chrome"@)
        } else if k == 1 {
            ("Library/Caches/Google/Chrome Beta"@, "Chrome Beta"@)
        } else if k == 2 {
            ("Library/Caches/Google/Chrome Canary"@, "Chrome Canary"@)
        } else {
            ("Library/Caches/Google/Chrome Dev"@, "Chrome Dev"@)
        }
    } else {
        if k == 0 {
            (".cache/chromium"@, "Chromium"@)
        } else if k == 1 {
            (".cache/google-chrome"@, "Chrome"@)
        } else if k == 2 {
            (".cache/google-chrome-beta"@, "Chrome Beta"@)
        } else {
            (".cache/google-chrome-unstable"@, "Chrome Dev"@)
        }
    }
}

/// The `k`-th Chrome cache root of the platform and its channel.
pub fn chrome_cache_root(platform: &str, k: usize) -> (r: (&'static str, &'static str))
    requires
        k < CHROME_ROOT_COUNT,
    ensures
        r.0@ == chrome_root(platform@, k as int).0,
        r.1@ == chrome_root(platform@, k as int).1,
{
    if same_text(platform, "macos") {
        if k == 0 {
            ("Library/Caches/Google/Chrome", "Chrome")
        } else if k == 1 {
            ("Library/Caches/Google/Chrome Beta", "Chrome Beta")
        } else if k == 2 {
            ("Library/Caches/Google/Chrome Canary", "Chrome Canary")
        } else {
            ("Library/Caches/Google/Chrome Dev", "Chrome Dev")
        }
    } else {
        if k == 0 {
            (".cache/chromium", "Chromium")
        } else if k == 1 {
            (".cache/google-chrome", "Chrome")
        } else if k == 2 {
            (".cache/google-chrome-beta", "Chrome Beta")
        } else {
            (".cache/google-chrome-unstable", "Chrome Dev")
        }
    }
}

/// The profile directories whose cache is considered; other profile data is never scanned.
pub open spec fn accepted_profile(name: Seq<char>) -> bool {
    name == "Default"@ || name == "Guest Profile"@ || name == "System Profile"@
        || has_prefix(name, "Profile "@)
}

pub fn accepted_profile_exec(name: &str) -> (r: bool)
    ensures
        r == accepted_profile(name@),
{
    same_text(name, "Default") || same_text(name, "Guest Profile") || same_text(name, "System Profile")
        || starts_with_text(name, "Profile ")
}

/// The cache directory of a profile under a root.
pub open spec fn chrome_target_path(home: Seq<char>, platform: Seq<char>, root: int, profile: Seq<char>) -> Seq<char> {
    join(
        join(join(home, chrome_root(platform, root).0, PathStyle::Posix), profile, PathStyle::Posix),
        "Cache/Cache_Data"@,
        PathStyle::Posix,
    )
}

pub open spec fn chrome_target_label(platform: Seq<char>, root: int, profile: Seq<char>) -> Seq<char> {
    chrome_root(platform, root).1 + " · "@ + profile
}

/// The directory listing entry names a profile whose cache is scanned.
pub open spec fn accepted_dir(e: ChromeProfileDir) -> bool {
    e.root < CHROME_ROOT_COUNT && e.is_directory && accepted_profile(e.profile@) && e.cache_is_directory
}

/// Some accepted entry among the first `n` of the listing has this root and profile.
pub open spec fn listed(listing: Seq<ChromeProfileDir>, n: int, root: usize, profile: Seq<char>) -> bool {
    exists|j: int| 0 <= j < n && accepted_dir(#[trigger] listing[j]) && listing[j].root == root
        && listing[j].profile@ == profile
}

/// The target's path and label are those of its root and profile.
pub open spec fn target_ok(home: Seq<char>, platform: Seq<char>, t: ChromeCacheTarget) -> bool {
    &&& t.root < CHROME_ROOT_COUNT
    &&& t.path@ == chrome_target_path(home, platform, t.root as int, t.profile@)
    &&& t.label@ == chrome_target_label(platform, t.root as int, t.profile@)
}

/// Targets are ordered by root, then by profile name: the order of their paths.
pub open spec fn key_lt(a: ChromeCacheTarget, b: ChromeCacheTarget) -> bool {
    a.root < b.root || (a.root == b.root && text_lt(a.profile@, b.profile@))
}

pub open spec fn strictly_sorted(s: Seq<ChromeCacheTarget>) -> bool {
    forall|a: int, b: int| 0 <= a < b < s.len() ==> key_lt(#[trigger] s[a], #[trigger] s[b])
}

pub open spec fn has_key(s: Seq<ChromeCacheTarget>, root: usize, profile: Seq<char>) -> bool {
    exists|k: int| 0 <= k < s.len() && (#[trigger] s[k]).root == root && s[k].profile@ == profile
}

proof fn lemma_key_lt_transitive(a: ChromeCacheTarget, b: ChromeCacheTarget, c: ChromeCacheTarget)
    requires
        key_lt(a, b),
        key_lt(b, c),
    ensures
        key_lt(a, c),
{
    if a.root == b.root && b.root == c.root {
        lemma_text_lt_transitive(a.profile@, b.profile@, c.profile@);
    }
}

proof fn lemma_key_lt_irreflexive(a: ChromeCacheTarget, b: ChromeCacheTarget)
    requires
        a.root == b.root,
        a.profile@ == b.profile@,
    ensures
        !key_lt(a, b),
{
    lemma_text_lt_irreflexive(a.profile@);
}

fn key_less(a: &ChromeCacheTarget, b: &ChromeCacheTarget) -> (r: bool)
    ensures
        r == key_lt(*a, *b),
{
    if a.root < b.root {
        true
    } else if a.root == b.root {
        let x = chars_of(a.profile.as_str());
        let y = chars_of(b.profile.as_str());
        text_less(x.as_slice(), y.as_slice())
    } else {
        false
    }
}

fn insert_target(targets: &mut Vec<ChromeCacheTarget>, t: ChromeCacheTarget, Ghost(home): Ghost<Seq<char>>, Ghost(platform): Ghost<Seq<char>>)
    requires
        strictly_sorted(old(targets)@),
        forall|k: int| 0 <= k < old(targets)@.len() ==> target_ok(home, platform, #[trigger] old(targets)@[k]),
        target_ok(home, platform, t),
    ensures
        strictly_sorted(final(targets)@),
        forall|k: int| 0 <= k < final(targets)@.len() ==> target_ok(home, platform, #[trigger] final(targets)@[k]),
        forall|root: usize, profile: Seq<char>|
            has_key(final(targets)@, root, profile) <==> (has_key(old(targets)@, root, profile)
                || (root == t.root && profile == t.profile@)),
{
    let ghost before = targets@;
    let mut i: usize = 0;
    while i < targets.len() && key_less(&targets[i], &t)
        invariant
            targets@ == before,
            i <= targets@.len(),
            forall|j: int| 0 <= j < i ==> key_lt(#[trigger] targets@[j], t),
        decreases targets.len() - i,
    {
        i = i + 1;
    }
    if i < targets.len() && targets[i].root == t.root && same_text(targets[i].profile.as_str(), t.profile.as_str()) {
        assert forall|root: usize, profile: Seq<char>|
            has_key(targets@, root, profile) <==> (has_key(before, root, profile)
                || (root == t.root && profile == t.profile@)) by {
            if root == t.root && profile == t.profile@ {
                assert(targets@[i as int].root == root && targets@[i as int].profile@ == profile);
            }
        }
        return;
    }
    proof {
        // Every entry from position `i` on comes after `t`.
        if i < before.len() {
            assert(!key_lt(before[i as int], t));
            if before[i as int].root == t.root {
                lemma_text_lt_total(before[i as int].profile@, t.profile@);
            }
            assert(key_lt(t, before[i as int]));
            assert forall|j: int| i <= j < before.len() implies key_lt(t, #[trigger] before[j]) by {
                if j > i {
                    lemma_key_lt_transitive(t, before[i as int], before[j]);
                }
            }
        }
    }
    targets.insert(i, t);
    proof {
        let after = targets@;
        assert(after == before.insert(i as int, t));
        assert forall|a: int, b: int| 0 <= a < b < after.len() implies key_lt(#[trigger] after[a], #[trigger] after[b]) by {
            if b < i {
            } else if b == i {
            } else if a < i {
                assert(key_lt(before[a], t));
                assert(key_lt(t, before[b - 1]));
                lemma_key_lt_transitive(before[a], t, before[b - 1]);
            } else if a == i {
            } else {
            }
        }
        assert forall|k: int| 0 <= k < after.len() implies target_ok(home, platform, #[trigger] after[k]) by {
            if k < i {
            } else if k == i {
            } else {
                assert(after[k] == before[k - 1]);
            }
        }
        assert forall|root: usize, profile: Seq<char>|
            has_key(after, root, profile) <==> (has_key(before, root, profile)
                || (root == t.root && profile == t.profile@)) by {
            if has_key(after, root, profile) {
                let k = choose|k: int| 0 <= k < after.len() && (#[trigger] after[k]).root == root && after[k].profile@ == profile;
                if k < i {
                    assert(before[k] == after[k]);
                } else if k > i {
                    assert(before[k - 1] == after[k]);
                }
            }
            if has_key(before, root, profile) {
                let k = choose|k: int| 0 <= k < before.len() && (#[trigger] before[k]).root == root && before[k].profile@ == profile;
                if k < i {
                    assert(after[k] == before[k]);
                } else {
                    assert(after[k + 1] == before[k]);
                }
            }
            if root == t.root && profile == t.profile@ {
                assert(after[i as int] == t);
            }
        }
    }
}

fn make_target(home: &str, platform: &str, root: usize, profile: &str) -> (t: ChromeCacheTarget)
    requires
        root < CHROME_ROOT_COUNT,
    ensures
        target_ok(home@, platform@, t),
        t.root == root,
        t.profile@ == profile@,
{
    let (relative_root, channel) = chrome_cache_root(platform, root);
    let root_path = join_exec(home, relative_root, PathStyle::Posix);
    let profile_path = join_exec(root_path.as_str(), profile, PathStyle::Posix);
    let path = join_exec(profile_path.as_str(), "Cache/Cache_Data", PathStyle::Posix);
    let mut label = String::from_str(channel);
    label.append(" · ");
    label.append(profile);
    ChromeCacheTarget { root, profile: String::from_str(profile), path, label }
}

/// The cache directories of the known Chrome profiles found in the listing,
/// ordered by path and without repeats. Directories that are not profiles,
/// and profiles without a cache directory, are left out.
pub fn chrome_profile_cache_targets(home: &str, platform: &str, listing: &[ChromeProfileDir]) -> (r: Vec<ChromeCacheTarget>)
    ensures
        strictly_sorted(r@),
        forall|k: int| 0 <= k < r@.len() ==> target_ok(home@, platform@, #[trigger] r@[k]),
        forall|root: usize, profile: Seq<char>|
            has_key(r@, root, profile) <==> listed(listing@, listing@.len() as int, root, profile),
{
    let mut targets: Vec<ChromeCacheTarget> = Vec::new();
    let mut i: usize = 0;
    while i < listing.len()
        invariant
            i <= listing@.len(),
            strictly_sorted(targets@),
            forall|k: int| 0 <= k < targets@.len() ==> target_ok(home@, platform@, #[trigger] targets@[k]),
            forall|root: usize, profile: Seq<char>|
                has_key(targets@, root, profile) <==> listed(listing@, i as int, root, profile),
        decreases listing.len() - i,
    {
        let e = &listing[i];
        let accepted = e.root < CHROME_ROOT_COUNT && e.is_directory && accepted_profile_exec(e.profile.as_str())
            && e.cache_is_directory;
        let ghost before = targets@;
        if accepted {
            let t = make_target(home, platform, e.root, e.profile.as_str());
            insert_target(&mut targets, t, Ghost(home@), Ghost(platform@));
        }
        proof {
            assert forall|root: usize, profile: Seq<char>|
                has_key(targets@, root, profile) <==> listed(listing@, i + 1, root, profile) by {
                if listed(listing@, i + 1, root, profile) && !listed(listing@, i as int, root, profile) {
                    let j = choose|j: int| 0 <= j < i + 1 && accepted_dir(#[trigger] listing@[j]) && listing@[j].root == root
                        && listing@[j].profile@ == profile;
                    assert(j == i);
                }
                if listed(listing@, i as int, root, profile) {
                    let j = choose|j: int| 0 <= j < i && accepted_dir(#[trigger] listing@[j]) && listing@[j].root == root
                        && listing@[j].profile@ == profile;
                    assert(0 <= j < i + 1);
                }
                if accepted && root == listing@[i as int].root && profile == listing@[i as int].profile@ {
                    assert(listed(listing@, i + 1, root, profile));
                }
            }
        }
        i = i + 1;
    }
    targets
}

} // verus!
