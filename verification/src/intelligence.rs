//! Read-only insight into the home folder: which privacy-protected places
//! can be read, which application data has no installed owner, and how space
//! divides among a folder's children. The file system is read by the caller,
//! which reports what it finds to these steps.
use vstd::prelude::*;
use crate::applications::bundles::{content_id, content_id_exec};
use crate::domain::error::{CommandError, ErrorCode};
use crate::domain::intelligence::{
    OrphanedApplicationData, PermissionAccess, PermissionLocation, PermissionReport, StorageMapEntry, StorageMapReport,
};
use crate::duplicates::grouping::{saturating_add_u64, saturating_sum};
use crate::paths::{
    append_chars, comp_views, comps_prefix, comps_prefix_exec, components, components_exec, file_name, file_name_exec,
    is_absolute, is_absolute_exec, join, join_exec, join_rel, join_rel_exec, path_starts_with, path_starts_with_exec, PathStyle,
};
use crate::scanner::walker::{FsError, FsErrorKind};
use crate::sorting::{merge_sort, sorted_by_key, views_of, KeyOrder};
use crate::text::{chars_of, has_prefix, has_suffix, same_text, starts_with_text, string_of};

verus! {

/// At most this many storage map entries are reported.
pub const MAP_MAX_RESULTS: usize = 24;

/// The entries a storage map may read.
pub const MAP_MAX_ENTRIES: u64 = 150_000;

/// How long a storage map may read, in milliseconds.
pub const MAP_MAX_DURATION_MS: u64 = 15_000;

/// The entries an orphan scan may read.
pub const ORPHAN_MAX_ENTRIES: u64 = 75_000;

/// How long an orphan scan may read, in milliseconds.
pub const ORPHAN_MAX_DURATION_MS: u64 = 8_000;

/// At most this many orphaned items are reported.
pub const ORPHAN_MAX_RESULTS: usize = 200;

/// A path shown relative to the home folder: `~` for the home folder itself,
/// `~/...` inside it, and unchanged elsewhere.
pub open spec fn home_display_path(p: Seq<char>, home: Seq<char>) -> Seq<char> {
    let pc = components(p, PathStyle::Posix);
    let hc = components(home, PathStyle::Posix);
    if comps_prefix(pc, hc) {
        if pc.len() == hc.len() { seq!['~'] } else { seq!['~', '/'] + join_rel(pc.skip(hc.len() as int)) }
    } else {
        p
    }
}

pub fn home_display_path_exec(p: &str, home: &str) -> (r: String)
    ensures
        r@ == home_display_path(p@, home@),
{
    let pc = components_exec(chars_of(p).as_slice(), PathStyle::Posix);
    let hc = components_exec(chars_of(home).as_slice(), PathStyle::Posix);
    assert(comp_views(pc@).len() == pc@.len());
    assert(comp_views(hc@).len() == hc@.len());
    if comps_prefix_exec(pc.as_slice(), hc.as_slice()) {
        if pc.len() == hc.len() {
            proof {
                reveal_strlit("~");
            }
            return String::from_str("~");
        }
        let mut out: Vec<char> = Vec::new();
        out.push('~');
        out.push('/');
        let rest = join_rel_exec(pc.as_slice(), hc.len());
        append_chars(&mut out, rest.as_slice());
        assert(out@ =~= seq!['~', '/'] + rest@);
        string_of(out.as_slice())
    } else {
        String::from_str(p)
    }
}

/// An identifier shaped like a bundle identifier: dotted, without
/// whitespace, every part non-empty and made of ASCII letters, digits, `-`
/// and `_`.
pub open spec fn identifier_char(c: char) -> bool {
    ('a' <= c && c <= 'z') || ('A' <= c && c <= 'Z') || ('0' <= c && c <= '9') || c == '-' || c == '_'
}

pub open spec fn looks_like_bundle_identifier_spec(v: Seq<char>) -> bool {
    &&& v.contains('.')
    &&& v.len() > 0 && v[0] != '.' && v[v.len() - 1] != '.'
    &&& forall|i: int| 0 <= i < v.len() ==> (#[trigger] v[i] == '.' || identifier_char(v[i]))
    &&& forall|i: int| 0 <= i < v.len() - 1 ==> !(#[trigger] v[i] == '.' && v[i + 1] == '.')
}

pub fn looks_like_bundle_identifier(value: &str) -> (r: bool)
    ensures
        r == looks_like_bundle_identifier_spec(value@),
{
    let v = chars_of(value);
    if v.len() == 0 || v[0] == '.' || v[v.len() - 1] == '.' {
        return false;
    }
    let mut dot = false;
    let mut i: usize = 0;
    while i < v.len()
        invariant
            v@ == value@,
            v@.len() > 0,
            0 <= i <= v@.len(),
            dot == (exists|k: int| 0 <= k < i && v@[k] == '.'),
            forall|k: int| 0 <= k < i ==> (#[trigger] v@[k] == '.' || identifier_char(v@[k])),
            forall|k: int| 0 <= k < i && k < v@.len() - 1 ==> !(#[trigger] v@[k] == '.' && v@[k + 1] == '.'),
        decreases v@.len() - i,
    {
        let c = v[i];
        let ok = ('a' <= c && c <= 'z') || ('A' <= c && c <= 'Z') || ('0' <= c && c <= '9') || c == '-' || c == '_';
        if c != '.' && !ok {
            return false;
        }
        if c == '.' {
            if i + 1 < v.len() && v[i + 1] == '.' {
                assert(!(forall|k: int| 0 <= k < v@.len() - 1 ==> !(#[trigger] v@[k] == '.' && v@[k + 1] == '.')));
                return false;
            }
            dot = true;
        }
        i = i + 1;
    }
    assert(dot == v@.contains('.'));
    dot
}

/// Whether an identifier belongs to an installed application: it is one of
/// their bundle identifiers, or one with `group.` in front.
pub open spec fn identifier_installed_spec(identifier: Seq<char>, installed: Seq<Seq<char>>) -> bool {
    installed.contains(identifier)
        || (has_prefix(identifier, "group."@) && installed.contains(identifier.skip(6)))
}

fn contains_text_exec(installed: &Vec<String>, id: &Vec<char>) -> (r: bool)
    ensures
        r == installed@.map_values(|s: String| s@).contains(id@),
{
    let ghost iv = installed@.map_values(|s: String| s@);
    let mut i: usize = 0;
    while i < installed.len()
        invariant
            iv == installed@.map_values(|s: String| s@),
            0 <= i <= installed@.len(),
            forall|k: int| 0 <= k < i ==> iv[k] != id@,
        decreases installed@.len() - i,
    {
        if crate::text::slices_equal(chars_of(installed[i].as_str()).as_slice(), id.as_slice()) {
            assert(iv[i as int] == id@);
            return true;
        }
        i = i + 1;
    }
    false
}

pub fn identifier_is_installed(identifier: &str, installed: &Vec<String>) -> (r: bool)
    ensures
        r == identifier_installed_spec(identifier@, installed@.map_values(|s: String| s@)),
{
    let id = chars_of(identifier);
    if contains_text_exec(installed, &id) {
        return true;
    }
    let prefix = chars_of("group.");
    proof {
        reveal_strlit("group.");
    }
    if id.len() >= 6 && crate::text::slices_equal(crate::paths::slice_range(id.as_slice(), 0, 6).as_slice(), prefix.as_slice()) {
        let rest = crate::paths::slice_range(id.as_slice(), 6, id.len());
        assert(rest@ =~= id@.skip(6));
        return contains_text_exec(installed, &rest);
    }
    false
}

/// A place orphaned data is looked for: the folder, its category, and what
/// about an item's name is taken as its identifier.
pub open spec fn orphan_roots_spec(home: Seq<char>) -> Seq<(Seq<char>, Seq<char>, Seq<char>)> {
    seq![
        (join(home, "Library/Caches"@, PathStyle::Posix), "Cache"@, "directory name"@),
        (join(home, "Library/Containers"@, PathStyle::Posix), "Container"@, "container identifier"@),
        (join(home, "Library/Group Containers"@, PathStyle::Posix), "Shared Group Container"@, "shared container identifier"@),
        (join(home, "Library/Preferences"@, PathStyle::Posix), "Preference"@, "preference identifier"@),
        (join(home, "Library/Saved Application State"@, PathStyle::Posix), "Saved Application State"@, "saved-state identifier"@),
    ]
}

pub open spec fn triple_views(v: Seq<(String, String, String)>) -> Seq<(Seq<char>, Seq<char>, Seq<char>)> {
    v.map_values(|t: (String, String, String)| (t.0@, t.1@, t.2@))
}

pub fn orphan_roots(home: &str) -> (r: Vec<(String, String, String)>)
    ensures
        triple_views(r@) == orphan_roots_spec(home@),
{
    let mut r: Vec<(String, String, String)> = Vec::new();
    r.push((join_exec(home, "Library/Caches", PathStyle::Posix), String::from_str("Cache"), String::from_str("directory name")));
    r.push((join_exec(home, "Library/Containers", PathStyle::Posix), String::from_str("Container"),
        String::from_str("container identifier")));
    r.push((join_exec(home, "Library/Group Containers", PathStyle::Posix), String::from_str("Shared Group Container"),
        String::from_str("shared container identifier")));
    r.push((join_exec(home, "Library/Preferences", PathStyle::Posix), String::from_str("Preference"),
        String::from_str("preference identifier")));
    r.push((join_exec(home, "Library/Saved Application State", PathStyle::Posix), String::from_str("Saved Application State"),
        String::from_str("saved-state identifier")));
    assert(triple_views(r@) =~= orphan_roots_spec(home@));
    r
}

/// The identifier an item's name gives: preferences and saved states lose
/// their `.plist` and `.savedState` endings (and are skipped without them).
pub open spec fn application_identifier_spec(path: Seq<char>, category: Seq<char>) -> Option<Seq<char>> {
    match file_name(path, PathStyle::Posix) {
        None => None,
        Some(name) => if category == "Preference"@ {
            if has_suffix(name, ".plist"@) { Some(name.subrange(0, name.len() - 6)) } else { None }
        } else if category == "Saved Application State"@ {
            if has_suffix(name, ".savedState"@) { Some(name.subrange(0, name.len() - 11)) } else { None }
        } else {
            Some(name)
        },
    }
}

fn strip_suffix(name: &Vec<char>, suffix: &str) -> (r: Option<Vec<char>>)
    ensures
        match r {
            Some(s) => has_suffix(name@, suffix@) && s@ == name@.subrange(0, name@.len() - suffix@.len()),
            None => !has_suffix(name@, suffix@),
        },
{
    let s = chars_of(suffix);
    if s.len() > name.len() {
        return None;
    }
    let start = name.len() - s.len();
    let tail = crate::paths::slice_range(name.as_slice(), start, name.len());
    if crate::text::slices_equal(tail.as_slice(), s.as_slice()) {
        Some(crate::paths::slice_range(name.as_slice(), 0, start))
    } else {
        None
    }
}

pub fn application_identifier(path: &str, category: &str) -> (r: Option<String>)
    ensures
        match r {
            Some(s) => application_identifier_spec(path@, category@) == Some(s@),
            None => application_identifier_spec(path@, category@) is None,
        },
{
    let name = match file_name_exec(path, PathStyle::Posix) {
        None => return None,
        Some(n) => n,
    };
    proof {
        reveal_strlit(".plist");
        reveal_strlit(".savedState");
    }
    if same_text(category, "Preference") {
        match strip_suffix(&name, ".plist") {
            Some(s) => Some(string_of(s.as_slice())),
            None => None,
        }
    } else if same_text(category, "Saved Application State") {
        match strip_suffix(&name, ".savedState") {
            Some(s) => Some(string_of(s.as_slice())),
            None => None,
        }
    } else {
        Some(string_of(name.as_slice()))
    }
}

/// Whether an identified item is reported as orphaned: it looks like a
/// bundle identifier, is not Apple's or this application's, and no
/// installed application owns it.
pub open spec fn reported_orphan(identifier: Seq<char>, installed: Seq<Seq<char>>) -> bool {
    looks_like_bundle_identifier_spec(identifier) && !has_prefix(identifier, "com.apple."@)
        && identifier != "com.disksage.desktop"@ && !identifier_installed_spec(identifier, installed)
}

pub fn is_reported_orphan(identifier: &str, installed: &Vec<String>) -> (r: bool)
    ensures
        r == reported_orphan(identifier@, installed@.map_values(|s: String| s@)),
{
    looks_like_bundle_identifier(identifier) && !starts_with_text(identifier, "com.apple.")
        && !same_text(identifier, "com.disksage.desktop") && !identifier_is_installed(identifier, installed)
}

/// The reason shown with orphaned data.
pub open spec fn orphan_reason(evidence: Seq<char>) -> Seq<char> {
    "No currently scanned application directly matches this "@ + evidence
        + ". Ownership is uncertain, so this item is review-only and never selected automatically."@
}

fn concat3(a: &str, b: &str, c: &str) -> (r: String)
    ensures
        r@ == a@ + b@ + c@,
{
    let mut v = chars_of(a);
    crate::paths::append_chars(&mut v, chars_of(b).as_slice());
    crate::paths::append_chars(&mut v, chars_of(c).as_slice());
    string_of(v.as_slice())
}

/// Orphaned data as reported: identified by its path, never selected.
pub fn orphan_entry(
    path: &str,
    home: &str,
    identifier: &str,
    category: &str,
    evidence: &str,
    logical_size: u64,
    allocated_size: u64,
) -> (o: OrphanedApplicationData)
    ensures
        o.id@ == content_id(path@),
        o.path@ == path@,
        o.display_path@ == home_display_path(path@, home@),
        o.identifier@ == identifier@,
        o.category@ == category@,
        o.logical_size == logical_size,
        o.allocated_size == allocated_size,
        o.reason@ == orphan_reason(evidence@),
        !o.default_selected,
{
    OrphanedApplicationData {
        id: content_id_exec(path),
        path: String::from_str(path),
        display_path: home_display_path_exec(path, home),
        identifier: String::from_str(identifier),
        category: String::from_str(category),
        logical_size,
        allocated_size,
        reason: concat3("No currently scanned application directly matches this ", evidence,
            ". Ownership is uncertain, so this item is review-only and never selected automatically."),
        default_selected: false,
    }
}

impl View for OrphanedApplicationData {
    type V = OrphanedApplicationData;

    open spec fn view(&self) -> OrphanedApplicationData {
        *self
    }
}

/// Orphaned data is listed largest first.
impl KeyOrder for OrphanedApplicationData {
    open spec fn before(a: OrphanedApplicationData, b: OrphanedApplicationData) -> bool {
        a.allocated_size > b.allocated_size
    }

    proof fn lemma_asymmetric(a: OrphanedApplicationData, b: OrphanedApplicationData) {
    }

    proof fn lemma_not_before_transitive(a: OrphanedApplicationData, b: OrphanedApplicationData, c: OrphanedApplicationData) {
    }

    fn less(&self, other: &Self) -> (r: bool) {
        self.allocated_size > other.allocated_size
    }

    fn duplicate(&self) -> (r: Self) {
        OrphanedApplicationData {
            id: self.id.clone(),
            path: self.path.clone(),
            display_path: self.display_path.clone(),
            identifier: self.identifier.clone(),
            category: self.category.clone(),
            logical_size: self.logical_size,
            allocated_size: self.allocated_size,
            reason: self.reason.clone(),
            default_selected: self.default_selected,
        }
    }
}

/// The orphaned data found, largest first.
pub fn order_orphans(found: Vec<OrphanedApplicationData>) -> (r: Vec<OrphanedApplicationData>)
    ensures
        r@.to_multiset() == found@.to_multiset(),
        forall|a: int, b: int| 0 <= a < b < r@.len() ==> (#[trigger] r@[a]).allocated_size >= (#[trigger] r@[b]).allocated_size,
{
    let r = merge_sort(found);
    assert(views_of(r@) =~= r@);
    assert(views_of(found@) =~= found@);
    r
}

/// The entries read and the time left for reading.
pub struct Budget {
    pub remaining_entries: u64,
}

impl Budget {
    /// Whether reading must stop: no entry is left, or the time is up
    /// (`past_deadline`).
    pub fn exhausted(&self, past_deadline: bool) -> (r: bool)
        ensures
            r == (self.remaining_entries == 0 || past_deadline),
    {
        self.remaining_entries == 0 || past_deadline
    }

    /// Counts one entry read.
    pub fn spend(&mut self)
        ensures
            final(self).remaining_entries == (if old(self).remaining_entries == 0 { 0 } else { old(self).remaining_entries - 1 }),
    {
        if self.remaining_entries > 0 {
            self.remaining_entries = self.remaining_entries - 1;
        }
    }
}

/// What a bounded measurement of a folder found.
#[derive(Debug, Clone, Copy, PartialEq, Eq, Structural)]
pub struct Measurement {
    pub logical_size: u64,
    pub allocated_size: u64,
    pub files_scanned: u64,
    pub directories_scanned: u64,
    pub permission_denied_count: u64,
    pub truncated: bool,
}

/// What the file system reports about one path of a measurement, read
/// without following a symbolic link.
#[derive(Debug)]
pub enum MeasuredKind {
    SymbolicLink,
    /// A regular file on the given device, its length and allocated bytes.
    File(u64, u64, u64),
    /// A folder on the given device, and its entries when they could be read.
    Directory(u64, Result<Vec<String>, FsErrorKind>),
    /// Something else, on the given device.
    Other(u64),
}

/// The walk of a bounded measurement: paths still to read, each with its
/// depth below the measured folder.
pub struct MeasureWalk {
    pub pending: Vec<(String, u8)>,
    pub root_device: u64,
    pub measurement: Measurement,
}

impl MeasureWalk {
    pub open spec fn pending(&self) -> Seq<(Seq<char>, u8)> {
        self.pending@.map_values(|p: (String, u8)| (p.0@, p.1))
    }

    pub open spec fn root_device(&self) -> u64 {
        self.root_device
    }

    pub fn new(path: &str, root_device: u64) -> (w: Self)
        ensures
            w.pending() == seq![(path@, 0u8)],
            w.root_device() == root_device,
            w.measurement == (Measurement {
                logical_size: 0,
                allocated_size: 0,
                files_scanned: 0,
                directories_scanned: 0,
                permission_denied_count: 0,
                truncated: false,
            }),
    {
        let mut pending: Vec<(String, u8)> = Vec::new();
        pending.push((String::from_str(path), 0u8));
        let w = MeasureWalk {
            pending,
            root_device,
            measurement: Measurement {
                logical_size: 0,
                allocated_size: 0,
                files_scanned: 0,
                directories_scanned: 0,
                permission_denied_count: 0,
                truncated: false,
            },
        };
        assert(w.pending@.map_values(|p: (String, u8)| (p.0@, p.1)) =~= seq![(path@, 0u8)]);
        w
    }

    /// The next path to read, with its depth, unless the walk is done or the
    /// budget ran out, which marks the measurement truncated. A path handed
    /// out is counted against the budget.
    pub fn next_path(&mut self, budget: &mut Budget, past_deadline: bool) -> (r: Option<(String, u8)>)
        ensures
            final(self).root_device() == old(self).root_device(),
            old(self).pending().len() == 0 ==> r is None && final(self).pending() == old(self).pending()
                && final(self).measurement == old(self).measurement && *final(budget) == *old(budget),
            old(self).pending().len() > 0 && (old(budget).remaining_entries == 0 || past_deadline) ==> r is None
                && final(self).measurement == (Measurement { truncated: true, ..old(self).measurement })
                && final(self).pending() == old(self).pending().drop_last() && *final(budget) == *old(budget),
            old(self).pending().len() > 0 && !(old(budget).remaining_entries == 0 || past_deadline) ==> (r matches Some(p)
                && (p.0@, p.1) == old(self).pending().last())
                && final(self).pending() == old(self).pending().drop_last()
                && final(self).measurement == old(self).measurement
                && final(budget).remaining_entries == old(budget).remaining_entries - 1,
    {
        let ghost before = self.pending@;
        match self.pending.pop() {
            None => None,
            Some(p) => {
                assert(self.pending@.map_values(|p: (String, u8)| (p.0@, p.1)) =~= before.map_values(|p: (String, u8)| (p.0@, p.1)).drop_last());
                if budget.exhausted(past_deadline) {
                    self.measurement.truncated = true;
                    return None;
                }
                budget.spend();
                Some(p)
            },
        }
    }

    /// Takes in what was found at a path of depth `depth`: a failed read
    /// counts a permission denial when it was one; links and items on other
    /// devices are skipped; a file adds its sizes; a folder is counted, and
    /// its entries are queued one level deeper, unless it lies 32 levels down,
    /// which marks the measurement truncated.
    pub fn record(&mut self, depth: u8, found: Result<MeasuredKind, FsErrorKind>)
        requires
            old(self).measurement.files_scanned < u64::MAX,
            old(self).measurement.directories_scanned < u64::MAX,
            old(self).measurement.permission_denied_count < u64::MAX,
        ensures
            final(self).root_device() == old(self).root_device(),
            match found {
                Err(kind) => final(self).pending() == old(self).pending() && final(self).measurement == (Measurement {
                    permission_denied_count: if kind == FsErrorKind::PermissionDenied {
                        (old(self).measurement.permission_denied_count + 1) as u64
                    } else {
                        old(self).measurement.permission_denied_count
                    },
                    ..old(self).measurement
                }),
                Ok(MeasuredKind::SymbolicLink) => final(self).pending() == old(self).pending()
                    && final(self).measurement == old(self).measurement,
                Ok(MeasuredKind::Other(_)) => final(self).pending() == old(self).pending()
                    && final(self).measurement == old(self).measurement,
                Ok(MeasuredKind::File(device, len, allocated)) => final(self).pending() == old(self).pending()
                    && if device != old(self).root_device() {
                        final(self).measurement == old(self).measurement
                    } else {
                        final(self).measurement == (Measurement {
                            files_scanned: (old(self).measurement.files_scanned + 1) as u64,
                            logical_size: saturating_sum(old(self).measurement.logical_size, len),
                            allocated_size: saturating_sum(old(self).measurement.allocated_size, allocated),
                            ..old(self).measurement
                        })
                    },
                Ok(MeasuredKind::Directory(device, listing)) => if device != old(self).root_device() {
                    final(self).pending() == old(self).pending() && final(self).measurement == old(self).measurement
                } else if depth >= 32 {
                    final(self).pending() == old(self).pending() && final(self).measurement == (Measurement {
                        directories_scanned: (old(self).measurement.directories_scanned + 1) as u64,
                        truncated: true,
                        ..old(self).measurement
                    })
                } else {
                    match listing {
                        Ok(children) => final(self).pending() == old(self).pending()
                            + children@.map_values(|c: String| (c@, (depth + 1) as u8))
                            && final(self).measurement == (Measurement {
                                directories_scanned: (old(self).measurement.directories_scanned + 1) as u64,
                                ..old(self).measurement
                            }),
                        Err(kind) => final(self).pending() == old(self).pending() && final(self).measurement == (Measurement {
                            directories_scanned: (old(self).measurement.directories_scanned + 1) as u64,
                            permission_denied_count: if kind == FsErrorKind::PermissionDenied {
                                (old(self).measurement.permission_denied_count + 1) as u64
                            } else {
                                old(self).measurement.permission_denied_count
                            },
                            ..old(self).measurement
                        }),
                    }
                },
            },
    {
        match found {
            Err(kind) => {
                if kind == FsErrorKind::PermissionDenied {
                    self.measurement.permission_denied_count = self.measurement.permission_denied_count + 1;
                }
            },
            Ok(MeasuredKind::SymbolicLink) => {},
            Ok(MeasuredKind::Other(_)) => {},
            Ok(MeasuredKind::File(device, len, allocated)) => {
                if device == self.root_device {
                    self.measurement.files_scanned = self.measurement.files_scanned + 1;
                    self.measurement.logical_size = saturating_add_u64(self.measurement.logical_size, len);
                    self.measurement.allocated_size = saturating_add_u64(self.measurement.allocated_size, allocated);
                }
            },
            Ok(MeasuredKind::Directory(device, listing)) => {
                if device == self.root_device {
                    self.measurement.directories_scanned = self.measurement.directories_scanned + 1;
                    if depth >= 32 {
                        self.measurement.truncated = true;
                    } else {
                        match listing {
                            Ok(children) => {
                                let ghost start = self.pending@.map_values(|p: (String, u8)| (p.0@, p.1));
                                let ghost cv = children@.map_values(|c: String| (c@, (depth + 1) as u8));
                                let ghost m = self.measurement;
                                let mut i: usize = 0;
                                while i < children.len()
                                    invariant
                                        0 <= i <= children@.len(),
                                        self.measurement == m,
                                        self.root_device == old(self).root_device,
                                        depth < 32,
                                        cv == children@.map_values(|c: String| (c@, (depth + 1) as u8)),
                                        self.pending@.map_values(|p: (String, u8)| (p.0@, p.1)) == start + cv.take(i as int),
                                    decreases children@.len() - i,
                                {
                                    let ghost before = self.pending@;
                                    self.pending.push((children[i].clone(), depth + 1));
                                    assert(cv.take(i + 1) =~= cv.take(i as int).push(cv[i as int]));
                                    assert(self.pending@.map_values(|p: (String, u8)| (p.0@, p.1)) =~=
                                        before.map_values(|p: (String, u8)| (p.0@, p.1)).push(cv[i as int]));
                                    i = i + 1;
                                }
                                assert(cv.take(cv.len() as int) =~= cv);
                            },
                            Err(kind) => {
                                if kind == FsErrorKind::PermissionDenied {
                                    self.measurement.permission_denied_count = self.measurement.permission_denied_count + 1;
                                }
                            },
                        }
                    }
                }
            },
        }
    }
}


/// The error for a folder that could not be analyzed.
pub open spec fn analysis_error(e: CommandError, path: Seq<char>, fe: FsError) -> bool {
    &&& e.code == (match fe.kind {
        FsErrorKind::PermissionDenied => ErrorCode::PermissionDenied,
        FsErrorKind::NotFound => ErrorCode::PathNotFound,
        FsErrorKind::Other => ErrorCode::FilesystemError,
    })
    &&& e.message@ == "The requested folder could not be analyzed."@
    &&& e.recoverable
    &&& e.path matches Some(p) && p@ == path
    &&& e.details matches Some(d) && d@ == fe.details@
}

pub fn filesystem_error(path: &str, fe: &FsError) -> (e: CommandError)
    ensures
        analysis_error(e, path@, *fe),
{
    let code = match fe.kind {
        FsErrorKind::PermissionDenied => ErrorCode::PermissionDenied,
        FsErrorKind::NotFound => ErrorCode::PathNotFound,
        FsErrorKind::Other => ErrorCode::FilesystemError,
    };
    CommandError::new(code, "The requested folder could not be analyzed.", true).with_path(path).with_details(fe.details.as_str())
}

/// What the file system reports about the folder a storage map is asked
/// for: whether it is a link or a folder and its device, its canonical path,
/// and the home folder's canonical path.
#[derive(Debug)]
pub struct StorageRootFacts {
    pub stat: Result<(bool, bool, u64), FsError>,
    pub canonical: Result<String, FsError>,
    pub home_canonical: Result<String, FsError>,
}

/// The folder a storage map reads: the one asked for, else the home folder.
pub open spec fn requested_root(root: Option<String>, home: Seq<char>) -> Seq<char> {
    match root {
        Some(r) => r@,
        None => home,
    }
}

/// Checks the folder a storage map is asked for: an absolute path to a real
/// folder, not a link, resolving inside the home folder. The result is its
/// canonical path and device.
pub fn check_storage_root(root: &Option<String>, home: &str, facts: &StorageRootFacts) -> (r: Result<(String, u64), CommandError>)
    ensures
        ({
            let requested = requested_root(*root, home@);
            if !is_absolute(requested, PathStyle::Posix) {
                r matches Err(e) && e.code == ErrorCode::InvalidPath && e.message@ == "Storage Map requires an absolute folder path."@
                    && !e.recoverable && e.path is None && e.details is None
            } else {
                match facts.stat {
                    Err(fe) => r matches Err(e) && analysis_error(e, requested, fe),
                    Ok((is_link, is_dir, device)) => if is_link || !is_dir {
                        r matches Err(e) && e.code == ErrorCode::InvalidPath
                            && e.message@ == "Storage Map requires a real folder and never follows symbolic links."@ && !e.recoverable
                            && (e.path matches Some(p) && p@ == home_display_path(requested, home@)) && e.details is None
                    } else {
                        match facts.canonical {
                            Err(fe) => r matches Err(e) && analysis_error(e, requested, fe),
                            Ok(c) => match facts.home_canonical {
                                Err(fe) => r matches Err(e) && analysis_error(e, home@, fe),
                                Ok(h) => if !path_starts_with(c@, h@, PathStyle::Posix) {
                                    r matches Err(e) && e.code == ErrorCode::PathProtected
                                        && e.message@ == "Storage Map is limited to your home folder and folders inside it."@
                                        && !e.recoverable && (e.path matches Some(p) && p@ == c@) && e.details is None
                                } else {
                                    r matches Ok((rc, d)) && rc@ == c@ && d == device
                                },
                            },
                        }
                    },
                }
            }
        }),
{
    let requested = match root {
        Some(r) => r.clone(),
        None => String::from_str(home),
    };
    if !is_absolute_exec(chars_of(requested.as_str()).as_slice(), PathStyle::Posix) {
        return Err(CommandError::new(ErrorCode::InvalidPath, "Storage Map requires an absolute folder path.", false));
    }
    let (is_link, is_dir, device) = match &facts.stat {
        Err(fe) => return Err(filesystem_error(requested.as_str(), fe)),
        Ok(s) => *s,
    };
    if is_link || !is_dir {
        let shown = home_display_path_exec(requested.as_str(), home);
        return Err(CommandError::new(
            ErrorCode::InvalidPath,
            "Storage Map requires a real folder and never follows symbolic links.",
            false,
        ).with_path(shown.as_str()));
    }
    let canonical = match &facts.canonical {
        Err(fe) => return Err(filesystem_error(requested.as_str(), fe)),
        Ok(c) => c,
    };
    let home_canonical = match &facts.home_canonical {
        Err(fe) => return Err(filesystem_error(home, fe)),
        Ok(h) => h,
    };
    if !path_starts_with_exec(canonical.as_str(), home_canonical.as_str(), PathStyle::Posix) {
        return Err(CommandError::new(
            ErrorCode::PathProtected,
            "Storage Map is limited to your home folder and folders inside it.",
            false,
        ).with_path(canonical.as_str()));
    }
    Ok((canonical.clone(), device))
}

/// Whether a child of the mapped folder is measured: not a link, and on the
/// folder's device.
pub fn maps_child(is_symlink: bool, device: u64, root_device: u64) -> (r: bool)
    ensures
        r == (!is_symlink && device == root_device),
{
    !is_symlink && device == root_device
}

/// A storage map entry for a child, identified by its path.
pub fn map_entry(path: &str, name: &str, home: &str, m: &Measurement) -> (e: StorageMapEntry)
    ensures
        e.id@ == content_id(path@),
        e.name@ == name@,
        e.path@ == path@,
        e.display_path@ == home_display_path(path@, home@),
        e.logical_size == m.logical_size,
        e.allocated_size == m.allocated_size,
        e.files_scanned == m.files_scanned,
        e.directories_scanned == m.directories_scanned,
        e.permission_denied_count == m.permission_denied_count,
        e.truncated == m.truncated,
{
    StorageMapEntry {
        id: content_id_exec(path),
        name: String::from_str(name),
        path: String::from_str(path),
        display_path: home_display_path_exec(path, home),
        logical_size: m.logical_size,
        allocated_size: m.allocated_size,
        files_scanned: m.files_scanned,
        directories_scanned: m.directories_scanned,
        permission_denied_count: m.permission_denied_count,
        truncated: m.truncated,
    }
}

impl View for StorageMapEntry {
    type V = StorageMapEntry;

    open spec fn view(&self) -> StorageMapEntry {
        *self
    }
}

/// Storage map entries are listed largest first.
impl KeyOrder for StorageMapEntry {
    open spec fn before(a: StorageMapEntry, b: StorageMapEntry) -> bool {
        a.allocated_size > b.allocated_size
    }

    proof fn lemma_asymmetric(a: StorageMapEntry, b: StorageMapEntry) {
    }

    proof fn lemma_not_before_transitive(a: StorageMapEntry, b: StorageMapEntry, c: StorageMapEntry) {
    }

    fn less(&self, other: &Self) -> (r: bool) {
        self.allocated_size > other.allocated_size
    }

    fn duplicate(&self) -> (r: Self) {
        StorageMapEntry {
            id: self.id.clone(),
            name: self.name.clone(),
            path: self.path.clone(),
            display_path: self.display_path.clone(),
            logical_size: self.logical_size,
            allocated_size: self.allocated_size,
            files_scanned: self.files_scanned,
            directories_scanned: self.directories_scanned,
            permission_denied_count: self.permission_denied_count,
            truncated: self.truncated,
        }
    }
}

/// The sum of one counter over the first `n` entries, held at `u64::MAX`.
pub open spec fn entries_total(e: Seq<StorageMapEntry>, field: spec_fn(StorageMapEntry) -> u64, n: int) -> u64
    decreases n,
{
    if n <= 0 { 0 } else { saturating_sum(entries_total(e, field, n - 1), field(e[n - 1])) }
}

pub open spec fn some_truncated(e: Seq<StorageMapEntry>) -> bool {
    exists|i: int| 0 <= i < e.len() && (#[trigger] e[i]).truncated
}

/// The note shown with every storage map.
pub open spec fn storage_note() -> Seq<char> {
    "Allocated size reflects blocks currently used by analyzed files. It is not a cleanup recommendation, and APFS snapshots or Trash retention can delay free-space changes."@
}

/// The storage map of a folder from its measured children: the 24 largest
/// (by allocated size, largest first), their totals, and whether anything
/// was cut short (the listing, by `listing_truncated`; the entries dropped
/// past 24; or a measurement).
pub fn storage_report(
    root: &str,
    home: &str,
    entries: Vec<StorageMapEntry>,
    listing_truncated: bool,
    elapsed_ms: u64,
) -> (r: StorageMapReport)
    ensures
        r.root@ == root@,
        r.display_root@ == home_display_path(root@, home@),
        r.entries@.len() == (if entries@.len() > MAP_MAX_RESULTS { MAP_MAX_RESULTS as int } else { entries@.len() as int }),
        forall|a: int, b: int| 0 <= a < b < r.entries@.len() ==> (#[trigger] r.entries@[a]).allocated_size >= (#[trigger] r.entries@[b]).allocated_size,
        forall|i: int| 0 <= i < r.entries@.len() ==> entries@.contains(#[trigger] r.entries@[i]),
        forall|i: int| 0 <= i < entries@.len() && !r.entries@.contains(#[trigger] entries@[i])
            ==> forall|j: int| 0 <= j < r.entries@.len() ==> r.entries@[j].allocated_size >= entries@[i].allocated_size,
        r.logical_size == entries_total(r.entries@, |e: StorageMapEntry| e.logical_size, r.entries@.len() as int),
        r.allocated_size == entries_total(r.entries@, |e: StorageMapEntry| e.allocated_size, r.entries@.len() as int),
        r.files_scanned == entries_total(r.entries@, |e: StorageMapEntry| e.files_scanned, r.entries@.len() as int),
        r.directories_scanned == entries_total(r.entries@, |e: StorageMapEntry| e.directories_scanned, r.entries@.len() as int),
        r.permission_denied_count == entries_total(r.entries@, |e: StorageMapEntry| e.permission_denied_count, r.entries@.len() as int),
        r.truncated == (listing_truncated || entries@.len() > MAP_MAX_RESULTS || some_truncated(r.entries@)),
        r.elapsed_ms == elapsed_ms,
        r.note@ == storage_note(),
{
    let count = entries.len();
    let ghost all = entries@;
    let mut sorted = merge_sort(entries);
    proof {
        assert(views_of(sorted@) =~= sorted@);
        assert(views_of(all) =~= all);
        assert forall|i: int| 0 <= i < sorted@.len() implies all.contains(#[trigger] sorted@[i]) by {
            vstd::seq_lib::to_multiset_contains(sorted@, sorted@[i]);
            vstd::seq_lib::to_multiset_contains(all, sorted@[i]);
            assert(sorted@.contains(sorted@[i]));
        }
        assert forall|i: int| 0 <= i < all.len() implies sorted@.contains(#[trigger] all[i]) by {
            vstd::seq_lib::to_multiset_contains(sorted@, all[i]);
            vstd::seq_lib::to_multiset_contains(all, all[i]);
            assert(all.contains(all[i]));
        }
        vstd::seq_lib::to_multiset_len(sorted@);
        vstd::seq_lib::to_multiset_len(all);
    }
    let ghost full = sorted@;
    let mut truncated = listing_truncated;
    if sorted.len() > MAP_MAX_RESULTS {
        sorted.truncate(MAP_MAX_RESULTS);
        truncated = true;
    }
    proof {
        assert forall|i: int| 0 <= i < all.len() && !sorted@.contains(#[trigger] all[i])
            implies forall|j: int| 0 <= j < sorted@.len() ==> sorted@[j].allocated_size >= all[i].allocated_size by {
            let k = choose|k: int| 0 <= k < full.len() && full[k] == all[i];
            if k < sorted@.len() {
                assert(sorted@[k] == full[k]);
            }
            assert forall|j: int| 0 <= j < sorted@.len() implies sorted@[j].allocated_size >= all[i].allocated_size by {
                assert(sorted@[j] == full[j]);
                assert(k >= sorted@.len());
                assert(!(full[k].allocated_size > full[j].allocated_size));
            }
        }
        assert forall|a: int, b: int| 0 <= a < b < sorted@.len() implies (#[trigger] sorted@[a]).allocated_size >= (#[trigger] sorted@[b]).allocated_size by {
            assert(sorted@[a] == full[a] && sorted@[b] == full[b]);
        }
        assert forall|i: int| 0 <= i < sorted@.len() implies all.contains(#[trigger] sorted@[i]) by {
            assert(sorted@[i] == full[i]);
        }
    }
    let mut logical: u64 = 0;
    let mut allocated: u64 = 0;
    let mut files: u64 = 0;
    let mut directories: u64 = 0;
    let mut denied: u64 = 0;
    let mut any_truncated = false;
    let mut i: usize = 0;
    while i < sorted.len()
        invariant
            0 <= i <= sorted@.len(),
            logical == entries_total(sorted@, |e: StorageMapEntry| e.logical_size, i as int),
            allocated == entries_total(sorted@, |e: StorageMapEntry| e.allocated_size, i as int),
            files == entries_total(sorted@, |e: StorageMapEntry| e.files_scanned, i as int),
            directories == entries_total(sorted@, |e: StorageMapEntry| e.directories_scanned, i as int),
            denied == entries_total(sorted@, |e: StorageMapEntry| e.permission_denied_count, i as int),
            any_truncated == (exists|k: int| 0 <= k < i && (#[trigger] sorted@[k]).truncated),
        decreases sorted@.len() - i,
    {
        let e = &sorted[i];
        logical = saturating_add_u64(logical, e.logical_size);
        allocated = saturating_add_u64(allocated, e.allocated_size);
        files = saturating_add_u64(files, e.files_scanned);
        directories = saturating_add_u64(directories, e.directories_scanned);
        denied = saturating_add_u64(denied, e.permission_denied_count);
        if e.truncated {
            any_truncated = true;
        }
        i = i + 1;
    }
    StorageMapReport {
        root: String::from_str(root),
        display_root: home_display_path_exec(root, home),
        entries: sorted,
        logical_size: logical,
        allocated_size: allocated,
        files_scanned: files,
        directories_scanned: directories,
        permission_denied_count: denied,
        truncated: truncated || any_truncated,
        elapsed_ms,
        note: String::from_str("Allocated size reflects blocks currently used by analyzed files. It is not a cleanup recommendation, and APFS snapshots or Trash retention can delay free-space changes."),
    }
}

/// The places the permission report checks: label, path and whether macOS
/// restricts it.
pub open spec fn permission_checks_spec(home: Seq<char>) -> Seq<(Seq<char>, Seq<char>, bool)> {
    seq![
        ("Home folder"@, home, false),
        ("Application Support"@, join(home, "Library/Application Support"@, PathStyle::Posix), false),
        ("App Containers"@, join(home, "Library/Containers"@, PathStyle::Posix), true),
        ("Shared Group Containers"@, join(home, "Library/Group Containers"@, PathStyle::Posix), true),
    ]
}

pub fn permission_checks(home: &str) -> (r: Vec<(String, String, bool)>)
    ensures
        r@.map_values(|c: (String, String, bool)| (c.0@, c.1@, c.2)) == permission_checks_spec(home@),
{
    let mut r: Vec<(String, String, bool)> = Vec::new();
    r.push((String::from_str("Home folder"), String::from_str(home), false));
    r.push((String::from_str("Application Support"), join_exec(home, "Library/Application Support", PathStyle::Posix), false));
    r.push((String::from_str("App Containers"), join_exec(home, "Library/Containers", PathStyle::Posix), true));
    r.push((String::from_str("Shared Group Containers"), join_exec(home, "Library/Group Containers", PathStyle::Posix), true));
    assert(r@.map_values(|c: (String, String, bool)| (c.0@, c.1@, c.2)) =~= permission_checks_spec(home@));
    r
}

/// How a place reads, and what the user is told about it.
pub open spec fn access_of(read: Result<(), FsErrorKind>, restricted: bool) -> (PermissionAccess, Seq<char>) {
    match read {
        Ok(()) => (PermissionAccess::Available, if restricted {
            "Readable now. macOS can still require approval for individual protected items."@
        } else {
            "Readable now."@
        }),
        Err(FsErrorKind::NotFound) => (PermissionAccess::NotPresent, "This location is not present on this Mac."@),
        Err(FsErrorKind::PermissionDenied) => (PermissionAccess::Limited,
            "Access is limited. Grant DiskSage Full Disk Access in System Settings > Privacy & Security, then check again."@),
        Err(FsErrorKind::Other) => (PermissionAccess::Limited,
            "This location could not be read. Check macOS privacy permissions and try again."@),
    }
}

/// One checked place: `read` is how listing it went.
pub fn permission_location(label: &str, path: &str, home: &str, restricted: bool, read: Result<(), FsErrorKind>) -> (l: PermissionLocation)
    ensures
        l.label@ == label@,
        l.display_path@ == home_display_path(path@, home@),
        (l.access, l.guidance@) == access_of(read, restricted),
{
    let (access, guidance) = match read {
        Ok(()) => (PermissionAccess::Available, if restricted {
            "Readable now. macOS can still require approval for individual protected items."
        } else {
            "Readable now."
        }),
        Err(FsErrorKind::NotFound) => (PermissionAccess::NotPresent, "This location is not present on this Mac."),
        Err(FsErrorKind::PermissionDenied) => (PermissionAccess::Limited,
            "Access is limited. Grant DiskSage Full Disk Access in System Settings > Privacy & Security, then check again."),
        Err(FsErrorKind::Other) => (PermissionAccess::Limited,
            "This location could not be read. Check macOS privacy permissions and try again."),
    };
    PermissionLocation {
        label: String::from_str(label),
        display_path: home_display_path_exec(path, home),
        access,
        guidance: String::from_str(guidance),
    }
}

/// Full Disk Access is likely granted when no container place is limited.
pub open spec fn full_disk_access_likely(l: Seq<PermissionLocation>) -> bool {
    forall|i: int| 0 <= i < l.len() && crate::text::has_infix((#[trigger] l[i]).label@, "Container"@)
        ==> l[i].access != PermissionAccess::Limited
}

/// The note shown with every permission report.
pub open spec fn permission_note() -> Seq<char> {
    "This is a read-only access check, not a macOS authorization guarantee. DiskSage never changes privacy settings automatically."@
}

/// The permission report on macOS from how listing each checked place went
/// (in the order of `permission_checks`), made at `checked_at`.
pub fn permission_report(home: &str, platform: &str, reads: Vec<Result<(), FsErrorKind>>, checked_at: i64)
    -> (r: Result<PermissionReport, CommandError>)
    requires
        reads@.len() == 4,
    ensures
        platform@ != "macos"@ ==> (r matches Err(e) && e.code == ErrorCode::CommandUnavailable
            && e.message@ == "Permission Center is currently available on macOS."@ && e.recoverable),
        platform@ == "macos"@ ==> (r matches Ok(p) && p.checked_at == checked_at && p.locations@.len() == 4
            && (forall|i: int| 0 <= i < 4 ==> {
                let l = #[trigger] p.locations@[i];
                let c = permission_checks_spec(home@)[i];
                &&& l.label@ == c.0
                &&& l.display_path@ == home_display_path(c.1, home@)
                &&& (l.access, l.guidance@) == access_of(reads@[i], c.2)
            })
            && p.full_disk_access_likely == full_disk_access_likely(p.locations@)
            && p.note@ == permission_note()),
{
    if !same_text(platform, "macos") {
        return Err(CommandError::new(ErrorCode::CommandUnavailable, "Permission Center is currently available on macOS.", true));
    }
    let checks = permission_checks(home);
    assert(checks@.len() == 4) by {
        assert(checks@.map_values(|c: (String, String, bool)| (c.0@, c.1@, c.2)).len() == permission_checks_spec(home@).len());
    }
    let mut locations: Vec<PermissionLocation> = Vec::new();
    let mut i: usize = 0;
    while i < 4
        invariant
            0 <= i <= 4,
            reads@.len() == 4,
            checks@.len() == 4,
            checks@.map_values(|c: (String, String, bool)| (c.0@, c.1@, c.2)) == permission_checks_spec(home@),
            locations@.len() == i,
            forall|k: int| 0 <= k < i ==> {
                let l = #[trigger] locations@[k];
                let c = permission_checks_spec(home@)[k];
                &&& l.label@ == c.0
                &&& l.display_path@ == home_display_path(c.1, home@)
                &&& (l.access, l.guidance@) == access_of(reads@[k], c.2)
            },
        decreases 4 - i,
    {
        let c = &checks[i];
        assert((c.0@, c.1@, c.2) == permission_checks_spec(home@)[i as int]);
        locations.push(permission_location(c.0.as_str(), c.1.as_str(), home, c.2, reads[i]));
        i = i + 1;
    }
    let mut likely = true;
    let mut k: usize = 0;
    while k < locations.len()
        invariant
            0 <= k <= locations@.len(),
            likely == (forall|j: int| 0 <= j < k && crate::text::has_infix((#[trigger] locations@[j]).label@, "Container"@)
                ==> locations@[j].access != PermissionAccess::Limited),
        decreases locations@.len() - k,
    {
        if crate::text::contains_text(locations[k].label.as_str(), "Container") && locations[k].access == PermissionAccess::Limited {
            likely = false;
        }
        k = k + 1;
    }
    Ok(PermissionReport {
        checked_at,
        full_disk_access_likely: likely,
        locations,
        note: String::from_str("This is a read-only access check, not a macOS authorization guarantee. DiskSage never changes privacy settings automatically."),
    })
}

/// The settings pane can be opened only on macOS.
pub fn check_settings_platform(platform: &str) -> (r: Result<(), CommandError>)
    ensures
        platform@ == "macos"@ <==> r is Ok,
        r matches Err(e) ==> e.code == ErrorCode::CommandUnavailable
            && e.message@ == "Full Disk Access settings are available only on macOS."@ && !e.recoverable,
{
    if !same_text(platform, "macos") {
        return Err(CommandError::new(ErrorCode::CommandUnavailable, "Full Disk Access settings are available only on macOS.", false));
    }
    Ok(())
}

/// The error when System Settings reported a failure.
pub fn settings_not_opened() -> (e: CommandError)
    ensures
        e.code == ErrorCode::CommandUnavailable,
        e.message@ == "System Settings could not be opened. Open Privacy & Security > Full Disk Access manually."@,
        e.recoverable,
{
    CommandError::new(
        ErrorCode::CommandUnavailable,
        "System Settings could not be opened. Open Privacy & Security > Full Disk Access manually.",
        true,
    )
}
/// The orphan scan looks in exactly five places under the home folder, each
/// with its category and the kind of identifier its entries carry: caches,
/// containers, shared group containers, preferences and saved application
/// states.
pub proof fn law_orphan_scan_places(home: Seq<char>, roots: Seq<(Seq<char>, Seq<char>, Seq<char>)>)
    requires
        roots == orphan_roots_spec(home),
    ensures
        roots.len() == 5,
        roots.contains((join(home, "Library/Caches"@, PathStyle::Posix), "Cache"@, "directory name"@)),
        roots.contains((join(home, "Library/Containers"@, PathStyle::Posix), "Container"@, "container identifier"@)),
        roots.contains((join(home, "Library/Group Containers"@, PathStyle::Posix), "Shared Group Container"@, "shared container identifier"@)),
        roots.contains((join(home, "Library/Preferences"@, PathStyle::Posix), "Preference"@, "preference identifier"@)),
        roots.contains((join(home, "Library/Saved Application State"@, PathStyle::Posix), "Saved Application State"@, "saved-state identifier"@)),
{
    assert(roots[0] == (join(home, "Library/Caches"@, PathStyle::Posix), "Cache"@, "directory name"@));
    assert(roots[1] == (join(home, "Library/Containers"@, PathStyle::Posix), "Container"@, "container identifier"@));
    assert(roots[2] == (join(home, "Library/Group Containers"@, PathStyle::Posix), "Shared Group Container"@, "shared container identifier"@));
    assert(roots[3] == (join(home, "Library/Preferences"@, PathStyle::Posix), "Preference"@, "preference identifier"@));
    assert(roots[4] == (join(home, "Library/Saved Application State"@, PathStyle::Posix), "Saved Application State"@, "saved-state identifier"@));
}

} // verus!
