//! What decides which application bundles are listed, which may be moved,
//! and when one counts as running.
use vstd::prelude::*;
use crate::domain::application::{ApplicationScope, InstalledApplication};
use crate::domain::error::{CommandError, ErrorCode};
use crate::duplicates::hashing::{blake3_hex, ContentHasher};
use crate::paths::{components, join, join_exec, path_starts_with, path_starts_with_exec, Comp, PathStyle};
use crate::paths::{comp_views, components_exec, Component};
use crate::text::{chars_of, occurs_at, slices_equal, string_of};
use vstd::string::StringSliceAdditionalSpecFns;

verus! {

/// The bundle identifier of this application.
pub open spec fn own_bundle_id() -> Seq<char> {
    "com.disksage.desktop"@
}

pub fn own_bundle_id_exec() -> (r: &'static str)
    ensures
        r@ == own_bundle_id(),
{
    "com.disksage.desktop"
}

/// The folders searched for application bundles: the user's and the shared
/// Applications folders, and, only when asked, the two system folders.
pub open spec fn application_roots_spec(home: Seq<char>, include_system_apps: bool) -> Seq<(Seq<char>, ApplicationScope)> {
    let base = seq![
        (join(home, "Applications"@, PathStyle::Posix), ApplicationScope::User),
        ("/Applications"@, ApplicationScope::Shared),
    ];
    if include_system_apps {
        base + seq![
            ("/System/Applications"@, ApplicationScope::System),
            ("/System/Library/CoreServices/Applications"@, ApplicationScope::System),
        ]
    } else {
        base
    }
}

pub open spec fn root_views(v: Seq<(String, ApplicationScope)>) -> Seq<(Seq<char>, ApplicationScope)> {
    v.map_values(|r: (String, ApplicationScope)| (r.0@, r.1))
}

pub fn application_roots(home: &str, include_system_apps: bool) -> (r: Vec<(String, ApplicationScope)>)
    ensures
        root_views(r@) == application_roots_spec(home@, include_system_apps),
{
    let mut roots: Vec<(String, ApplicationScope)> = Vec::new();
    roots.push((join_exec(home, "Applications", PathStyle::Posix), ApplicationScope::User));
    roots.push((String::from_str("/Applications"), ApplicationScope::Shared));
    if include_system_apps {
        roots.push((String::from_str("/System/Applications"), ApplicationScope::System));
        roots.push((String::from_str("/System/Library/CoreServices/Applications"), ApplicationScope::System));
    }
    assert(root_views(roots@) =~= application_roots_spec(home@, include_system_apps));
    roots
}

/// A name that can stand as one path component under a known folder: not
/// empty, not `.` or `..`, and one component long.
pub open spec fn valid_path_component_spec(value: Seq<char>) -> bool {
    value.len() > 0 && value != "."@ && value != ".."@ && components(value, PathStyle::Posix).len() == 1
}

pub fn valid_path_component(value: &str) -> (r: bool)
    ensures
        r == valid_path_component_spec(value@),
{
    let chars = chars_of(value);
    if chars.len() == 0 || slices_equal(chars.as_slice(), chars_of(".").as_slice())
        || slices_equal(chars.as_slice(), chars_of("..").as_slice()) {
        return false;
    }
    let c = components_exec(chars.as_slice(), PathStyle::Posix);
    assert(comp_views(c@).len() == c@.len());
    c.len() == 1
}

/// The characters `char::is_whitespace` accepts: Unicode White_Space.
pub open spec fn is_white(c: char) -> bool {
    let u = c as u32;
    (0x9 <= u && u <= 0xd) || u == 0x20 || u == 0x85 || u == 0xa0 || u == 0x1680 || (0x2000 <= u && u <= 0x200a)
        || u == 0x2028 || u == 0x2029 || u == 0x202f || u == 0x205f || u == 0x3000
}

fn is_white_exec(c: char) -> (r: bool)
    ensures
        r == is_white(c),
{
    let u = c as u32;
    (0x9 <= u && u <= 0xd) || u == 0x20 || u == 0x85 || u == 0xa0 || u == 0x1680 || (0x2000 <= u && u <= 0x200a)
        || u == 0x2028 || u == 0x2029 || u == 0x202f || u == 0x205f || u == 0x3000
}

/// Where the line starting at `i` begins once leading whitespace is removed.
pub open spec fn trim_point(s: Seq<char>, i: int) -> int
    decreases s.len() - i,
{
    if 0 <= i < s.len() && s[i] != '\n' && is_white(s[i]) { trim_point(s, i + 1) } else { i }
}

/// A line of `s` starts at `i`.
pub open spec fn line_start(s: Seq<char>, i: int) -> bool {
    0 <= i <= s.len() && (i == 0 || s[i - 1] == '\n')
}

/// The prefix that the command line of a process run from a bundle starts with.
pub open spec fn executable_prefix(bundle: Seq<char>) -> Seq<char> {
    bundle + "/Contents/MacOS/"@
}

/// Some line of a process list, with leading whitespace removed, starts with
/// the bundle's executable folder.
pub open spec fn lists_bundle(process_list: Seq<char>, bundle: Seq<char>) -> bool {
    let prefix = executable_prefix(bundle);
    &&& !prefix.contains('\n')
    &&& exists|i: int| #[trigger] line_start(process_list, i) && occurs_at(process_list, prefix, trim_point(process_list, i))
}

fn occurs_at_exec(s: &Vec<char>, needle: &Vec<char>, at: usize) -> (r: bool)
    requires
        at <= s@.len(),
    ensures
        r == occurs_at(s@, needle@, at as int),
{
    crate::text::occurs_at_exec(s.as_slice(), needle.as_slice(), at)
}

proof fn lemma_trim_point_bounds(s: Seq<char>, i: int)
    requires
        0 <= i <= s.len(),
    ensures
        i <= trim_point(s, i) <= s.len(),
    decreases s.len() - i,
{
    if i < s.len() && s[i] != '\n' && is_white(s[i]) {
        lemma_trim_point_bounds(s, i + 1);
    }
}

fn line_matches(s: &Vec<char>, prefix: &Vec<char>, i: usize) -> (r: bool)
    requires
        i <= s@.len(),
    ensures
        r == occurs_at(s@, prefix@, trim_point(s@, i as int)),
{
    let mut p: usize = i;
    while p < s.len() && s[p] != '\n' && is_white_exec(s[p])
        invariant
            i <= p <= s@.len(),
            trim_point(s@, p as int) == trim_point(s@, i as int),
        decreases s@.len() - p,
    {
        p = p + 1;
    }
    assert(trim_point(s@, p as int) == p as int);
    occurs_at_exec(s, prefix, p)
}

/// Whether a process list (one command line per line) shows a process run
/// from the bundle (see `lists_bundle`).
pub fn process_list_contains_bundle(process_list: &str, bundle_path: &str) -> (r: bool)
    ensures
        r == lists_bundle(process_list@, bundle_path@),
{
    let s = chars_of(process_list);
    let mut prefix = chars_of(bundle_path);
    let tail = chars_of("/Contents/MacOS/");
    let mut t: usize = 0;
    let ghost b = prefix@;
    while t < tail.len()
        invariant
            0 <= t <= tail@.len(),
            prefix@ == b + tail@.take(t as int),
        decreases tail@.len() - t,
    {
        prefix.push(tail[t]);
        assert(tail@.take(t + 1) =~= tail@.take(t as int).push(tail@[t as int]));
        t = t + 1;
    }
    assert(tail@.take(tail@.len() as int) =~= tail@);
    assert(prefix@ == executable_prefix(bundle_path@));
    let mut k: usize = 0;
    while k < prefix.len()
        invariant
            0 <= k <= prefix@.len(),
            prefix@ == executable_prefix(bundle_path@),
            forall|j: int| 0 <= j < k ==> prefix@[j] != '\n',
        decreases prefix@.len() - k,
    {
        if prefix[k] == '\n' {
            assert(prefix@[k as int] == '\n');
            assert(prefix@.contains('\n'));
            return false;
        }
        k = k + 1;
    }
    assert(!prefix@.contains('\n'));
    if line_matches(&s, &prefix, 0) {
        assert(line_start(s@, 0));
        return true;
    }
    let mut q: usize = 0;
    while q < s.len()
        invariant
            q <= s@.len(),
            s@ == process_list@,
            prefix@ == executable_prefix(bundle_path@),
            !prefix@.contains('\n'),
            !occurs_at(s@, prefix@, trim_point(s@, 0)),
            forall|j: int| 1 <= j <= q ==> !(#[trigger] line_start(s@, j) && occurs_at(s@, prefix@, trim_point(s@, j))),
        decreases s@.len() - q,
    {
        if s[q] == '\n' {
            if line_matches(&s, &prefix, q + 1) {
                assert(line_start(s@, q + 1));
                return true;
            }
        }
        q = q + 1;
    }
    assert forall|j: int| #[trigger] line_start(s@, j) implies !occurs_at(s@, prefix@, trim_point(s@, j)) by {
        assert(0 <= j <= s@.len());
        if j > 0 {
            assert(1 <= j <= q);
        }
    }
    false
}

/// A bundle that may be moved: under `/Applications`, or with an
/// `Applications` component anywhere, and not under `/System`.
pub open spec fn allowed_application_path(path: Seq<char>) -> bool {
    let in_system = path_starts_with(path, "/System"@, PathStyle::Posix);
    (path_starts_with(path, "/Applications"@, PathStyle::Posix) && !in_system)
        || ((exists|i: int| 0 <= i < components(path, PathStyle::Posix).len()
            && #[trigger] components(path, PathStyle::Posix)[i] == Comp::Normal("Applications"@)) && !in_system)
}

pub fn is_allowed_application_path(path: &str) -> (r: bool)
    ensures
        r == allowed_application_path(path@),
{
    let in_system = path_starts_with_exec(path, "/System", PathStyle::Posix);
    if path_starts_with_exec(path, "/Applications", PathStyle::Posix) && !in_system {
        return true;
    }
    let c = components_exec(chars_of(path).as_slice(), PathStyle::Posix);
    let name = chars_of("Applications");
    let mut i: usize = 0;
    assert(comp_views(c@) == components(path@, PathStyle::Posix));
    while i < c.len()
        invariant
            0 <= i <= c@.len(),
            comp_views(c@) == components(path@, PathStyle::Posix),
            in_system == path_starts_with(path@, "/System"@, PathStyle::Posix),
            name@ == "Applications"@,
            forall|j: int| 0 <= j < i ==> comp_views(c@)[j] != Comp::Normal("Applications"@),
        decreases c@.len() - i,
    {
        let hit = match &c[i] {
            Component::Normal(n) => slices_equal(n.as_slice(), name.as_slice()),
            _ => false,
        };
        assert(comp_views(c@)[i as int] == c@[i as int]@);
        if hit {
            assert(components(path@, PathStyle::Posix)[i as int] == Comp::Normal("Applications"@));
            return !in_system;
        }
        i = i + 1;
    }
    false
}

/// The message for an application that is still running.
pub open spec fn running_message(name: Seq<char>) -> Seq<char> {
    name + " is currently running. Quit it completely, then review the uninstall again."@
}

/// The error for an application that must be quit first; `running` is
/// whether a process runs from its bundle.
pub fn ensure_application_not_running(application: &InstalledApplication, running: bool) -> (r: Result<(), CommandError>)
    ensures
        !running <==> r is Ok,
        r matches Err(e) ==> e.code == ErrorCode::ApplicationRunning && e.message@ == running_message(application.name@)
            && e.recoverable && (e.path matches Some(p) && p@ == application.display_path@) && e.details is None,
{
    if !running {
        return Ok(());
    }
    let mut chars = chars_of(application.name.as_str());
    let tail = chars_of(" is currently running. Quit it completely, then review the uninstall again.");
    let mut t: usize = 0;
    let ghost n = chars@;
    while t < tail.len()
        invariant
            0 <= t <= tail@.len(),
            chars@ == n + tail@.take(t as int),
        decreases tail@.len() - t,
    {
        chars.push(tail[t]);
        assert(tail@.take(t + 1) =~= tail@.take(t as int).push(tail@[t as int]));
        t = t + 1;
    }
    assert(tail@.take(tail@.len() as int) =~= tail@);
    let message = string_of(chars.as_slice());
    Err(CommandError::new(ErrorCode::ApplicationRunning, message.as_str(), true).with_path(application.display_path.as_str()))
}

/// The identifier given to a path: the BLAKE3 digest of its UTF-8 bytes.
pub open spec fn content_id(path: Seq<char>) -> Seq<char> {
    blake3_hex(vstd::utf8::encode_utf8(path))
}

pub fn content_id_exec(path: &str) -> (r: String)
    ensures
        r@ == content_id(path@),
{
    let mut h = ContentHasher::new();
    h.update(path.as_bytes());
    assert(Seq::<u8>::empty() + path.spec_bytes() =~= path.spec_bytes());
    let (hex, _) = h.finish();
    hex
}

/// The first position at or after `i` that does not hold whitespace.
pub open spec fn first_non_white(s: Seq<char>, i: int) -> int
    decreases s.len() - i,
{
    if 0 <= i < s.len() && is_white(s[i]) { first_non_white(s, i + 1) } else { i }
}

/// The end of `s` once trailing whitespace before `j` is removed.
pub open spec fn end_non_white(s: Seq<char>, j: int) -> int
    decreases j,
{
    if 0 < j <= s.len() && is_white(s[j - 1]) { end_non_white(s, j - 1) } else { j }
}

/// `s` without leading and trailing whitespace, as `str::trim` gives it.
pub open spec fn trimmed(s: Seq<char>) -> Seq<char> {
    let a = first_non_white(s, 0);
    if a >= s.len() { Seq::empty() } else { s.subrange(a, end_non_white(s, s.len() as int)) }
}

/// The first position of `c` in `s` at or after `i`, or the length of `s`.
pub open spec fn first_of(s: Seq<char>, c: char, i: int) -> int
    decreases s.len() - i,
{
    if 0 <= i < s.len() && s[i] != c { first_of(s, c, i + 1) } else { i }
}

/// The text before the first `c` in `s` (all of it when there is none).
pub open spec fn before_first(s: Seq<char>, c: char) -> Seq<char> {
    s.subrange(0, first_of(s, c, 0))
}

/// The path a registry value names: a quoted path up to its closing quote,
/// or else the text before the first comma (an icon index follows it), with
/// the surrounding whitespace removed.
pub open spec fn registry_path_text(value: Seq<char>) -> Seq<char> {
    let v = trimmed(value);
    trimmed(if v.len() > 0 && v[0] == '"' { before_first(v.drop_first(), '"') } else { before_first(v, ',') })
}

proof fn lemma_end_non_white_bounds(s: Seq<char>, j: int, floor: int)
    requires
        0 <= floor < j <= s.len(),
        !is_white(s[floor]),
    ensures
        floor < end_non_white(s, j) <= j,
    decreases j,
{
    if is_white(s[j - 1]) {
        lemma_end_non_white_bounds(s, j - 1, floor);
    }
}

proof fn lemma_end_non_white_le(s: Seq<char>, j: int)
    requires
        0 <= j <= s.len(),
    ensures
        end_non_white(s, j) <= j,
    decreases j,
{
    if 0 < j && is_white(s[j - 1]) {
        lemma_end_non_white_le(s, j - 1);
    }
}

pub fn trim_chars(s: &[char]) -> (r: Vec<char>)
    ensures
        r@ == trimmed(s@),
{
    let mut a: usize = 0;
    while a < s.len() && is_white_exec(s[a])
        invariant
            a <= s@.len(),
            first_non_white(s@, a as int) == first_non_white(s@, 0),
        decreases s@.len() - a,
    {
        a = a + 1;
    }
    if a >= s.len() {
        return Vec::new();
    }
    let mut b: usize = s.len();
    proof {
        lemma_end_non_white_bounds(s@, s@.len() as int, a as int);
    }
    while b > a && is_white_exec(s[b - 1])
        invariant
            a < s@.len(),
            !is_white(s@[a as int]),
            a < end_non_white(s@, s@.len() as int) <= b <= s@.len(),
            end_non_white(s@, b as int) == end_non_white(s@, s@.len() as int),
        decreases b,
    {
        proof {
            lemma_end_non_white_le(s@, (b - 1) as int);
        }
        b = b - 1;
    }
    crate::paths::slice_range(s, a, b)
}

fn before_first_chars(s: &[char], c: char) -> (r: Vec<char>)
    ensures
        r@ == before_first(s@, c),
{
    let mut i: usize = 0;
    while i < s.len() && s[i] != c
        invariant
            i <= s@.len(),
            first_of(s@, c, i as int) == first_of(s@, c, 0),
        decreases s@.len() - i,
    {
        i = i + 1;
    }
    crate::paths::slice_range(s, 0, i)
}

/// The path named by an installed program's registry value, if it names one.
pub fn windows_registry_path(value: &str) -> (r: Option<String>)
    ensures
        registry_path_text(value@).len() == 0 ==> r is None,
        registry_path_text(value@).len() > 0 ==> (r matches Some(p) && p@ == registry_path_text(value@)),
{
    let v = trim_chars(chars_of(value).as_slice());
    let part = if v.len() > 0 && v[0] == '"' {
        let rest = crate::paths::slice_range(v.as_slice(), 1, v.len());
        assert(rest@ =~= v@.drop_first());
        before_first_chars(rest.as_slice(), '"')
    } else {
        before_first_chars(v.as_slice(), ',')
    };
    let candidate = trim_chars(part.as_slice());
    if candidate.len() == 0 {
        None
    } else {
        Some(crate::text::string_of(candidate.as_slice()))
    }
}

/// The instant, in milliseconds since the Unix epoch, that chrono's
/// `DateTime::parse_from_str` reads from `text` in the format
/// `%Y-%m-%d %H:%M:%S %z` of Spotlight dates, if it reads one.
pub uninterp spec fn spotlight_date_millis(text: Seq<char>) -> Option<i64>;

/// Calls `chrono::DateTime::parse_from_str(text, "%Y-%m-%d %H:%M:%S %z")`
/// and takes the parsed instant's `timestamp_millis`. Claimed: the result is
/// that function of `text` alone (parsing reads no clock, zone database or
/// locale), named `spotlight_date_millis`.
#[verifier::external_body]
fn parse_spotlight_date(text: &str) -> (r: Option<i64>)
    ensures
        r == spotlight_date_millis(text@),
{
    chrono::DateTime::parse_from_str(text, "%Y-%m-%d %H:%M:%S %z").ok().map(|date| date.timestamp_millis())
}

/// The last-used time that `mdls -raw -name kMDItemLastUsedDate` printed:
/// none for `(null)`, else the date read from the trimmed output.
pub fn last_used_from_spotlight(output: &str) -> (r: Option<i64>)
    ensures
        trimmed(output@) == "(null)"@ ==> r is None,
        trimmed(output@) != "(null)"@ ==> r == spotlight_date_millis(trimmed(output@)),
{
    let value = trim_chars(chars_of(output).as_slice());
    if slices_equal(value.as_slice(), chars_of("(null)").as_slice()) {
        return None;
    }
    parse_spotlight_date(string_of(value.as_slice()).as_str())
}

/// Application inventory runs on macOS and Windows only.
pub fn check_inventory_platform(platform: &str) -> (r: Result<(), CommandError>)
    ensures
        (platform@ == "macos"@ || platform@ == "windows"@) <==> r is Ok,
        r matches Err(e) ==> e.code == ErrorCode::CommandUnavailable
            && e.message@ == "Application inventory is currently available on macOS and Windows."@ && e.recoverable,
{
    if crate::text::same_text(platform, "macos") || crate::text::same_text(platform, "windows") {
        Ok(())
    } else {
        Err(CommandError::new(ErrorCode::CommandUnavailable, "Application inventory is currently available on macOS and Windows.", true))
    }
}

/// The Installed Apps settings page exists on Windows only.
pub fn check_installed_apps_platform(platform: &str) -> (r: Result<(), CommandError>)
    ensures
        platform@ == "windows"@ <==> r is Ok,
        r matches Err(e) ==> e.code == ErrorCode::CommandUnavailable
            && e.message@ == "Installed Apps settings are available only on Windows."@ && !e.recoverable,
{
    if crate::text::same_text(platform, "windows") {
        Ok(())
    } else {
        Err(CommandError::new(ErrorCode::CommandUnavailable, "Installed Apps settings are available only on Windows.", false))
    }
}

/// The error when Windows reported that its settings did not open.
pub fn installed_apps_not_opened() -> (e: CommandError)
    ensures
        e.code == ErrorCode::CommandUnavailable,
        e.message@ == "Windows Installed Apps settings could not be opened."@,
        e.recoverable,
{
    CommandError::new(ErrorCode::CommandUnavailable, "Windows Installed Apps settings could not be opened.", true)
}

} // verus!
