//! The read-only Windows inventory: what the uninstall registry keys list,
//! where each program lives, and one listing per program. Reading the
//! registry is the caller's part.
use vstd::prelude::*;
use crate::applications::bundles::{content_id, content_id_exec, registry_path_text, trimmed, trim_chars, windows_registry_path};
use crate::applications::coordinator::{to_lowercase, unicode_lower};
use crate::applications::inventory::{identity_of, path_error, inspection_error, FileIdentity, InventoryEntry, PathStat};
use crate::domain::application::{ApplicationScope, InstalledApplication};
use crate::domain::error::{CommandError, ErrorCode};
use crate::paths::{display_path, display_path_exec};
use crate::scanner::walker::FsError;
use crate::text::{chars_of, same_text, string_of};

verus! {

/// What one uninstall registry key reports, each value when it could be
/// read with its registry type.
#[derive(Debug)]
pub struct RegistryApp {
    pub key_name: String,
    pub display_name: Option<String>,
    pub system_component: Option<u32>,
    pub install_location: Option<String>,
    pub display_icon: Option<String>,
    pub estimated_size: Option<u32>,
    pub display_version: Option<String>,
}

pub open spec fn opt_text(o: Option<String>) -> Option<Seq<char>> {
    match o {
        Some(s) => Some(s@),
        None => None,
    }
}

/// The key marks a system component.
pub open spec fn is_system_component(app: RegistryApp) -> bool {
    app.system_component matches Some(v) && v != 0
}

/// The key is listed: it names the program, and it is not a system
/// component unless system applications are wanted.
pub open spec fn registry_listed(app: RegistryApp, include_system_apps: bool) -> bool {
    &&& app.display_name matches Some(n) && trimmed(n@).len() > 0
    &&& (!is_system_component(app) || include_system_apps)
}

/// The path a registry value names, if it names one.
pub open spec fn named_path(value: Option<String>) -> Option<Seq<char>> {
    match value {
        Some(v) => if registry_path_text(v@).len() > 0 { Some(registry_path_text(v@)) } else { None },
        None => None,
    }
}

fn named_path_exec(value: &Option<String>) -> (r: Option<String>)
    ensures
        opt_text(r) == named_path(*value),
{
    match value {
        Some(v) => windows_registry_path(v.as_str()),
        None => None,
    }
}

/// For a listed key, the paths its install location and its display icon
/// name; nothing for a key that is not listed.
pub fn registry_paths(app: &RegistryApp, include_system_apps: bool) -> (r: Option<(Option<String>, Option<String>)>)
    ensures
        registry_listed(*app, include_system_apps) <==> r is Some,
        r matches Some(p) ==> opt_text(p.0) == named_path(app.install_location) && opt_text(p.1) == named_path(app.display_icon),
{
    let name = match &app.display_name {
        Some(n) => n,
        None => return None,
    };
    if trim_chars(chars_of(name.as_str()).as_slice()).len() == 0 {
        return None;
    }
    let system = match app.system_component {
        Some(v) => v != 0,
        None => false,
    };
    if system && !include_system_apps {
        return None;
    }
    Some((named_path_exec(&app.install_location), named_path_exec(&app.display_icon)))
}

/// The program's path: the install location when it exists, else the
/// display icon's path when that exists.
pub fn chosen_registry_path(paths: (Option<String>, Option<String>), location_exists: bool, icon_exists: bool) -> (r: Option<String>)
    ensures
        r == (if paths.0 is Some && location_exists { paths.0 } else if paths.1 is Some && icon_exists { paths.1 } else { None }),
{
    let (location, icon) = paths;
    if location.is_some() && location_exists {
        location
    } else if icon.is_some() && icon_exists {
        icon
    } else {
        None
    }
}

/// What the file system says about an installed program's path: whether it
/// is a link or reparse point, whether it is a file, its metadata, and the
/// path with every link resolved.
#[derive(Debug)]
pub struct WindowsPathFacts {
    pub stat: Result<(bool, bool, PathStat), FsError>,
    pub canonical: Result<String, FsError>,
}

/// The identity of an installed program's path: a file or folder that is
/// not redirected, where it resolves.
pub fn windows_identity(path: &str, facts: &WindowsPathFacts) -> (r: Result<FileIdentity, CommandError>)
    ensures
        match facts.stat {
            Err(fe) => r matches Err(e) && inspection_error(e, path@, fe),
            Ok((redirected, is_file, s)) => if redirected || (!is_file && !s.is_dir) {
                r matches Err(e) && path_error(e, ErrorCode::InvalidPath,
                    "The installed application path is redirected or unsupported."@, true, path@)
            } else {
                match facts.canonical {
                    Err(fe) => r matches Err(e) && inspection_error(e, path@, fe),
                    Ok(c) => r matches Ok(i) && identity_of(i, c@, s),
                }
            },
        },
{
    let (redirected, is_file, s) = match &facts.stat {
        Err(fe) => return Err(crate::applications::inventory::filesystem_error(path, fe)),
        Ok(t) => t,
    };
    if *redirected || (!*is_file && !s.is_dir) {
        return Err(CommandError::new(
            ErrorCode::InvalidPath,
            "The installed application path is redirected or unsupported.",
            true,
        ).with_path(path));
    }
    let c = match &facts.canonical {
        Err(fe) => return Err(crate::applications::inventory::filesystem_error(path, fe)),
        Ok(c) => c,
    };
    Ok(FileIdentity { canonical_path: c.clone(), is_directory: s.is_dir, modified_at: s.modified_at, device: s.device, inode: s.inode })
}

/// The text whose digest identifies a registry listing.
pub open spec fn registry_id_text(key_name: Seq<char>, name: Seq<char>, path: Seq<char>) -> Seq<char> {
    "windows-registry"@ + seq!['\0'] + key_name + seq!['\0'] + name + seq!['\0'] + path
}

/// The size the key estimates, in bytes (it counts kibibytes).
pub open spec fn estimated_bytes(app: RegistryApp) -> u64 {
    match app.estimated_size {
        Some(k) => (k * 1024) as u64,
        None => 0,
    }
}

/// The reason every registry listing is read-only.
pub open spec fn windows_block_reason() -> Seq<char> {
    "Read-only Windows inventory. Use Settings > Apps > Installed apps to run the publisher-registered uninstaller."@
}

/// The listing of a registry key found at `path`, resolved to `identity`.
pub open spec fn registry_entry_of(
    e: InventoryEntry,
    app: RegistryApp,
    name: Seq<char>,
    path: Seq<char>,
    identity: FileIdentity,
    default_scope: ApplicationScope,
    home: Seq<char>,
) -> bool {
    let a = e.application;
    &&& e.identity == identity
    &&& a.id@ == content_id(registry_id_text(app.key_name@, name, path))
    &&& a.name@ == trimmed(name)
    &&& a.bundle_id is None
    &&& a.version == app.display_version
    &&& a.path@ == identity.canonical_path@
    &&& a.display_path@ == display_path(identity.canonical_path@, home)
    &&& a.logical_size == estimated_bytes(app)
    &&& a.allocated_size == (if estimated_bytes(app) > 0 { Some(estimated_bytes(app)) } else { None })
    &&& a.last_used_at is None
    &&& a.scope == (if is_system_component(app) { ApplicationScope::System } else { default_scope })
    &&& !a.uninstall_allowed
    &&& a.uninstall_block_reason matches Some(r) && r@ == windows_block_reason()
}

/// The read-only listing of a registry key whose program was found at
/// `path` and resolved to `identity`.
pub fn registry_entry(
    app: &RegistryApp,
    path: &str,
    identity: FileIdentity,
    default_scope: ApplicationScope,
    home: &str,
) -> (e: InventoryEntry)
    requires
        app.display_name is Some,
    ensures
        registry_entry_of(e, *app, app.display_name->0@, path@, identity, default_scope, home@),
{
    let name = app.display_name.as_ref().unwrap();
    let mut text: Vec<char> = chars_of("windows-registry");
    text.push('\0');
    append(&mut text, chars_of(app.key_name.as_str()).as_slice());
    text.push('\0');
    append(&mut text, chars_of(name.as_str()).as_slice());
    text.push('\0');
    append(&mut text, chars_of(path).as_slice());
    proof {
        assert(text@ =~= registry_id_text(app.key_name@, name@, path@));
    }
    let id = content_id_exec(string_of(text.as_slice()).as_str());
    let size: u64 = match app.estimated_size {
        Some(k) => (k as u64) * 1024,
        None => 0,
    };
    let system = match app.system_component {
        Some(v) => v != 0,
        None => false,
    };
    let display = display_path_exec(identity.canonical_path.as_str(), home);
    let canonical = identity.canonical_path.clone();
    InventoryEntry {
        application: InstalledApplication {
            id,
            name: string_of(trim_chars(chars_of(name.as_str()).as_slice()).as_slice()),
            bundle_id: None,
            version: match &app.display_version {
                Some(v) => Some(v.clone()),
                None => None,
            },
            path: canonical,
            display_path: display,
            logical_size: size,
            allocated_size: if size > 0 { Some(size) } else { None },
            last_used_at: None,
            scope: if system { ApplicationScope::System } else { default_scope },
            uninstall_allowed: false,
            uninstall_block_reason: Some(String::from_str(
                "Read-only Windows inventory. Use Settings > Apps > Installed apps to run the publisher-registered uninstaller.",
            )),
        },
        identity,
    }
}

fn append(out: &mut Vec<char>, v: &[char])
    ensures
        final(out)@ == old(out)@ + v@,
{
    let mut i: usize = 0;
    while i < v.len()
        invariant
            0 <= i <= v@.len(),
            out@ == old(out)@ + v@.take(i as int),
        decreases v@.len() - i,
    {
        out.push(v[i]);
        assert(v@.take(i + 1) =~= v@.take(i as int).push(v@[i as int]));
        i = i + 1;
    }
    assert(v@.take(v@.len() as int) =~= v@);
}

/// What makes two listings the same program: the lower-cased name and path
/// and the version.
pub open spec fn listing_key(e: InventoryEntry) -> (Seq<char>, Seq<char>, Seq<char>) {
    (unicode_lower(e.application.name@), unicode_lower(e.application.path@), match e.application.version {
        Some(v) => v@,
        None => Seq::empty(),
    })
}

/// The listing at `i` is the first with its key.
pub open spec fn first_with_key(s: Seq<InventoryEntry>, i: int) -> bool {
    forall|j: int| 0 <= j < i ==> listing_key(#[trigger] s[j]) != listing_key(s[i])
}

/// The first `n` listings, each kept only when no earlier one has its key.
pub open spec fn firsts(s: Seq<InventoryEntry>, n: nat) -> Seq<InventoryEntry>
    decreases n,
{
    if n == 0 {
        Seq::empty()
    } else if first_with_key(s, n - 1) {
        firsts(s, (n - 1) as nat).push(s[n - 1])
    } else {
        firsts(s, (n - 1) as nat)
    }
}

pub open spec fn key_views(keys: Seq<(String, String, String)>) -> Seq<(Seq<char>, Seq<char>, Seq<char>)> {
    keys.map_values(|k: (String, String, String)| (k.0@, k.1@, k.2@))
}

/// One of the first `i` listings has this key.
pub open spec fn found_before(all: Seq<InventoryEntry>, i: int, key: (Seq<char>, Seq<char>, Seq<char>)) -> bool {
    exists|j: int| 0 <= j < i && #[trigger] listing_key(all[j]) == key
}

/// Keeps one listing per program: the first found of those with equal keys.
pub fn dedupe_windows_entries(entries: Vec<InventoryEntry>) -> (r: Vec<InventoryEntry>)
    ensures
        r@ == firsts(entries@, entries@.len() as nat),
{
    let ghost all = entries@;
    let mut rest = entries;
    let mut kept: Vec<InventoryEntry> = Vec::new();
    let mut keys: Vec<(String, String, String)> = Vec::new();
    let mut i: usize = 0;
    let n = rest.len();
    assert(all.skip(0) =~= all);
    while rest.len() > 0
        invariant
            n == all.len(),
            i + rest@.len() == n,
            rest@ == all.skip(i as int),
            kept@ == firsts(all, i as nat),
            forall|key: (Seq<char>, Seq<char>, Seq<char>)| #[trigger] key_views(keys@).contains(key) <==> found_before(all, i as int, key),
        decreases rest@.len(),
    {
        let e = rest.remove(0);
        proof {
            assert(all.skip(i as int)[0] == all[i as int]);
            assert(rest@ =~= all.skip(i + 1));
        }
        let name_key = to_lowercase(e.application.name.as_str());
        let path_key = to_lowercase(e.application.path.as_str());
        let version_key = match &e.application.version {
            Some(v) => v.clone(),
            None => String::new(),
        };
        let ghost key = (name_key@, path_key@, version_key@);
        assert(key == listing_key(e));
        let mut seen = false;
        let mut j: usize = 0;
        while j < keys.len()
            invariant
                0 <= j <= keys@.len(),
                key == (name_key@, path_key@, version_key@),
                seen <==> key_views(keys@).take(j as int).contains(key),
            decreases keys@.len() - j,
        {
            let ghost prefix = key_views(keys@).take(j as int);
            let ghost here = key_views(keys@)[j as int];
            assert(key_views(keys@).take(j + 1) =~= prefix.push(here));
            assert(here == (keys@[j as int].0@, keys@[j as int].1@, keys@[j as int].2@));
            let same_name = same_text(keys[j].0.as_str(), name_key.as_str());
            let same_path = same_text(keys[j].1.as_str(), path_key.as_str());
            let same_version = same_text(keys[j].2.as_str(), version_key.as_str());
            let same = same_name && same_path && same_version;
            proof {
                assert(here.0 == keys@[j as int].0@ && here.1 == keys@[j as int].1@ && here.2 == keys@[j as int].2@);
                assert(same <==> here == key);
                if prefix.push(here).contains(key) && here != key {
                    let t = choose|t: int| 0 <= t < prefix.push(here).len() && prefix.push(here)[t] == key;
                    assert(prefix[t] == key);
                }
                if prefix.contains(key) {
                    let t = choose|t: int| 0 <= t < prefix.len() && prefix[t] == key;
                    assert(prefix.push(here)[t] == key);
                }
                if here == key {
                    assert(prefix.push(here)[prefix.len() as int] == key);
                }
            }
            if same {
                seen = true;
            }
            j = j + 1;
        }
        assert(key_views(keys@).take(keys@.len() as int) =~= key_views(keys@));
        proof {
            if seen {
                assert(found_before(all, i as int, key));
                let j = choose|j: int| 0 <= j < i && #[trigger] listing_key(all[j]) == key;
                assert(!first_with_key(all, i as int));
            } else {
                assert forall|j: int| 0 <= j < i implies listing_key(#[trigger] all[j]) != listing_key(all[i as int]) by {
                    if listing_key(all[j]) == key {
                        assert(found_before(all, i as int, key));
                    }
                }
                assert(first_with_key(all, i as int));
            }
        }
        if !seen {
            let ghost before = key_views(keys@);
            keys.push((name_key, path_key, version_key));
            kept.push(e);
            proof {
                assert(key_views(keys@) =~= before.push(key));
                assert forall|k: (Seq<char>, Seq<char>, Seq<char>)| #[trigger] key_views(keys@).contains(k)
                    <==> found_before(all, i + 1, k) by {
                    if key_views(keys@).contains(k) && k != key {
                        assert(before.contains(k));
                        let j = choose|j: int| 0 <= j < i && #[trigger] listing_key(all[j]) == k;
                        assert(found_before(all, i + 1, k));
                    }
                    if k == key {
                        assert(listing_key(all[i as int]) == k);
                        assert(key_views(keys@)[before.len() as int] == k);
                    }
                    if found_before(all, i + 1, k) {
                        let j = choose|j: int| 0 <= j < i + 1 && #[trigger] listing_key(all[j]) == k;
                        if j < i {
                            assert(found_before(all, i as int, k));
                            assert(before.contains(k));
                            let t = choose|t: int| 0 <= t < before.len() && before[t] == k;
                            assert(key_views(keys@)[t] == k);
                        } else {
                            assert(key_views(keys@)[before.len() as int] == k);
                        }
                    }
                }
            }
        } else {
            proof {
                assert forall|k: (Seq<char>, Seq<char>, Seq<char>)| #[trigger] key_views(keys@).contains(k)
                    <==> found_before(all, i + 1, k) by {
                    if key_views(keys@).contains(k) {
                        let j = choose|j: int| 0 <= j < i && #[trigger] listing_key(all[j]) == k;
                        assert(found_before(all, i + 1, k));
                    }
                    if found_before(all, i + 1, k) {
                        let j = choose|j: int| 0 <= j < i + 1 && #[trigger] listing_key(all[j]) == k;
                        if j < i {
                            assert(found_before(all, i as int, k));
                        } else {
                            assert(k == key);
                        }
                    }
                }
            }
        }
        i = i + 1;
    }
    kept
}

} // verus!
