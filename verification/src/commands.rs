//! What the desktop shell's commands take and give, and the small decisions
//! they make before handing work to the library or the operating system.
use vstd::prelude::*;
use crate::domain::duplicate::{DuplicateCopy, DuplicateGroup};
use crate::domain::error::{CommandError, ErrorCode};
use crate::domain::settings::AppSettings;
use crate::text::same_text;

verus! {

/// What the application reports about itself.
#[derive(Debug, Clone)]
pub struct AppInfo {
    pub name: String,
    pub version: String,
    pub platform: String,
    pub architecture: String,
    pub build_profile: String,
    pub runtime: String,
    pub destructive_commands_available: bool,
}

/// The application's description for a build of `version` on `platform` and
/// `architecture`; `debug_build` tells a development build from a release.
pub fn app_info(version: &str, platform: &str, architecture: &str, debug_build: bool) -> (a: AppInfo)
    ensures
        a.name@ == "DiskSage"@,
        a.version@ == version@,
        a.platform@ == platform@,
        a.architecture@ == architecture@,
        a.build_profile@ == (if debug_build { "development"@ } else { "release"@ }),
        a.runtime@ == "Tauri 2"@,
        a.destructive_commands_available,
{
    AppInfo {
        name: String::from_str("DiskSage"),
        version: String::from_str(version),
        platform: String::from_str(platform),
        architecture: String::from_str(architecture),
        build_profile: String::from_str(if debug_build { "development" } else { "release" }),
        runtime: String::from_str("Tauri 2"),
        destructive_commands_available: true,
    }
}

/// The product pages the application can open.
#[derive(Debug, Clone, Copy, PartialEq, Eq, Structural)]
pub enum AppLink {
    Repository,
    Releases,
    Privacy,
    Security,
    License,
}

/// The fixed address of each product page.
pub open spec fn link_url(link: AppLink) -> Seq<char> {
    match link {
        AppLink::Repository => "https://github.com/talaatmagdyx/disk_sage"@,
        AppLink::Releases => "https://github.com/talaatmagdyx/disk_sage/releases"@,
        AppLink::Privacy => "https://github.com/talaatmagdyx/disk_sage/blob/main/PRIVACY.md"@,
        AppLink::Security => "https://github.com/talaatmagdyx/disk_sage/blob/main/SECURITY.md"@,
        AppLink::License => "https://github.com/talaatmagdyx/disk_sage/blob/main/LICENSE"@,
    }
}

impl AppLink {
    /// The page's address.
    pub fn url(&self) -> (r: &'static str)
        ensures
            r@ == link_url(*self),
    {
        match self {
            AppLink::Repository => "https://github.com/talaatmagdyx/disk_sage",
            AppLink::Releases => "https://github.com/talaatmagdyx/disk_sage/releases",
            AppLink::Privacy => "https://github.com/talaatmagdyx/disk_sage/blob/main/PRIVACY.md",
            AppLink::Security => "https://github.com/talaatmagdyx/disk_sage/blob/main/SECURITY.md",
            AppLink::License => "https://github.com/talaatmagdyx/disk_sage/blob/main/LICENSE",
        }
    }
}

/// Every product page lies under the project's repository, over https, and
/// its address holds no space.
pub proof fn law_product_links_are_fixed_https_destinations(link: AppLink)
    ensures
        crate::text::has_prefix(link_url(link), "https://github.com/talaatmagdyx/disk_sage"@),
        !link_url(link).contains(' '),
{
    reveal_strlit("https://github.com/talaatmagdyx/disk_sage");
    reveal_strlit("https://github.com/talaatmagdyx/disk_sage/releases");
    reveal_strlit("https://github.com/talaatmagdyx/disk_sage/blob/main/PRIVACY.md");
    reveal_strlit("https://github.com/talaatmagdyx/disk_sage/blob/main/SECURITY.md");
    reveal_strlit("https://github.com/talaatmagdyx/disk_sage/blob/main/LICENSE");
    let u = link_url(link);
    assert(u.subrange(0, 41) =~= "https://github.com/talaatmagdyx/disk_sage"@);
    assert forall|i: int| 0 <= i < u.len() implies u[i] != ' ' by {}
}

/// A request to open a product page.
#[derive(Debug, Clone, Copy)]
pub struct OpenAppLinkRequest {
    pub link: AppLink,
}

/// A request for one mounted disk.
#[derive(Debug, Clone)]
pub struct GetDiskInfoRequest {
    pub mount_path: String,
}

/// A request to show a finding in the file manager.
#[derive(Debug, Clone)]
pub struct RevealFindingRequest {
    pub scan_id: String,
    pub finding_id: String,
}

/// A request to show one copy of a duplicate group in the file manager.
#[derive(Debug, Clone)]
pub struct RevealDuplicateRequest {
    pub scan_id: String,
    pub group_id: String,
    pub copy_id: String,
}

/// A request to replace the settings.
#[derive(Debug, Clone)]
pub struct UpdateSettingsRequest {
    pub settings: AppSettings,
}

/// Where an exported diagnostics report was written.
#[derive(Debug, Clone)]
pub struct ExportDiagnosticsResponse {
    pub path: String,
}

/// The first copy of `copies` with id `copy_id`.
pub open spec fn first_copy_with_id(copies: Seq<DuplicateCopy>, copy_id: Seq<char>, i: int) -> bool {
    &&& 0 <= i < copies.len()
    &&& copies[i].id@ == copy_id
    &&& forall|k: int| 0 <= k < i ==> (#[trigger] copies[k]).id@ != copy_id
}

/// The path of the copy to show in the file manager: that of the first copy
/// of `group` with id `copy_id`, or an error when the group has none.
pub fn duplicate_copy_path(group: &DuplicateGroup, copy_id: &str) -> (r: Result<String, CommandError>)
    ensures
        (forall|k: int| 0 <= k < group.copies@.len() ==> (#[trigger] group.copies@[k]).id@ != copy_id@)
            ==> (r matches Err(e) && e.code == ErrorCode::PathNotFound
            && e.message@ == "That duplicate copy no longer exists in the group."@ && e.recoverable),
        r matches Ok(p) ==> exists|i: int| first_copy_with_id(group.copies@, copy_id@, i)
            && p@ == group.copies@[i].path@,
        (exists|k: int| 0 <= k < group.copies@.len() && (#[trigger] group.copies@[k]).id@ == copy_id@) ==> r is Ok,
{
    let mut i: usize = 0;
    while i < group.copies.len()
        invariant
            0 <= i <= group.copies@.len(),
            forall|k: int| 0 <= k < i ==> (#[trigger] group.copies@[k]).id@ != copy_id@,
        decreases group.copies@.len() - i,
    {
        if same_text(group.copies[i].id.as_str(), copy_id) {
            assert(first_copy_with_id(group.copies@, copy_id@, i as int));
            return Ok(group.copies[i].path.clone());
        }
        i = i + 1;
    }
    Err(CommandError::new(ErrorCode::PathNotFound, "That duplicate copy no longer exists in the group.", true))
}

} // verus!
