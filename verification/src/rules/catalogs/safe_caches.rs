use vstd::prelude::*;
use crate::domain::rule::{
    Platform, RecommendedAction, RegenerationBehavior, RiskLevel, RuleCategory, RuleDefinition,
    RuleMatcher, RuleTarget,
};

verus! {

/// A safe, regenerable cache location with its home-relative path on each platform.
#[derive(Debug, Clone)]
pub struct CacheRuleSpec {
    pub definition: RuleDefinition,
    pub macos_path: String,
    pub linux_path: String,
}

/// What kind of cache a catalog entry describes.
pub ghost enum CacheKind {
    Package { manager: Seq<char> },
    Browser { description: Seq<char> },
    Application,
}

/// One entry of the safe cache catalog.
pub ghost struct CacheRow {
    pub id: Seq<char>,
    pub name: Seq<char>,
    pub kind: CacheKind,
    pub macos: Seq<char>,
    pub linux: Seq<char>,
}

/// The number of entries in the safe cache catalog.
pub const SAFE_CACHE_COUNT: usize = 31;

/// The explanation shown for a cache of the given kind.
pub open spec fn cache_description(kind: CacheKind) -> Seq<char> {
    match kind {
        CacheKind::Package { manager } => "Downloaded "@ + manager
            + " packages that can be fetched again when needed."@,
        CacheKind::Browser { description } => description,
        CacheKind::Application => "Regenerable application cache. Close the owning application before cleanup; the next launch may rebuild or download this data."@,
    }
}

pub open spec fn cache_category(kind: CacheKind) -> RuleCategory {
    match kind {
        CacheKind::Package { .. } => RuleCategory::PackageManagerCache,
        CacheKind::Browser { .. } => RuleCategory::BrowserCache,
        CacheKind::Application => RuleCategory::ApplicationCache,
    }
}

pub open spec fn cache_regeneration(kind: CacheKind) -> RegenerationBehavior {
    match kind {
        CacheKind::Package { .. } => RegenerationBehavior::Redownload,
        CacheKind::Browser { .. } => RegenerationBehavior::Automatic,
        CacheKind::Application => RegenerationBehavior::RestartRequired,
    }
}

/// A rule target that is the given home-relative path.
pub open spec fn home_target(t: RuleTarget, path: Seq<char>) -> bool {
    t matches RuleTarget::HomeRelative { path: p } && p@ == path
}

/// The definition has every field of the catalog entry's rule except,
/// possibly, its display name: a safe, default-enabled, move-to-trash rule on
/// macOS and Linux with the entry's two paths.
pub open spec fn cache_definition_of(d: RuleDefinition, row: CacheRow) -> bool {
    &&& d.id@ == row.id
    &&& d.version == 1
    &&& d.category == cache_category(row.kind)
    &&& d.description@ == cache_description(row.kind)
    &&& d.risk == RiskLevel::Safe
    &&& d.platforms@ == seq![Platform::Macos, Platform::Linux]
    &&& d.targets@.len() == 2
    &&& home_target(d.targets@[0], row.macos)
    &&& home_target(d.targets@[1], row.linux)
    &&& d.matcher is ExactPath
    &&& d.minimum_size == Some(1u64)
    &&& d.maximum_age_days is None
    &&& d.recommended_action == RecommendedAction::MoveToTrash
    &&& d.regeneration_behavior == cache_regeneration(row.kind)
    &&& d.default_enabled
}

/// The rule was built from the catalog entry.
pub open spec fn cache_rule_built(r: CacheRuleSpec, row: CacheRow) -> bool {
    &&& cache_definition_of(r.definition, row)
    &&& r.definition.display_name@ == row.name
    &&& r.macos_path@ == row.macos
    &&& r.linux_path@ == row.linux
}

/// The entries of the safe cache catalog, in order.
pub open spec fn safe_cache_row(i: int) -> CacheRow {
    if i == 0 {
        CacheRow { id: "cache.npm.content-v1"@, name: "npm download cache"@, kind: CacheKind::Package { manager: "npm"@ }, macos: ".npm/_cacache"@, linux: ".npm/_cacache"@ }
    } else if i == 1 {
        CacheRow { id: "cache.pnpm.store-v1"@, name: "pnpm package store"@, kind: CacheKind::Package { manager: "pnpm"@ }, macos: "Library/pnpm/store"@, linux: ".local/share/pnpm/store"@ }
    } else if i == 2 {
        CacheRow { id: "cache.yarn.downloads-v1"@, name: "Yarn download cache"@, kind: CacheKind::Package { manager: "Yarn"@ }, macos: "Library/Caches/Yarn"@, linux: ".cache/yarn"@ }
    } else if i == 3 {
        CacheRow { id: "cache.pip.downloads-v1"@, name: "pip download cache"@, kind: CacheKind::Package { manager: "pip"@ }, macos: "Library/Caches/pip"@, linux: ".cache/pip"@ }
    } else if i == 4 {
        CacheRow { id: "cache.cargo.registry-v1"@, name: "Cargo registry cache"@, kind: CacheKind::Package { manager: "Cargo"@ }, macos: ".cargo/registry/cache"@, linux: ".cargo/registry/cache"@ }
    } else if i == 5 {
        CacheRow { id: "cache.gradle.modules-v1"@, name: "Gradle module cache"@, kind: CacheKind::Package { manager: "Gradle"@ }, macos: ".gradle/caches/modules-2/files-2.1"@, linux: ".gradle/caches/modules-2/files-2.1"@ }
    } else if i == 6 {
        CacheRow { id: "cache.gradle.wrapper-v1"@, name: "Gradle wrapper downloads"@, kind: CacheKind::Package { manager: "Gradle"@ }, macos: ".gradle/wrapper/dists"@, linux: ".gradle/wrapper/dists"@ }
    } else if i == 7 {
        CacheRow { id: "cache.maven.wrapper-v1"@, name: "Maven wrapper downloads"@, kind: CacheKind::Package { manager: "Maven"@ }, macos: ".m2/wrapper/dists"@, linux: ".m2/wrapper/dists"@ }
    } else if i == 8 {
        CacheRow { id: "cache.maven.repository-v1"@, name: "Maven local repository"@, kind: CacheKind::Package { manager: "Maven"@ }, macos: ".m2/repository"@, linux: ".m2/repository"@ }
    } else if i == 9 {
        CacheRow { id: "cache.go.modules-v1"@, name: "Go module download cache"@, kind: CacheKind::Package { manager: "Go"@ }, macos: "go/pkg/mod/cache"@, linux: "go/pkg/mod/cache"@ }
    } else if i == 10 {
        CacheRow { id: "cache.browser.chrome-v1"@, name: "Google Chrome cache"@, kind: CacheKind::Browser { description: "Closing Chrome before cleanup may be required. Browser profiles, cookies, history, sessions, and credentials are excluded."@ }, macos: "Library/Caches/Google/Chrome/Default/Cache/Cache_Data"@, linux: ".cache/google-chrome/Default/Cache/Cache_Data"@ }
    } else if i == 11 {
        CacheRow { id: "cache.browser.firefox-v1"@, name: "Firefox cache"@, kind: CacheKind::Browser { description: "Only the operating system cache location is scanned. Firefox profiles, history, sessions, and credentials are excluded."@ }, macos: "Library/Caches/Firefox/Profiles"@, linux: ".cache/mozilla/firefox"@ }
    } else if i == 12 {
        CacheRow { id: "cache.node-gyp.downloads-v1"@, name: "node-gyp download cache"@, kind: CacheKind::Package { manager: "node-gyp"@ }, macos: "Library/Caches/node-gyp"@, linux: ".cache/node-gyp"@ }
    } else if i == 13 {
        CacheRow { id: "cache.pip-tools.downloads-v1"@, name: "pip-tools cache"@, kind: CacheKind::Package { manager: "pip-tools"@ }, macos: "Library/Caches/pip-tools"@, linux: ".cache/pip-tools"@ }
    } else if i == 14 {
        CacheRow { id: "cache.homebrew.downloads-v1"@, name: "Homebrew download cache"@, kind: CacheKind::Package { manager: "Homebrew"@ }, macos: "Library/Caches/Homebrew"@, linux: ".cache/Homebrew"@ }
    } else if i == 15 {
        CacheRow { id: "cache.aws-cli-v1"@, name: "AWS CLI cache"@, kind: CacheKind::Package { manager: "AWS CLI"@ }, macos: "Library/Caches/aws"@, linux: ".cache/aws"@ }
    } else if i == 16 {
        CacheRow { id: "cache.uv-v1"@, name: "uv package cache"@, kind: CacheKind::Package { manager: "uv"@ }, macos: ".cache/uv"@, linux: ".cache/uv"@ }
    } else if i == 17 {
        CacheRow { id: "cache.pre-commit-v1"@, name: "pre-commit environments"@, kind: CacheKind::Package { manager: "pre-commit"@ }, macos: ".cache/pre-commit"@, linux: ".cache/pre-commit"@ }
    } else if i == 18 {
        CacheRow { id: "cache.cocoapods-v1"@, name: "CocoaPods cache"@, kind: CacheKind::Package { manager: "CocoaPods"@ }, macos: "Library/Caches/CocoaPods"@, linux: ".cache/CocoaPods"@ }
    } else if i == 19 {
        CacheRow { id: "cache.swiftpm-v1"@, name: "SwiftPM cache"@, kind: CacheKind::Package { manager: "SwiftPM"@ }, macos: "Library/Caches/org.swift.swiftpm"@, linux: ".cache/org.swift.swiftpm"@ }
    } else if i == 20 {
        CacheRow { id: "cache.cypress-v1"@, name: "Cypress browser cache"@, kind: CacheKind::Package { manager: "Cypress"@ }, macos: "Library/Caches/Cypress"@, linux: ".cache/Cypress"@ }
    } else if i == 21 {
        CacheRow { id: "cache.updater.notion-todesktop-v1"@, name: "Notion updater cache"@, kind: CacheKind::Application, macos: "Library/Caches/com.todesktop.230313mzl4w4u92.ShipIt"@, linux: ".cache/notion-todesktop-shipit"@ }
    } else if i == 22 {
        CacheRow { id: "cache.updater.windsurf-v1"@, name: "Windsurf updater cache"@, kind: CacheKind::Application, macos: "Library/Caches/com.exafunction.windsurf.ShipIt"@, linux: ".cache/windsurf-shipit"@ }
    } else if i == 23 {
        CacheRow { id: "cache.updater.capacities-v1"@, name: "Capacities updater cache"@, kind: CacheKind::Application, macos: "Library/Caches/capacities-updater"@, linux: ".cache/capacities-updater"@ }
    } else if i == 24 {
        CacheRow { id: "cache.updater.notion-shipit-v1"@, name: "Notion ShipIt cache"@, kind: CacheKind::Application, macos: "Library/Caches/notion.id.ShipIt"@, linux: ".cache/notion-shipit"@ }
    } else if i == 25 {
        CacheRow { id: "cache.updater.whimsical-v1"@, name: "Whimsical updater cache"@, kind: CacheKind::Application, macos: "Library/Caches/whimsical-updater"@, linux: ".cache/whimsical-updater"@ }
    } else if i == 26 {
        CacheRow { id: "cache.updater.codex-v1"@, name: "Codex updater cache"@, kind: CacheKind::Application, macos: "Library/Caches/com.openai.codex/org.sparkle-project.Sparkle"@, linux: ".cache/openai-codex-updater"@ }
    } else if i == 27 {
        CacheRow { id: "cache.cursor.logs-v1"@, name: "Cursor logs"@, kind: CacheKind::Application, macos: "Library/Application Support/Cursor/logs"@, linux: ".config/Cursor/logs"@ }
    } else if i == 28 {
        CacheRow { id: "cache.cursor.cached-data-v1"@, name: "Cursor cached data"@, kind: CacheKind::Application, macos: "Library/Application Support/Cursor/CachedData"@, linux: ".config/Cursor/CachedData"@ }
    } else if i == 29 {
        CacheRow { id: "cache.vscode.extension-vsix-v1"@, name: "Visual Studio Code extension downloads"@, kind: CacheKind::Application, macos: "Library/Application Support/Code/CachedExtensionVSIXs"@, linux: ".config/Code/CachedExtensionVSIXs"@ }
    } else {
        CacheRow { id: "cache.cursor.extension-vsix-v1"@, name: "Cursor extension downloads"@, kind: CacheKind::Application, macos: "Library/Application Support/Cursor/CachedExtensionVSIXs"@, linux: ".config/Cursor/CachedExtensionVSIXs"@ }
    }
}

fn build_rule(
    id: &str,
    display_name: &str,
    description: String,
    category: RuleCategory,
    regeneration_behavior: RegenerationBehavior,
    macos_path: &str,
    linux_path: &str,
) -> (r: CacheRuleSpec)
    ensures
        r.definition.id@ == id@,
        r.definition.version == 1,
        r.definition.category == category,
        r.definition.display_name@ == display_name@,
        r.definition.description == description,
        r.definition.risk == RiskLevel::Safe,
        r.definition.platforms@ == seq![Platform::Macos, Platform::Linux],
        r.definition.targets@.len() == 2,
        home_target(r.definition.targets@[0], macos_path@),
        home_target(r.definition.targets@[1], linux_path@),
        r.definition.matcher is ExactPath,
        r.definition.minimum_size == Some(1u64),
        r.definition.maximum_age_days is None,
        r.definition.recommended_action == RecommendedAction::MoveToTrash,
        r.definition.regeneration_behavior == regeneration_behavior,
        r.definition.default_enabled,
        r.macos_path@ == macos_path@,
        r.linux_path@ == linux_path@,
{
    let mut platforms: Vec<Platform> = Vec::new();
    platforms.push(Platform::Macos);
    platforms.push(Platform::Linux);
    let mut targets: Vec<RuleTarget> = Vec::new();
    targets.push(RuleTarget::HomeRelative { path: String::from_str(macos_path) });
    targets.push(RuleTarget::HomeRelative { path: String::from_str(linux_path) });
    CacheRuleSpec {
        definition: RuleDefinition {
            id: String::from_str(id),
            version: 1,
            category,
            display_name: String::from_str(display_name),
            description,
            risk: RiskLevel::Safe,
            platforms,
            targets,
            matcher: RuleMatcher::ExactPath,
            minimum_size: Some(1),
            maximum_age_days: None,
            recommended_action: RecommendedAction::MoveToTrash,
            regeneration_behavior,
            default_enabled: true,
        },
        macos_path: String::from_str(macos_path),
        linux_path: String::from_str(linux_path),
    }
}

fn application_cache_rule(id: &str, display_name: &str, macos_path: &str, linux_path: &str) -> (r: CacheRuleSpec)
    ensures
        cache_rule_built(r, CacheRow { id: id@, name: display_name@, kind: CacheKind::Application, macos: macos_path@, linux: linux_path@ }),
{
    build_rule(
        id,
        display_name,
        String::from_str("Regenerable application cache. Close the owning application before cleanup; the next launch may rebuild or download this data."),
        RuleCategory::ApplicationCache,
        RegenerationBehavior::RestartRequired,
        macos_path,
        linux_path,
    )
}

fn package_rule(id: &str, display_name: &str, manager: &str, macos_path: &str, linux_path: &str) -> (r: CacheRuleSpec)
    ensures
        cache_rule_built(r, CacheRow { id: id@, name: display_name@, kind: CacheKind::Package { manager: manager@ }, macos: macos_path@, linux: linux_path@ }),
{
    let mut description = String::from_str("Downloaded ");
    description.append(manager);
    description.append(" packages that can be fetched again when needed.");
    build_rule(
        id,
        display_name,
        description,
        RuleCategory::PackageManagerCache,
        RegenerationBehavior::Redownload,
        macos_path,
        linux_path,
    )
}

fn browser_rule(id: &str, display_name: &str, description: &str, macos_path: &str, linux_path: &str) -> (r: CacheRuleSpec)
    ensures
        cache_rule_built(r, CacheRow { id: id@, name: display_name@, kind: CacheKind::Browser { description: description@ }, macos: macos_path@, linux: linux_path@ }),
{
    build_rule(
        id,
        display_name,
        String::from_str(description),
        RuleCategory::BrowserCache,
        RegenerationBehavior::Automatic,
        macos_path,
        linux_path,
    )
}

/// The `i`-th entry of the safe cache catalog.
pub fn safe_cache_entry(i: usize) -> (r: CacheRuleSpec)
    requires
        i < SAFE_CACHE_COUNT,
    ensures
        cache_rule_built(r, safe_cache_row(i as int)),
{
    if i == 0 {
        package_rule("cache.npm.content-v1", "npm download cache", "npm", ".npm/_cacache", ".npm/_cacache")
    } else if i == 1 {
        package_rule("cache.pnpm.store-v1", "pnpm package store", "pnpm", "Library/pnpm/store", ".local/share/pnpm/store")
    } else if i == 2 {
        package_rule("cache.yarn.downloads-v1", "Yarn download cache", "Yarn", "Library/Caches/Yarn", ".cache/yarn")
    } else if i == 3 {
        package_rule("cache.pip.downloads-v1", "pip download cache", "pip", "Library/Caches/pip", ".cache/pip")
    } else if i == 4 {
        package_rule("cache.cargo.registry-v1", "Cargo registry cache", "Cargo", ".cargo/registry/cache", ".cargo/registry/cache")
    } else if i == 5 {
        package_rule("cache.gradle.modules-v1", "Gradle module cache", "Gradle", ".gradle/caches/modules-2/files-2.1", ".gradle/caches/modules-2/files-2.1")
    } else if i == 6 {
        package_rule("cache.gradle.wrapper-v1", "Gradle wrapper downloads", "Gradle", ".gradle/wrapper/dists", ".gradle/wrapper/dists")
    } else if i == 7 {
        package_rule("cache.maven.wrapper-v1", "Maven wrapper downloads", "Maven", ".m2/wrapper/dists", ".m2/wrapper/dists")
    } else if i == 8 {
        package_rule("cache.maven.repository-v1", "Maven local repository", "Maven", ".m2/repository", ".m2/repository")
    } else if i == 9 {
        package_rule("cache.go.modules-v1", "Go module download cache", "Go", "go/pkg/mod/cache", "go/pkg/mod/cache")
    } else if i == 10 {
        browser_rule(
            "cache.browser.chrome-v1",
            "Google Chrome cache",
            "Closing Chrome before cleanup may be required. Browser profiles, cookies, history, sessions, and credentials are excluded.",
            "Library/Caches/Google/Chrome/Default/Cache/Cache_Data",
            ".cache/google-chrome/Default/Cache/Cache_Data",
        )
    } else if i == 11 {
        browser_rule(
            "cache.browser.firefox-v1",
            "Firefox cache",
            "Only the operating system cache location is scanned. Firefox profiles, history, sessions, and credentials are excluded.",
            "Library/Caches/Firefox/Profiles",
            ".cache/mozilla/firefox",
        )
    } else if i == 12 {
        package_rule("cache.node-gyp.downloads-v1", "node-gyp download cache", "node-gyp", "Library/Caches/node-gyp", ".cache/node-gyp")
    } else if i == 13 {
        package_rule("cache.pip-tools.downloads-v1", "pip-tools cache", "pip-tools", "Library/Caches/pip-tools", ".cache/pip-tools")
    } else if i == 14 {
        package_rule("cache.homebrew.downloads-v1", "Homebrew download cache", "Homebrew", "Library/Caches/Homebrew", ".cache/Homebrew")
    } else if i == 15 {
        package_rule("cache.aws-cli-v1", "AWS CLI cache", "AWS CLI", "Library/Caches/aws", ".cache/aws")
    } else if i == 16 {
        package_rule("cache.uv-v1", "uv package cache", "uv", ".cache/uv", ".cache/uv")
    } else if i == 17 {
        package_rule("cache.pre-commit-v1", "pre-commit environments", "pre-commit", ".cache/pre-commit", ".cache/pre-commit")
    } else if i == 18 {
        package_rule("cache.cocoapods-v1", "CocoaPods cache", "CocoaPods", "Library/Caches/CocoaPods", ".cache/CocoaPods")
    } else if i == 19 {
        package_rule("cache.swiftpm-v1", "SwiftPM cache", "SwiftPM", "Library/Caches/org.swift.swiftpm", ".cache/org.swift.swiftpm")
    } else if i == 20 {
        package_rule("cache.cypress-v1", "Cypress browser cache", "Cypress", "Library/Caches/Cypress", ".cache/Cypress")
    } else if i == 21 {
        application_cache_rule("cache.updater.notion-todesktop-v1", "Notion updater cache", "Library/Caches/com.todesktop.230313mzl4w4u92.ShipIt", ".cache/notion-todesktop-shipit")
    } else if i == 22 {
        application_cache_rule("cache.updater.windsurf-v1", "Windsurf updater cache", "Library/Caches/com.exafunction.windsurf.ShipIt", ".cache/windsurf-shipit")
    } else if i == 23 {
        application_cache_rule("cache.updater.capacities-v1", "Capacities updater cache", "Library/Caches/capacities-updater", ".cache/capacities-updater")
    } else if i == 24 {
        application_cache_rule("cache.updater.notion-shipit-v1", "Notion ShipIt cache", "Library/Caches/notion.id.ShipIt", ".cache/notion-shipit")
    } else if i == 25 {
        application_cache_rule("cache.updater.whimsical-v1", "Whimsical updater cache", "Library/Caches/whimsical-updater", ".cache/whimsical-updater")
    } else if i == 26 {
        application_cache_rule("cache.updater.codex-v1", "Codex updater cache", "Library/Caches/com.openai.codex/org.sparkle-project.Sparkle", ".cache/openai-codex-updater")
    } else if i == 27 {
        application_cache_rule("cache.cursor.logs-v1", "Cursor logs", "Library/Application Support/Cursor/logs", ".config/Cursor/logs")
    } else if i == 28 {
        application_cache_rule("cache.cursor.cached-data-v1", "Cursor cached data", "Library/Application Support/Cursor/CachedData", ".config/Cursor/CachedData")
    } else if i == 29 {
        application_cache_rule("cache.vscode.extension-vsix-v1", "Visual Studio Code extension downloads", "Library/Application Support/Code/CachedExtensionVSIXs", ".config/Code/CachedExtensionVSIXs")
    } else {
        application_cache_rule("cache.cursor.extension-vsix-v1", "Cursor extension downloads", "Library/Application Support/Cursor/CachedExtensionVSIXs", ".config/Cursor/CachedExtensionVSIXs")
    }
}

/// The safe cache catalog: every entry of `safe_cache_row`, in order.
pub fn catalog() -> (r: Vec<CacheRuleSpec>)
    ensures
        r@.len() == SAFE_CACHE_COUNT,
        forall|i: int| 0 <= i < SAFE_CACHE_COUNT ==> cache_rule_built(#[trigger] r@[i], safe_cache_row(i)),
{
    let mut rules: Vec<CacheRuleSpec> = Vec::new();
    let mut i: usize = 0;
    while i < SAFE_CACHE_COUNT
        invariant
            i <= SAFE_CACHE_COUNT,
            rules@.len() == i,
            forall|j: int| 0 <= j < i ==> cache_rule_built(#[trigger] rules@[j], safe_cache_row(j)),
        decreases SAFE_CACHE_COUNT - i,
    {
        rules.push(safe_cache_entry(i));
        i = i + 1;
    }
    rules
}

} // verus!
