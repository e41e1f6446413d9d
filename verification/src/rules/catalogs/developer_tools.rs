use vstd::prelude::*;
use crate::domain::rule::{
    Platform, RecommendedAction, RegenerationBehavior, RiskLevel, RuleCategory, RuleDefinition,
    RuleMatcher, RuleTarget,
};
use crate::rules::catalogs::safe_caches::home_target;
use crate::text::{contains_text, has_infix};

verus! {

/// A developer-tool location that is only ever inspected or reviewed: it is
/// never enabled for cleanup by default.
#[derive(Debug, Clone)]
pub struct DeveloperToolSpec {
    pub definition: RuleDefinition,
    pub macos_path: Option<String>,
    pub linux_path: Option<String>,
}

/// One entry of the developer tool catalog.
pub ghost struct ToolRow {
    pub id: Seq<char>,
    pub name: Seq<char>,
    pub macos: Option<Seq<char>>,
    pub linux: Option<Seq<char>>,
    pub risk: RiskLevel,
    pub action: RecommendedAction,
    pub regeneration: RegenerationBehavior,
}

/// The number of entries in the developer tool catalog.
pub const DEVELOPER_TOOL_COUNT: usize = 29;

/// The explanation shown for a developer tool rule, chosen by its identifier.
pub open spec fn tool_description(id: Seq<char>) -> Seq<char> {
    if has_infix(id, "xcode-derived-data"@) {
        "Regenerable Xcode build and index output. Quit Xcode first; manual selection requires Careful confirmation and the next build may be slower."@
    } else if has_infix(id, "jetbrains-cache"@) {
        "Regenerable JetBrains indexes and caches. Quit every JetBrains IDE first; manual selection requires Careful confirmation and reindexing may take time."@
    } else if has_infix(id, "vscode-cache"@) {
        "Regenerable Visual Studio Code cache. Quit Visual Studio Code first; manual selection requires Careful confirmation."@
    } else if has_infix(id, "android.sdk-temp"@) {
        "Android SDK temporary downloads and staging data. Quit Android Studio first; manual selection requires Careful confirmation and downloads may restart."@
    } else if has_infix(id, "docker"@) {
        "Docker Desktop virtual disk inspection only. Review `docker system df`; DiskSage never removes Docker.raw directly."@
    } else if has_infix(id, "cursor.state-db"@) {
        "Cursor's live SQLite state database. Close Cursor and inspect a guided VACUUM workflow; DiskSage never moves or modifies the database directly. VACUUM may require substantial temporary free space."@
    } else if has_infix(id, "codex.runtimes"@) {
        "Codex-managed workspace runtimes may be in use by active tasks. Close Codex and verify the runtime is no longer needed; DiskSage never selects it for cleanup."@
    } else if has_infix(id, "playwright"@) {
        "Playwright browser downloads can be reinstalled, but this cache can also contain persistent MCP browser profiles and signed-in state. Review `npx playwright uninstall --all` and profile ownership first."@
    } else if has_infix(id, "xcode.archives"@) {
        "Xcode Archives may contain the only retained build used for distribution, symbolication, or crash reports. Inspect them in Xcode Organizer; they are not automatically regenerable."@
    } else if has_infix(id, "xcode.device-support"@) {
        "Xcode downloads device-support files again when required. Remove obsolete OS versions through Xcode after confirming no connected device or debugging workflow needs them."@
    } else if has_infix(id, "swiftpm.repositories"@) {
        "SwiftPM repository data can normally be fetched again, but custom or offline sources may be costly to restore. Review it separately from the safe SwiftPM download cache."@
    } else if has_infix(id, "mise"@) {
        "Language installations managed by mise. Review `mise prune --dry-run`; DiskSage never removes runtimes directly."@
    } else if has_infix(id, "rbenv"@) || has_infix(id, "asdf"@) {
        "Installed language runtimes may still be referenced by projects or shells. Verify configuration with the owning version manager before removal."@
    } else if has_infix(id, "minikube"@) {
        "Local Kubernetes clusters can contain workloads and volumes. Inspect with minikube before using its guided deletion commands."@
    } else if has_infix(id, "unsloth"@) {
        "Local ML models and training artifacts may be expensive or impossible to reproduce. Review ownership before removal."@
    } else if has_infix(id, "huggingface"@) || has_infix(id, "pytorch"@) {
        "Model weights, datasets, checkpoints, and compiled artifacts may be large, private, or expensive to reproduce. Use the owning ML tool to inspect them; DiskSage never selects them automatically."@
    } else if has_infix(id, "ollama"@) {
        "Installed Ollama models can be tens or hundreds of gigabytes. Review `ollama list` and remove individual models with `ollama rm`; DiskSage never deletes the model store directly."@
    } else if has_infix(id, "colima"@) {
        "Colima virtual machines may contain images, containers, Kubernetes state, and persistent volumes. Inspect with `colima status` and use `colima delete --data` only when intentional."@
    } else if has_infix(id, "container.lima"@) {
        "Lima instances are virtual machines that may contain irreplaceable local state. Inspect and remove instances with `limactl`; DiskSage never deletes their storage directly."@
    } else if has_infix(id, "orbstack"@) {
        "OrbStack data can include containers, images, volumes, and Linux machines. Use OrbStack's own management interface for cleanup; DiskSage provides inspection only."@
    } else if has_infix(id, "notion.partitions"@) {
        "Notion offline data may require a full cloud re-sync. Close Notion and confirm all important content is synchronized before review."@
    } else if has_infix(id, "user.dot-cache"@) {
        "Mixed cache data not covered by a more specific finding. Known child caches are excluded from this measurement to prevent double-counting; the remainder is review-only."@
    } else if has_infix(id, "jetbrains.versioned-data"@) {
        "Versioned JetBrains application data can contain settings and plugins as well as caches. Confirm an IDE version is unused before removing it with JetBrains tools."@
    } else if has_infix(id, "zed"@) {
        "Zed-managed runtimes can be downloaded again, but removal interrupts language tooling until Zed rebuilds them."@
    } else if has_infix(id, "android"@) || has_infix(id, "simulator"@) {
        "Emulator state inspection only. Use the platform's device manager for any removal."@
    } else {
        "IDE cache inspection only. Rebuilding may require downloads, reindexing, or an application restart."@
    }
}

/// The category of a developer tool rule, chosen by its identifier.
pub open spec fn tool_category(id: Seq<char>) -> RuleCategory {
    if has_infix(id, "docker"@) || has_infix(id, "minikube"@) || has_infix(id, "vm-bundles"@)
        || has_infix(id, "container.colima"@) || has_infix(id, "container.lima"@)
        || has_infix(id, "orbstack"@) {
        RuleCategory::Container
    } else if has_infix(id, "android"@) || has_infix(id, "simulator"@) || has_infix(id, "device-support"@) {
        RuleCategory::Emulator
    } else if has_infix(id, "xcode.archives"@) {
        RuleCategory::BuildArtifact
    } else {
        RuleCategory::ApplicationCache
    }
}

/// The platforms that have a path, macOS first.
pub open spec fn tool_platforms(macos: Option<Seq<char>>, linux: Option<Seq<char>>) -> Seq<Platform> {
    (if macos is Some { seq![Platform::Macos] } else { Seq::empty() })
        + (if linux is Some { seq![Platform::Linux] } else { Seq::empty() })
}

/// The paths that are present, macOS first.
pub open spec fn tool_paths(macos: Option<Seq<char>>, linux: Option<Seq<char>>) -> Seq<Seq<char>> {
    (match macos { Some(p) => seq![p], None => Seq::empty() })
        + (match linux { Some(p) => seq![p], None => Seq::empty() })
}

pub open spec fn opt_view(o: Option<String>) -> Option<Seq<char>> {
    match o {
        Some(s) => Some(s@),
        None => None,
    }
}

pub open spec fn opt_str_view(o: Option<&str>) -> Option<Seq<char>> {
    match o {
        Some(s) => Some(s@),
        None => None,
    }
}

/// The definition is the catalog entry's rule.
pub open spec fn tool_definition_of(d: RuleDefinition, row: ToolRow) -> bool {
    let paths = tool_paths(row.macos, row.linux);
    &&& d.id@ == row.id
    &&& d.version == 1
    &&& d.category == tool_category(row.id)
    &&& d.display_name@ == row.name
    &&& d.description@ == tool_description(row.id)
    &&& d.risk == row.risk
    &&& d.platforms@ == tool_platforms(row.macos, row.linux)
    &&& d.targets@.len() == paths.len()
    &&& forall|k: int| 0 <= k < paths.len() ==> home_target(#[trigger] d.targets@[k], paths[k])
    &&& d.matcher is ExactPath
    &&& d.minimum_size == Some(1u64)
    &&& d.maximum_age_days is None
    &&& d.recommended_action == row.action
    &&& d.regeneration_behavior == row.regeneration
    &&& !d.default_enabled
}

/// The rule was built from the catalog entry.
pub open spec fn tool_built(r: DeveloperToolSpec, row: ToolRow) -> bool {
    &&& tool_definition_of(r.definition, row)
    &&& opt_view(r.macos_path) == row.macos
    &&& opt_view(r.linux_path) == row.linux
}

/// The entries of the developer tool catalog, in order.
pub open spec fn developer_tool_row(i: int) -> ToolRow {
    if i == 0 {
        ToolRow {
            id: "inspection.ide.xcode-derived-data-v1"@,
            name: "Xcode DerivedData"@,
            macos: Some("Library/Developer/Xcode/DerivedData"@),
            linux: None,
            risk: RiskLevel::Careful,
            action: RecommendedAction::MoveToTrash,
            regeneration: RegenerationBehavior::Reindex,
        }
    } else if i == 1 {
        ToolRow {
            id: "inspection.xcode.archives-v1"@,
            name: "Xcode Archives"@,
            macos: Some("Library/Developer/Xcode/Archives"@),
            linux: None,
            risk: RiskLevel::Careful,
            action: RecommendedAction::Review,
            regeneration: RegenerationBehavior::NotRegenerable,
        }
    } else if i == 2 {
        ToolRow {
            id: "inspection.xcode.device-support-v1"@,
            name: "Xcode iOS DeviceSupport"@,
            macos: Some("Library/Developer/Xcode/iOS DeviceSupport"@),
            linux: None,
            risk: RiskLevel::Careful,
            action: RecommendedAction::Review,
            regeneration: RegenerationBehavior::Redownload,
        }
    } else if i == 3 {
        ToolRow {
            id: "inspection.ide.jetbrains-cache-v1"@,
            name: "JetBrains IDE caches"@,
            macos: Some("Library/Caches/JetBrains"@),
            linux: Some(".cache/JetBrains"@),
            risk: RiskLevel::Careful,
            action: RecommendedAction::MoveToTrash,
            regeneration: RegenerationBehavior::Reindex,
        }
    } else if i == 4 {
        ToolRow {
            id: "inspection.ide.vscode-cache-v1"@,
            name: "Visual Studio Code cache"@,
            macos: Some("Library/Application Support/Code/Cache"@),
            linux: Some(".config/Code/Cache"@),
            risk: RiskLevel::Careful,
            action: RecommendedAction::MoveToTrash,
            regeneration: RegenerationBehavior::RestartRequired,
        }
    } else if i == 5 {
        ToolRow {
            id: "inspection.android.sdk-temp-v1"@,
            name: "Android SDK temporary data"@,
            macos: Some("Library/Android/sdk/.temp"@),
            linux: Some("Android/Sdk/.temp"@),
            risk: RiskLevel::Careful,
            action: RecommendedAction::MoveToTrash,
            regeneration: RegenerationBehavior::Redownload,
        }
    } else if i == 6 {
        ToolRow {
            id: "inspection.android.avd-v1"@,
            name: "Android virtual devices"@,
            macos: Some(".android/avd"@),
            linux: Some(".android/avd"@),
            risk: RiskLevel::Expert,
            action: RecommendedAction::GuidedCommand,
            regeneration: RegenerationBehavior::PotentialStateLoss,
        }
    } else if i == 7 {
        ToolRow {
            id: "inspection.apple.simulators-v1"@,
            name: "Apple simulator devices"@,
            macos: Some("Library/Developer/CoreSimulator/Devices"@),
            linux: None,
            risk: RiskLevel::Expert,
            action: RecommendedAction::GuidedCommand,
            regeneration: RegenerationBehavior::PotentialStateLoss,
        }
    } else if i == 8 {
        ToolRow {
            id: "inspection.docker.raw-v1"@,
            name: "Docker Desktop virtual disk"@,
            macos: Some("Library/Containers/com.docker.docker/Data/vms/0/data/Docker.raw"@),
            linux: Some(".docker/desktop/vms/0/data/Docker.raw"@),
            risk: RiskLevel::Expert,
            action: RecommendedAction::GuidedCommand,
            regeneration: RegenerationBehavior::PotentialStateLoss,
        }
    } else if i == 9 {
        ToolRow {
            id: "inspection.cursor.state-db-v1"@,
            name: "Cursor state database"@,
            macos: Some("Library/Application Support/Cursor/User/globalStorage/state.vscdb"@),
            linux: Some(".config/Cursor/User/globalStorage/state.vscdb"@),
            risk: RiskLevel::Expert,
            action: RecommendedAction::GuidedCommand,
            regeneration: RegenerationBehavior::PotentialStateLoss,
        }
    } else if i == 10 {
        ToolRow {
            id: "inspection.codex.runtimes-v1"@,
            name: "Codex workspace runtimes"@,
            macos: Some(".cache/codex-runtimes"@),
            linux: Some(".cache/codex-runtimes"@),
            risk: RiskLevel::Expert,
            action: RecommendedAction::GuidedCommand,
            regeneration: RegenerationBehavior::Redownload,
        }
    } else if i == 11 {
        ToolRow {
            id: "inspection.playwright.browsers-v1"@,
            name: "Playwright browsers and profiles"@,
            macos: Some("Library/Caches/ms-playwright"@),
            linux: Some(".cache/ms-playwright"@),
            risk: RiskLevel::Careful,
            action: RecommendedAction::GuidedCommand,
            regeneration: RegenerationBehavior::PotentialStateLoss,
        }
    } else if i == 12 {
        ToolRow {
            id: "inspection.zed.node-runtime-v1"@,
            name: "Zed bundled Node runtime"@,
            macos: Some("Library/Application Support/Zed/node"@),
            linux: Some(".local/share/zed/node"@),
            risk: RiskLevel::Careful,
            action: RecommendedAction::MoveToTrash,
            regeneration: RegenerationBehavior::Redownload,
        }
    } else if i == 13 {
        ToolRow {
            id: "inspection.zed.language-runtimes-v1"@,
            name: "Zed language runtimes"@,
            macos: Some("Library/Application Support/Zed/languages"@),
            linux: Some(".local/share/zed/languages"@),
            risk: RiskLevel::Careful,
            action: RecommendedAction::MoveToTrash,
            regeneration: RegenerationBehavior::Redownload,
        }
    } else if i == 14 {
        ToolRow {
            id: "inspection.user.dot-cache-v1"@,
            name: "Unclassified user cache remainder"@,
            macos: Some(".cache"@),
            linux: Some(".cache"@),
            risk: RiskLevel::Careful,
            action: RecommendedAction::Review,
            regeneration: RegenerationBehavior::PotentialStateLoss,
        }
    } else if i == 15 {
        ToolRow {
            id: "inspection.jetbrains.versioned-data-v1"@,
            name: "JetBrains versioned application data"@,
            macos: Some("Library/Application Support/JetBrains"@),
            linux: Some(".config/JetBrains"@),
            risk: RiskLevel::Careful,
            action: RecommendedAction::Review,
            regeneration: RegenerationBehavior::PotentialStateLoss,
        }
    } else if i == 16 {
        ToolRow {
            id: "inspection.notion.partitions-v1"@,
            name: "Notion offline partitions"@,
            macos: Some("Library/Application Support/Notion/Partitions"@),
            linux: Some(".config/Notion/Partitions"@),
            risk: RiskLevel::Careful,
            action: RecommendedAction::Review,
            regeneration: RegenerationBehavior::Redownload,
        }
    } else if i == 17 {
        ToolRow {
            id: "inspection.swiftpm.repositories-v1"@,
            name: "SwiftPM repository data"@,
            macos: Some("Library/org.swift.swiftpm"@),
            linux: Some(".local/share/org.swift.swiftpm"@),
            risk: RiskLevel::Careful,
            action: RecommendedAction::Review,
            regeneration: RegenerationBehavior::Redownload,
        }
    } else if i == 18 {
        ToolRow {
            id: "inspection.runtime.rbenv-v1"@,
            name: "rbenv installations"@,
            macos: Some(".rbenv"@),
            linux: Some(".rbenv"@),
            risk: RiskLevel::Expert,
            action: RecommendedAction::GuidedCommand,
            regeneration: RegenerationBehavior::PotentialStateLoss,
        }
    } else if i == 19 {
        ToolRow {
            id: "inspection.runtime.asdf-v1"@,
            name: "asdf installations"@,
            macos: Some(".asdf"@),
            linux: Some(".asdf"@),
            risk: RiskLevel::Expert,
            action: RecommendedAction::GuidedCommand,
            regeneration: RegenerationBehavior::PotentialStateLoss,
        }
    } else if i == 20 {
        ToolRow {
            id: "inspection.runtime.mise-v1"@,
            name: "mise language installations"@,
            macos: Some(".local/share/mise/installs"@),
            linux: Some(".local/share/mise/installs"@),
            risk: RiskLevel::Expert,
            action: RecommendedAction::GuidedCommand,
            regeneration: RegenerationBehavior::PotentialStateLoss,
        }
    } else if i == 21 {
        ToolRow {
            id: "inspection.kubernetes.minikube-v1"@,
            name: "minikube local cluster data"@,
            macos: Some(".minikube"@),
            linux: Some(".minikube"@),
            risk: RiskLevel::Expert,
            action: RecommendedAction::GuidedCommand,
            regeneration: RegenerationBehavior::PotentialStateLoss,
        }
    } else if i == 22 {
        ToolRow {
            id: "inspection.ml.unsloth-v1"@,
            name: "Unsloth models and training data"@,
            macos: Some(".unsloth"@),
            linux: Some(".unsloth"@),
            risk: RiskLevel::Expert,
            action: RecommendedAction::GuidedCommand,
            regeneration: RegenerationBehavior::PotentialStateLoss,
        }
    } else if i == 23 {
        ToolRow {
            id: "inspection.ml.huggingface-v1"@,
            name: "Hugging Face cache and models"@,
            macos: Some(".cache/huggingface"@),
            linux: Some(".cache/huggingface"@),
            risk: RiskLevel::Expert,
            action: RecommendedAction::GuidedCommand,
            regeneration: RegenerationBehavior::PotentialStateLoss,
        }
    } else if i == 24 {
        ToolRow {
            id: "inspection.ml.pytorch-v1"@,
            name: "PyTorch cache and models"@,
            macos: Some(".cache/torch"@),
            linux: Some(".cache/torch"@),
            risk: RiskLevel::Expert,
            action: RecommendedAction::GuidedCommand,
            regeneration: RegenerationBehavior::PotentialStateLoss,
        }
    } else if i == 25 {
        ToolRow {
            id: "inspection.ml.ollama-v1"@,
            name: "Ollama models"@,
            macos: Some(".ollama/models"@),
            linux: None,
            risk: RiskLevel::Expert,
            action: RecommendedAction::GuidedCommand,
            regeneration: RegenerationBehavior::PotentialStateLoss,
        }
    } else if i == 26 {
        ToolRow {
            id: "inspection.container.colima-v1"@,
            name: "Colima virtual machines and container data"@,
            macos: Some(".colima"@),
            linux: Some(".colima"@),
            risk: RiskLevel::Expert,
            action: RecommendedAction::GuidedCommand,
            regeneration: RegenerationBehavior::PotentialStateLoss,
        }
    } else if i == 27 {
        ToolRow {
            id: "inspection.container.lima-v1"@,
            name: "Lima virtual machines"@,
            macos: Some(".lima"@),
            linux: Some(".lima"@),
            risk: RiskLevel::Expert,
            action: RecommendedAction::GuidedCommand,
            regeneration: RegenerationBehavior::PotentialStateLoss,
        }
    } else {
        ToolRow {
            id: "inspection.container.orbstack-v1"@,
            name: "OrbStack container and machine data"@,
            macos: Some("Library/Group Containers/HUAQ24HBR6.dev.orbstack"@),
            linux: None,
            risk: RiskLevel::Expert,
            action: RecommendedAction::GuidedCommand,
            regeneration: RegenerationBehavior::PotentialStateLoss,
        }
    }
}

fn description_for(id: &str) -> (r: &'static str)
    ensures
        r@ == tool_description(id@),
{
    if contains_text(id, "xcode-derived-data") {
        "Regenerable Xcode build and index output. Quit Xcode first; manual selection requires Careful confirmation and the next build may be slower."
    } else if contains_text(id, "jetbrains-cache") {
        "Regenerable JetBrains indexes and caches. Quit every JetBrains IDE first; manual selection requires Careful confirmation and reindexing may take time."
    } else if contains_text(id, "vscode-cache") {
        "Regenerable Visual Studio Code cache. Quit Visual Studio Code first; manual selection requires Careful confirmation."
    } else if contains_text(id, "android.sdk-temp") {
        "Android SDK temporary downloads and staging data. Quit Android Studio first; manual selection requires Careful confirmation and downloads may restart."
    } else if contains_text(id, "docker") {
        "Docker Desktop virtual disk inspection only. Review `docker system df`; DiskSage never removes Docker.raw directly."
    } else if contains_text(id, "cursor.state-db") {
        "Cursor's live SQLite state database. Close Cursor and inspect a guided VACUUM workflow; DiskSage never moves or modifies the database directly. VACUUM may require substantial temporary free space."
    } else if contains_text(id, "codex.runtimes") {
        "Codex-managed workspace runtimes may be in use by active tasks. Close Codex and verify the runtime is no longer needed; DiskSage never selects it for cleanup."
    } else if contains_text(id, "playwright") {
        "Playwright browser downloads can be reinstalled, but this cache can also contain persistent MCP browser profiles and signed-in state. Review `npx playwright uninstall --all` and profile ownership first."
    } else if contains_text(id, "xcode.archives") {
        "Xcode Archives may contain the only retained build used for distribution, symbolication, or crash reports. Inspect them in Xcode Organizer; they are not automatically regenerable."
    } else if contains_text(id, "xcode.device-support") {
        "Xcode downloads device-support files again when required. Remove obsolete OS versions through Xcode after confirming no connected device or debugging workflow needs them."
    } else if contains_text(id, "swiftpm.repositories") {
        "SwiftPM repository data can normally be fetched again, but custom or offline sources may be costly to restore. Review it separately from the safe SwiftPM download cache."
    } else if contains_text(id, "mise") {
        "Language installations managed by mise. Review `mise prune --dry-run`; DiskSage never removes runtimes directly."
    } else if contains_text(id, "rbenv") || contains_text(id, "asdf") {
        "Installed language runtimes may still be referenced by projects or shells. Verify configuration with the owning version manager before removal."
    } else if contains_text(id, "minikube") {
        "Local Kubernetes clusters can contain workloads and volumes. Inspect with minikube before using its guided deletion commands."
    } else if contains_text(id, "unsloth") {
        "Local ML models and training artifacts may be expensive or impossible to reproduce. Review ownership before removal."
    } else if contains_text(id, "huggingface") || contains_text(id, "pytorch") {
        "Model weights, datasets, checkpoints, and compiled artifacts may be large, private, or expensive to reproduce. Use the owning ML tool to inspect them; DiskSage never selects them automatically."
    } else if contains_text(id, "ollama") {
        "Installed Ollama models can be tens or hundreds of gigabytes. Review `ollama list` and remove individual models with `ollama rm`; DiskSage never deletes the model store directly."
    } else if contains_text(id, "colima") {
        "Colima virtual machines may contain images, containers, Kubernetes state, and persistent volumes. Inspect with `colima status` and use `colima delete --data` only when intentional."
    } else if contains_text(id, "container.lima") {
        "Lima instances are virtual machines that may contain irreplaceable local state. Inspect and remove instances with `limactl`; DiskSage never deletes their storage directly."
    } else if contains_text(id, "orbstack") {
        "OrbStack data can include containers, images, volumes, and Linux machines. Use OrbStack's own management interface for cleanup; DiskSage provides inspection only."
    } else if contains_text(id, "notion.partitions") {
        "Notion offline data may require a full cloud re-sync. Close Notion and confirm all important content is synchronized before review."
    } else if contains_text(id, "user.dot-cache") {
        "Mixed cache data not covered by a more specific finding. Known child caches are excluded from this measurement to prevent double-counting; the remainder is review-only."
    } else if contains_text(id, "jetbrains.versioned-data") {
        "Versioned JetBrains application data can contain settings and plugins as well as caches. Confirm an IDE version is unused before removing it with JetBrains tools."
    } else if contains_text(id, "zed") {
        "Zed-managed runtimes can be downloaded again, but removal interrupts language tooling until Zed rebuilds them."
    } else if contains_text(id, "android") || contains_text(id, "simulator") {
        "Emulator state inspection only. Use the platform's device manager for any removal."
    } else {
        "IDE cache inspection only. Rebuilding may require downloads, reindexing, or an application restart."
    }
}

fn category_for(id: &str) -> (r: RuleCategory)
    ensures
        r == tool_category(id@),
{
    if contains_text(id, "docker") || contains_text(id, "minikube") || contains_text(id, "vm-bundles")
        || contains_text(id, "container.colima") || contains_text(id, "container.lima")
        || contains_text(id, "orbstack") {
        RuleCategory::Container
    } else if contains_text(id, "android") || contains_text(id, "simulator") || contains_text(id, "device-support") {
        RuleCategory::Emulator
    } else if contains_text(id, "xcode.archives") {
        RuleCategory::BuildArtifact
    } else {
        RuleCategory::ApplicationCache
    }
}

fn owned(o: Option<&str>) -> (r: Option<String>)
    ensures
        opt_view(r) == opt_str_view(o),
{
    match o {
        Some(s) => Some(String::from_str(s)),
        None => None,
    }
}

fn tool(
    id: &str,
    name: &str,
    macos_path: Option<&str>,
    linux_path: Option<&str>,
    risk: RiskLevel,
    action: RecommendedAction,
    regeneration_behavior: RegenerationBehavior,
) -> (r: DeveloperToolSpec)
    ensures
        tool_built(r, ToolRow {
            id: id@,
            name: name@,
            macos: opt_str_view(macos_path),
            linux: opt_str_view(linux_path),
            risk,
            action,
            regeneration: regeneration_behavior,
        }),
{
    let ghost mac = opt_str_view(macos_path);
    let ghost lin = opt_str_view(linux_path);
    let mut platforms: Vec<Platform> = Vec::new();
    let mut targets: Vec<RuleTarget> = Vec::new();
    if let Some(p) = macos_path {
        platforms.push(Platform::Macos);
        targets.push(RuleTarget::HomeRelative { path: String::from_str(p) });
    }
    if let Some(p) = linux_path {
        platforms.push(Platform::Linux);
        targets.push(RuleTarget::HomeRelative { path: String::from_str(p) });
    }
    assert(platforms@ =~= tool_platforms(mac, lin));
    assert(targets@.len() == tool_paths(mac, lin).len());
    let description = description_for(id);
    DeveloperToolSpec {
        definition: RuleDefinition {
            id: String::from_str(id),
            version: 1,
            category: category_for(id),
            display_name: String::from_str(name),
            description: String::from_str(description),
            risk,
            platforms,
            targets,
            matcher: RuleMatcher::ExactPath,
            minimum_size: Some(1),
            maximum_age_days: None,
            recommended_action: action,
            regeneration_behavior,
            default_enabled: false,
        },
        macos_path: owned(macos_path),
        linux_path: owned(linux_path),
    }
}

/// The `i`-th entry of the developer tool catalog.
pub fn developer_tool_entry(i: usize) -> (r: DeveloperToolSpec)
    requires
        i < DEVELOPER_TOOL_COUNT,
    ensures
        tool_built(r, developer_tool_row(i as int)),
{
    if i == 0 {
        tool(
            "inspection.ide.xcode-derived-data-v1",
            "Xcode DerivedData",
            Some("Library/Developer/Xcode/DerivedData"),
            None,
            RiskLevel::Careful,
            RecommendedAction::MoveToTrash,
            RegenerationBehavior::Reindex,
        )
    } else if i == 1 {
        tool(
            "inspection.xcode.archives-v1",
            "Xcode Archives",
            Some("Library/Developer/Xcode/Archives"),
            None,
            RiskLevel::Careful,
            RecommendedAction::Review,
            RegenerationBehavior::NotRegenerable,
        )
    } else if i == 2 {
        tool(
            "inspection.xcode.device-support-v1",
            "Xcode iOS DeviceSupport",
            Some("Library/Developer/Xcode/iOS DeviceSupport"),
            None,
            RiskLevel::Careful,
            RecommendedAction::Review,
            RegenerationBehavior::Redownload,
        )
    } else if i == 3 {
        tool(
            "inspection.ide.jetbrains-cache-v1",
            "JetBrains IDE caches",
            Some("Library/Caches/JetBrains"),
            Some(".cache/JetBrains"),
            RiskLevel::Careful,
            RecommendedAction::MoveToTrash,
            RegenerationBehavior::Reindex,
        )
    } else if i == 4 {
        tool(
            "inspection.ide.vscode-cache-v1",
            "Visual Studio Code cache",
            Some("Library/Application Support/Code/Cache"),
            Some(".config/Code/Cache"),
            RiskLevel::Careful,
            RecommendedAction::MoveToTrash,
            RegenerationBehavior::RestartRequired,
        )
    } else if i == 5 {
        tool(
            "inspection.android.sdk-temp-v1",
            "Android SDK temporary data",
            Some("Library/Android/sdk/.temp"),
            Some("Android/Sdk/.temp"),
            RiskLevel::Careful,
            RecommendedAction::MoveToTrash,
            RegenerationBehavior::Redownload,
        )
    } else if i == 6 {
        tool(
            "inspection.android.avd-v1",
            "Android virtual devices",
            Some(".android/avd"),
            Some(".android/avd"),
            RiskLevel::Expert,
            RecommendedAction::GuidedCommand,
            RegenerationBehavior::PotentialStateLoss,
        )
    } else if i == 7 {
        tool(
            "inspection.apple.simulators-v1",
            "Apple simulator devices",
            Some("Library/Developer/CoreSimulator/Devices"),
            None,
            RiskLevel::Expert,
            RecommendedAction::GuidedCommand,
            RegenerationBehavior::PotentialStateLoss,
        )
    } else if i == 8 {
        tool(
            "inspection.docker.raw-v1",
            "Docker Desktop virtual disk",
            Some("Library/Containers/com.docker.docker/Data/vms/0/data/Docker.raw"),
            Some(".docker/desktop/vms/0/data/Docker.raw"),
            RiskLevel::Expert,
            RecommendedAction::GuidedCommand,
            RegenerationBehavior::PotentialStateLoss,
        )
    } else if i == 9 {
        tool(
            "inspection.cursor.state-db-v1",
            "Cursor state database",
            Some("Library/Application Support/Cursor/User/globalStorage/state.vscdb"),
            Some(".config/Cursor/User/globalStorage/state.vscdb"),
            RiskLevel::Expert,
            RecommendedAction::GuidedCommand,
            RegenerationBehavior::PotentialStateLoss,
        )
    } else if i == 10 {
        tool(
            "inspection.codex.runtimes-v1",
            "Codex workspace runtimes",
            Some(".cache/codex-runtimes"),
            Some(".cache/codex-runtimes"),
            RiskLevel::Expert,
            RecommendedAction::GuidedCommand,
            RegenerationBehavior::Redownload,
        )
    } else if i == 11 {
        tool(
            "inspection.playwright.browsers-v1",
            "Playwright browsers and profiles",
            Some("Library/Caches/ms-playwright"),
            Some(".cache/ms-playwright"),
            RiskLevel::Careful,
            RecommendedAction::GuidedCommand,
            RegenerationBehavior::PotentialStateLoss,
        )
    } else if i == 12 {
        tool(
            "inspection.zed.node-runtime-v1",
            "Zed bundled Node runtime",
            Some("Library/Application Support/Zed/node"),
            Some(".local/share/zed/node"),
            RiskLevel::Careful,
            RecommendedAction::MoveToTrash,
            RegenerationBehavior::Redownload,
        )
    } else if i == 13 {
        tool(
            "inspection.zed.language-runtimes-v1",
            "Zed language runtimes",
            Some("Library/Application Support/Zed/languages"),
            Some(".local/share/zed/languages"),
            RiskLevel::Careful,
            RecommendedAction::MoveToTrash,
            RegenerationBehavior::Redownload,
        )
    } else if i == 14 {
        tool(
            "inspection.user.dot-cache-v1",
            "Unclassified user cache remainder",
            Some(".cache"),
            Some(".cache"),
            RiskLevel::Careful,
            RecommendedAction::Review,
            RegenerationBehavior::PotentialStateLoss,
        )
    } else if i == 15 {
        tool(
            "inspection.jetbrains.versioned-data-v1",
            "JetBrains versioned application data",
            Some("Library/Application Support/JetBrains"),
            Some(".config/JetBrains"),
            RiskLevel::Careful,
            RecommendedAction::Review,
            RegenerationBehavior::PotentialStateLoss,
        )
    } else if i == 16 {
        tool(
            "inspection.notion.partitions-v1",
            "Notion offline partitions",
            Some("Library/Application Support/Notion/Partitions"),
            Some(".config/Notion/Partitions"),
            RiskLevel::Careful,
            RecommendedAction::Review,
            RegenerationBehavior::Redownload,
        )
    } else if i == 17 {
        tool(
            "inspection.swiftpm.repositories-v1",
            "SwiftPM repository data",
            Some("Library/org.swift.swiftpm"),
            Some(".local/share/org.swift.swiftpm"),
            RiskLevel::Careful,
            RecommendedAction::Review,
            RegenerationBehavior::Redownload,
        )
    } else if i == 18 {
        tool(
            "inspection.runtime.rbenv-v1",
            "rbenv installations",
            Some(".rbenv"),
            Some(".rbenv"),
            RiskLevel::Expert,
            RecommendedAction::GuidedCommand,
            RegenerationBehavior::PotentialStateLoss,
        )
    } else if i == 19 {
        tool(
            "inspection.runtime.asdf-v1",
            "asdf installations",
            Some(".asdf"),
            Some(".asdf"),
            RiskLevel::Expert,
            RecommendedAction::GuidedCommand,
            RegenerationBehavior::PotentialStateLoss,
        )
    } else if i == 20 {
        tool(
            "inspection.runtime.mise-v1",
            "mise language installations",
            Some(".local/share/mise/installs"),
            Some(".local/share/mise/installs"),
            RiskLevel::Expert,
            RecommendedAction::GuidedCommand,
            RegenerationBehavior::PotentialStateLoss,
        )
    } else if i == 21 {
        tool(
            "inspection.kubernetes.minikube-v1",
            "minikube local cluster data",
            Some(".minikube"),
            Some(".minikube"),
            RiskLevel::Expert,
            RecommendedAction::GuidedCommand,
            RegenerationBehavior::PotentialStateLoss,
        )
    } else if i == 22 {
        tool(
            "inspection.ml.unsloth-v1",
            "Unsloth models and training data",
            Some(".unsloth"),
            Some(".unsloth"),
            RiskLevel::Expert,
            RecommendedAction::GuidedCommand,
            RegenerationBehavior::PotentialStateLoss,
        )
    } else if i == 23 {
        tool(
            "inspection.ml.huggingface-v1",
            "Hugging Face cache and models",
            Some(".cache/huggingface"),
            Some(".cache/huggingface"),
            RiskLevel::Expert,
            RecommendedAction::GuidedCommand,
            RegenerationBehavior::PotentialStateLoss,
        )
    } else if i == 24 {
        tool(
            "inspection.ml.pytorch-v1",
            "PyTorch cache and models",
            Some(".cache/torch"),
            Some(".cache/torch"),
            RiskLevel::Expert,
            RecommendedAction::GuidedCommand,
            RegenerationBehavior::PotentialStateLoss,
        )
    } else if i == 25 {
        tool(
            "inspection.ml.ollama-v1",
            "Ollama models",
            Some(".ollama/models"),
            None,
            RiskLevel::Expert,
            RecommendedAction::GuidedCommand,
            RegenerationBehavior::PotentialStateLoss,
        )
    } else if i == 26 {
        tool(
            "inspection.container.colima-v1",
            "Colima virtual machines and container data",
            Some(".colima"),
            Some(".colima"),
            RiskLevel::Expert,
            RecommendedAction::GuidedCommand,
            RegenerationBehavior::PotentialStateLoss,
        )
    } else if i == 27 {
        tool(
            "inspection.container.lima-v1",
            "Lima virtual machines",
            Some(".lima"),
            Some(".lima"),
            RiskLevel::Expert,
            RecommendedAction::GuidedCommand,
            RegenerationBehavior::PotentialStateLoss,
        )
    } else {
        tool(
            "inspection.container.orbstack-v1",
            "OrbStack container and machine data",
            Some("Library/Group Containers/HUAQ24HBR6.dev.orbstack"),
            None,
            RiskLevel::Expert,
            RecommendedAction::GuidedCommand,
            RegenerationBehavior::PotentialStateLoss,
        )
    }
}

/// The developer tool catalog: every entry of `developer_tool_row`, in order.
pub fn catalog() -> (r: Vec<DeveloperToolSpec>)
    ensures
        r@.len() == DEVELOPER_TOOL_COUNT,
        forall|i: int| 0 <= i < DEVELOPER_TOOL_COUNT ==> tool_built(#[trigger] r@[i], developer_tool_row(i)),
{
    let mut rules: Vec<DeveloperToolSpec> = Vec::new();
    let mut i: usize = 0;
    while i < DEVELOPER_TOOL_COUNT
        invariant
            i <= DEVELOPER_TOOL_COUNT,
            rules@.len() == i,
            forall|j: int| 0 <= j < i ==> tool_built(#[trigger] rules@[j], developer_tool_row(j)),
        decreases DEVELOPER_TOOL_COUNT - i,
    {
        rules.push(developer_tool_entry(i));
        i = i + 1;
    }
    rules
}

/// DiskSage never removes an expert-tier asset itself: every expert entry of
/// the developer tool catalog only guides the owner's own command or asks
/// for review.
pub proof fn law_expert_tools_are_never_moved(i: int)
    requires
        0 <= i < DEVELOPER_TOOL_COUNT,
        developer_tool_row(i).risk == RiskLevel::Expert,
    ensures
        developer_tool_row(i).action == RecommendedAction::GuidedCommand
            || developer_tool_row(i).action == RecommendedAction::Review,
{
}

} // verus!
