use std::collections::HashSet;

use disksage::domain::rule::{RecommendedAction, RiskLevel, RuleCategory, RuleTarget};
use disksage::domain::scan::ScanProfileId;
use disksage::rules::catalogs::{developer_tools, project_artifacts, safe_caches};
use disksage::rules::chrome::{chrome_profile_cache_targets, ChromeProfileDir};
use disksage::rules::registry::{DetectedProject, RulesRegistry};

#[test]
fn catalog_has_at_least_thirty_unique_safe_rules() {
    let rules = safe_caches::catalog();
    let ids: HashSet<_> = rules
        .iter()
        .map(|rule| rule.definition.id.as_str())
        .collect();
    assert!(rules.len() >= 30);
    assert_eq!(ids.len(), rules.len());
    assert!(rules
        .iter()
        .all(|rule| rule.definition.risk == RiskLevel::Safe));
    for rule in rules {
        assert!(
            !rule.definition.description.is_empty(),
            "{} needs an explanation",
            rule.definition.id
        );
        assert_eq!(
            rule.definition.recommended_action,
            RecommendedAction::MoveToTrash
        );
        assert!(rule.definition.minimum_size.is_some());
        assert!(!rule.macos_path.starts_with('/'));
        assert!(!rule.linux_path.starts_with('/'));
    }
}

#[test]
fn docker_and_emulators_are_never_cleanup_defaults() {
    let rules = developer_tools::catalog();
    assert!(rules.iter().all(|rule| !rule.definition.default_enabled));
    assert!(rules
        .iter()
        .filter(|rule| rule.definition.risk == RiskLevel::Expert)
        .all(|rule| rule.definition.recommended_action == RecommendedAction::GuidedCommand));
    assert!(rules
        .iter()
        .flat_map(|rule| rule.definition.targets.iter())
        .all(|target| {
            matches!(target, RuleTarget::HomeRelative { path } if !path.starts_with('/'))
        }));
}

#[test]
fn has_at_least_twenty_contextual_careful_rules() {
    let rules = project_artifacts::catalog();
    let ids: HashSet<_> = rules.iter().map(|rule| &rule.definition.id).collect();
    assert!(rules.len() >= 20);
    assert_eq!(ids.len(), rules.len());
    assert!(rules
        .iter()
        .all(|rule| rule.definition.risk == RiskLevel::Careful));
    assert!(rules.iter().all(|rule| !rule.definition.default_enabled));
    assert!(rules.iter().all(|rule| !rule.indicators.is_empty()));
}

#[test]
fn registry_defines_at_least_twenty_five_versioned_rules() {
    let mut ids = HashSet::new();
    let mut count = 0;
    for definition in safe_caches::catalog()
        .into_iter()
        .map(|rule| rule.definition)
        .chain(
            developer_tools::catalog()
                .into_iter()
                .map(|rule| rule.definition),
        )
        .chain(
            project_artifacts::catalog()
                .into_iter()
                .map(|rule| rule.definition),
        )
    {
        count += 1;
        assert!(definition.version > 0);
        assert!(ids.insert(definition.id));
    }
    assert!(count >= 25);
    assert!(developer_tools::catalog()
        .iter()
        .all(|rule| !rule.definition.default_enabled));
    assert!(project_artifacts::catalog()
        .iter()
        .all(|rule| !rule.definition.default_enabled));
}

#[test]
fn package_cache_descriptions_name_their_manager() {
    let rules = safe_caches::catalog();
    let npm = rules.iter().find(|rule| rule.definition.id == "cache.npm.content-v1").unwrap();
    assert_eq!(
        npm.definition.description,
        "Downloaded npm packages that can be fetched again when needed."
    );
    assert_eq!(npm.macos_path, ".npm/_cacache");
}

#[test]
fn developer_tool_categories_follow_their_identifiers() {
    let rules = developer_tools::catalog();
    let category = |id: &str| rules.iter().find(|rule| rule.definition.id == id).unwrap().definition.category;
    assert_eq!(category("inspection.docker.raw-v1"), RuleCategory::Container);
    assert_eq!(category("inspection.android.avd-v1"), RuleCategory::Emulator);
    assert_eq!(category("inspection.xcode.device-support-v1"), RuleCategory::Emulator);
    assert_eq!(category("inspection.xcode.archives-v1"), RuleCategory::BuildArtifact);
    assert_eq!(category("inspection.ide.jetbrains-cache-v1"), RuleCategory::ApplicationCache);
    let xcode = rules.iter().find(|rule| rule.definition.id == "inspection.apple.simulators-v1").unwrap();
    assert_eq!(xcode.definition.platforms.len(), 1);
    assert_eq!(xcode.definition.targets.len(), 1);
}

#[test]
fn quick_scan_selects_its_five_caches_with_chrome_last() {
    let registry = RulesRegistry;
    let rules = registry.rules_for(ScanProfileId::Quick, "/Users/alex", "macos", &[]);
    let ids: Vec<&str> = rules.iter().map(|rule| rule.definition.id.as_str()).collect();
    assert_eq!(
        ids,
        vec![
            "cache.npm.content-v1",
            "cache.yarn.downloads-v1",
            "cache.pip.downloads-v1",
            "cache.browser.firefox-v1",
            "cache.browser.chrome-v1",
        ]
    );
    assert_eq!(rules[1].target, "/Users/alex/Library/Caches/Yarn");
    assert!(registry.rules_for(ScanProfileId::Custom, "/Users/alex", "macos", &[]).is_empty());
}

#[test]
fn chrome_cache_rule_expands_to_each_known_profile() {
    let listing = vec![
        ChromeProfileDir { root: 0, profile: "Profile 2".to_owned(), is_directory: true, cache_is_directory: true },
        ChromeProfileDir { root: 0, profile: "Default".to_owned(), is_directory: true, cache_is_directory: true },
        ChromeProfileDir { root: 0, profile: "Not a profile".to_owned(), is_directory: true, cache_is_directory: true },
        ChromeProfileDir { root: 0, profile: "Default".to_owned(), is_directory: true, cache_is_directory: true },
        ChromeProfileDir { root: 1, profile: "Guest Profile".to_owned(), is_directory: true, cache_is_directory: false },
    ];
    let targets = chrome_profile_cache_targets("/Users/alex", "macos", &listing);
    assert_eq!(targets.len(), 2);
    assert_eq!(targets[0].path, "/Users/alex/Library/Caches/Google/Chrome/Default/Cache/Cache_Data");
    assert_eq!(targets[1].path, "/Users/alex/Library/Caches/Google/Chrome/Profile 2/Cache/Cache_Data");
    assert_eq!(targets[0].label, "Chrome · Default");
    let rules = RulesRegistry.rules_for(ScanProfileId::Quick, "/Users/alex", "macos", &targets);
    let chrome: Vec<_> = rules.iter().filter(|rule| rule.definition.id == "cache.browser.chrome-v1").collect();
    assert_eq!(chrome.len(), 2);
    assert_eq!(chrome[0].definition.display_name, "Google Chrome cache (Chrome · Default)");
    assert!(chrome.iter().all(|rule| rule.target.ends_with("Cache/Cache_Data")));
    let resolved = RulesRegistry.resolve(
        "cache.browser.chrome-v1",
        1,
        "/Users/alex",
        "macos",
        "/Users/alex/Library/Caches/Google/Chrome/Profile 2/Cache/Cache_Data",
        &targets,
        &[],
    );
    assert!(resolved.is_some());
}

#[test]
fn project_artifacts_require_manifest_context() {
    let registry = RulesRegistry;
    let without_manifest = registry.rules_for_scan(
        ScanProfileId::Developer,
        "/home/alex",
        "linux",
        &[],
        &[DetectedProject { path: "/home/alex/plain".to_owned(), manifests: vec![] }],
    );
    assert!(!without_manifest
        .iter()
        .any(|rule| rule.definition.id.starts_with("artifact.")));
    let with_manifest = registry.rules_for_scan(
        ScanProfileId::Developer,
        "/home/alex",
        "linux",
        &[],
        &[DetectedProject { path: "/home/alex/plain".to_owned(), manifests: vec!["package.json".to_owned()] }],
    );
    assert!(with_manifest
        .iter()
        .any(|rule| rule.definition.id == "artifact.node.build-v1"));
    assert!(registry
        .resolve(
            "artifact.node.build-v1",
            1,
            "/home/alex",
            "linux",
            "/home/alex/plain/build",
            &[],
            &["/home/alex/plain/package.json".to_owned()],
        )
        .is_some());
    assert!(registry
        .resolve("artifact.node.build-v1", 1, "/home/alex", "linux", "/home/alex/plain/build", &[], &[])
        .is_none());
    assert!(registry
        .resolve("artifact.node.build-v1", 1, "/home/alex", "linux", "/home/alex/build", &[], &["/home/alex/package.json".to_owned()])
        .is_none());
}

#[test]
fn developer_scan_includes_expanded_workstation_targets_but_quick_scan_does_not() {
    let registry = RulesRegistry;
    let developer = registry.rules_for_scan(ScanProfileId::Developer, "/Users/alex", "macos", &[], &[]);
    let quick = registry.rules_for_scan(ScanProfileId::Quick, "/Users/alex", "macos", &[], &[]);
    for id in [
        "cache.cursor.cached-data-v1",
        "cache.updater.codex-v1",
        "cache.uv-v1",
        "cache.pre-commit-v1",
        "cache.cypress-v1",
        "cache.vscode.extension-vsix-v1",
        "inspection.cursor.state-db-v1",
        "inspection.jetbrains.versioned-data-v1",
        "inspection.runtime.mise-v1",
        "inspection.codex.runtimes-v1",
        "inspection.xcode.archives-v1",
        "inspection.playwright.browsers-v1",
        "inspection.ml.huggingface-v1",
        "inspection.ml.ollama-v1",
        "inspection.container.colima-v1",
        "inspection.container.lima-v1",
        "inspection.container.orbstack-v1",
    ] {
        assert!(developer.iter().any(|rule| rule.definition.id == id), "missing {id}");
        assert!(!quick.iter().any(|rule| rule.definition.id == id), "{id} leaked into Quick Scan");
    }
}

#[test]
fn unclassified_cache_remainder_excludes_every_known_nested_rule() {
    let registry = RulesRegistry;
    let rules = registry.rules_for_scan(ScanProfileId::Developer, "/home/alex", "linux", &[], &[]);
    let remainder = rules
        .iter()
        .find(|rule| rule.definition.id == "inspection.user.dot-cache-v1")
        .unwrap();
    assert!(remainder.excluded_targets.contains(&"/home/alex/.cache/uv".to_owned()));
    assert!(!remainder.excluded_targets.contains(&"/home/alex/.cache".to_owned()));
    let mut targets: Vec<&str> = rules.iter().map(|rule| rule.target.as_str()).collect();
    let total = targets.len();
    targets.sort();
    targets.dedup();
    assert_eq!(targets.len(), total);
}
