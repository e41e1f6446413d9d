use vstd::prelude::*;
use crate::domain::rule::RuleDefinition;
use crate::domain::scan::ScanProfileId;
use crate::paths::{components, join, join_exec, same_path, PathStyle};
use crate::paths::{comps_prefix, comp_views, components_exec, comps_equal_exec, path_starts_with,
    path_starts_with_exec, same_path_exec, copy_components, Comp, Component};
use crate::rules::catalogs::developer_tools::{
    developer_tool_entry, developer_tool_row, tool_definition_of, ToolRow, DEVELOPER_TOOL_COUNT,
};
use crate::rules::catalogs::project_artifacts::{
    artifact_definition_of, project_artifact_entry, project_artifact_row, string_views, ArtifactRow,
    PROJECT_ARTIFACT_COUNT,
};
use crate::text::chars_of;
use crate::rules::catalogs::safe_caches::{
    cache_definition_of, safe_cache_entry, safe_cache_row, CacheRow, SAFE_CACHE_COUNT,
};
use crate::rules::chrome::{is_macos, ChromeCacheTarget};
use crate::text::same_text;

verus! {

/// A rule bound to one concrete target path, with the nested paths that its
/// measurement leaves to other rules.
#[derive(Debug, Clone)]
pub struct ResolvedRule {
    pub definition: RuleDefinition,
    pub target: String,
    pub excluded_targets: Vec<String>,
}

/// Resolves catalog rules to concrete targets under a home folder.
#[derive(Debug, Clone, Copy)]
pub struct RulesRegistry;

/// The safe cache rules that a quick scan looks at.
pub open spec fn quick_rule_id(id: Seq<char>) -> bool {
    id == "cache.npm.content-v1"@ || id == "cache.yarn.downloads-v1"@ || id == "cache.pip.downloads-v1"@
        || id == "cache.browser.chrome-v1"@ || id == "cache.browser.firefox-v1"@
}

/// Whether a scan profile includes a safe cache rule.
pub open spec fn profile_selects(profile: ScanProfileId, id: Seq<char>) -> bool {
    match profile {
        ScanProfileId::Quick => quick_rule_id(id),
        ScanProfileId::Developer | ScanProfileId::FullAnalysis => true,
        ScanProfileId::Custom => false,
    }
}

pub open spec fn chrome_rule_id() -> Seq<char> {
    "cache.browser.chrome-v1"@
}

/// The home-relative path that applies on a platform: the macOS one on macOS,
/// the Linux one elsewhere.
pub open spec fn platform_path(platform: Seq<char>, macos: Seq<char>, linux: Seq<char>) -> Seq<char> {
    if is_macos(platform) { macos } else { linux }
}

/// The target of a safe cache entry under the home folder.
pub open spec fn cache_target(home: Seq<char>, platform: Seq<char>, row: CacheRow) -> Seq<char> {
    join(home, platform_path(platform, row.macos, row.linux), PathStyle::Posix)
}

/// The resolved rule is the catalog entry bound to its target under the home folder.
pub open spec fn resolved_cache(r: ResolvedRule, row: CacheRow, home: Seq<char>, platform: Seq<char>) -> bool {
    &&& cache_definition_of(r.definition, row)
    &&& r.definition.display_name@ == row.name
    &&& r.target@ == cache_target(home, platform, row)
    &&& r.excluded_targets@.len() == 0
}

/// The resolved rule is the Chrome entry bound to one profile's cache.
pub open spec fn resolved_chrome(r: ResolvedRule, row: CacheRow, t: ChromeCacheTarget) -> bool {
    &&& cache_definition_of(r.definition, row)
    &&& r.definition.display_name@ == "Google Chrome cache ("@ + t.label@ + ")"@
    &&& r.target@ == t.path@
    &&& r.excluded_targets@.len() == 0
}

/// The index of the first selected entry among the first `n` with Chrome's identifier.
pub open spec fn chrome_template(profile: ScanProfileId, n: int) -> Option<int>
    decreases n,
{
    if n <= 0 {
        None
    } else {
        match chrome_template(profile, n - 1) {
            Some(c) => Some(c),
            None => {
                let id = safe_cache_row(n - 1).id;
                if profile_selects(profile, id) && id == chrome_rule_id() { Some(n - 1) } else { None }
            },
        }
    }
}

/// The indices of the selected entries among the first `n`, other than the Chrome template.
pub open spec fn plain_cache_rows(profile: ScanProfileId, n: int) -> Seq<int>
    decreases n,
{
    if n <= 0 {
        Seq::empty()
    } else {
        let rest = plain_cache_rows(profile, n - 1);
        let id = safe_cache_row(n - 1).id;
        if profile_selects(profile, id) && !(id == chrome_rule_id() && chrome_template(profile, n - 1) is None) {
            rest.push(n - 1)
        } else {
            rest
        }
    }
}

/// `rules_for`: the selected safe cache rules in catalog order, then the
/// Chrome rule, expanded to one rule per profile cache when any was found.
pub open spec fn rules_for_spec(
    r: Seq<ResolvedRule>,
    profile: ScanProfileId,
    home: Seq<char>,
    platform: Seq<char>,
    chrome: Seq<ChromeCacheTarget>,
) -> bool {
    let plain = plain_cache_rows(profile, SAFE_CACHE_COUNT as int);
    let n = plain.len() as int;
    &&& forall|k: int| 0 <= k < n ==> resolved_cache(#[trigger] r[k], safe_cache_row(plain[k]), home, platform)
    &&& match chrome_template(profile, SAFE_CACHE_COUNT as int) {
        None => r.len() == n,
        Some(c) => if chrome.len() == 0 {
            r.len() == n + 1 && resolved_cache(r[n], safe_cache_row(c), home, platform)
        } else {
            r.len() == n + chrome.len() && forall|k: int| 0 <= k < chrome.len() ==> resolved_chrome(
                #[trigger] r[n + k],
                safe_cache_row(c),
                chrome[k],
            )
        },
    }
}

fn quick_rule_id_exec(id: &str) -> (r: bool)
    ensures
        r == quick_rule_id(id@),
{
    same_text(id, "cache.npm.content-v1") || same_text(id, "cache.yarn.downloads-v1")
        || same_text(id, "cache.pip.downloads-v1") || same_text(id, "cache.browser.chrome-v1")
        || same_text(id, "cache.browser.firefox-v1")
}

fn profile_selects_exec(profile: ScanProfileId, id: &str) -> (r: bool)
    ensures
        r == profile_selects(profile, id@),
{
    match profile {
        ScanProfileId::Quick => quick_rule_id_exec(id),
        ScanProfileId::Developer | ScanProfileId::FullAnalysis => true,
        ScanProfileId::Custom => false,
    }
}

/// The catalog entry `i` bound to its target under the home folder.
fn resolve_cache_entry(i: usize, home: &str, platform: &str) -> (r: ResolvedRule)
    requires
        i < SAFE_CACHE_COUNT,
    ensures
        resolved_cache(r, safe_cache_row(i as int), home@, platform@),
{
    let entry = safe_cache_entry(i);
    let relative = if same_text(platform, "macos") { entry.macos_path } else { entry.linux_path };
    let target = join_exec(home, relative.as_str(), PathStyle::Posix);
    ResolvedRule { definition: entry.definition, target, excluded_targets: Vec::new() }
}

/// The Chrome entry `i` bound to one profile cache.
fn resolve_chrome_entry(i: usize, t: &ChromeCacheTarget) -> (r: ResolvedRule)
    requires
        i < SAFE_CACHE_COUNT,
    ensures
        resolved_chrome(r, safe_cache_row(i as int), *t),
{
    let entry = safe_cache_entry(i);
    let mut definition = entry.definition;
    let mut name = String::from_str("Google Chrome cache (");
    name.append(t.label.as_str());
    name.append(")");
    definition.display_name = name;
    ResolvedRule { definition, target: t.path.clone(), excluded_targets: Vec::new() }
}

impl RulesRegistry {
    /// The safe cache rules of a scan profile, bound to the home folder. The
    /// Chrome cache rule is expanded to the given profile caches (see
    /// `chrome_profile_cache_targets`), or kept whole when none was found.
    pub fn rules_for(&self, profile: ScanProfileId, home: &str, platform: &str, chrome_targets: &[ChromeCacheTarget]) -> (r: Vec<ResolvedRule>)
        ensures
            rules_for_spec(r@, profile, home@, platform@, chrome_targets@),
    {
        let mut rules: Vec<ResolvedRule> = Vec::new();
        let mut template: Option<usize> = None;
        let mut i: usize = 0;
        while i < SAFE_CACHE_COUNT
            invariant
                i <= SAFE_CACHE_COUNT,
                template is None <==> chrome_template(profile, i as int) is None,
                template matches Some(c) ==> chrome_template(profile, i as int) == Some(c as int),
                rules@.len() == plain_cache_rows(profile, i as int).len(),
                forall|k: int| 0 <= k < rules@.len() ==> resolved_cache(
                    #[trigger] rules@[k],
                    safe_cache_row(plain_cache_rows(profile, i as int)[k]),
                    home@,
                    platform@,
                ),
                forall|k: int| 0 <= k < plain_cache_rows(profile, i as int).len() ==> 0 <= #[trigger] plain_cache_rows(profile, i as int)[k] < i,
                chrome_template(profile, i as int) matches Some(c) ==> 0 <= c < i,
            decreases SAFE_CACHE_COUNT - i,
        {
            let rule = resolve_cache_entry(i, home, platform);
            if profile_selects_exec(profile, rule.definition.id.as_str()) {
                if template.is_none() && same_text(rule.definition.id.as_str(), "cache.browser.chrome-v1") {
                    template = Some(i);
                } else {
                    rules.push(rule);
                }
            }
            i = i + 1;
        }
        let ghost n = rules@.len();
        if let Some(c) = template {
            if chrome_targets.len() == 0 {
                rules.push(resolve_cache_entry(c, home, platform));
            } else {
                let mut k: usize = 0;
                while k < chrome_targets.len()
                    invariant
                        c < SAFE_CACHE_COUNT,
                        k <= chrome_targets@.len(),
                        rules@.len() == n + k,
                        forall|j: int| 0 <= j < n ==> resolved_cache(
                            #[trigger] rules@[j],
                            safe_cache_row(plain_cache_rows(profile, SAFE_CACHE_COUNT as int)[j]),
                            home@,
                            platform@,
                        ),
                        forall|j: int| 0 <= j < k ==> resolved_chrome(
                            #[trigger] rules@[n + j],
                            safe_cache_row(c as int),
                            chrome_targets@[j],
                        ),
                    decreases chrome_targets.len() - k,
                {
                    rules.push(resolve_chrome_entry(c, &chrome_targets[k]));
                    proof {
                        assert(rules@[n + k] == rules@[rules@.len() - 1]);
                    }
                    k = k + 1;
                }
            }
        }
        rules
    }
}

/// A project directory found under the configured roots, with the names of the
/// manifest files it holds.
#[derive(Debug, Clone)]
pub struct DetectedProject {
    pub path: String,
    pub manifests: Vec<String>,
}

/// The path of a developer tool entry on a platform, if it has one there.
pub open spec fn tool_path(platform: Seq<char>, row: ToolRow) -> Option<Seq<char>> {
    if is_macos(platform) { row.macos } else { row.linux }
}

/// The resolved rule is the developer tool entry bound to its path under the home folder.
pub open spec fn resolved_tool(r: ResolvedRule, row: ToolRow, home: Seq<char>, platform: Seq<char>) -> bool {
    &&& tool_definition_of(r.definition, row)
    &&& tool_path(platform, row) matches Some(p) && r.target@ == join(home, p, PathStyle::Posix)
    &&& r.excluded_targets@.len() == 0
}

/// The indices of the developer tool entries, among the first `n`, that have a path on the platform.
pub open spec fn tool_rows_with_path(platform: Seq<char>, n: int) -> Seq<int>
    decreases n,
{
    if n <= 0 {
        Seq::empty()
    } else {
        let rest = tool_rows_with_path(platform, n - 1);
        if tool_path(platform, developer_tool_row(n - 1)) is Some { rest.push(n - 1) } else { rest }
    }
}

/// `developer_rules`: each developer tool entry with a path on the platform, in catalog order.
pub open spec fn developer_rules_spec(r: Seq<ResolvedRule>, home: Seq<char>, platform: Seq<char>) -> bool {
    let rows = tool_rows_with_path(platform, DEVELOPER_TOOL_COUNT as int);
    &&& r.len() == rows.len()
    &&& forall|k: int| 0 <= k < rows.len() ==> resolved_tool(#[trigger] r[k], developer_tool_row(rows[k]), home, platform)
}

/// One of the entry's manifests is among the names present.
pub open spec fn has_manifest(row: ArtifactRow, present: Seq<Seq<char>>) -> bool {
    exists|j: int| 0 <= j < row.indicators.len() && present.contains(#[trigger] row.indicators[j])
}

/// The resolved rule is the project artifact entry bound to a target.
pub open spec fn resolved_artifact(r: ResolvedRule, row: ArtifactRow, target: Seq<char>) -> bool {
    &&& artifact_definition_of(r.definition, row)
    &&& r.target@ == target
    &&& r.excluded_targets@.len() == 0
}

/// The artifact entries, among the first `n`, that one of the present manifests enables.
pub open spec fn artifact_rows_for(present: Seq<Seq<char>>, n: int) -> Seq<int>
    decreases n,
{
    if n <= 0 {
        Seq::empty()
    } else {
        let rest = artifact_rows_for(present, n - 1);
        if has_manifest(project_artifact_row(n - 1), present) { rest.push(n - 1) } else { rest }
    }
}

/// The (project, artifact entry) pairs for the first `m` projects, project by project.
pub open spec fn project_rule_list(projects: Seq<DetectedProject>, m: int) -> Seq<(int, int)>
    decreases m,
{
    if m <= 0 {
        Seq::empty()
    } else {
        let p = m - 1;
        project_rule_list(projects, p) + artifact_rows_for(
            string_views(projects[p].manifests@),
            PROJECT_ARTIFACT_COUNT as int,
        ).map_values(|a: int| (p, a))
    }
}

/// `project_rules`: for each project in order, each artifact entry that one of
/// its manifests enables, bound to the artifact path inside the project.
pub open spec fn project_rules_spec(r: Seq<ResolvedRule>, projects: Seq<DetectedProject>) -> bool {
    let list = project_rule_list(projects, projects.len() as int);
    &&& r.len() == list.len()
    &&& forall|k: int| 0 <= k < list.len() ==> {
        let (p, a) = #[trigger] list[k];
        resolved_artifact(r[k], project_artifact_row(a), join(projects[p].path@, project_artifact_row(a).artifact, PathStyle::Posix))
    }
}

pub open spec fn dot_cache_rule_id() -> Seq<char> {
    "inspection.user.dot-cache-v1"@
}

/// The index of the first rule with the given identifier.
pub open spec fn first_with_id(s: Seq<ResolvedRule>, id: Seq<char>, n: int) -> Option<int>
    decreases n,
{
    if n <= 0 {
        None
    } else {
        match first_with_id(s, id, n - 1) {
            Some(k) => Some(k),
            None => if s[n - 1].definition.id@ == id { Some(n - 1) } else { None },
        }
    }
}

/// The targets, among the first `n` rules, strictly inside the given root, in order.
pub open spec fn nested_targets(s: Seq<ResolvedRule>, root: Seq<char>, n: int) -> Seq<Seq<char>>
    decreases n,
{
    if n <= 0 {
        Seq::empty()
    } else {
        let rest = nested_targets(s, root, n - 1);
        let t = s[n - 1].target@;
        if !same_path(t, root, PathStyle::Posix) && path_starts_with(t, root, PathStyle::Posix) { rest.push(t) } else { rest }
    }
}

/// `assign_unclassified_cache_exclusions`: the first user-cache remainder rule
/// excludes every other target nested inside its own; nothing else changes.
pub open spec fn exclusions_spec(before: Seq<ResolvedRule>, after: Seq<ResolvedRule>) -> bool {
    &&& after.len() == before.len()
    &&& match first_with_id(before, dot_cache_rule_id(), before.len() as int) {
        None => after == before,
        Some(f) => {
            &&& forall|k: int| 0 <= k < before.len() && k != f ==> after[k] == before[k]
            &&& after[f].definition == before[f].definition
            &&& after[f].target == before[f].target
            &&& string_views(after[f].excluded_targets@) == nested_targets(before, before[f].target@, before.len() as int)
        },
    }
}

/// Some rule among the first `n` has a target equal, as a path, to `t`.
pub open spec fn target_seen(s: Seq<ResolvedRule>, n: int, t: Seq<char>) -> bool {
    exists|k: int| 0 <= k < n && same_path(#[trigger] s[k].target@, t, PathStyle::Posix)
}

/// The rules, keeping only the first one for each target path.
pub open spec fn dedup_by_target(s: Seq<ResolvedRule>) -> Seq<ResolvedRule>
    decreases s.len(),
{
    if s.len() == 0 {
        s
    } else {
        let rest = dedup_by_target(s.drop_last());
        if target_seen(s, s.len() - 1, s.last().target@) { rest } else { rest.push(s.last()) }
    }
}

fn resolve_tool_entry(i: usize, home: &str, platform: &str) -> (r: Option<ResolvedRule>)
    requires
        i < DEVELOPER_TOOL_COUNT,
    ensures
        match r {
            None => tool_path(platform@, developer_tool_row(i as int)) is None,
            Some(rule) => resolved_tool(rule, developer_tool_row(i as int), home@, platform@),
        },
{
    let entry = developer_tool_entry(i);
    let relative = if same_text(platform, "macos") { entry.macos_path } else { entry.linux_path };
    match relative {
        None => None,
        Some(p) => Some(ResolvedRule {
            definition: entry.definition,
            target: join_exec(home, p.as_str(), PathStyle::Posix),
            excluded_targets: Vec::new(),
        }),
    }
}

/// Each developer tool entry with a path on the platform, bound to the home folder.
pub fn developer_rules(home: &str, platform: &str) -> (r: Vec<ResolvedRule>)
    ensures
        developer_rules_spec(r@, home@, platform@),
{
    let mut rules: Vec<ResolvedRule> = Vec::new();
    let mut i: usize = 0;
    while i < DEVELOPER_TOOL_COUNT
        invariant
            i <= DEVELOPER_TOOL_COUNT,
            rules@.len() == tool_rows_with_path(platform@, i as int).len(),
            forall|k: int| 0 <= k < rules@.len() ==> resolved_tool(
                #[trigger] rules@[k],
                developer_tool_row(tool_rows_with_path(platform@, i as int)[k]),
                home@,
                platform@,
            ),
        decreases DEVELOPER_TOOL_COUNT - i,
    {
        if let Some(rule) = resolve_tool_entry(i, home, platform) {
            rules.push(rule);
        }
        i = i + 1;
    }
    rules
}

fn contains_name(names: &Vec<String>, name: &str) -> (r: bool)
    ensures
        r == string_views(names@).contains(name@),
{
    let mut i: usize = 0;
    while i < names.len()
        invariant
            i <= names@.len(),
            forall|j: int| 0 <= j < i ==> names@[j]@ != name@,
        decreases names.len() - i,
    {
        if same_text(names[i].as_str(), name) {
            assert(string_views(names@)[i as int] == name@);
            return true;
        }
        i = i + 1;
    }
    proof {
        if string_views(names@).contains(name@) {
            let j = choose|j: int| 0 <= j < string_views(names@).len() && string_views(names@)[j] == name@;
            assert(names@[j]@ == name@);
        }
    }
    false
}

fn has_manifest_exec(indicators: &Vec<String>, present: &Vec<String>, Ghost(row): Ghost<ArtifactRow>) -> (r: bool)
    requires
        string_views(indicators@) == row.indicators,
    ensures
        r == has_manifest(row, string_views(present@)),
{
    let mut i: usize = 0;
    while i < indicators.len()
        invariant
            string_views(indicators@) == row.indicators,
            i <= indicators@.len(),
            forall|j: int| 0 <= j < i ==> !string_views(present@).contains(#[trigger] row.indicators[j]),
        decreases indicators.len() - i,
    {
        if contains_name(present, indicators[i].as_str()) {
            assert(row.indicators[i as int] == indicators@[i as int]@);
            return true;
        }
        assert(row.indicators[i as int] == indicators@[i as int]@);
        i = i + 1;
    }
    false
}

/// For each project in order, each artifact entry that one of its manifests enables.
pub fn project_rules(projects: &[DetectedProject]) -> (r: Vec<ResolvedRule>)
    ensures
        project_rules_spec(r@, projects@),
{
    let mut rules: Vec<ResolvedRule> = Vec::new();
    let mut p: usize = 0;
    while p < projects.len()
        invariant
            p <= projects@.len(),
            rules@.len() == project_rule_list(projects@, p as int).len(),
            forall|k: int| 0 <= k < rules@.len() ==> {
                let (q, a) = #[trigger] project_rule_list(projects@, p as int)[k];
                resolved_artifact(rules@[k], project_artifact_row(a), join(projects@[q].path@, project_artifact_row(a).artifact, PathStyle::Posix))
            },
        decreases projects.len() - p,
    {
        let ghost base: int = rules@.len() as int;
        let ghost present = string_views(projects@[p as int].manifests@);
        let mut i: usize = 0;
        while i < PROJECT_ARTIFACT_COUNT
            invariant
                p < projects@.len(),
                present == string_views(projects@[p as int].manifests@),
                i <= PROJECT_ARTIFACT_COUNT,
                base == project_rule_list(projects@, p as int).len(),
                rules@.len() == base + artifact_rows_for(present, i as int).len(),
                forall|k: int| 0 <= k < base ==> {
                    let (q, a) = #[trigger] project_rule_list(projects@, p as int)[k];
                    resolved_artifact(rules@[k], project_artifact_row(a), join(projects@[q].path@, project_artifact_row(a).artifact, PathStyle::Posix))
                },
                forall|k: int| 0 <= k < artifact_rows_for(present, i as int).len() ==> {
                    let a = #[trigger] artifact_rows_for(present, i as int)[k];
                    resolved_artifact(rules@[base + k], project_artifact_row(a), join(projects@[p as int].path@, project_artifact_row(a).artifact, PathStyle::Posix))
                },
            decreases PROJECT_ARTIFACT_COUNT - i,
        {
            let spec = project_artifact_entry(i);
            if has_manifest_exec(&spec.indicators, &projects[p].manifests, Ghost(project_artifact_row(i as int))) {
                let target = join_exec(projects[p].path.as_str(), spec.artifact.as_str(), PathStyle::Posix);
                rules.push(ResolvedRule { definition: spec.definition, target, excluded_targets: Vec::new() });
                proof {
                    assert(rules@[base + artifact_rows_for(present, i as int).len()] == rules@.last());
                }
            }
            i = i + 1;
        }
        proof {
            let list = project_rule_list(projects@, p + 1);
            let own = artifact_rows_for(present, PROJECT_ARTIFACT_COUNT as int).map_values(|a: int| (p as int, a));
            assert(list == project_rule_list(projects@, p as int) + own);
            assert forall|k: int| 0 <= k < rules@.len() implies {
                let (q, a) = #[trigger] list[k];
                resolved_artifact(rules@[k], project_artifact_row(a), join(projects@[q].path@, project_artifact_row(a).artifact, PathStyle::Posix))
            } by {
                if k >= base {
                    assert(list[k] == own[k - base]);
                    assert(own[k - base] == (p as int, artifact_rows_for(present, PROJECT_ARTIFACT_COUNT as int)[k - base]));
                } else {
                    assert(list[k] == project_rule_list(projects@, p as int)[k]);
                }
            }
        }
        p = p + 1;
    }
    rules
}

fn find_first_id(rules: &Vec<ResolvedRule>, id: &str) -> (r: Option<usize>)
    ensures
        match r {
            None => first_with_id(rules@, id@, rules@.len() as int) is None,
            Some(k) => k < rules@.len() && first_with_id(rules@, id@, rules@.len() as int) == Some(k as int),
        },
{
    let mut i: usize = 0;
    while i < rules.len()
        invariant
            i <= rules@.len(),
            first_with_id(rules@, id@, i as int) is None,
        decreases rules.len() - i,
    {
        if same_text(rules[i].definition.id.as_str(), id) {
            proof { lemma_first_with_id_stable(rules@, id@, i + 1, rules@.len() as int); }
            return Some(i);
        }
        i = i + 1;
    }
    None
}

proof fn lemma_first_with_id_stable(s: Seq<ResolvedRule>, id: Seq<char>, n: int, m: int)
    requires
        0 <= n <= m <= s.len(),
        first_with_id(s, id, n) is Some,
    ensures
        first_with_id(s, id, m) == first_with_id(s, id, n),
    decreases m - n,
{
    if m > n {
        lemma_first_with_id_stable(s, id, n, m - 1);
    }
}

/// Lets the first user-cache remainder rule exclude every other target nested
/// inside its own, so that no byte is counted twice.
pub fn assign_unclassified_cache_exclusions(rules: &mut Vec<ResolvedRule>)
    ensures
        exclusions_spec(old(rules)@, final(rules)@),
{
    let f = match find_first_id(rules, "inspection.user.dot-cache-v1") {
        None => return,
        Some(f) => f,
    };
    let ghost before = rules@;
    let cache_root = rules[f].target.clone();
    let mut excluded: Vec<String> = Vec::new();
    let mut i: usize = 0;
    while i < rules.len()
        invariant
            rules@ == before,
            f < before.len(),
            cache_root@ == before[f as int].target@,
            i <= before.len(),
            string_views(excluded@) == nested_targets(before, cache_root@, i as int),
        decreases rules.len() - i,
    {
        let t = rules[i].target.as_str();
        if !same_path_exec(t, cache_root.as_str(), PathStyle::Posix)
            && path_starts_with_exec(t, cache_root.as_str(), PathStyle::Posix) {
            excluded.push(rules[i].target.clone());
            assert(string_views(excluded@) =~= string_views(excluded@.drop_last()).push(excluded@.last()@));
        }
        i = i + 1;
    }
    let mut remainder = rules.remove(f);
    remainder.excluded_targets = excluded;
    rules.insert(f, remainder);
    proof {
        assert forall|k: int| 0 <= k < before.len() && k != f implies rules@[k] == before[k] by {
            if k < f {
            } else {
            }
        }
    }
}

/// Keeps only the first rule for each target path.
pub fn dedup_targets(rules: Vec<ResolvedRule>) -> (r: Vec<ResolvedRule>)
    ensures
        r@ == dedup_by_target(rules@),
{
    let ghost orig = rules@;
    let n = rules.len();
    let mut rest = rules;
    let mut out: Vec<ResolvedRule> = Vec::new();
    let mut i: usize = 0;
    while rest.len() > 0
        invariant
            i <= orig.len(),
            orig.len() == n,
            rest@ == orig.skip(i as int),
            out@ == dedup_by_target(orig.take(i as int)),
            forall|u: Seq<char>| target_seen(orig, i as int, u) <==> target_seen(out@, out@.len() as int, u),
        decreases rest.len(),
    {
        let x = rest.remove(0);
        assert(x == orig[i as int]);
        let mut seen = false;
        let mut j: usize = 0;
        while j < out.len()
            invariant
                j <= out@.len(),
                seen == target_seen(out@, j as int, x.target@),
            decreases out.len() - j,
        {
            if !seen && same_path_exec(out[j].target.as_str(), x.target.as_str(), PathStyle::Posix) {
                seen = true;
            }
            proof {
                if seen && !target_seen(out@, j as int, x.target@) {
                    assert(same_path(out@[j as int].target@, x.target@, PathStyle::Posix));
                }
            }
            j = j + 1;
        }
        let ghost prefix = orig.take(i + 1);
        let ghost out_before = out@;
        proof {
            assert(prefix.drop_last() =~= orig.take(i as int));
            assert(prefix.last() == x);
            assert(target_seen(prefix, i as int, x.target@) <==> target_seen(orig, i as int, x.target@)) by {
                if target_seen(prefix, i as int, x.target@) {
                    let k = choose|k: int| 0 <= k < i && same_path(#[trigger] prefix[k].target@, x.target@, PathStyle::Posix);
                    assert(orig[k] == prefix[k]);
                }
                if target_seen(orig, i as int, x.target@) {
                    let k = choose|k: int| 0 <= k < i && same_path(#[trigger] orig[k].target@, x.target@, PathStyle::Posix);
                    assert(orig[k] == prefix[k]);
                }
            }
        }
        if !seen {
            out.push(x);
        }
        proof {
            assert forall|u: Seq<char>| target_seen(orig, i + 1, u) <==> target_seen(out@, out@.len() as int, u) by {
                if target_seen(orig, i + 1, u) {
                    let k = choose|k: int| 0 <= k < i + 1 && same_path(#[trigger] orig[k].target@, u, PathStyle::Posix);
                    if k == i {
                        if seen {
                            let m = choose|m: int| 0 <= m < out_before.len() && same_path(#[trigger] out_before[m].target@, x.target@, PathStyle::Posix);
                            assert(out@[m] == out_before[m]);
                        } else {
                            assert(out@[out@.len() - 1] == x);
                        }
                    } else {
                        assert(target_seen(orig, i as int, u));
                        let m = choose|m: int| 0 <= m < out_before.len() && same_path(#[trigger] out_before[m].target@, u, PathStyle::Posix);
                        assert(out@[m] == out_before[m]);
                    }
                }
                if target_seen(out@, out@.len() as int, u) {
                    let m = choose|m: int| 0 <= m < out@.len() && same_path(#[trigger] out@[m].target@, u, PathStyle::Posix);
                    if m < out_before.len() {
                        assert(out@[m] == out_before[m]);
                        assert(target_seen(out_before, out_before.len() as int, u));
                        assert(target_seen(orig, i as int, u));
                        let k = choose|k: int| 0 <= k < i && same_path(#[trigger] orig[k].target@, u, PathStyle::Posix);
                        assert(0 <= k < i + 1);
                    } else {
                        assert(out@[m] == orig[i as int]);
                    }
                }
            }
        }
        i = i + 1;
    }
    assert(orig.take(i as int) =~= orig);
    out
}

/// `rules_for_scan` with a developer or full profile: the profile's cache
/// rules, the developer tool rules and the project artifact rules, with the
/// user-cache remainder excluding nested targets, one rule per target path.
pub open spec fn full_scan_rules(
    r: Seq<ResolvedRule>,
    base: Seq<ResolvedRule>,
    tools: Seq<ResolvedRule>,
    artifacts: Seq<ResolvedRule>,
    marked: Seq<ResolvedRule>,
    profile: ScanProfileId,
    home: Seq<char>,
    platform: Seq<char>,
    chrome: Seq<ChromeCacheTarget>,
    projects: Seq<DetectedProject>,
) -> bool {
    &&& rules_for_spec(base, profile, home, platform, chrome)
    &&& developer_rules_spec(tools, home, platform)
    &&& project_rules_spec(artifacts, projects)
    &&& exclusions_spec(base + tools + artifacts, marked)
    &&& r == dedup_by_target(marked)
}

/// The first of the first `n` rules with this identifier, version and target path.
pub open spec fn first_match(s: Seq<ResolvedRule>, id: Seq<char>, version: u32, expected: Seq<char>, n: int) -> Option<int>
    decreases n,
{
    if n <= 0 {
        None
    } else {
        match first_match(s, id, version, expected, n - 1) {
            Some(k) => Some(k),
            None => if s[n - 1].definition.id@ == id && s[n - 1].definition.version == version
                && same_path(s[n - 1].target@, expected, PathStyle::Posix) { Some(n - 1) } else { None },
        }
    }
}

/// A developer tool entry whose rule has this identifier and version and whose
/// path on the platform is the expected target.
pub open spec fn tool_matches(row: ToolRow, id: Seq<char>, version: u32, home: Seq<char>, platform: Seq<char>, expected: Seq<char>) -> bool {
    &&& row.id == id
    &&& version == 1
    &&& tool_path(platform, row) matches Some(p) && same_path(join(home, p, PathStyle::Posix), expected, PathStyle::Posix)
}

pub open spec fn first_tool_match(id: Seq<char>, version: u32, home: Seq<char>, platform: Seq<char>, expected: Seq<char>, n: int) -> Option<int>
    decreases n,
{
    if n <= 0 {
        None
    } else {
        match first_tool_match(id, version, home, platform, expected, n - 1) {
            Some(k) => Some(k),
            None => if tool_matches(developer_tool_row(n - 1), id, version, home, platform, expected) { Some(n - 1) } else { None },
        }
    }
}

/// The components of the project directory that holds an artifact at the
/// expected target: the target with the artifact's components taken off its
/// end, when they are all names.
pub open spec fn artifact_project(expected: Seq<char>, artifact: Seq<char>) -> Option<Seq<Comp>> {
    let ec = components(expected, PathStyle::Posix);
    let d = components(artifact, PathStyle::Posix).len();
    if d <= ec.len() && forall|j: int| ec.len() - d <= j < ec.len() ==> !(#[trigger] ec[j] is Root) && !(ec[j] is Prefix) {
        Some(ec.subrange(0, ec.len() - d))
    } else {
        None
    }
}

/// One of the given existing files is the named manifest inside the project.
pub open spec fn manifest_exists(existing: Seq<Seq<char>>, project: Seq<Comp>, name: Seq<char>) -> bool {
    exists|f: int| 0 <= f < existing.len() && components(#[trigger] existing[f], PathStyle::Posix) == project + components(name, PathStyle::Posix)
}

/// The expected target is the entry's artifact inside a project strictly under
/// the home folder that holds one of the entry's manifests.
pub open spec fn artifact_resolves(row: ArtifactRow, home: Seq<char>, expected: Seq<char>, existing: Seq<Seq<char>>) -> bool {
    match artifact_project(expected, row.artifact) {
        None => false,
        Some(pc) => {
            let hc = components(home, PathStyle::Posix);
            &&& pc != hc
            &&& comps_prefix(pc, hc)
            &&& pc + components(row.artifact, PathStyle::Posix) == components(expected, PathStyle::Posix)
            &&& exists|j: int| 0 <= j < row.indicators.len() && manifest_exists(existing, pc, #[trigger] row.indicators[j])
        },
    }
}

pub open spec fn artifact_matches(row: ArtifactRow, id: Seq<char>, version: u32, home: Seq<char>, expected: Seq<char>, existing: Seq<Seq<char>>) -> bool {
    row.id == id && version == 1 && artifact_resolves(row, home, expected, existing)
}

pub open spec fn first_artifact_match(id: Seq<char>, version: u32, home: Seq<char>, expected: Seq<char>, existing: Seq<Seq<char>>, n: int) -> Option<int>
    decreases n,
{
    if n <= 0 {
        None
    } else {
        match first_artifact_match(id, version, home, expected, existing, n - 1) {
            Some(k) => Some(k),
            None => if artifact_matches(project_artifact_row(n - 1), id, version, home, expected, existing) { Some(n - 1) } else { None },
        }
    }
}

/// `resolve`: a cache rule of the developer profile with this identifier,
/// version and target; else a developer tool rule; else a project artifact
/// rule whose project holds a manifest.
pub open spec fn resolve_spec(
    r: Option<ResolvedRule>,
    base: Seq<ResolvedRule>,
    id: Seq<char>,
    version: u32,
    home: Seq<char>,
    platform: Seq<char>,
    expected: Seq<char>,
    chrome: Seq<ChromeCacheTarget>,
    existing: Seq<Seq<char>>,
) -> bool {
    &&& rules_for_spec(base, ScanProfileId::Developer, home, platform, chrome)
    &&& match first_match(base, id, version, expected, base.len() as int) {
        Some(k) => r == Some(base[k]),
        None => match first_tool_match(id, version, home, platform, expected, DEVELOPER_TOOL_COUNT as int) {
            Some(i) => r matches Some(x) && resolved_tool(x, developer_tool_row(i), home, platform),
            None => match first_artifact_match(id, version, home, expected, existing, PROJECT_ARTIFACT_COUNT as int) {
                Some(a) => r matches Some(x) && resolved_artifact(x, project_artifact_row(a), expected),
                None => r is None,
            },
        },
    }
}

fn is_name_component(c: &Component) -> (r: bool)
    ensures
        r == (!(c@ is Root) && !(c@ is Prefix)),
{
    match c {
        Component::RootDir => false,
        Component::Prefix(_) => false,
        _ => true,
    }
}

fn artifact_project_exec(ec: &Vec<Component>, ac: &Vec<Component>, Ghost(expected): Ghost<Seq<char>>, Ghost(artifact): Ghost<Seq<char>>) -> (r: Option<Vec<Component>>)
    requires
        comp_views(ec@) == components(expected, PathStyle::Posix),
        comp_views(ac@) == components(artifact, PathStyle::Posix),
    ensures
        match r {
            None => artifact_project(expected, artifact) is None,
            Some(pc) => artifact_project(expected, artifact) == Some(comp_views(pc@)),
        },
{
    let d = ac.len();
    if d > ec.len() {
        return None;
    }
    let mut j: usize = ec.len() - d;
    while j < ec.len()
        invariant
            d <= ec@.len(),
            ec@.len() - d <= j <= ec@.len(),
            comp_views(ec@) == components(expected, PathStyle::Posix),
            comp_views(ac@) == components(artifact, PathStyle::Posix),
            d == ac@.len(),
            forall|k: int| ec@.len() - d <= k < j ==> !(#[trigger] comp_views(ec@)[k] is Root) && !(comp_views(ec@)[k] is Prefix),
        decreases ec.len() - j,
    {
        if !is_name_component(&ec[j]) {
            assert(comp_views(ec@)[j as int] == ec@[j as int]@);
            assert(comp_views(ec@)[j as int] is Root || comp_views(ec@)[j as int] is Prefix);
            assert(comp_views(ac@).len() == ac@.len());
            assert(components(expected, PathStyle::Posix)[j as int] is Root || components(expected, PathStyle::Posix)[j as int] is Prefix);
            assert(!(forall|k: int| components(expected, PathStyle::Posix).len() - components(artifact, PathStyle::Posix).len() <= k < components(expected, PathStyle::Posix).len()
                ==> !(#[trigger] components(expected, PathStyle::Posix)[k] is Root) && !(components(expected, PathStyle::Posix)[k] is Prefix)));
            return None;
        }
        assert(comp_views(ec@)[j as int] == ec@[j as int]@);
        j = j + 1;
    }
    Some(copy_components(ec.as_slice(), 0, ec.len() - d))
}

fn concat_components(a: &Vec<Component>, b: &Vec<Component>) -> (r: Vec<Component>)
    ensures
        comp_views(r@) == comp_views(a@) + comp_views(b@),
{
    let mut r = copy_components(a.as_slice(), 0, a.len());
    let tail = copy_components(b.as_slice(), 0, b.len());
    assert(comp_views(a@).subrange(0, a@.len() as int) =~= comp_views(a@));
    assert(comp_views(b@).subrange(0, b@.len() as int) =~= comp_views(b@));
    let ghost before = r@;
    let mut t = tail;
    r.append(&mut t);
    assert(comp_views(r@) =~= comp_views(before) + comp_views(tail@));
    r
}

fn manifest_exists_exec(existing: &[String], pc: &Vec<Component>, name: &str) -> (r: bool)
    ensures
        r == manifest_exists(string_views(existing@), comp_views(pc@), name@),
{
    let nc = components_exec(chars_of(name).as_slice(), PathStyle::Posix);
    let wanted = concat_components(pc, &nc);
    let mut f: usize = 0;
    while f < existing.len()
        invariant
            f <= existing@.len(),
            comp_views(wanted@) == comp_views(pc@) + components(name@, PathStyle::Posix),
            forall|g: int| 0 <= g < f ==> components(#[trigger] string_views(existing@)[g], PathStyle::Posix) != comp_views(wanted@),
        decreases existing.len() - f,
    {
        let fc = components_exec(chars_of(existing[f].as_str()).as_slice(), PathStyle::Posix);
        assert(string_views(existing@)[f as int] == existing@[f as int]@);
        if comps_equal_exec(fc.as_slice(), wanted.as_slice()) {
            return true;
        }
        f = f + 1;
    }
    false
}

fn artifact_resolves_exec(spec: &crate::rules::catalogs::project_artifacts::ProjectArtifactSpec, home: &str, expected: &str, existing: &[String], Ghost(row): Ghost<ArtifactRow>) -> (r: bool)
    requires
        spec.artifact@ == row.artifact,
        string_views(spec.indicators@) == row.indicators,
    ensures
        r == artifact_resolves(row, home@, expected@, string_views(existing@)),
{
    let ec = components_exec(chars_of(expected).as_slice(), PathStyle::Posix);
    let ac = components_exec(chars_of(spec.artifact.as_str()).as_slice(), PathStyle::Posix);
    let pc = match artifact_project_exec(&ec, &ac, Ghost(expected@), Ghost(row.artifact)) {
        None => return false,
        Some(pc) => pc,
    };
    let hc = components_exec(chars_of(home).as_slice(), PathStyle::Posix);
    if comps_equal_exec(pc.as_slice(), hc.as_slice()) {
        return false;
    }
    if !crate::paths::comps_prefix_exec(pc.as_slice(), hc.as_slice()) {
        return false;
    }
    let joined = concat_components(&pc, &ac);
    if !comps_equal_exec(joined.as_slice(), ec.as_slice()) {
        return false;
    }
    let mut j: usize = 0;
    while j < spec.indicators.len()
        invariant
            j <= spec.indicators@.len(),
            string_views(spec.indicators@) == row.indicators,
            artifact_project(expected@, row.artifact) == Some(comp_views(pc@)),
            comp_views(pc@) != components(home@, PathStyle::Posix),
            comps_prefix(comp_views(pc@), components(home@, PathStyle::Posix)),
            comp_views(pc@) + components(row.artifact, PathStyle::Posix) == components(expected@, PathStyle::Posix),
            forall|k: int| 0 <= k < j ==> !manifest_exists(string_views(existing@), comp_views(pc@), #[trigger] row.indicators[k]),
        decreases spec.indicators.len() - j,
    {
        assert(row.indicators[j as int] == spec.indicators@[j as int]@);
        if manifest_exists_exec(existing, &pc, spec.indicators[j].as_str()) {
            return true;
        }
        j = j + 1;
    }
    false
}

impl RulesRegistry {
    /// The rules of a scan. Developer and full profiles add the developer tool
    /// rules and the artifact rules of the detected projects, let the
    /// user-cache remainder exclude nested targets, and keep one rule per
    /// target path; other profiles get `rules_for` alone.
    pub fn rules_for_scan(
        &self,
        profile: ScanProfileId,
        home: &str,
        platform: &str,
        chrome_targets: &[ChromeCacheTarget],
        projects: &[DetectedProject],
    ) -> (r: Vec<ResolvedRule>)
        ensures
            !(profile is Developer || profile is FullAnalysis) ==> rules_for_spec(r@, profile, home@, platform@, chrome_targets@),
            (profile is Developer || profile is FullAnalysis) ==> exists|base: Seq<ResolvedRule>, tools: Seq<ResolvedRule>, artifacts: Seq<ResolvedRule>, marked: Seq<ResolvedRule>|
                #[trigger] full_scan_rules(r@, base, tools, artifacts, marked, profile, home@, platform@, chrome_targets@, projects@),
    {
        let mut rules = self.rules_for(profile, home, platform, chrome_targets);
        match profile {
            ScanProfileId::Developer | ScanProfileId::FullAnalysis => {},
            _ => return rules,
        }
        let ghost base = rules@;
        let mut tools = developer_rules(home, platform);
        let ghost tool_rules = tools@;
        let mut artifacts = project_rules(projects);
        let ghost artifact_rules = artifacts@;
        rules.append(&mut tools);
        rules.append(&mut artifacts);
        let ghost combined = rules@;
        assert(combined == base + tool_rules + artifact_rules);
        assign_unclassified_cache_exclusions(&mut rules);
        let ghost marked = rules@;
        let r = dedup_targets(rules);
        assert(full_scan_rules(r@, base, tool_rules, artifact_rules, marked, profile, home@, platform@, chrome_targets@, projects@));
        r
    }

    /// The rule that still governs a reviewed target: a developer-profile cache
    /// rule, a developer tool rule, or a project artifact rule, matched by
    /// identifier, version and target path. `existing_files` are the manifest
    /// files known to exist.
    pub fn resolve(
        &self,
        rule_id: &str,
        rule_version: u32,
        home: &str,
        platform: &str,
        expected_target: &str,
        chrome_targets: &[ChromeCacheTarget],
        existing_files: &[String],
    ) -> (r: Option<ResolvedRule>)
        ensures
            exists|base: Seq<ResolvedRule>| #[trigger] resolve_spec(r, base, rule_id@, rule_version, home@, platform@, expected_target@, chrome_targets@, string_views(existing_files@)),
    {
        let mut rules = self.rules_for(ScanProfileId::Developer, home, platform, chrome_targets);
        let ghost base = rules@;
        let mut k: usize = 0;
        while k < rules.len()
            invariant
                rules@ == base,
                k <= base.len(),
                rules_for_spec(base, ScanProfileId::Developer, home@, platform@, chrome_targets@),
                first_match(base, rule_id@, rule_version, expected_target@, k as int) is None,
            decreases rules.len() - k,
        {
            if same_text(rules[k].definition.id.as_str(), rule_id) && rules[k].definition.version == rule_version
                && same_path_exec(rules[k].target.as_str(), expected_target, PathStyle::Posix) {
                proof { lemma_first_match_stable(base, rule_id@, rule_version, expected_target@, k + 1, base.len() as int); }
                let found = rules.remove(k);
                assert(resolve_spec(Some(found), base, rule_id@, rule_version, home@, platform@, expected_target@, chrome_targets@, string_views(existing_files@)));
                return Some(found);
            }
            k = k + 1;
        }
        let mut i: usize = 0;
        while i < DEVELOPER_TOOL_COUNT
            invariant
                i <= DEVELOPER_TOOL_COUNT,
                rules_for_spec(base, ScanProfileId::Developer, home@, platform@, chrome_targets@),
                first_match(base, rule_id@, rule_version, expected_target@, base.len() as int) is None,
                first_tool_match(rule_id@, rule_version, home@, platform@, expected_target@, i as int) is None,
            decreases DEVELOPER_TOOL_COUNT - i,
        {
            if let Some(rule) = resolve_tool_entry(i, home, platform) {
                if same_text(rule.definition.id.as_str(), rule_id) && rule.definition.version == rule_version
                    && same_path_exec(rule.target.as_str(), expected_target, PathStyle::Posix) {
                    proof { lemma_first_tool_match_stable(rule_id@, rule_version, home@, platform@, expected_target@, i + 1, DEVELOPER_TOOL_COUNT as int); }
                    assert(resolve_spec(Some(rule), base, rule_id@, rule_version, home@, platform@, expected_target@, chrome_targets@, string_views(existing_files@)));
                    return Some(rule);
                }
            }
            i = i + 1;
        }
        let mut a: usize = 0;
        while a < PROJECT_ARTIFACT_COUNT
            invariant
                a <= PROJECT_ARTIFACT_COUNT,
                rules_for_spec(base, ScanProfileId::Developer, home@, platform@, chrome_targets@),
                first_match(base, rule_id@, rule_version, expected_target@, base.len() as int) is None,
                first_tool_match(rule_id@, rule_version, home@, platform@, expected_target@, DEVELOPER_TOOL_COUNT as int) is None,
                first_artifact_match(rule_id@, rule_version, home@, expected_target@, string_views(existing_files@), a as int) is None,
            decreases PROJECT_ARTIFACT_COUNT - a,
        {
            let spec = project_artifact_entry(a);
            if same_text(spec.definition.id.as_str(), rule_id) && spec.definition.version == rule_version
                && artifact_resolves_exec(&spec, home, expected_target, existing_files, Ghost(project_artifact_row(a as int))) {
                proof { lemma_first_artifact_match_stable(rule_id@, rule_version, home@, expected_target@, string_views(existing_files@), a + 1, PROJECT_ARTIFACT_COUNT as int); }
                let rule = ResolvedRule { definition: spec.definition, target: String::from_str(expected_target), excluded_targets: Vec::new() };
                assert(resolve_spec(Some(rule), base, rule_id@, rule_version, home@, platform@, expected_target@, chrome_targets@, string_views(existing_files@)));
                return Some(rule);
            }
            a = a + 1;
        }
        assert(resolve_spec(None, base, rule_id@, rule_version, home@, platform@, expected_target@, chrome_targets@, string_views(existing_files@)));
        None
    }
}

proof fn lemma_first_match_stable(s: Seq<ResolvedRule>, id: Seq<char>, version: u32, expected: Seq<char>, n: int, m: int)
    requires
        0 <= n <= m,
        first_match(s, id, version, expected, n) is Some,
    ensures
        first_match(s, id, version, expected, m) == first_match(s, id, version, expected, n),
    decreases m - n,
{
    if m > n {
        lemma_first_match_stable(s, id, version, expected, n, m - 1);
    }
}

proof fn lemma_first_tool_match_stable(id: Seq<char>, version: u32, home: Seq<char>, platform: Seq<char>, expected: Seq<char>, n: int, m: int)
    requires
        0 <= n <= m,
        first_tool_match(id, version, home, platform, expected, n) is Some,
    ensures
        first_tool_match(id, version, home, platform, expected, m) == first_tool_match(id, version, home, platform, expected, n),
    decreases m - n,
{
    if m > n {
        lemma_first_tool_match_stable(id, version, home, platform, expected, n, m - 1);
    }
}

proof fn lemma_first_artifact_match_stable(id: Seq<char>, version: u32, home: Seq<char>, expected: Seq<char>, existing: Seq<Seq<char>>, n: int, m: int)
    requires
        0 <= n <= m,
        first_artifact_match(id, version, home, expected, existing, n) is Some,
    ensures
        first_artifact_match(id, version, home, expected, existing, m) == first_artifact_match(id, version, home, expected, existing, n),
    decreases m - n,
{
    if m > n {
        lemma_first_artifact_match_stable(id, version, home, expected, existing, n, m - 1);
    }
}

proof fn lemma_first_match_matches(s: Seq<ResolvedRule>, id: Seq<char>, version: u32, expected: Seq<char>, n: int)
    requires
        0 <= n <= s.len(),
    ensures
        first_match(s, id, version, expected, n) matches Some(k) ==> 0 <= k < n && s[k].definition.id@ == id
            && s[k].definition.version == version && same_path(s[k].target@, expected, PathStyle::Posix),
    decreases n,
{
    if n > 0 {
        lemma_first_match_matches(s, id, version, expected, n - 1);
    }
}

proof fn lemma_first_tool_match_matches(id: Seq<char>, version: u32, home: Seq<char>, platform: Seq<char>, expected: Seq<char>, n: int)
    ensures
        first_tool_match(id, version, home, platform, expected, n) matches Some(k) ==> 0 <= k < n
            && tool_matches(developer_tool_row(k), id, version, home, platform, expected),
    decreases n,
{
    if n > 0 {
        lemma_first_tool_match_matches(id, version, home, platform, expected, n - 1);
    }
}

proof fn lemma_first_artifact_match_matches(id: Seq<char>, version: u32, home: Seq<char>, expected: Seq<char>, existing: Seq<Seq<char>>, n: int)
    ensures
        first_artifact_match(id, version, home, expected, existing, n) matches Some(k) ==> 0 <= k < n
            && artifact_matches(project_artifact_row(k), id, version, home, expected, existing),
    decreases n,
{
    if n > 0 {
        lemma_first_artifact_match_matches(id, version, home, expected, existing, n - 1);
    }
}

/// A resolved rule is the one asked for: it has the identifier and version
/// asked for and its target is the expected path (compared component by
/// component); a project artifact rule resolves only inside a project
/// strictly under the home folder that holds one of its manifests.
pub proof fn law_resolved_rule_is_the_one_asked_for(
    r: Option<ResolvedRule>,
    base: Seq<ResolvedRule>,
    id: Seq<char>,
    version: u32,
    home: Seq<char>,
    platform: Seq<char>,
    expected: Seq<char>,
    chrome: Seq<ChromeCacheTarget>,
    existing: Seq<Seq<char>>,
)
    requires
        resolve_spec(r, base, id, version, home, platform, expected, chrome, existing),
    ensures
        r matches Some(x) ==> x.definition.id@ == id && x.definition.version == version
            && same_path(x.target@, expected, PathStyle::Posix),
        (first_match(base, id, version, expected, base.len() as int) is None
            && first_tool_match(id, version, home, platform, expected, DEVELOPER_TOOL_COUNT as int) is None
            && r is Some) ==> exists|a: int| 0 <= a < PROJECT_ARTIFACT_COUNT
                && artifact_resolves(#[trigger] project_artifact_row(a), home, expected, existing),
{
    lemma_first_match_matches(base, id, version, expected, base.len() as int);
    lemma_first_tool_match_matches(id, version, home, platform, expected, DEVELOPER_TOOL_COUNT as int);
    lemma_first_artifact_match_matches(id, version, home, expected, existing, PROJECT_ARTIFACT_COUNT as int);
    if first_match(base, id, version, expected, base.len() as int) is None
        && first_tool_match(id, version, home, platform, expected, DEVELOPER_TOOL_COUNT as int) is None && r is Some {
        let a = first_artifact_match(id, version, home, expected, existing, PROJECT_ARTIFACT_COUNT as int)->0;
        assert(artifact_resolves(project_artifact_row(a), home, expected, existing));
    }
}

} // verus!
