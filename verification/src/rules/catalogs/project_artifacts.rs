use vstd::prelude::*;
use crate::domain::rule::{
    Platform, RecommendedAction, RegenerationBehavior, RiskLevel, RuleCategory, RuleDefinition,
    RuleMatcher, RuleTarget,
};

verus! {

/// A build or dependency artifact that is only considered inside a configured
/// project root that holds one of its manifests.
#[derive(Debug, Clone)]
pub struct ProjectArtifactSpec {
    pub definition: RuleDefinition,
    pub artifact: String,
    pub indicators: Vec<String>,
}

/// One entry of the project artifact catalog.
pub ghost struct ArtifactRow {
    pub id: Seq<char>,
    pub name: Seq<char>,
    pub artifact: Seq<char>,
    pub indicators: Seq<Seq<char>>,
    pub logs: bool,
}

/// The number of entries in the project artifact catalog.
pub const PROJECT_ARTIFACT_COUNT: usize = 22;

/// The manifests that mark a directory as a project.
pub open spec fn project_indicator_names() -> Seq<Seq<char>> {
    seq!["package.json"@, "Cargo.toml"@, "pyproject.toml"@, "Gemfile"@, "build.gradle"@, "build.gradle.kts"@, "pom.xml"@, "go.mod"@, "pubspec.yaml"@, "Podfile"@]
}

pub open spec fn string_views(v: Seq<String>) -> Seq<Seq<char>> {
    v.map_values(|s: String| s@)
}

/// The explanation shown for a project artifact rule.
pub open spec fn artifact_description(artifact: Seq<char>) -> Seq<char> {
    "Detected `"@ + artifact + "` only inside a configured root with a matching project manifest."@
}

/// The definition is the catalog entry's rule: a careful, opt-in rule on
/// every platform, scoped to the selected project roots.
pub open spec fn artifact_definition_of(d: RuleDefinition, row: ArtifactRow) -> bool {
    &&& d.id@ == row.id
    &&& d.version == 1
    &&& d.category == (if row.logs { RuleCategory::Log } else { RuleCategory::BuildArtifact })
    &&& d.display_name@ == row.name
    &&& d.description@ == artifact_description(row.artifact)
    &&& d.risk == RiskLevel::Careful
    &&& d.platforms@ == seq![Platform::Macos, Platform::Linux, Platform::Windows]
    &&& d.targets@.len() == 1
    &&& d.targets@[0] is SelectedProjectRoots
    &&& (d.matcher matches RuleMatcher::ProjectArtifact { indicators, artifact }
        && string_views(indicators@) == row.indicators && artifact@ == row.artifact)
    &&& d.minimum_size == Some(1u64)
    &&& d.maximum_age_days is None
    &&& d.recommended_action == (if row.logs { RecommendedAction::Review } else { RecommendedAction::MoveToTrash })
    &&& d.regeneration_behavior == RegenerationBehavior::Redownload
    &&& !d.default_enabled
}

/// The rule was built from the catalog entry.
pub open spec fn artifact_built(r: ProjectArtifactSpec, row: ArtifactRow) -> bool {
    &&& artifact_definition_of(r.definition, row)
    &&& r.artifact@ == row.artifact
    &&& string_views(r.indicators@) == row.indicators
}

/// The entries of the project artifact catalog, in order.
pub open spec fn project_artifact_row(i: int) -> ArtifactRow {
    if i == 0 {
        ArtifactRow { id: "artifact.node.modules-v1"@, name: "Node dependencies"@, artifact: "node_modules"@, indicators: seq!["package.json"@], logs: false }
    } else if i == 1 {
        ArtifactRow { id: "artifact.node.dist-v1"@, name: "Node distribution output"@, artifact: "dist"@, indicators: seq!["package.json"@], logs: false }
    } else if i == 2 {
        ArtifactRow { id: "artifact.node.build-v1"@, name: "Node build output"@, artifact: "build"@, indicators: seq!["package.json"@], logs: false }
    } else if i == 3 {
        ArtifactRow { id: "artifact.node.coverage-v1"@, name: "JavaScript coverage"@, artifact: "coverage"@, indicators: seq!["package.json"@], logs: false }
    } else if i == 4 {
        ArtifactRow { id: "artifact.next.cache-v1"@, name: "Next.js cache"@, artifact: ".next/cache"@, indicators: seq!["package.json"@], logs: false }
    } else if i == 5 {
        ArtifactRow { id: "artifact.nuxt.output-v1"@, name: "Nuxt generated output"@, artifact: ".nuxt"@, indicators: seq!["package.json"@], logs: false }
    } else if i == 6 {
        ArtifactRow { id: "artifact.rust.target-v1"@, name: "Rust build output"@, artifact: "target"@, indicators: seq!["Cargo.toml"@], logs: false }
    } else if i == 7 {
        ArtifactRow { id: "artifact.python.pytest-v1"@, name: "pytest cache"@, artifact: ".pytest_cache"@, indicators: seq!["pyproject.toml"@, "setup.py"@], logs: false }
    } else if i == 8 {
        ArtifactRow { id: "artifact.python.mypy-v1"@, name: "mypy cache"@, artifact: ".mypy_cache"@, indicators: seq!["pyproject.toml"@, "setup.py"@], logs: false }
    } else if i == 9 {
        ArtifactRow { id: "artifact.python.ruff-v1"@, name: "Ruff cache"@, artifact: ".ruff_cache"@, indicators: seq!["pyproject.toml"@, "setup.py"@], logs: false }
    } else if i == 10 {
        ArtifactRow { id: "artifact.python.tox-v1"@, name: "tox environments"@, artifact: ".tox"@, indicators: seq!["pyproject.toml"@, "tox.ini"@], logs: false }
    } else if i == 11 {
        ArtifactRow { id: "artifact.python.venv-v1"@, name: "Python virtual environment"@, artifact: ".venv"@, indicators: seq!["pyproject.toml"@, "requirements.txt"@], logs: false }
    } else if i == 12 {
        ArtifactRow { id: "artifact.ruby.bundle-v1"@, name: "Bundler dependencies"@, artifact: "vendor/bundle"@, indicators: seq!["Gemfile"@], logs: false }
    } else if i == 13 {
        ArtifactRow { id: "artifact.gradle.cache-v1"@, name: "Project Gradle cache"@, artifact: ".gradle"@, indicators: seq!["build.gradle"@, "build.gradle.kts"@], logs: false }
    } else if i == 14 {
        ArtifactRow { id: "artifact.gradle.build-v1"@, name: "Gradle build output"@, artifact: "build"@, indicators: seq!["build.gradle"@, "build.gradle.kts"@], logs: false }
    } else if i == 15 {
        ArtifactRow { id: "artifact.maven.target-v1"@, name: "Maven build output"@, artifact: "target"@, indicators: seq!["pom.xml"@], logs: false }
    } else if i == 16 {
        ArtifactRow { id: "artifact.dart.tool-v1"@, name: "Dart tool state"@, artifact: ".dart_tool"@, indicators: seq!["pubspec.yaml"@], logs: false }
    } else if i == 17 {
        ArtifactRow { id: "artifact.dart.build-v1"@, name: "Dart build output"@, artifact: "build"@, indicators: seq!["pubspec.yaml"@], logs: false }
    } else if i == 18 {
        ArtifactRow { id: "artifact.ios.pods-v1"@, name: "CocoaPods dependencies"@, artifact: "Pods"@, indicators: seq!["Podfile"@], logs: false }
    } else if i == 19 {
        ArtifactRow { id: "artifact.ios.carthage-v1"@, name: "Carthage build output"@, artifact: "Carthage/Build"@, indicators: seq!["Cartfile"@], logs: false }
    } else if i == 20 {
        ArtifactRow { id: "artifact.project.tmp-v1"@, name: "Project temporary files"@, artifact: ".tmp"@, indicators: project_indicator_names(), logs: false }
    } else {
        ArtifactRow { id: "artifact.project.logs-v1"@, name: "Project logs"@, artifact: "logs"@, indicators: project_indicator_names(), logs: true }
    }
}

fn one(a: &str) -> (r: Vec<String>)
    ensures
        string_views(r@) == seq![a@],
{
    let mut r: Vec<String> = Vec::new();
    r.push(String::from_str(a));
    assert(string_views(r@) =~= seq![a@]);
    r
}

fn two(a: &str, b: &str) -> (r: Vec<String>)
    ensures
        string_views(r@) == seq![a@, b@],
{
    let mut r: Vec<String> = Vec::new();
    r.push(String::from_str(a));
    r.push(String::from_str(b));
    assert(string_views(r@) =~= seq![a@, b@]);
    r
}

/// The manifests that mark a directory as a project, in order.
pub fn project_indicators() -> (r: Vec<String>)
    ensures
        string_views(r@) == project_indicator_names(),
{
    let mut r: Vec<String> = Vec::new();
    r.push(String::from_str("package.json"));
    r.push(String::from_str("Cargo.toml"));
    r.push(String::from_str("pyproject.toml"));
    r.push(String::from_str("Gemfile"));
    r.push(String::from_str("build.gradle"));
    r.push(String::from_str("build.gradle.kts"));
    r.push(String::from_str("pom.xml"));
    r.push(String::from_str("go.mod"));
    r.push(String::from_str("pubspec.yaml"));
    r.push(String::from_str("Podfile"));
    assert(string_views(r@) =~= project_indicator_names());
    r
}

fn copy_strings(v: &Vec<String>) -> (r: Vec<String>)
    ensures
        string_views(r@) == string_views(v@),
{
    let mut r: Vec<String> = Vec::new();
    let mut i: usize = 0;
    while i < v.len()
        invariant
            i <= v.len(),
            string_views(r@) == string_views(v@.take(i as int)),
        decreases v.len() - i,
    {
        r.push(v[i].clone());
        i = i + 1;
        assert(string_views(v@.take(i as int)) =~= string_views(v@.take(i - 1)).push(v@[i - 1]@));
        assert(string_views(r@) =~= string_views(r@.drop_last()).push(r@.last()@));
    }
    assert(v@.take(i as int) =~= v@);
    r
}

fn build(
    id: &str,
    name: &str,
    artifact: &str,
    indicators: Vec<String>,
    logs: bool,
) -> (r: ProjectArtifactSpec)
    ensures
        artifact_built(r, ArtifactRow {
            id: id@,
            name: name@,
            artifact: artifact@,
            indicators: string_views(indicators@),
            logs,
        }),
{
    let mut description = String::from_str("Detected `");
    description.append(artifact);
    description.append("` only inside a configured root with a matching project manifest.");
    let mut platforms: Vec<Platform> = Vec::new();
    platforms.push(Platform::Macos);
    platforms.push(Platform::Linux);
    platforms.push(Platform::Windows);
    assert(platforms@ =~= seq![Platform::Macos, Platform::Linux, Platform::Windows]);
    let mut targets: Vec<RuleTarget> = Vec::new();
    targets.push(RuleTarget::SelectedProjectRoots);
    let matcher = RuleMatcher::ProjectArtifact {
        indicators: copy_strings(&indicators),
        artifact: String::from_str(artifact),
    };
    ProjectArtifactSpec {
        definition: RuleDefinition {
            id: String::from_str(id),
            version: 1,
            category: if logs { RuleCategory::Log } else { RuleCategory::BuildArtifact },
            display_name: String::from_str(name),
            description,
            risk: RiskLevel::Careful,
            platforms,
            targets,
            matcher,
            minimum_size: Some(1),
            maximum_age_days: None,
            recommended_action: if logs { RecommendedAction::Review } else { RecommendedAction::MoveToTrash },
            regeneration_behavior: RegenerationBehavior::Redownload,
            default_enabled: false,
        },
        artifact: String::from_str(artifact),
        indicators,
    }
}

fn artifact(id: &str, name: &str, path: &str, indicators: Vec<String>) -> (r: ProjectArtifactSpec)
    ensures
        artifact_built(r, ArtifactRow {
            id: id@,
            name: name@,
            artifact: path@,
            indicators: string_views(indicators@),
            logs: false,
        }),
{
    build(id, name, path, indicators, false)
}

fn logs(id: &str, name: &str, path: &str, indicators: Vec<String>) -> (r: ProjectArtifactSpec)
    ensures
        artifact_built(r, ArtifactRow {
            id: id@,
            name: name@,
            artifact: path@,
            indicators: string_views(indicators@),
            logs: true,
        }),
{
    build(id, name, path, indicators, true)
}

/// The `i`-th entry of the project artifact catalog.
pub fn project_artifact_entry(i: usize) -> (r: ProjectArtifactSpec)
    requires
        i < PROJECT_ARTIFACT_COUNT,
    ensures
        artifact_built(r, project_artifact_row(i as int)),
{
    if i == 0 {
        artifact("artifact.node.modules-v1", "Node dependencies", "node_modules", one("package.json"))
    } else if i == 1 {
        artifact("artifact.node.dist-v1", "Node distribution output", "dist", one("package.json"))
    } else if i == 2 {
        artifact("artifact.node.build-v1", "Node build output", "build", one("package.json"))
    } else if i == 3 {
        artifact("artifact.node.coverage-v1", "JavaScript coverage", "coverage", one("package.json"))
    } else if i == 4 {
        artifact("artifact.next.cache-v1", "Next.js cache", ".next/cache", one("package.json"))
    } else if i == 5 {
        artifact("artifact.nuxt.output-v1", "Nuxt generated output", ".nuxt", one("package.json"))
    } else if i == 6 {
        artifact("artifact.rust.target-v1", "Rust build output", "target", one("Cargo.toml"))
    } else if i == 7 {
        artifact("artifact.python.pytest-v1", "pytest cache", ".pytest_cache", two("pyproject.toml", "setup.py"))
    } else if i == 8 {
        artifact("artifact.python.mypy-v1", "mypy cache", ".mypy_cache", two("pyproject.toml", "setup.py"))
    } else if i == 9 {
        artifact("artifact.python.ruff-v1", "Ruff cache", ".ruff_cache", two("pyproject.toml", "setup.py"))
    } else if i == 10 {
        artifact("artifact.python.tox-v1", "tox environments", ".tox", two("pyproject.toml", "tox.ini"))
    } else if i == 11 {
        artifact("artifact.python.venv-v1", "Python virtual environment", ".venv", two("pyproject.toml", "requirements.txt"))
    } else if i == 12 {
        artifact("artifact.ruby.bundle-v1", "Bundler dependencies", "vendor/bundle", one("Gemfile"))
    } else if i == 13 {
        artifact("artifact.gradle.cache-v1", "Project Gradle cache", ".gradle", two("build.gradle", "build.gradle.kts"))
    } else if i == 14 {
        artifact("artifact.gradle.build-v1", "Gradle build output", "build", two("build.gradle", "build.gradle.kts"))
    } else if i == 15 {
        artifact("artifact.maven.target-v1", "Maven build output", "target", one("pom.xml"))
    } else if i == 16 {
        artifact("artifact.dart.tool-v1", "Dart tool state", ".dart_tool", one("pubspec.yaml"))
    } else if i == 17 {
        artifact("artifact.dart.build-v1", "Dart build output", "build", one("pubspec.yaml"))
    } else if i == 18 {
        artifact("artifact.ios.pods-v1", "CocoaPods dependencies", "Pods", one("Podfile"))
    } else if i == 19 {
        artifact("artifact.ios.carthage-v1", "Carthage build output", "Carthage/Build", one("Cartfile"))
    } else if i == 20 {
        artifact("artifact.project.tmp-v1", "Project temporary files", ".tmp", project_indicators())
    } else {
        logs("artifact.project.logs-v1", "Project logs", "logs", project_indicators())
    }
}

/// The project artifact catalog: every entry of `project_artifact_row`, in order.
pub fn catalog() -> (r: Vec<ProjectArtifactSpec>)
    ensures
        r@.len() == PROJECT_ARTIFACT_COUNT,
        forall|i: int| 0 <= i < PROJECT_ARTIFACT_COUNT ==> artifact_built(#[trigger] r@[i], project_artifact_row(i)),
{
    let mut rules: Vec<ProjectArtifactSpec> = Vec::new();
    let mut i: usize = 0;
    while i < PROJECT_ARTIFACT_COUNT
        invariant
            i <= PROJECT_ARTIFACT_COUNT,
            rules@.len() == i,
            forall|j: int| 0 <= j < i ==> artifact_built(#[trigger] rules@[j], project_artifact_row(j)),
        decreases PROJECT_ARTIFACT_COUNT - i,
    {
        rules.push(project_artifact_entry(i));
        i = i + 1;
    }
    rules
}

} // verus!
