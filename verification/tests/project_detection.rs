use disksage::rules::project_detection::{is_project, should_skip, ProjectSearch, MAX_DEPTH, MAX_PROJECTS};

#[test]
fn dependency_and_build_directories_are_skipped() {
    for name in [".git", "node_modules", "target", "build", "dist", ".venv", "Pods"] {
        assert!(should_skip(name));
    }
    assert!(!should_skip("src"));
    assert!(!should_skip("Build"));
}

#[test]
fn a_manifest_file_marks_a_project() {
    assert!(is_project(&vec!["README.md".to_string(), "package.json".to_string()]));
    assert!(is_project(&vec!["Cargo.toml".to_string()]));
    assert!(!is_project(&vec!["README.md".to_string()]));
    assert!(!is_project(&Vec::new()));
}

#[test]
fn detects_manifest_context_without_descending_into_artifacts() {
    let mut search = ProjectSearch::new();
    search.begin_root("/tmp/root".to_string());
    let (root, depth) = search.next_directory().unwrap();
    assert_eq!(depth, 0);
    search.visit(&root, false);
    search.add_child("/tmp/root/nested".to_string(), "nested", depth, true);
    let (nested, depth) = search.next_directory().unwrap();
    assert_eq!(nested, "/tmp/root/nested");
    search.visit(&nested, false);
    search.add_child("/tmp/root/nested/app".to_string(), "app", depth, true);
    let (app, depth) = search.next_directory().unwrap();
    search.visit(&app, true);
    search.add_child("/tmp/root/nested/app/node_modules".to_string(), "node_modules", depth, true);
    assert!(search.next_directory().is_none());
    assert_eq!(search.finish(), vec!["/tmp/root/nested/app".to_string()]);
}

#[test]
fn the_walk_stops_at_its_depth_limit() {
    let mut search = ProjectSearch::new();
    search.begin_root("/r".to_string());
    let _ = search.next_directory().unwrap();
    search.add_child("/r/deep".to_string(), "deep", MAX_DEPTH, true);
    assert!(search.next_directory().is_none());
}

#[test]
fn found_projects_are_sorted_and_reported_once() {
    let mut search = ProjectSearch::new();
    search.visit("/b", true);
    search.visit("/a", true);
    search.visit("/b", true);
    assert_eq!(search.finish(), vec!["/a".to_string(), "/b".to_string()]);
}

#[test]
fn the_walk_reports_at_most_its_cap_of_projects() {
    let mut search = ProjectSearch::new();
    for i in 0..(MAX_PROJECTS + 5) {
        search.visit(&format!("/p{i:04}"), true);
    }
    assert!(search.is_full());
    search.begin_root("/more".to_string());
    assert!(search.next_directory().is_none());
    assert_eq!(search.finish().len(), MAX_PROJECTS);
}
