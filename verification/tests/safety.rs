use disksage::safety::protected_paths::ProtectedPathPolicy;

#[test]
fn blocks_root_home_and_sensitive_descendants() {
    let policy = ProtectedPathPolicy::for_platform("/Users/alex", "macos");
    assert!(policy.check("/").is_some());
    assert!(policy.check("/Users/alex").is_some());
    assert!(policy.check("/Users/alex/.ssh/id_ed25519").is_some());
    assert!(policy.check("/System/Library").is_some());
}

#[test]
fn blocks_lexical_traversal_into_protected_path() {
    let policy = ProtectedPathPolicy::for_platform("/home/alex", "linux");
    assert!(policy.check("/tmp/../etc/passwd").is_some());
}

#[test]
fn allows_unprotected_cache_candidate_for_later_rule_validation() {
    let policy = ProtectedPathPolicy::for_platform("/home/alex", "linux");
    assert!(policy.check("/opt/cache/npm").is_none());
}

#[test]
fn allows_only_exact_known_children_inside_home() {
    let policy = ProtectedPathPolicy::for_platform("/home/alex", "linux");
    assert!(policy
        .check_cleanup_candidate("/home/alex/.cache/npm", true)
        .is_none());
    assert!(policy
        .check_cleanup_candidate("/home/alex/.cache/npm", false)
        .is_some());
    assert!(policy
        .check_cleanup_candidate("/home/alex/.ssh/key", true)
        .is_some());
}

#[test]
fn relative_paths_are_not_accepted_for_policy_checks() {
    let policy = ProtectedPathPolicy::for_platform("/home/alex", "linux");
    assert!(policy.check("relative/path").is_none());
}

#[test]
fn windows_policy_blocks_system_and_credential_paths_case_insensitively() {
    let policy = ProtectedPathPolicy::for_platform(r"C:\Users\alex", "windows");
    assert!(policy.check(r"c:\WINDOWS\System32").is_some());
    assert!(policy
        .check(r"C:\Users\alex\AppData\Roaming\Microsoft\Credentials\fixture")
        .is_some());
    assert!(policy
        .check_cleanup_candidate(r"C:\Users\alex\AppData\Local\npm-cache\_cacache", true)
        .is_none());
}

#[test]
fn reports_the_deepest_protected_root() {
    let policy = ProtectedPathPolicy::for_platform("/home/alex", "linux");
    let reason = policy.check("/home/alex/.ssh/./keys/../id").unwrap();
    assert_eq!(reason.protected_root, "/home/alex/.ssh");
    assert_eq!(reason.reason, "SSH credentials");
    let home = policy.check("/home/alex/").unwrap();
    assert_eq!(home.reason, "home directory");
    let root = policy.check("/").unwrap();
    assert_eq!(root.reason, "filesystem root");
}

#[test]
fn climbing_above_the_root_is_not_reported() {
    let policy = ProtectedPathPolicy::for_platform("/home/alex", "linux");
    assert!(policy.check("/../etc").is_none());
}

#[test]
fn system_roots_and_sensitive_home_children_are_protected_on_each_platform() {
    let linux = ProtectedPathPolicy::for_platform("/home/alex", "linux");
    for root in ["/usr", "/bin", "/sbin", "/etc", "/var", "/proc", "/sys", "/dev", "/run", "/root", "/lost+found"] {
        assert_eq!(linux.check(root).unwrap().reason, "system path", "{root}");
    }
    let macos = ProtectedPathPolicy::for_platform("/Users/alex", "macos");
    for root in ["/usr", "/bin", "/sbin", "/etc", "/var", "/System", "/Applications", "/private/var/db"] {
        assert_eq!(macos.check(root).unwrap().reason, "system path", "{root}");
    }
    for child in [".ssh", ".gnupg", ".aws", ".kube/config", "Documents", "Desktop", "Pictures", "Movies", "Music"] {
        assert!(linux.check(&format!("/home/alex/{child}")).is_some(), "{child}");
        assert!(macos.check(&format!("/Users/alex/{child}")).is_some(), "{child}");
    }
    for child in ["Library/Keychains", "Library/Mail", "Library/Messages"] {
        assert!(macos.check(&format!("/Users/alex/{child}")).is_some(), "{child}");
    }
}

#[test]
fn the_exact_target_flag_lifts_only_the_home_folder_root() {
    let policy = ProtectedPathPolicy::for_platform("/Users/alex", "macos");
    for path in ["/Users/alex/.ssh/key", "/Users/alex/.aws/config", "/Users/alex/Documents/a", "/Users/alex/Library/Keychains/k", "/usr/lib"] {
        assert_eq!(
            policy.check_cleanup_candidate(path, true).map(|r| r.protected_root),
            policy.check(path).map(|r| r.protected_root),
            "{path}"
        );
    }
    assert!(policy.check_cleanup_candidate("/Users/alex/Library/Caches/x", true).is_none());
    assert!(policy.check_cleanup_candidate("/Users/alex/Library/Caches/x", false).is_some());
}
