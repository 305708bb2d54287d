use mole_rs::security::{
    blocked_paths, caution_paths, contains_dangerous_chars, is_within_home, load_whitelist,
    parse_whitelist, sanitize_path, whitelist_path, whitelist_path_in, PathValidation,
    SecurityValidator,
};

fn blocked(reason: &str) -> PathValidation {
    PathValidation::Blocked { reason: reason.to_string() }
}

fn invalid(reason: &str) -> PathValidation {
    PathValidation::Invalid { reason: reason.to_string() }
}

fn plain() -> SecurityValidator {
    SecurityValidator::new(Vec::new())
}

fn protecting(entries: &[&str]) -> SecurityValidator {
    SecurityValidator::new(entries.iter().map(|e| e.to_string()).collect())
}

#[test]
fn test_blocked_paths() {
    let validator = SecurityValidator::new(Vec::new());

    assert!(matches!(
        validator.validate_path("/", None),
        PathValidation::Blocked { .. }
    ));
    assert!(matches!(
        validator.validate_path("/etc/passwd", None),
        PathValidation::Blocked { .. }
    ));
    assert!(matches!(
        validator.validate_path("/usr/bin/ls", None),
        PathValidation::Blocked { .. }
    ));
}

#[test]
fn test_relative_path_rejected() {
    let validator = SecurityValidator::new(Vec::new());

    assert!(matches!(
        validator.validate_path("../etc/passwd", None),
        PathValidation::Invalid { .. }
    ));
    assert!(matches!(
        validator.validate_path("relative/path", None),
        PathValidation::Invalid { .. }
    ));
}

#[test]
fn test_path_traversal_rejected() {
    let validator = SecurityValidator::new(Vec::new());

    assert!(matches!(
        validator.validate_path("/home/user/../etc/passwd", None),
        PathValidation::Invalid { .. }
    ));
}

#[test]
fn test_safe_path() {
    let validator = SecurityValidator::new(Vec::new());
    let home = dirs::home_dir().unwrap();
    let safe_path = home.join(".cache/test");

    assert!(matches!(
        validator.validate_path(&safe_path.to_string_lossy(), None),
        PathValidation::Safe
    ));
}

#[test]
fn test_dangerous_chars() {
    assert!(contains_dangerous_chars("/path/with\nnewline"));
    assert!(contains_dangerous_chars("/path/with\0null"));
    assert!(!contains_dangerous_chars("/normal/path"));
}

#[test]
fn test_large_deletion_threshold() {
    let validator = SecurityValidator::new(Vec::new());

    assert!(!validator.is_large_deletion(500 * 1024 * 1024)); // 500MB
    assert!(validator.is_large_deletion(2 * 1024 * 1024 * 1024)); // 2GB
}

#[test]
fn large_deletion_threshold_is_inclusive() {
    let validator = plain();
    let gib: u64 = 1024 * 1024 * 1024;
    assert!(validator.is_large_deletion(gib));
    assert!(!validator.is_large_deletion(gib - 1));
    assert!(validator.is_large_deletion(gib + 1));
    assert!(!validator.is_large_deletion(0));
    assert!(validator.is_large_deletion(u64::MAX));
}

#[test]
fn home_cache_is_safe() {
    let validator = plain();
    assert_eq!(validator.validate_path("/home/alice/.cache/test", None), PathValidation::Safe);
    assert_eq!(
        validator.validate_path("/home/alice/.cache/mozilla/firefox/x.bin", None),
        PathValidation::Safe
    );
    assert_eq!(validator.validate_path("/srv2/bob/.cache/anything", None), PathValidation::Safe);
}

#[test]
fn superuser_home_cache_is_blocked() {
    assert_eq!(
        plain().validate_path("/root/.cache/test", None),
        blocked("System path protected: /root")
    );
}

#[test]
fn blocked_paths_name_the_first_matching_prefix() {
    let validator = plain();
    assert_eq!(validator.validate_path("/", None), blocked("System path protected: /"));
    assert_eq!(validator.validate_path("/etc", None), blocked("System path protected: /etc"));
    assert_eq!(
        validator.validate_path("/etc/passwd", None),
        blocked("System path protected: /etc")
    );
    assert_eq!(
        validator.validate_path("/usr/bin/ls", None),
        blocked("System path protected: /usr")
    );
    assert_eq!(
        validator.validate_path("/var/lib/dpkg", None),
        blocked("System path protected: /var")
    );
    assert_eq!(
        validator.validate_path("/snap/core/123", None),
        blocked("System path protected: /snap/core")
    );
    assert_eq!(validator.validate_path("//", None), blocked("System path protected: /"));
}

#[test]
fn blocked_prefix_needs_a_separator() {
    let validator = plain();
    assert_eq!(validator.validate_path("/etcetera", None), PathValidation::Safe);
    assert_eq!(validator.validate_path("/usr2/bin", None), PathValidation::Safe);
    assert_eq!(validator.validate_path("/snap/firefox", None), PathValidation::Safe);
    assert_eq!(validator.validate_path("/snap", None), PathValidation::Safe);
}

#[test]
fn invalid_paths_say_why() {
    let validator = plain();
    assert_eq!(validator.validate_path("", None), invalid("Empty path"));
    assert_eq!(validator.validate_path("relative/path", None), invalid("Path must be absolute"));
    assert_eq!(validator.validate_path("../etc/passwd", None), invalid("Path must be absolute"));
    assert_eq!(validator.validate_path("~/x", None), invalid("Path must be absolute"));
    assert_eq!(
        validator.validate_path("/home/user/../etc/passwd", None),
        invalid("Path traversal detected")
    );
    assert_eq!(validator.validate_path("/home/user/..", None), invalid("Path traversal detected"));
    assert_eq!(validator.validate_path("/..", None), invalid("Path traversal detected"));
    assert_eq!(validator.validate_path("/etc/../tmp", None), invalid("Path traversal detected"));
}

#[test]
fn dots_inside_names_are_no_traversal() {
    let validator = plain();
    assert_eq!(validator.validate_path("/home/user/..hidden", None), PathValidation::Safe);
    assert_eq!(validator.validate_path("/home/user/a..b/c", None), PathValidation::Safe);
    assert_eq!(validator.validate_path("/home/user/...", None), PathValidation::Safe);
    assert_eq!(validator.validate_path("/home/user/./x", None), PathValidation::Safe);
}

#[test]
fn traversal_wins_over_every_later_rule() {
    let validator = protecting(&["/home/alice"]);
    assert_eq!(
        validator.validate_path("/etc/../home/alice", None),
        invalid("Path traversal detected")
    );
    assert_eq!(
        validator.validate_path("/home/alice/..", Some("/tmp".to_string())),
        invalid("Path traversal detected")
    );
}

#[test]
fn whitelisted_paths_are_blocked() {
    let validator = protecting(&["/home/alice/Documents", "/data/keep/"]);
    let reason = "Path is whitelisted by user";
    assert_eq!(validator.validate_path("/home/alice/Documents", None), blocked(reason));
    assert_eq!(validator.validate_path("/home/alice/Documents/a/b.txt", None), blocked(reason));
    assert_eq!(validator.validate_path("/home/alice//Documents/./a", None), blocked(reason));
    assert_eq!(validator.validate_path("/home/alice/Documents/", None), blocked(reason));
    assert_eq!(validator.validate_path("/data/keep", None), blocked(reason));
    assert_eq!(validator.validate_path("/data/keep/x", None), blocked(reason));
    assert!(reason.contains("whitelist"));
}

#[test]
fn whitelist_matches_whole_components() {
    let validator = protecting(&["/home/alice/Documents"]);
    assert_eq!(validator.validate_path("/home/alice/Documents2", None), PathValidation::Safe);
    assert_eq!(validator.validate_path("/home/alice/Doc", None), PathValidation::Safe);
    assert_eq!(validator.validate_path("/home/alice", None), PathValidation::Safe);
    assert!(validator.is_whitelisted("/home/alice/Documents/x"));
    assert!(!validator.is_whitelisted("/home/alice/Documents2"));
    assert!(!validator.is_whitelisted("home/alice/Documents"));
    assert!(!plain().is_whitelisted("/home/alice/Documents"));
}

#[test]
fn whitelist_suppresses_caution_and_links() {
    let validator = protecting(&["/tmp", "/home/alice/link"]);
    let reason = "Path is whitelisted by user";
    assert_eq!(validator.validate_path("/tmp", None), blocked(reason));
    assert_eq!(
        validator.validate_path("/home/alice/link", Some("/elsewhere".to_string())),
        blocked(reason)
    );
}

#[test]
fn system_block_comes_before_the_whitelist() {
    let validator = protecting(&["/etc/mine"]);
    assert_eq!(
        validator.validate_path("/etc/mine/x", None),
        blocked("System path protected: /etc")
    );
}

#[test]
fn links_are_reported_with_their_target() {
    let validator = plain();
    assert_eq!(
        validator.validate_path("/home/alice/link", Some("/etc".to_string())),
        PathValidation::Symlink { target: "/etc".to_string() }
    );
    assert_eq!(
        validator.validate_path("/tmp", Some("../x".to_string())),
        PathValidation::Symlink { target: "../x".to_string() }
    );
    assert_eq!(
        validator.validate_path("/etc/alternatives/x", Some("/home/a".to_string())),
        blocked("System path protected: /etc")
    );
}

#[test]
fn caution_paths_match_exactly() {
    let validator = plain();
    assert_eq!(
        validator.validate_path("/tmp", None),
        PathValidation::Caution { reason: "Deleting /tmp requires confirmation".to_string() }
    );
    assert_eq!(
        validator.validate_path("/home", None),
        PathValidation::Caution { reason: "Deleting /home requires confirmation".to_string() }
    );
    assert_eq!(
        validator.validate_path("/opt", None),
        PathValidation::Caution { reason: "Deleting /opt requires confirmation".to_string() }
    );
    assert_eq!(validator.validate_path("/tmp/x", None), PathValidation::Safe);
    assert_eq!(validator.validate_path("/tmp/", None), PathValidation::Safe);
    assert_eq!(validator.validate_path("/opt/tool", None), PathValidation::Safe);
}

#[test]
fn caution_paths_below_var_are_blocked() {
    let validator = plain();
    assert_eq!(validator.validate_path("/var/tmp", None), blocked("System path protected: /var"));
    assert_eq!(
        validator.validate_path("/var/cache", None),
        blocked("System path protected: /var")
    );
}

#[test]
fn safe_cache_locations_are_carved_out() {
    let validator = plain();
    assert_eq!(validator.validate_path("/var/cache/apt/archives", None), PathValidation::Safe);
    assert_eq!(
        validator.validate_path("/var/cache/apt/archives/a.deb", None),
        PathValidation::Safe
    );
    assert_eq!(validator.validate_path("/var/cache/apt/pkgcache.bin", None), PathValidation::Safe);
    assert_eq!(
        validator.validate_path("/var/cache/apt/srcpkgcache.bin", None),
        PathValidation::Safe
    );
    assert_eq!(
        validator.validate_path("/var/cache/apt", None),
        blocked("System path protected: /var")
    );
    assert_eq!(
        validator.validate_path("/var/cache/apt/lists", None),
        blocked("System path protected: /var")
    );
    assert!(validator.is_safe_cache_subdir("/var/cache/apt/archives"));
    assert!(validator.is_safe_cache_subdir("/var/cache/apt/archives/partial"));
    assert!(!validator.is_safe_cache_subdir("/var/cache/apt"));
    assert!(!validator.is_safe_cache_subdir("/home/a/var/cache/apt/archives"));
}

#[test]
fn validation_is_repeatable() {
    let validator = protecting(&["/home/alice/keep"]);
    let paths = ["", "x", "/", "/etc/passwd", "/tmp", "/home/alice/keep/x", "/home/a/../b", "/data"];
    for p in paths {
        assert_eq!(validator.validate_path(p, None), validator.validate_path(p, None));
        let link = Some("/target".to_string());
        assert_eq!(
            validator.validate_path(p, link.clone()),
            validator.validate_path(p, link.clone())
        );
    }
}

#[test]
fn privileged_validation_checks_the_resolved_path() {
    let validator = plain();
    assert_eq!(
        validator.validate_sudo_operation(
            "/home/alice/data",
            None,
            Some("/etc/passwd".to_string())
        ),
        blocked("Symlink resolves to protected path: /etc/passwd")
    );
    assert_eq!(
        validator.validate_sudo_operation("/home/alice/data", None, Some("/".to_string())),
        blocked("Symlink resolves to protected path: /")
    );
    assert_eq!(
        validator.validate_sudo_operation(
            "/home/alice/data",
            None,
            Some("/home/alice/data".to_string())
        ),
        PathValidation::Safe
    );
    assert_eq!(
        validator.validate_sudo_operation("/home/alice/data", None, None),
        PathValidation::Safe
    );
    assert_eq!(
        validator.validate_sudo_operation(
            "/home/alice/apt",
            None,
            Some("/var/cache/apt/archives/x".to_string())
        ),
        PathValidation::Safe
    );
}

#[test]
fn privileged_validation_keeps_other_verdicts() {
    let validator = plain();
    assert_eq!(
        validator.validate_sudo_operation("/etc", None, Some("/home/a".to_string())),
        blocked("System path protected: /etc")
    );
    assert_eq!(
        validator.validate_sudo_operation("/tmp", None, Some("/etc".to_string())),
        PathValidation::Caution { reason: "Deleting /tmp requires confirmation".to_string() }
    );
    assert_eq!(
        validator.validate_sudo_operation(
            "/home/a/l",
            Some("/etc".to_string()),
            Some("/etc".to_string())
        ),
        PathValidation::Symlink { target: "/etc".to_string() }
    );
    assert_eq!(
        validator.validate_sudo_operation("rel", None, None),
        invalid("Path must be absolute")
    );
}

#[test]
fn whitelist_file_is_parsed_line_by_line() {
    let text = "# protected\n/home/alice/Documents\n\n   \n~/Pictures\r\n#~/skipped\n/data/keep/\n~\n  /spaced  \n";
    let entries = parse_whitelist(text, Some("/home/alice"));
    assert_eq!(
        entries,
        vec![
            "/home/alice/Documents".to_string(),
            "/home/alice/Pictures".to_string(),
            "/data/keep/".to_string(),
            "/home/alice/".to_string(),
            "  /spaced  ".to_string(),
        ]
    );
}

#[test]
fn whitelist_without_home_keeps_tilde_lines() {
    let entries = parse_whitelist("~/Pictures\n/x", None);
    assert_eq!(entries, vec!["~/Pictures".to_string(), "/x".to_string()]);
}

#[test]
fn whitelist_tilde_takes_two_characters() {
    let entries = parse_whitelist("~/a/b\n~//etc\n~xy", Some("/home/bob/"));
    assert_eq!(
        entries,
        vec!["/home/bob/a/b".to_string(), "/etc".to_string(), "/home/bob/y".to_string()]
    );
}

#[test]
fn missing_whitelist_file_is_an_empty_whitelist() {
    assert_eq!(load_whitelist(None, Some("/home/alice")), Vec::<String>::new());
    assert_eq!(load_whitelist(Some(""), Some("/home/alice")), Vec::<String>::new());
    assert_eq!(load_whitelist(Some("/keep\n"), None), vec!["/keep".to_string()]);
    let validator = SecurityValidator::new(load_whitelist(None, None));
    assert_eq!(validator.validate_path("/home/alice/x", None), PathValidation::Safe);
}

#[test]
fn loaded_whitelist_protects_its_entries() {
    let validator =
        SecurityValidator::new(load_whitelist(Some("~/Documents\n"), Some("/home/alice")));
    assert_eq!(
        validator.validate_path("/home/alice/Documents/report.txt", None),
        blocked("Path is whitelisted by user")
    );
    assert_eq!(validator.validate_path("/home/alice/Downloads/x", None), PathValidation::Safe);
}

#[test]
fn whitelist_file_location() {
    assert_eq!(whitelist_path_in(Some("/home/alice/.config")), "/home/alice/.config/mole-rs/whitelist");
    assert_eq!(whitelist_path_in(None), "./mole-rs/whitelist");
    let path = whitelist_path();
    assert!(path.ends_with("mole-rs/whitelist"));
}

#[test]
fn sanitize_resolves_dots() {
    assert_eq!(sanitize_path("/a/b/../c"), Some("/a/c".to_string()));
    assert_eq!(sanitize_path("/a/./b//c/"), Some("/a/b/c".to_string()));
    assert_eq!(sanitize_path("a/b"), Some("a/b".to_string()));
    assert_eq!(sanitize_path("./a/../b"), Some("b".to_string()));
    assert_eq!(sanitize_path("/"), Some("/".to_string()));
    assert_eq!(sanitize_path("/normal/path"), Some("/normal/path".to_string()));
}

#[test]
fn sanitize_rejects_what_is_left_empty_or_dangerous() {
    assert_eq!(sanitize_path(""), None);
    assert_eq!(sanitize_path("."), None);
    assert_eq!(sanitize_path("/.."), None);
    assert_eq!(sanitize_path("a/.."), None);
    assert_eq!(sanitize_path("/path/with\nnewline"), None);
    assert_eq!(sanitize_path("/path/with\0null"), None);
}

#[test]
fn sanitize_lets_parent_remove_the_root() {
    assert_eq!(sanitize_path("/../a"), Some("a".to_string()));
    assert_eq!(sanitize_path("../a"), Some("a".to_string()));
}

#[test]
fn control_characters_are_dangerous() {
    assert!(contains_dangerous_chars("/a\rb"));
    assert!(contains_dangerous_chars("/a\tb"));
    assert!(contains_dangerous_chars("/a\u{7f}b"));
    assert!(contains_dangerous_chars("/a\u{9f}b"));
    assert!(contains_dangerous_chars("\u{1f}"));
    assert!(!contains_dangerous_chars("/a b"));
    assert!(!contains_dangerous_chars("/a\u{a0}b"));
    assert!(!contains_dangerous_chars("/caf\u{e9}"));
    assert!(!contains_dangerous_chars(""));
}

#[test]
fn home_directory_containment() {
    assert!(is_within_home("/home/alice/x", Some("/home/alice")));
    assert!(is_within_home("/home/alice", Some("/home/alice/")));
    assert!(!is_within_home("/home/alice2/x", Some("/home/alice")));
    assert!(!is_within_home("/home/alice/x", None));
    let home = dirs::home_dir().unwrap();
    let inside = home.join("some/file");
    assert!(SecurityValidator::is_in_home_directory(&inside.to_string_lossy()));
    assert!(!SecurityValidator::is_in_home_directory("relative/elsewhere"));
    assert!(!SecurityValidator::is_in_home_directory(""));
    assert!(!is_within_home("", Some("/home/alice")));
    assert!(!is_within_home("", Some(".")));
}

#[test]
fn protected_tables() {
    let blocked = blocked_paths();
    assert_eq!(blocked.len(), 22);
    assert_eq!(blocked[0], "/");
    assert_eq!(blocked[16], "/var");
    assert_eq!(blocked[21], "/snap/snapd");
    let caution = caution_paths();
    assert_eq!(caution, vec!["/opt", "/home", "/tmp", "/var/tmp", "/var/cache"]);
    for c in &caution {
        assert!(!blocked.contains(c));
    }
}

#[test]
fn lookalikes_of_safe_cache_locations_are_blocked() {
    let validator = plain();
    assert!(!validator.is_safe_cache_subdir("/var/cache/apt/archives-evil/x"));
    assert!(!validator.is_safe_cache_subdir("/var/cache/apt/archivesX"));
    assert!(!validator.is_safe_cache_subdir("/var/cache/apt/pkgcache.bin.bak"));
    assert!(validator.is_safe_cache_subdir("/var/cache/apt/pkgcache.bin"));
    assert_eq!(
        validator.validate_path("/var/cache/apt/archives-evil/x", None),
        blocked("System path protected: /var")
    );
    assert_eq!(
        validator.validate_path("/var/cache/apt/archivesX", None),
        blocked("System path protected: /var")
    );
    assert_eq!(
        validator.validate_path("/var/cache/apt/srcpkgcache.bin.old", None),
        blocked("System path protected: /var")
    );
    assert_eq!(
        validator.validate_sudo_operation(
            "/home/alice/link",
            None,
            Some("/var/cache/apt/archivesX".to_string())
        ),
        blocked("Symlink resolves to protected path: /var/cache/apt/archivesX")
    );
    assert_eq!(
        validator.validate_sudo_operation(
            "/home/alice/link",
            None,
            Some("/var/cache/apt/archives/x.deb".to_string())
        ),
        PathValidation::Safe
    );
}
