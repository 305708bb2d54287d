use mole_rs::paths::{CleanupPaths, DevArtifacts};

#[test]
fn test_cleanup_paths_new() {
    let paths = CleanupPaths::new();

    // System paths should be absolute
    assert!(std::path::Path::new(&paths.apt_cache).is_absolute());
    assert!(std::path::Path::new(&paths.system_logs).is_absolute());

    // User paths should contain home directory
    assert!(paths.user_cache.contains(".cache"));
    assert!(paths.trash.contains("Trash"));
}

#[test]
fn test_user_caches_not_empty() {
    let paths = CleanupPaths::new();
    let user_caches = paths.user_caches();

    assert!(!user_caches.is_empty());
    assert!(user_caches.len() >= 5);
}

#[test]
fn test_system_caches_not_empty() {
    let paths = CleanupPaths::new();
    let system_caches = paths.system_caches();

    assert!(!system_caches.is_empty());
    assert!(system_caches.len() >= 4);
}

#[test]
fn test_dev_artifacts_patterns() {
    let artifacts = DevArtifacts::new();

    // Should have common patterns
    let dir_names: Vec<_> = artifacts.patterns.iter().map(|p| p.dir_name).collect();

    assert!(dir_names.contains(&"node_modules"));
    assert!(dir_names.contains(&"target"));
    assert!(dir_names.contains(&"venv"));
}

#[test]
fn cleanup_paths_for_a_home() {
    let paths = CleanupPaths::for_home(Some("/home/alice"));
    assert_eq!(paths.apt_cache, "/var/cache/apt/archives");
    assert_eq!(paths.apt_lists, "/var/lib/apt/lists");
    assert_eq!(paths.journal_logs, "/var/log/journal");
    assert_eq!(paths.system_logs, "/var/log");
    assert_eq!(paths.tmp, "/tmp");
    assert_eq!(paths.var_tmp, "/var/tmp");
    assert_eq!(paths.user_cache, "/home/alice/.cache");
    assert_eq!(paths.thumbnails, "/home/alice/.cache/thumbnails");
    assert_eq!(paths.trash, "/home/alice/.local/share/Trash");
    assert_eq!(paths.pip_cache, "/home/alice/.cache/pip");
    assert_eq!(paths.npm_cache, "/home/alice/.npm/_cacache");
    assert_eq!(paths.yarn_cache, "/home/alice/.cache/yarn");
    assert_eq!(paths.firefox_cache, "/home/alice/.cache/mozilla/firefox");
    assert_eq!(paths.chrome_cache, "/home/alice/.cache/google-chrome");
    assert_eq!(paths.chromium_cache, "/home/alice/.cache/chromium");
    assert_eq!(paths.snap_cache, "/home/alice/snap");
    assert_eq!(paths.flatpak_cache, "/home/alice/.var/app");
}

#[test]
fn cleanup_paths_without_a_home() {
    let paths = CleanupPaths::for_home(None);
    assert_eq!(paths.user_cache, "./.cache");
    assert_eq!(paths.snap_cache, "./snap");
    assert_eq!(paths.tmp, "/tmp");
    let slashed = CleanupPaths::for_home(Some("/home/bob/"));
    assert_eq!(slashed.user_cache, "/home/bob/.cache");
}

#[test]
fn cleanup_paths_follow_the_environment() {
    let home = dirs::home_dir().unwrap();
    let expected = home.join(".cache/thumbnails");
    assert_eq!(CleanupPaths::new().thumbnails, expected.to_string_lossy());
    assert_eq!(CleanupPaths::default(), CleanupPaths::new());
}

#[test]
fn cache_lists_are_labelled_in_order() {
    let paths = CleanupPaths::for_home(Some("/home/alice"));
    let user: Vec<(String, String)> =
        paths.user_caches().iter().map(|(n, p)| (n.to_string(), p.to_string())).collect();
    let expect = |n: &str, p: &str| (n.to_string(), p.to_string());
    assert_eq!(
        user,
        vec![
            expect("User Cache", "/home/alice/.cache"),
            expect("Thumbnails", "/home/alice/.cache/thumbnails"),
            expect("Trash", "/home/alice/.local/share/Trash"),
            expect("Pip Cache", "/home/alice/.cache/pip"),
            expect("NPM Cache", "/home/alice/.npm/_cacache"),
            expect("Yarn Cache", "/home/alice/.cache/yarn"),
            expect("Firefox Cache", "/home/alice/.cache/mozilla/firefox"),
            expect("Chrome Cache", "/home/alice/.cache/google-chrome"),
            expect("Chromium Cache", "/home/alice/.cache/chromium"),
        ]
    );
    let system: Vec<(String, String)> =
        paths.system_caches().iter().map(|(n, p)| (n.to_string(), p.to_string())).collect();
    assert_eq!(
        system,
        vec![
            expect("APT Cache", "/var/cache/apt/archives"),
            expect("APT Lists", "/var/lib/apt/lists"),
            expect("Journal Logs", "/var/log/journal"),
            expect("System Logs", "/var/log"),
            expect("Temp Files", "/tmp"),
            expect("Var Temp", "/var/tmp"),
        ]
    );
}

#[test]
fn artifact_table_is_complete() {
    let artifacts = DevArtifacts::new();
    let rows: Vec<(&str, &str, Vec<&str>)> = artifacts
        .patterns
        .iter()
        .map(|p| (p.name, p.dir_name, p.marker_files.clone()))
        .collect();
    assert_eq!(
        rows,
        vec![
            ("Node.js", "node_modules", vec!["package.json"]),
            ("Rust", "target", vec!["Cargo.toml"]),
            ("Python venv", "venv", vec!["requirements.txt", "setup.py", "pyproject.toml"]),
            ("Python .venv", ".venv", vec!["requirements.txt", "setup.py", "pyproject.toml"]),
            ("Python cache", "__pycache__", vec![]),
            ("Gradle", "build", vec!["build.gradle", "build.gradle.kts"]),
            ("Maven", "target", vec!["pom.xml"]),
            ("Next.js", ".next", vec!["next.config.js", "next.config.mjs"]),
            ("Nuxt", ".nuxt", vec!["nuxt.config.js", "nuxt.config.ts"]),
        ]
    );
    assert_eq!(DevArtifacts::default(), artifacts);
}
