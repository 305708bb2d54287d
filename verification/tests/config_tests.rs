use mole_rs::cli::{analyze_path_for, default_analyze_path};
use mole_rs::config::Config;

#[test]
fn test_config_default() {
    let config = Config::default();

    assert!(config.whitelist.is_empty());
    assert!(!config.project_paths.is_empty());
    assert_eq!(config.skip_recent_days, 7);
    assert_eq!(config.journal_max_size, "100M");
}

#[test]
fn test_config_path() {
    let path = Config::config_path();

    assert!(path.contains("mole-rs"));
    assert!(path.contains("config.toml"));
}

#[test]
fn test_config_load_default() {
    // If no config file exists, should return defaults
    let config = Config::load(None);

    assert_eq!(config.skip_recent_days, 7);
}

#[test]
fn default_configuration_for_a_home() {
    let config = Config::default_for(Some("/home/alice"));
    assert!(config.whitelist.is_empty());
    assert_eq!(
        config.project_paths,
        vec![
            "/home/alice/Projects".to_string(),
            "/home/alice/Development".to_string(),
            "/home/alice/dev".to_string(),
            "/home/alice/code".to_string(),
            "/home/alice/GitHub".to_string(),
        ]
    );
    assert_eq!(config.skip_recent_days, 7);
    assert_eq!(config.journal_max_size, "100M");
    assert_eq!(Config::default_for(None).project_paths[0], "./Projects");
}

#[test]
fn loaded_configuration_is_kept() {
    let parsed = Config {
        whitelist: vec!["/keep".to_string()],
        project_paths: vec!["/work".to_string()],
        skip_recent_days: 30,
        journal_max_size: "1G".to_string(),
    };
    assert_eq!(Config::load(Some(parsed.clone())), parsed);
    assert_eq!(Config::load(None), Config::default());
}

#[test]
fn configuration_file_location() {
    assert_eq!(Config::config_path_in(Some("/home/alice/.config")), "/home/alice/.config/mole-rs/config.toml");
    assert_eq!(Config::config_path_in(None), "./mole-rs/config.toml");
    let expected = dirs::config_dir().unwrap().join("mole-rs").join("config.toml");
    assert_eq!(Config::config_path(), expected.to_string_lossy());
}

#[test]
fn default_analyze_path_is_the_home() {
    assert_eq!(analyze_path_for(Some("/home/alice")), "/home/alice");
    assert_eq!(analyze_path_for(None), ".");
    let home = dirs::home_dir().unwrap();
    assert_eq!(default_analyze_path(), home.to_string_lossy());
    assert!(!default_analyze_path().is_empty());
}
