use polydup::commands::validate_config;
use polydup::config::{config_candidate_paths, find_config_path, Config};
use polydup::defaults::{MIN_BLOCK_SIZE, SIMILARITY};

#[test]
fn test_default_config() {
    let config = Config::default();
    assert_eq!(config.scan.min_block_size, MIN_BLOCK_SIZE);
    assert_eq!(config.scan.similarity_threshold, SIMILARITY);
    assert_eq!(config.output.format, "text");
    assert!(!config.output.verbose);
    assert!(!config.ci.enabled);
    assert!(config.ci.fail_on_duplicates);
}

#[test]
fn test_validate_valid_config() {
    let config = Config::default();
    let result = config.validate();
    assert!(result.is_ok());
}

#[test]
fn test_validate_invalid_similarity() {
    // [scan] min_block_size = 50, similarity_threshold = 1.5
    let mut config = Config::default();
    config.scan.min_block_size = 50;
    config.scan.similarity_threshold = 1_500_000;
    let result = config.validate();
    assert!(result.is_err());
}

#[test]
fn test_validate_invalid_format() {
    // [output] format = "xml"
    let mut config = Config::default();
    config.output.format = "xml".to_string();
    let result = config.validate();
    assert!(result.is_err());
}

#[test]
fn validation_error_messages_name_the_rule() {
    let mut config = Config::default();
    config.scan.similarity_threshold = 1_500_000;
    assert_eq!(
        config.validate().unwrap_err(),
        "similarity_threshold must be between 0.0 and 1.0, got 1.5"
    );

    let mut config = Config::default();
    config.scan.min_block_size = 0;
    assert_eq!(config.validate().unwrap_err(), "min_block_size must be greater than 0");

    let mut config = Config::default();
    config.output.format = "xml".to_string();
    assert_eq!(
        config.validate().unwrap_err(),
        "output format must be 'text' or 'json', got 'xml'"
    );

    let mut config = Config::default();
    config.scan.exclude.patterns.push(String::new());
    assert_eq!(config.validate().unwrap_err(), "exclude pattern cannot be empty");
}

#[test]
fn validation_warns_about_unusual_values() {
    let mut config = Config::default();
    config.scan.similarity_threshold = 400_000;
    config.scan.min_block_size = 600;
    let warnings = config.validate().unwrap();
    assert_eq!(
        warnings,
        vec![
            "similarity_threshold is very low (0.4). This may produce many false positives."
                .to_string(),
            "min_block_size is very large (600). This may miss smaller duplicates.".to_string(),
        ]
    );

    let mut config = Config::default();
    config.scan.similarity_threshold = 990_000;
    config.scan.min_block_size = 5;
    let warnings = config.validate().unwrap();
    assert_eq!(
        warnings,
        vec![
            "similarity_threshold is very high (0.99). This may miss similar code.".to_string(),
            "min_block_size is very small (5). This may produce many small duplicates.".to_string(),
        ]
    );
}

#[test]
fn default_config_has_no_warnings() {
    assert_eq!(Config::default().validate().unwrap(), Vec::<String>::new());
}

#[test]
fn summary_lists_every_setting() {
    let summary = Config::default().summary();
    assert_eq!(
        summary,
        "Configuration Summary:\n\nScan Settings:\nMin block size: 50 tokens\nSimilarity threshold: 85%\nExclude patterns: 10\n\nOutput Settings:\nFormat: text\nVerbose: false\n\nCI/CD Settings:\nEnabled: false\nFail on duplicates: true"
    );
}

#[test]
fn validate_command_reports_summary_and_warnings() {
    let mut config = Config::default();
    config.scan.min_block_size = 5;
    let outcome = validate_config(&config);
    assert_eq!(outcome.exit_code, 0);
    assert!(outcome.stdout.starts_with("✓ Configuration is valid\n\nConfiguration Summary:"));
    assert!(outcome
        .stdout
        .ends_with("\nWarnings:\n  ⚠ min_block_size is very small (5). This may produce many small duplicates.\n"));
    assert_eq!(outcome.stderr, "");
}

#[test]
fn validate_command_fails_on_invalid_config() {
    let mut config = Config::default();
    config.output.format = "xml".to_string();
    let outcome = validate_config(&config);
    assert_eq!(outcome.exit_code, 1);
    assert_eq!(outcome.stdout, "");
    assert!(outcome.stderr.contains("✗ Configuration is invalid"));
    assert!(outcome.stderr.contains("Error: output format must be 'text' or 'json', got 'xml'"));
}

#[test]
fn config_search_walks_up_with_names_in_priority_order() {
    let candidates = config_candidate_paths("/home/user/project");
    assert_eq!(
        candidates,
        vec![
            "/home/user/project/.polyduprc.toml",
            "/home/user/project/.polydup/config.toml",
            "/home/user/project/polydup.toml",
            "/home/user/project/.config/polydup.toml",
            "/home/user/.polyduprc.toml",
            "/home/user/.polydup/config.toml",
            "/home/user/polydup.toml",
            "/home/user/.config/polydup.toml",
            "/home/.polyduprc.toml",
            "/home/.polydup/config.toml",
            "/home/polydup.toml",
            "/home/.config/polydup.toml",
            "/.polyduprc.toml",
            "/.polydup/config.toml",
            "/polydup.toml",
            "/.config/polydup.toml",
        ]
    );
}

#[test]
fn polyduprc_wins_over_polydup_toml_in_the_same_directory() {
    let candidates = config_candidate_paths("/work");
    let exists: Vec<bool> = candidates
        .iter()
        .map(|c| c == "/work/.polyduprc.toml" || c == "/work/polydup.toml")
        .collect();
    assert_eq!(
        find_config_path(&candidates, &exists),
        Some("/work/.polyduprc.toml".to_string())
    );
}

#[test]
fn polydup_directory_config_wins_over_polydup_toml() {
    let candidates = config_candidate_paths("/work");
    let exists: Vec<bool> = candidates
        .iter()
        .map(|c| c == "/work/.polydup/config.toml" || c == "/work/polydup.toml")
        .collect();
    assert_eq!(
        find_config_path(&candidates, &exists),
        Some("/work/.polydup/config.toml".to_string())
    );
}

#[test]
fn config_in_parent_directory_is_found() {
    let candidates = config_candidate_paths("/work/subdir");
    let exists: Vec<bool> = candidates.iter().map(|c| c == "/work/.polyduprc.toml").collect();
    assert_eq!(
        find_config_path(&candidates, &exists),
        Some("/work/.polyduprc.toml".to_string())
    );
}

#[test]
fn no_config_anywhere_finds_nothing() {
    let candidates = config_candidate_paths("relative/dir");
    assert_eq!(candidates.len(), 12);
    assert_eq!(candidates[8], ".polyduprc.toml");
    let exists = vec![false; candidates.len()];
    assert_eq!(find_config_path(&candidates, &exists), None);
}

#[test]
fn nearer_directory_wins_over_a_higher_priority_name_farther_up() {
    let candidates = config_candidate_paths("/work/subdir");
    let exists: Vec<bool> = candidates
        .iter()
        .map(|c| c == "/work/.polyduprc.toml" || c == "/work/subdir/.config/polydup.toml")
        .collect();
    assert_eq!(
        find_config_path(&candidates, &exists),
        Some("/work/subdir/.config/polydup.toml".to_string())
    );
}
