use polydup::cli::{parse_min_tokens, ConfigCommands};
use polydup::commands::{
    cache_build_plan, cache_built_summary, cache_cleared_message, cache_info, cache_missing_error,
    missing_config, run, show_config, show_config_path, CacheCommand, CacheStats, CacheTask,
    ConfigTask,
};
use polydup::config::Config;

#[test]
fn min_tokens_accepts_positive_counts_only() {
    assert_eq!(parse_min_tokens("50"), Ok(50));
    assert_eq!(parse_min_tokens("+7"), Ok(7));
    assert_eq!(
        parse_min_tokens("-5"),
        Err("Minimum token count must be positive, got: -5\nSuggestion: Use a value greater than 0 (e.g., --threshold 50)\nTip: Typical values range from 25-100 tokens.".to_string())
    );
    assert_eq!(
        parse_min_tokens("0"),
        Err("Minimum token count cannot be 0\nSuggestion: Use at least 10 tokens for meaningful results\nTip: Default is 50 tokens. Try values between 25-100.".to_string())
    );
    assert_eq!(
        parse_min_tokens("ten"),
        Err("Invalid number: 'ten'\nSuggestion: Provide a positive integer (e.g., --threshold 50)".to_string())
    );
    assert!(parse_min_tokens("99999999999999999999").is_err());
    assert!(parse_min_tokens("").is_err());
    // a count printed in decimal reads back as itself
    for n in [1usize, 9, 10, 4096, 1 << 40] {
        assert_eq!(parse_min_tokens(&n.to_string()), Ok(n));
    }
}

#[test]
fn config_subcommands_map_to_tasks() {
    assert!(matches!(run(ConfigCommands::Path), ConfigTask::ShowPath));
    assert!(matches!(
        run(ConfigCommands::Validate { config_path: Some("c.toml".to_string()) }),
        ConfigTask::Validate { config_path: Some(p) } if p == "c.toml"
    ));
    assert!(matches!(run(ConfigCommands::Show { config_path: None }), ConfigTask::Show { config_path: None }));
}

#[test]
fn config_path_and_show_outcomes() {
    let found = show_config_path(Some("/w/.polyduprc.toml"));
    assert_eq!((found.stdout.as_str(), found.exit_code), ("/w/.polyduprc.toml\n", 0));
    let missing = show_config_path(None);
    assert_eq!(missing.exit_code, 1);
    assert_eq!(missing.stderr, "No configuration file found.\n\nRun 'polydup init' to create one.\n");
    assert_eq!(missing_config().stderr, missing.stderr);
    let shown = show_config(&Config::default());
    assert_eq!(shown.stdout, format!("{}\n", Config::default().summary()));
}

#[test]
fn cache_build_uses_configuration_values() {
    let mut cfg = Config::default();
    cfg.scan.min_block_size = 15;
    cfg.scan.similarity_threshold = 900_000;
    let cmd = CacheCommand::Build { paths: vec![".".to_string()], output: "c.json".to_string(), verbose: true };
    match cmd.execute(Some(&cfg)) {
        CacheTask::Build { min_block_size, similarity, output, .. } => {
            assert_eq!((min_block_size, similarity, output.as_str()), (15, 900_000, "c.json"));
            let plan = cache_build_plan("[\".\"]", &output, min_block_size, similarity);
            assert!(plan.contains("Threshold: 15 tokens"));
            assert!(plan.contains("Similarity: 90.0%"));
        }
        _ => panic!("build expected"),
    }
    let cmd = CacheCommand::Build { paths: vec![], output: "c.json".to_string(), verbose: false };
    match cmd.execute(None) {
        CacheTask::Build { min_block_size, similarity, .. } => {
            assert_eq!((min_block_size, similarity), (50, 850_000));
            let plan = cache_build_plan("[]", "c.json", min_block_size, similarity);
            assert_eq!(
                plan,
                "Building hash cache...\n  Paths: []\n  Output: c.json\n  Threshold: 50 tokens\n  Similarity: 85.0%\n\n"
            );
        }
        _ => panic!("build expected"),
    }
    assert!(matches!(CacheCommand::Clear { cache: "x".to_string() }.execute(None), CacheTask::Clear { cache } if cache == "x"));
}

#[test]
fn cache_messages() {
    let stats = CacheStats { files_cached: 12, total_hashes: 340, total_locations: 900, git_commit: Some("abc123".to_string()) };
    assert_eq!(
        cache_built_summary(&stats, "c.json", "0.42"),
        "✓ Cache built successfully: 340 hashes from 12 files\n  Saved to: c.json\n  Build time: 0.42s\n\nTip: Use 'polydup scan --git-diff <range>' for fast PR checks\n"
    );
    let info = cache_info("c.json", "1", 30, &stats, "2024-01-02 03:04:05 UTC");
    assert!(info.starts_with("Cache Information\n"));
    assert!(info.contains("Configuration:\n  Min tokens:       30\n"));
    assert!(info.contains("Statistics:\n  Files cached:     12\n  Unique hashes:    340\n  Total locations:  900\n"));
    assert!(info.contains("Git commit: abc123\n"));
    assert!(info.contains("Created at: 2024-01-02 03:04:05 UTC"));
    assert_eq!(cache_missing_error("c.json"), "Cache file not found: c.json\nRun 'polydup cache build' to create it.");
    assert_eq!(cache_cleared_message("c.json", true), "✓ Cache cleared: c.json");
    assert_eq!(cache_cleared_message("c.json", false), "Cache file does not exist: c.json");
}
