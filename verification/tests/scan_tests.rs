use polydup::cli::OutputFormat;
use polydup::config::Config;
use polydup::report::{CloneType, DuplicateMatch, Report, ScanStats};
use polydup::scan::{
    build_scan_error, dry_run_summary, extension_text, join_strings, language_name, CacheState,
    NoChangesAction, ScanConfig, ScanPlan,
};

fn config() -> ScanConfig {
    ScanConfig {
        paths: vec!["./src".to_string()],
        format: OutputFormat::Text,
        min_block_size: 50,
        similarity: 850_000,
        verbose: false,
        quiet: false,
        exclude: vec![],
        enable_type3: false,
        type3_tolerance: 850_000,
        output: None,
        no_color: false,
        only_type: vec![],
        exclude_type: vec![],
        group_by: None,
        debug: false,
        save_baseline: None,
        compare_to: None,
        git_diff: None,
        enable_directives: false,
        include_tests: false,
        progress: false,
        no_progress: false,
        fail_on_duplicates: false,
        fail_on_new: false,
        show_code: false,
        preview_lines: 10,
        suggest_refactoring: false,
        show_ids: false,
        dry_run: false,
        id_length: 12,
        full_ids: false,
    }
}

fn dup(file1: &str, file2: &str, ct: CloneType) -> DuplicateMatch {
    DuplicateMatch {
        file1: file1.to_string(),
        file2: file2.to_string(),
        start_line1: 1,
        start_line2: 5,
        end_line1: Some(10),
        end_line2: Some(14),
        length: 60,
        similarity: 1_000_000,
        hash: 7,
        clone_type: ct,
        duplicate_id: None,
        suppressed_by_directive: None,
    }
}

#[test]
fn valid_options_pass() {
    assert_eq!(config().validate(&vec![true], "/work"), Ok(()));
}

#[test]
fn missing_path_is_rejected_with_suggestion() {
    let mut c = config();
    c.paths = vec!["/nonexistent/path".to_string()];
    let err = c.validate(&vec![false], "/work").unwrap_err();
    assert!(err.starts_with("Path does not exist: /nonexistent/path\n\nSuggestion:"));
    assert!(!err.contains("Debug Info"));
    c.debug = true;
    let err = c.validate(&vec![false], "/work").unwrap_err();
    assert!(err.ends_with("\nDebug Info:\n  Current directory: /work"));
}

#[test]
fn unknown_clone_type_filter_is_rejected_with_example() {
    let mut c = config();
    c.only_type = vec!["type-1".to_string(), "invalid".to_string()];
    let err = c.validate(&vec![true], "/work").unwrap_err();
    assert!(err.starts_with("Invalid --only-type value: 'invalid'"));
    assert!(err.contains("Suggestion:"));
    assert!(err.contains("Example:"));

    let mut c = config();
    c.exclude_type = vec!["type-4".to_string()];
    let err = c.validate(&vec![true], "/work").unwrap_err();
    assert!(err.starts_with("Invalid --exclude-type value: 'type-4'"));
}

#[test]
fn unknown_grouping_is_rejected_with_options_explained() {
    let mut c = config();
    c.group_by = Some("invalid".to_string());
    let err = c.validate(&vec![true], "/work").unwrap_err();
    assert!(err.starts_with("Invalid --group-by value: 'invalid'"));
    assert!(err.contains("Options explained:"));
}

#[test]
fn out_of_range_numbers_are_rejected() {
    let mut c = config();
    c.similarity = 1_200_000;
    let err = c.validate(&vec![true], "/work").unwrap_err();
    assert!(err.starts_with("Similarity threshold must be between 0.0 and 1.0, got: 1.2\n"));
    let mut c = config();
    c.min_block_size = 0;
    let err = c.validate(&vec![true], "/work").unwrap_err();
    assert!(err.starts_with("Minimum block size must be greater than 0\n"));
}

#[test]
fn first_failing_check_wins() {
    let mut c = config();
    c.paths = vec!["a".to_string(), "b".to_string()];
    c.min_block_size = 0;
    let err = c.validate(&vec![true, false], "/w").unwrap_err();
    assert!(err.starts_with("Path does not exist: b\n"));
}

#[test]
fn config_file_fills_in_defaults_but_cli_values_win() {
    let mut file = Config::default();
    file.scan.min_block_size = 30;
    file.scan.similarity_threshold = 920_000;
    file.scan.exclude.patterns = vec!["**/vendor/**".to_string(), "**/gen/**".to_string()];

    let mut c = config();
    c.exclude = vec!["**/gen/**".to_string()];
    c.merge_with_config_file(Some(&file));
    assert_eq!(c.min_block_size, 30);
    assert_eq!(c.similarity, 920_000);
    assert_eq!(c.exclude, vec!["**/gen/**".to_string(), "**/vendor/**".to_string()]);

    let mut c = config();
    c.min_block_size = 80;
    c.similarity = 900_000;
    c.merge_with_config_file(Some(&file));
    assert_eq!(c.min_block_size, 80);
    assert_eq!(c.similarity, 900_000);

    // merging again changes nothing
    let before = c.exclude.clone();
    c.merge_with_config_file(Some(&file));
    assert_eq!(c.exclude, before);
    assert_eq!(c.min_block_size, 80);
}

#[test]
fn type3_warning_only_below_recommended_threshold() {
    let mut c = config();
    c.enable_type3 = true;
    c.min_block_size = 40;
    assert_eq!(
        c.type3_warning().unwrap(),
        "Warning: Type-3 detection with threshold 40 may produce many false positives.\n         Consider using --min-tokens 75 or higher for Type-3 detection.\n         See: https://github.com/wiesnerbernard/polydup/issues/15\n\n"
    );
    c.min_block_size = 75;
    assert_eq!(c.type3_warning(), None);
    c.min_block_size = 40;
    c.format = OutputFormat::Json;
    assert_eq!(c.type3_warning(), None);
}

#[test]
fn verbose_summary_shows_options() {
    let mut c = config();
    assert_eq!(c.print_summary("[\"./src\"]", None), None);
    c.verbose = true;
    assert_eq!(
        c.print_summary("[\"./src\"]", Some("/w/.polyduprc.toml")).unwrap(),
        "PolyDup - Scanning for duplicates\n  Paths: [\"./src\"]\n  Min block size: 50 tokens\n  Similarity threshold: 85.0%\n  Config: /w/.polyduprc.toml\n\n"
    );
    c.quiet = true;
    assert_eq!(c.print_summary("x", None), None);
}

#[test]
fn ci_exit_codes() {
    let mut c = config();
    assert_eq!(c.exit_status(3), (0, None));
    c.fail_on_duplicates = true;
    assert_eq!(c.exit_status(0), (0, None));
    assert_eq!(c.exit_status(3), (1, Some("CI Check Failed: 3 duplicate(s) found".to_string())));
    c.fail_on_duplicates = false;
    c.fail_on_new = true;
    assert_eq!(
        c.exit_status(2),
        (1, Some("CI Check Failed: 2 new duplicate(s) found since baseline".to_string()))
    );
    c.quiet = true;
    assert_eq!(c.exit_status(2), (1, None));
}

#[test]
fn progress_only_for_interactive_text_output() {
    let mut c = config();
    assert!(c.should_show_progress(true));
    assert!(!c.should_show_progress(false));
    c.progress = true;
    assert!(c.should_show_progress(false));
    c.no_progress = true;
    assert!(!c.should_show_progress(true));
    let mut c = config();
    c.format = OutputFormat::Json;
    assert!(!c.should_show_progress(true));
    // an explicit --progress wins over quiet and JSON output
    c.progress = true;
    assert!(c.should_show_progress(false));
    c.quiet = true;
    assert!(c.should_show_progress(false));
}

#[test]
fn scan_error_advice_from_lowercased_text() {
    assert!(polydup::scan::scan_error_advice_of("syntax error").contains("unparseable files"));
    assert!(polydup::scan::scan_error_advice_of("access denied").contains("Check file permissions"));
}

#[test]
fn full_ids_use_whole_hash() {
    let mut c = config();
    assert_eq!(c.effective_id_length(), 12);
    c.full_ids = true;
    assert_eq!(c.effective_id_length(), 64);
}

#[test]
fn scan_error_advice_depends_on_error_text() {
    let c = config();
    let e = build_scan_error("Permission DENIED for /x", "Io(..)", "[\"/x\"]", &c);
    assert_eq!(
        e,
        "Scan failed: Permission DENIED for /x\n\nSuggestion: Check file permissions for the scanned directory\n           Try running with appropriate access rights or scan a different directory.\n"
    );
    let e = build_scan_error("No such file", "d", "p", &c);
    assert!(e.contains("Verify the path exists and is accessible"));
    let e = build_scan_error("Parse failure", "d", "p", &c);
    assert!(e.contains("Supported languages: JavaScript, TypeScript, Python, Rust"));
    let mut c = config();
    c.debug = true;
    let e = build_scan_error("boom", "Boom { code: 1 }", "[\"a\"]", &c);
    assert!(e.contains("Try running with --debug"));
    assert!(e.ends_with(
        "\nDebug Info:\n  Paths: [\"a\"]\n  Min block size: 50\n  Similarity: 0.85\n  Full error: Boom { code: 1 }"
    ));
}

#[test]
fn dry_run_lists_files_by_extension() {
    let files = vec![
        "src/a.rs".to_string(),
        "src/b.py".to_string(),
        "src/c.rs".to_string(),
        "Makefile".to_string(),
    ];
    let s = dry_run_summary(&files);
    assert!(s.starts_with("File summary:\n  Total files to scan: 4\n  By language:\n    .rs: 2 files (Rust)\n    .py: 1 files (Python)\n"));
    assert_eq!(extension_text("dir.d/file.tsx"), Some("tsx".to_string()));
    assert_eq!(extension_text(".bashrc"), None);
    assert_eq!(language_name("mjs"), "JavaScript");
    assert_eq!(language_name("zig"), "zig");
    assert_eq!(join_strings(&vec!["a".to_string(), "b".to_string()], ", "), "a, b");
}

#[test]
fn git_diff_uses_cache_only_with_matching_threshold() {
    let mut c = config();
    c.verbose = true;
    let (plan, notice) = c.git_diff_scan_plan(&CacheState::Built(50), 3);
    assert_eq!(plan, ScanPlan::WithCache);
    assert_eq!(
        notice.unwrap(),
        "Using existing cache: .polydup-cache.json\nScanning 3 changed files with cached hash lookup...\n"
    );
    let (plan, notice) = c.git_diff_scan_plan(&CacheState::Built(30), 3);
    assert_eq!(plan, ScanPlan::FullScan);
    assert_eq!(
        notice.unwrap(),
        "Warning: Cache was built with threshold 30 but scanner is using 50\n         Run 'polydup cache build --min-tokens 50' to rebuild cache\n         Falling back to git-diff scan without cache...\n"
    );
    let (plan, notice) = c.git_diff_scan_plan(&CacheState::Missing, 3);
    assert_eq!(plan, ScanPlan::FullScan);
    assert!(notice.unwrap().starts_with("No cache found (.polydup-cache.json)\n"));
    let (plan, notice) = c.git_diff_scan_plan(&CacheState::Unreadable("bad json".to_string()), 3);
    assert_eq!(plan, ScanPlan::FullScan);
    assert_eq!(
        notice.unwrap(),
        "Warning: Failed to load cache: bad json\nFalling back to git-diff scan without cache...\n"
    );
    c.verbose = false;
    assert_eq!(c.git_diff_scan_plan(&CacheState::Built(50), 3), (ScanPlan::WithCache, None));
}

#[test]
fn git_diff_notices() {
    let mut c = config();
    assert_eq!(
        c.git_diff_notice("HEAD~1..HEAD").unwrap(),
        "Git-Diff Mode: Only scanning files changed in HEAD~1..HEAD"
    );
    assert_eq!(
        c.no_changes_notice().unwrap(),
        "No files changed in the specified range\nNo duplicates found!\n"
    );
    c.format = OutputFormat::Json;
    assert_eq!(c.git_diff_notice("x"), None);
    assert_eq!(c.no_changes_notice(), None);
    c.verbose = true;
    let changed = vec!["a.js".to_string(), "b.js".to_string()];
    assert_eq!(
        c.changed_files_notice(&changed).unwrap(),
        "  Changed files (2):\n    - a.js\n    - b.js\n\n"
    );
}

#[test]
fn baseline_notices() {
    let c = config();
    assert_eq!(
        c.baseline_saved_notice("base.json", 4).unwrap(),
        "Baseline saved to: base.json\n  4 duplicates recorded\n"
    );
    assert_eq!(
        c.baseline_compared_notice("base.json", 5, 1).unwrap(),
        "Comparing against baseline: base.json\n  5 total duplicates, 1 new since baseline\n"
    );
}

#[test]
fn legacy_invocation_turns_off_subcommand_options() {
    let mut c = config();
    c.save_baseline = Some("b.json".to_string());
    c.fail_on_duplicates = true;
    c.suggest_refactoring = true;
    c.min_block_size = 77;
    let l = c.legacy();
    assert_eq!(l.save_baseline, None);
    assert!(!l.fail_on_duplicates);
    assert!(!l.suggest_refactoring);
    assert_eq!(l.min_block_size, 77);
}

#[test]
fn debug_texts() {
    let c = config();
    assert_eq!(
        c.debug_config_text("[\"./src\"]", true),
        "Debug: Scan Configuration\n  Paths: [\"./src\"]\n  Min block size: 50 tokens\n  Similarity threshold: 85%\n  Type-3 detection: false\n  Include tests: false\n  Git-diff mode: Using hash cache if available\n\n"
    );
    let report = Report {
        files_scanned: 3,
        functions_analyzed: 9,
        duplicates: vec![
            dup("a.js", "b.js", CloneType::Type1),
            dup("a.js", "c.js", CloneType::Type2),
            dup("b.js", "c.js", CloneType::Type2),
        ],
        skipped_files: vec![],
        stats: ScanStats {
            total_lines: 100,
            total_tokens: 900,
            unique_hashes: 40,
            duration_ms: 12,
            suppressed_by_ignore_file: 0,
            suppressed_by_directive: 0,
        },
    };
    assert_eq!(
        c.debug_results_text(&report, "12ms"),
        "Debug: Scan Results\n  Files scanned: 3\n  Functions analyzed: 9\n  Duplicates found: 3\n  Scan duration: 12ms\n  Total tokens: 900\n  Unique hashes: 40\n  Clone types: Type-1: 1, Type-2: 2, Type-3: 0\n\n"
    );
}

#[test]
fn empty_diff_range_actions() {
    let mut c = config();
    match c.no_changes_action() {
        NoChangesAction::Notice(n) => {
            assert_eq!(n, "No files changed in the specified range\nNo duplicates found!\n")
        }
        _ => panic!("text output prints the notice"),
    }
    c.format = OutputFormat::Json;
    match c.no_changes_action() {
        NoChangesAction::EmptyReport(r) => {
            assert_eq!(r.files_scanned, 0);
            assert!(r.duplicates.is_empty());
            assert_eq!(r.stats.total_tokens, 0);
        }
        _ => panic!("JSON output prints an empty report"),
    }
    c.quiet = true;
    assert!(matches!(c.no_changes_action(), NoChangesAction::Silent));
    c.format = OutputFormat::Text;
    assert!(matches!(c.no_changes_action(), NoChangesAction::Silent));
}

#[test]
fn test_error_message_invalid_path() {
    let mut c = config();
    c.paths = vec!["/nonexistent/path".to_string()];
    let err = c.validate(&vec![false], "/work").unwrap_err();
    assert!(err.contains("Path does not exist"), "Should contain error label");
    assert!(err.contains("Suggestion:"), "Should contain suggestion");
}

#[test]
fn test_error_message_invalid_filter() {
    let mut c = config();
    c.only_type = vec!["invalid".to_string()];
    let err = c.validate(&vec![true], "/work").unwrap_err();
    assert!(err.contains("Suggestion:"), "Should contain suggestion");
    assert!(err.contains("Example:"), "Should contain example");
    assert!(err.contains("Documentation:"), "Should contain docs link");
}

#[test]
fn test_error_message_invalid_grouping() {
    let mut c = config();
    c.group_by = Some("invalid".to_string());
    let err = c.validate(&vec![true], "/work").unwrap_err();
    assert!(err.contains("Options explained:"), "Should explain options");
}
