use polydup::report::{CloneType, DuplicateMatch, Report, ScanStats};
use polydup::vcs::{
    changed_candidates, determine_project_root, finalize_changed, git_diff_error, join_path_text,
    parent_path, repo_root_from_output,
};
use polydup::watch::{
    changed_sources, format_changed_files, format_paths, glob_matches, initial_scan_summary, is_excluded,
    is_source_file, print_change_summary, print_header, rescan_summary,
};

#[test]
fn repository_root_is_trimmed_output() {
    assert_eq!(repo_root_from_output("/home/u/repo\n"), Some("/home/u/repo".to_string()));
    assert_eq!(repo_root_from_output("  \n"), None);
}

#[test]
fn diff_names_are_joined_to_the_root() {
    assert_eq!(
        changed_candidates("/repo", "src/a.rs\n\nsrc/b.rs\n"),
        vec!["/repo/src/a.rs", "/repo/src/b.rs"]
    );
    assert_eq!(join_path_text("/repo/", "x"), "/repo/x");
    assert_eq!(join_path_text("/repo", "/abs"), "/abs");
    assert_eq!(join_path_text("", "x"), "x");
}

#[test]
fn changed_files_are_existing_sorted_and_unique() {
    let candidates = vec![
        "/r/src/b.rs".to_string(),
        "/r/src/a.rs".to_string(),
        "/r/gone.rs".to_string(),
        "/r/src/a.rs".to_string(),
        "/r/src-x/c.rs".to_string(),
    ];
    let exists = vec![true, true, false, true, true];
    assert_eq!(
        finalize_changed(&candidates, &exists),
        vec!["/r/src/a.rs", "/r/src/b.rs", "/r/src-x/c.rs"]
    );
}

#[test]
fn parents_of_paths() {
    assert_eq!(parent_path("/a/b/c"), Some("/a/b".to_string()));
    assert_eq!(parent_path("/a/b/"), Some("/a".to_string()));
    assert_eq!(parent_path("/a"), Some("/".to_string()));
    assert_eq!(parent_path("/"), None);
    assert_eq!(parent_path("file.rs"), Some(String::new()));
    assert_eq!(parent_path(""), None);
}

#[test]
fn project_root_prefers_the_scan_targets_repository() {
    assert_eq!(
        determine_project_root(Some("/w/src"), Some("/w".to_string()), true, None, "/cwd".to_string()),
        "/w"
    );
    assert_eq!(determine_project_root(Some("/w/src"), None, true, None, "/cwd".to_string()), "/w/src");
    assert_eq!(
        determine_project_root(Some("/w/src/main.rs"), None, false, None, "/cwd".to_string()),
        "/w/src"
    );
    assert_eq!(
        determine_project_root(None, None, false, Some("/repo".to_string()), "/cwd".to_string()),
        "/repo"
    );
    assert_eq!(determine_project_root(None, None, false, None, "/cwd".to_string()), "/cwd");
}

#[test]
fn git_diff_failure_message() {
    assert_eq!(
        git_diff_error("fatal: bad revision 'x'\n", "x..y", false, Some(128)),
        "Git diff command failed: fatal: bad revision 'x'\n\nSuggestion: Verify the git diff range is valid\n           Example: origin/main..HEAD or main..feature-branch\n           Run 'git log --oneline' to see available commits\n"
    );
    let debug = git_diff_error("boom", "a..b", true, None);
    assert!(debug.ends_with(
        "\nDebug Info:\n  Command: git diff --name-only --diff-filter=ACMR a..b\n  Exit code: -1\n  Stderr: boom"
    ));
}

#[test]
fn watch_follows_source_files_outside_excluded_directories() {
    assert!(is_source_file("src/main.rs"));
    assert!(is_source_file("web/App.svelte"));
    assert!(!is_source_file("README.md"));
    assert!(!is_source_file("Makefile"));
    assert!(is_excluded("app/node_modules/x.js", &vec![]));
    assert!(is_excluded("gen/out.rs", &vec!["gen/**".to_string()]));
    assert!(is_excluded("a/vendor/b.rs", &vec!["**/vendor".to_string()]));
    assert!(!is_excluded("src/lib.rs", &vec!["gen/**".to_string()]));
    let events = vec![
        "src/a.rs".to_string(),
        "notes.txt".to_string(),
        "src/b.py".to_string(),
        "src/a.rs".to_string(),
        "target/debug/x.rs".to_string(),
    ];
    assert_eq!(changed_sources(&events, &vec![]), vec!["src/a.rs", "src/b.py"]);
}

#[test]
fn watch_messages() {
    let files = vec![
        "src/a.rs".to_string(),
        "src/b.rs".to_string(),
        "lib/c.py".to_string(),
        "lib/d.py".to_string(),
    ];
    assert_eq!(format_changed_files(&files), "a.rs, b.rs, c.py (+1 more)");
    assert_eq!(print_change_summary(2, 5), "         [!] +3 duplicates detected\n\n");
    assert_eq!(print_change_summary(5, 4), "         [ok] -1 duplicate resolved\n\n");
    assert_eq!(print_change_summary(4, 4), "\n");
    assert_eq!(format_paths(&vec!["src".to_string(), "lib".to_string()]), "src, lib");
    let header = print_header(&vec!["src".to_string()], 50, 85, 500);
    assert!(header.contains("PolyDup Watch Mode"));
    assert!(header.ends_with("  Paths: src\n  Min block: 50 tokens\n  Similarity: 85%\n  Debounce: 500ms\n"));
    assert_eq!(rescan_summary("12:00:01", "1.2s", 3), "[12:00:01] [ok] Re-scanned in 1.2s: 3 duplicates");
}

#[test]
fn initial_scan_lists_first_five_duplicates_when_verbose() {
    let d = |i: usize| DuplicateMatch {
        file1: format!("f{}.rs", i),
        file2: "g.rs".to_string(),
        start_line1: i,
        start_line2: 1,
        end_line1: None,
        end_line2: None,
        length: 10,
        similarity: 900_000,
        hash: i as u64,
        clone_type: CloneType::Type1,
        duplicate_id: None,
        suppressed_by_directive: None,
    };
    let report = Report {
        files_scanned: 8,
        functions_analyzed: 30,
        duplicates: (1..=7).map(d).collect(),
        skipped_files: vec![],
        stats: ScanStats {
            total_lines: 0,
            total_tokens: 0,
            unique_hashes: 0,
            duration_ms: 0,
            suppressed_by_ignore_file: 0,
            suppressed_by_directive: 0,
        },
    };
    let text = initial_scan_summary("0.4s", &report, true);
    assert!(text.starts_with("\n[ok] Initial scan complete in 0.4s\n\n  8 files scanned, 30 functions analyzed\n  7 duplicates found\n\n  Duplicates:\n    - f1.rs:1 <-> g.rs:1\n"));
    assert!(text.contains("    - f5.rs:5 <-> g.rs:1\n    - ... and 2 more\n\n"));
    assert!(!text.contains("f6.rs"));
    let brief = initial_scan_summary("0.4s", &report, false);
    assert!(!brief.contains("Duplicates:"));
}

#[test]
fn exclude_patterns_are_globs() {
    assert!(is_excluded("src/app.test.js", &vec!["**/*.test.js".to_string()]));
    assert!(!is_excluded("src/app.js", &vec!["**/*.test.js".to_string()]));
    assert!(glob_matches("**/*.test.js", "src/app.test.js"));
    assert!(glob_matches("**/*.test.js", "app.test.js"));
    assert!(glob_matches("**/*.test.js", "a/b/c.test.js"));
    assert!(!glob_matches("**/x", "abx"));
    assert!(glob_matches("**/x", "a/b/x"));
    assert!(!glob_matches("*.rs", "a/b.rs"));
    assert!(glob_matches("*.rs", "b.rs"));
    assert!(glob_matches("src/**", "src/a/b.rs"));
    assert!(!glob_matches("src/*.rs", "src/a/b.rs"));
    assert!(glob_matches("a?c", "a?c"));
}
