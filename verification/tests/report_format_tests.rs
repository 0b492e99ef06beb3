use polydup::cli::OutputFormat;
use polydup::filters::{
    apply_clone_type_filters, apply_grouping, filter_duplicates_by_changed_files,
    is_valid_group_criterion, normalize_path_text,
};
use polydup::output::{
    baseline_load_error, baseline_save_error, generate_output, output_destination, refine_report,
    write_error_message, written_notice, Destination, Rendered, WriteFailure,
};
use polydup::report::{CloneType, DuplicateMatch, Report, ScanStats};
use polydup::reporting::{
    append_refactoring_suggestion, format_compiler_report, format_sarif_report,
    format_vscode_report, map_clone_to_sarif, map_clone_to_severity, push_line_range, truncate_id,
};
use polydup::scan::ScanConfig;

fn dup(file1: &str, file2: &str, ct: CloneType, similarity: i64, length: usize) -> DuplicateMatch {
    DuplicateMatch {
        file1: file1.to_string(),
        file2: file2.to_string(),
        start_line1: 10,
        start_line2: 20,
        end_line1: Some(15),
        end_line2: None,
        length,
        similarity,
        hash: length as u64,
        clone_type: ct,
        duplicate_id: None,
        suppressed_by_directive: None,
    }
}

fn report(dups: Vec<DuplicateMatch>) -> Report {
    Report {
        files_scanned: 4,
        functions_analyzed: 12,
        duplicates: dups,
        skipped_files: vec![],
        stats: ScanStats {
            total_lines: 400,
            total_tokens: 3000,
            unique_hashes: 120,
            duration_ms: 35,
            suppressed_by_ignore_file: 0,
            suppressed_by_directive: 0,
        },
    }
}

fn scan_config(format: OutputFormat) -> ScanConfig {
    ScanConfig {
        paths: vec![".".to_string()],
        format,
        min_block_size: 50,
        similarity: 850_000,
        verbose: false,
        quiet: false,
        exclude: vec![],
        enable_type3: false,
        type3_tolerance: 850_000,
        output: None,
        no_color: true,
        only_type: vec![],
        exclude_type: vec![],
        group_by: None,
        debug: false,
        save_baseline: None,
        compare_to: None,
        git_diff: None,
        enable_directives: false,
        include_tests: false,
        progress: false,
        no_progress: false,
        fail_on_duplicates: false,
        fail_on_new: false,
        show_code: false,
        preview_lines: 5,
        suggest_refactoring: false,
        show_ids: false,
        dry_run: false,
        id_length: 12,
        full_ids: false,
    }
}

#[test]
fn line_ranges() {
    let mut s = String::new();
    push_line_range(&mut s, 4, Some(9));
    s.push(' ');
    push_line_range(&mut s, 4, Some(4));
    s.push(' ');
    push_line_range(&mut s, 7, None);
    assert_eq!(s, "4-9 4 7");
}

#[test]
fn severities_by_clone_type() {
    assert_eq!(map_clone_to_severity(&CloneType::Type1), "warning");
    assert_eq!(map_clone_to_severity(&CloneType::Type2), "warning");
    assert_eq!(map_clone_to_severity(&CloneType::Type3), "note");
    let d = dup("a.rs", "b.rs", CloneType::Type3, 900_000, 70);
    assert_eq!(map_clone_to_sarif(&d), ("note", "type-3"));
}

#[test]
fn vscode_format_has_one_line_per_location() {
    let r = report(vec![dup("a.rs", "b.rs", CloneType::Type1, 1_000_000, 70)]);
    assert_eq!(
        format_vscode_report(&r),
        "a.rs:10:1: warning: Type-1 (exact) duplicate found - matches b.rs:20-20 (100% similar, 70 tokens)\nb.rs:20:1: warning: duplicate of a.rs:10-15\n"
    );
    assert_eq!(format_vscode_report(&report(vec![])), "No duplicates found.\n");
}

#[test]
fn compiler_format_ends_with_total() {
    let r = report(vec![
        dup("a.rs", "b.rs", CloneType::Type2, 915_000, 70),
        dup("c.rs", "d.rs", CloneType::Type3, 884_999, 56),
    ]);
    let out = format_compiler_report(&r);
    assert!(out.starts_with("warning[polydup]: Type-2 (renamed) duplicate detected\n  --> a.rs:10-15\n"));
    assert!(out.contains("   = info: 92% similar, 70 tokens\n\n"));
    assert!(out.contains("note[polydup]: Type-3 (modified) duplicate detected\n"));
    assert!(out.contains("   = info: 88% similar, 56 tokens\n\n"));
    assert!(out.ends_with("Total: 2 duplicate(s) found\n"));
    assert_eq!(format_compiler_report(&report(vec![])), "No duplicates found.\n");
}

#[test]
fn sarif_results_follow_duplicates() {
    let r = report(vec![dup("a.rs", "b.rs", CloneType::Type2, 915_000, 70)]);
    let log = format_sarif_report(&r, "1.2.3");
    assert_eq!(log.schema, "https://raw.githubusercontent.com/oasis-tcs/sarif-spec/master/Schemata/sarif-schema-2.1.0.json");
    assert_eq!(log.version, "2.1.0");
    assert_eq!(log.tool_name, "polydup");
    assert_eq!(log.tool_version, "1.2.3");
    assert_eq!(log.information_uri, "https://github.com/wiesnerbernard/polydup");
    let ids: Vec<&str> = log.rules.iter().map(|r| r.id.as_str()).collect();
    assert_eq!(ids, vec!["polydup/type-1", "polydup/type-2", "polydup/type-3"]);
    assert_eq!(log.rules[2].level, "note");
    assert_eq!(log.rules[0].name, "ExactDuplicate");
    let results = log.results;
    assert_eq!(results.len(), 1);
    let s = &results[0];
    assert_eq!(s.rule_id, "polydup/type-2");
    assert_eq!(s.level, "warning");
    assert_eq!(s.message, "type-2 duplicate with b.rs (92% similar, 70 tokens)");
    assert_eq!((s.uri.as_str(), s.start_line, s.end_line), ("a.rs", 10, 15));
    assert_eq!((s.related_uri.as_str(), s.related_start_line, s.related_end_line), ("b.rs", 20, 20));
}

#[test]
fn ids_are_truncated_with_ellipsis() {
    let id = "0123456789abcdef0123456789abcdef0123456789abcdef0123456789abcdef";
    assert_eq!(truncate_id(id, 8), "01234567...");
    assert_eq!(truncate_id(id, 64), id);
    assert_eq!(truncate_id("abc", 8), "abc");
}

#[test]
fn refactoring_advice_by_kind() {
    let mut s = String::new();
    append_refactoring_suggestion(&mut s, &dup("a", "b", CloneType::Type1, 1_000_000, 70));
    assert_eq!(
        s,
        "   Suggestion: Extract to shared function\n               Effort: Low | Risk: Low | Est. savings: ~10 lines\n"
    );
    let mut s = String::new();
    append_refactoring_suggestion(&mut s, &dup("a", "b", CloneType::Type2, 960_000, 14));
    assert!(s.contains("Extract to generic function with type parameters"));
    assert!(s.contains("Effort: Medium | Risk: Low | Est. savings: ~2 lines"));
    let mut s = String::new();
    append_refactoring_suggestion(&mut s, &dup("a", "b", CloneType::Type2, 900_000, 14));
    assert!(s.contains("Consider Strategy pattern or parameterized function"));
    let mut s = String::new();
    append_refactoring_suggestion(&mut s, &dup("a", "b", CloneType::Type3, 900_000, 6));
    assert!(s.contains("Effort: High | Risk: High | Est. savings: ~0 lines"));
}

#[test]
fn clone_type_filters_keep_order() {
    let mut r = report(vec![
        dup("a", "b", CloneType::Type1, 1_000_000, 50),
        dup("c", "d", CloneType::Type2, 900_000, 60),
        dup("e", "f", CloneType::Type3, 880_000, 70),
        dup("g", "h", CloneType::Type2, 910_000, 80),
    ]);
    apply_clone_type_filters(&mut r, &vec!["type-2".to_string()], &vec![]);
    let files: Vec<&str> = r.duplicates.iter().map(|d| d.file1.as_str()).collect();
    assert_eq!(files, vec!["c", "g"]);

    let mut r = report(vec![
        dup("a", "b", CloneType::Type1, 1_000_000, 50),
        dup("e", "f", CloneType::Type3, 880_000, 70),
    ]);
    apply_clone_type_filters(&mut r, &vec![], &vec!["type-3".to_string()]);
    assert_eq!(r.duplicates.len(), 1);
    assert_eq!(r.duplicates[0].clone_type, CloneType::Type1);

    // filtering twice is filtering once
    let mut again = report(vec![dup("a", "b", CloneType::Type1, 1_000_000, 50)]);
    apply_clone_type_filters(&mut again, &vec![], &vec!["type-3".to_string()]);
    apply_clone_type_filters(&mut again, &vec![], &vec!["type-3".to_string()]);
    assert_eq!(again.duplicates.len(), 1);
}

#[test]
fn grouping_orders_stably() {
    let dups = vec![
        dup("b.rs", "x.rs", CloneType::Type2, 900_000, 60),
        dup("a.rs", "y.rs", CloneType::Type1, 1_000_000, 50),
        dup("b.rs", "a.rs", CloneType::Type3, 950_000, 90),
        dup("a.rs", "y.rs", CloneType::Type2, 900_000, 70),
    ];
    let order = |g: &str| {
        let mut r = report(dups.iter().map(|d| d.copy()).collect());
        apply_grouping(&mut r, Some(g));
        r.duplicates.iter().map(|d| d.length).collect::<Vec<usize>>()
    };
    assert_eq!(order("file"), vec![50, 70, 90, 60]);
    assert_eq!(order("similarity"), vec![50, 90, 70, 60]);
    assert_eq!(order("type"), vec![50, 60, 70, 90]);
    assert_eq!(order("size"), vec![90, 70, 60, 50]);
    assert_eq!(order("unknown"), vec![60, 50, 90, 70]);
    assert!(is_valid_group_criterion("size"));
    assert!(!is_valid_group_criterion("Size"));
}

#[test]
fn git_diff_paths_are_compared_relative_to_the_repository() {
    assert_eq!(normalize_path_text("/repo/src/a.rs", "/repo"), "src/a.rs");
    assert_eq!(normalize_path_text("./src/a.rs", "/repo"), "src/a.rs");
    assert_eq!(normalize_path_text("/other/a.rs", "/repo"), "/other/a.rs");
    assert_eq!(normalize_path_text("/a.rs", "/"), "a.rs");

    let mut r = report(vec![
        dup("/repo/src/a.rs", "/repo/src/b.rs", CloneType::Type1, 1_000_000, 50),
        dup("/repo/src/c.rs", "/repo/src/d.rs", CloneType::Type1, 1_000_000, 60),
        dup("/repo/src/e.rs", "./src/a.rs", CloneType::Type1, 1_000_000, 70),
    ]);
    filter_duplicates_by_changed_files(&mut r, &vec!["/repo/src/a.rs".to_string()], "/repo");
    let lengths: Vec<usize> = r.duplicates.iter().map(|d| d.length).collect();
    assert_eq!(lengths, vec![50, 70]);
}

#[test]
fn refine_scopes_filters_and_groups() {
    let mut c = scan_config(OutputFormat::Text);
    c.exclude_type = vec!["type-3".to_string()];
    c.group_by = Some("size".to_string());
    let mut r = report(vec![
        dup("/r/a.rs", "/r/b.rs", CloneType::Type1, 1_000_000, 50),
        dup("/r/a.rs", "/r/c.rs", CloneType::Type3, 900_000, 99),
        dup("/r/d.rs", "/r/e.rs", CloneType::Type1, 1_000_000, 70),
        dup("/r/c.rs", "/r/a.rs", CloneType::Type2, 900_000, 80),
    ]);
    let changed = vec!["/r/a.rs".to_string()];
    refine_report(&mut r, &c, Some(&changed), "/r");
    let lengths: Vec<usize> = r.duplicates.iter().map(|d| d.length).collect();
    assert_eq!(lengths, vec![80, 50]);
    assert_eq!(r.files_scanned, 4);
}

#[test]
fn output_follows_format() {
    let r = report(vec![dup("a.rs", "b.rs", CloneType::Type1, 1_000_000, 70)]);
    let none: Vec<Option<Vec<String>>> = vec![];
    assert!(matches!(generate_output(&r, &scan_config(OutputFormat::Json), &none, "0.1.0"), Rendered::Json));
    match generate_output(&r, &scan_config(OutputFormat::Vscode), &none, "0.1.0") {
        Rendered::Text(t) => assert_eq!(t, format_vscode_report(&r)),
        _ => panic!("vscode output is text"),
    }
    match generate_output(&r, &scan_config(OutputFormat::Compiler), &none, "0.1.0") {
        Rendered::Text(t) => assert!(t.ends_with("Total: 1 duplicate(s) found\n")),
        _ => panic!("compiler output is text"),
    }
    match generate_output(&r, &scan_config(OutputFormat::Sarif), &none, "0.1.0") {
        Rendered::Sarif(log) => assert_eq!(log.results.len(), 1),
        _ => panic!("sarif output is a result list"),
    }
    match generate_output(&r, &scan_config(OutputFormat::Text), &none, "0.1.0") {
        Rendered::Text(t) => assert!(t.contains("Scan Results")),
        _ => panic!("text output is text"),
    }
}

#[test]
fn output_destinations() {
    assert!(matches!(output_destination(&Some("o.json".to_string()), true), Destination::File(p) if p == "o.json"));
    assert!(matches!(output_destination(&None, false), Destination::Stdout));
    assert!(matches!(output_destination(&None, true), Destination::Nowhere));
    assert_eq!(written_notice("o.json", true, false), Some("Output written to: o.json".to_string()));
    assert_eq!(written_notice("o.json", true, true), None);
    assert_eq!(written_notice("o.json", false, false), None);
}

#[test]
fn write_errors_carry_advice() {
    assert_eq!(
        write_error_message("out/r.json", "No such file or directory", WriteFailure::NotFound, "out"),
        "Failed to write output to out/r.json: No such file or directory\n\nSuggestion: The parent directory may not exist\n           Try creating the directory first: mkdir -p out\n"
    );
    assert!(write_error_message("r", "e", WriteFailure::PermissionDenied, "")
        .contains("Check write permissions for the target directory"));
    assert!(write_error_message("r", "e", WriteFailure::AlreadyExists, "")
        .contains("A directory exists with this name"));
    assert!(write_error_message("r", "e", WriteFailure::Other, "")
        .contains("Try using an absolute path or checking disk space."));
}

#[test]
fn baseline_errors() {
    assert_eq!(
        baseline_save_error("b.json", "denied", "Os { code: 13 }", false),
        "Failed to save baseline to b.json: denied\n\nSuggestion: Check write permissions and ensure parent directory exists\n"
    );
    assert_eq!(
        baseline_load_error("b.json", "missing", "Os { code: 2 }", true),
        "Failed to load baseline from b.json: missing\n\nSuggestion: Ensure the baseline file exists and is valid JSON\n           Create a baseline first: polydup scan ./src --save-baseline b.json\n\nDebug Info:\n  Baseline path: b.json\n  Full error: Os { code: 2 }"
    );
}

#[test]
fn grouping_keeps_the_order_of_ties() {
    let dups = vec![
        dup("c.rs", "x.rs", CloneType::Type2, 900_000, 60),
        dup("a.rs", "x.rs", CloneType::Type2, 900_000, 60),
        dup("b.rs", "x.rs", CloneType::Type1, 950_000, 60),
    ];
    for g in ["similarity", "size"] {
        let mut r = report(dups.iter().map(|d| d.copy()).collect());
        apply_grouping(&mut r, Some(g));
        let files: Vec<&str> = r.duplicates.iter().map(|d| d.file1.as_str()).collect();
        assert_eq!(files, vec!["b.rs", "c.rs", "a.rs"]);
    }
    let mut r = report(dups.iter().map(|d| d.copy()).collect());
    apply_grouping(&mut r, None);
    let files: Vec<&str> = r.duplicates.iter().map(|d| d.file1.as_str()).collect();
    assert_eq!(files, vec!["c.rs", "a.rs", "b.rs"]);
}
