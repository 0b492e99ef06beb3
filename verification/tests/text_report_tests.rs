use polydup::dashboard::{count_clone_type, find_top_offenders, offender_rows_of};
use polydup::fixed::{push_percent, push_percent_tenths};
use polydup::groups::find_multi_way_groups;
use polydup::report::{CloneType, DuplicateMatch, Report, ScanStats, SkippedFile};
use polydup::text_report::{format_text_report, make_code_preview, previews_fit_of, CodePreview};

fn dup(file1: &str, line1: usize, file2: &str, line2: usize, hash: u64) -> DuplicateMatch {
    DuplicateMatch {
        file1: file1.to_string(),
        file2: file2.to_string(),
        start_line1: line1,
        start_line2: line2,
        end_line1: Some(line1 + 2),
        end_line2: Some(line2 + 2),
        length: 42,
        similarity: 950_000,
        hash,
        clone_type: CloneType::Type2,
        duplicate_id: Some("abcdef0123456789abcdef0123456789".to_string()),
        suppressed_by_directive: None,
    }
}

fn report(dups: Vec<DuplicateMatch>) -> Report {
    Report {
        files_scanned: 5,
        functions_analyzed: 17,
        duplicates: dups,
        skipped_files: vec![SkippedFile { path: "big.js".to_string(), reason: "too large".to_string() }],
        stats: ScanStats {
            total_lines: 500,
            total_tokens: 4321,
            unique_hashes: 99,
            duration_ms: 87,
            suppressed_by_ignore_file: 1,
            suppressed_by_directive: 1,
        },
    }
}

fn render(r: &Report, verbose: bool, show_code: bool, sources: &Vec<Option<Vec<String>>>) -> String {
    format_text_report(r, verbose, None, show_code, 5, true, true, false, 8, sources)
}

#[test]
fn dashboard_is_drawn_in_a_double_box() {
    let r = report(vec![dup("a.js", 1, "b.js", 10, 7)]);
    let out = render(&r, false, false, &vec![]);
    for corner in ["╔", "╗", "╚", "╝", "║", "═"] {
        assert!(out.contains(corner), "missing {}", corner);
    }
    assert!(out.contains("Scan Results"));
    assert!(out.contains("Files scanned: 5"));
    assert!(out.contains("Functions analyzed: 17"));
    assert!(out.contains("Duplicates found: 1"));
    assert!(out.contains("Files skipped: 1"));
    assert!(out.contains("Duplicates ignored: 2"));
    assert!(out.contains("Estimated savings: ~42 lines"));
    assert!(out.contains("Top Offenders"));
    assert!(out.ends_with("Tip: Use --format json for machine-readable output\n"));
}

#[test]
fn verbose_report_adds_performance_and_skipped_files() {
    let r = report(vec![dup("a.js", 1, "b.js", 10, 7)]);
    let out = render(&r, true, false, &vec![]);
    assert!(out.contains("\nPerformance:\n  Duration:       87ms\n  Total tokens:   4321\n  Unique hashes:  99\n"));
    assert!(out.contains("\nSkipped files (1):\n  - big.js: too large\n"));
    let quiet = render(&r, false, false, &vec![]);
    assert!(!quiet.contains("Performance:"));
}

#[test]
fn empty_report_suggests_type3() {
    let r = report(vec![]);
    let out = render(&r, false, false, &vec![]);
    assert!(out.contains("✓ No duplicates found!\n"));
    assert!(out.contains("polydup scan . --enable-type3"));
    assert!(!out.contains("Top Offenders"));
}

#[test]
fn code_preview_is_drawn_as_a_grid() {
    let r = report(vec![dup("a.js", 2, "b.js", 10, 7)]);
    let lines: Vec<String> = (1..=10).map(|i| format!("line {}", i)).collect();
    let out = render(&r, false, true, &vec![Some(lines)]);
    assert!(out.contains("┌"));
    assert!(out.contains("│"));
    assert!(out.contains("line 2"));
    let unreadable = render(&r, false, true, &vec![None]);
    assert!(!unreadable.contains("┌"));
}

#[test]
fn ids_are_shown_shortened() {
    let r = report(vec![dup("a.js", 1, "b.js", 10, 7)]);
    let out = render(&r, false, false, &vec![]);
    assert!(out.contains("abcdef01..."));
}

#[test]
fn multi_way_groups_join_copies_of_the_same_code() {
    let dups = vec![
        dup("a.js", 1, "b.js", 10, 7),
        dup("a.js", 1, "c.js", 20, 7),
        dup("x.js", 5, "y.js", 6, 9),
    ];
    let groups = find_multi_way_groups(&dups);
    assert_eq!(groups.len(), 1);
    assert_eq!(groups[0].hash, 7);
    let files: Vec<&str> = groups[0].instances.iter().map(|i| i.file.as_str()).collect();
    assert_eq!(files, vec!["a.js", "b.js", "c.js"]);
    let out = render(&report(dups), false, false, &vec![]);
    assert!(out.contains("c.js"));
}

#[test]
fn top_offenders_count_both_files() {
    let dups = vec![
        dup("a.js", 1, "b.js", 10, 7),
        dup("a.js", 1, "c.js", 20, 8),
        dup("c.js", 5, "a.js", 6, 9),
    ];
    let top = find_top_offenders(&dups);
    assert_eq!(top[0], ("a.js".to_string(), 3));
    assert_eq!(top[1], ("c.js".to_string(), 2));
    assert_eq!(top[2], ("b.js".to_string(), 1));
    assert_eq!(count_clone_type(&dups, CloneType::Type2), 3);
    assert_eq!(count_clone_type(&dups, CloneType::Type1), 0);
}

#[test]
fn groups_need_three_places_and_come_by_copies_then_length() {
    let mut long = dup("p.js", 1, "q.js", 1, 5);
    long.length = 99;
    let mut long2 = dup("r.js", 1, "p.js", 1, 5);
    long2.length = 99;
    let dups = vec![
        dup("a.js", 1, "b.js", 10, 7),
        dup("b.js", 10, "a.js", 1, 7),
        dup("c.js", 3, "a.js", 1, 7),
        dup("a.js", 1, "d.js", 4, 7),
        long,
        long2,
        dup("x.js", 1, "x.js", 1, 9),
        dup("x.js", 1, "y.js", 2, 9),
    ];
    let groups = find_multi_way_groups(&dups);
    let hashes: Vec<u64> = groups.iter().map(|g| g.hash).collect();
    assert_eq!(hashes, vec![7, 5]);
    let files: Vec<&str> = groups[0].instances.iter().map(|i| i.file.as_str()).collect();
    assert_eq!(files, vec!["a.js", "b.js", "c.js", "d.js"]);
    assert_eq!(groups[1].length, 99);
    assert_eq!(groups[1].instances.len(), 3);
}

#[test]
fn percentages_round_exact_halves_to_even() {
    let percent = |v: i64| {
        let mut s = String::new();
        push_percent(&mut s, v);
        s
    };
    let tenths = |v: i64| {
        let mut s = String::new();
        push_percent_tenths(&mut s, v);
        s
    };
    assert_eq!(percent(125_000), "12");
    assert_eq!(percent(135_000), "14");
    assert_eq!(percent(125_001), "13");
    assert_eq!(percent(850_000), "85");
    assert_eq!(tenths(12_500), "1.2");
    assert_eq!(tenths(13_500), "1.4");
    assert_eq!(tenths(12_501), "1.3");
    assert_eq!(tenths(850_000), "85.0");
}

#[test]
fn offender_names_are_shortened_by_bytes() {
    // 40 characters, 41 bytes: longer than 40 bytes, so shortened.
    let name = format!("é{}", "a".repeat(39));
    let rows = offender_rows_of(&vec![(name, 3)]);
    assert_eq!(rows[1], format!("  1. ...{} 3 duplicates", "a".repeat(37)));
    // 40 bytes: left whole.
    let name = "b".repeat(40);
    let rows = offender_rows_of(&vec![(name.clone(), 2)]);
    assert_eq!(rows[1], format!("  1. {} 2 duplicates", name));
}

#[test]
fn preview_lines_are_cut_by_bytes() {
    let mut d = dup("a.js", 1, "b.js", 10, 7);
    d.end_line1 = Some(1);
    // 60 characters, 61 bytes: cut to its first 57 bytes.
    let long = format!("é{}", "a".repeat(59));
    let source = Some(vec![long]);
    match make_code_preview(&source, &d, 5) {
        CodePreview::Table(t) => {
            assert!(t.contains(&format!("é{}...", "a".repeat(55))));
            assert!(!t.contains(&"a".repeat(56)));
        }
        _ => panic!("the line is shown"),
    }
    assert!(previews_fit_of(&vec![d.copy()], &vec![source], 5));
    // The 57th byte falls inside a character: that line cannot be cut.
    let split = format!("{}é{}", "a".repeat(56), "a".repeat(10));
    assert!(!previews_fit_of(&vec![d.copy()], &vec![Some(vec![split])], 5));
}

#[test]
fn test_dashboard_rendering() {
    let r = report(vec![dup("a.js", 1, "b.js", 10, 7), dup("c.js", 3, "d.js", 4, 8)]);
    let stdout = render(&r, false, false, &vec![]);
    assert!(stdout.contains("╔"), "Should contain top-left corner");
    assert!(stdout.contains("╗"), "Should contain top-right corner");
    assert!(stdout.contains("╚"), "Should contain bottom-left corner");
    assert!(stdout.contains("╝"), "Should contain bottom-right corner");
    assert!(stdout.contains("║"), "Should contain vertical line");
    assert!(stdout.contains("═"), "Should contain horizontal line");
    assert!(stdout.contains("Scan Results"), "Should contain header");
    assert!(stdout.contains("Files scanned:"), "Should contain stats");
    let verbose = render(&r, true, false, &vec![]);
    assert!(verbose.contains("Performance:"));
}
