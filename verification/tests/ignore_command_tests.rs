use polydup::config::Config;
use polydup::ignore::{
    added_message, find_matching_duplicate, get_reason, handle_list_command, handle_remove_command,
    is_missing_ignore_file, parse_file_range, parse_file_ranges, resolve_duplicate_id,
    resolve_scan_parameters, split_file_list, FileRange, IdSource, IgnoreEntry,
};
use polydup::report::{CloneType, DuplicateMatch};

fn entry(id: &str, reason: &str, files: &str) -> IgnoreEntry {
    let ranges = parse_file_ranges(&split_file_list(files)).unwrap();
    IgnoreEntry {
        id: id.to_string(),
        reason: reason.to_string(),
        added_by: "test-user".to_string(),
        added_at: "2024-01-02 03:04:05 UTC".to_string(),
        files: ranges.iter().map(|r| r.to_text()).collect(),
    }
}

#[test]
fn test_ignore_list_empty() {
    let out = handle_list_command(&vec![], false);
    assert!(out.contains("No ignored duplicates"));
}

#[test]
fn test_ignore_add_and_list() {
    let added = added_message("test-id-123");
    assert!(added.contains("✓ Duplicate added to ignore list"));
    let out = handle_list_command(&vec![entry("test-id-123", "Test entry", "test.js:10-20")], false);
    assert!(out.contains("Ignored Duplicates (1)"));
}

#[test]
fn test_ignore_list_verbose() {
    let e = entry("multi-file-id", "Multi-file duplicate", "src/main.rs:5-15,src/lib.rs:10-20");
    let out = handle_list_command(&vec![e], true);
    assert!(out.contains("src/main.rs:5-15"));
    assert!(out.contains("src/lib.rs:10-20"));
}

#[test]
fn test_ignore_remove() {
    let (out, code) = handle_remove_command("remove-test-id", true);
    assert!(out.contains("✓ Duplicate removed from ignore list"));
    assert_eq!(code, 0);
    assert!(handle_list_command(&vec![], false).contains("No ignored duplicates"));
}

#[test]
fn test_ignore_remove_nonexistent() {
    let (out, code) = handle_remove_command("nonexistent-id", false);
    assert!(out.contains("✗ Duplicate ID not found"));
    assert_eq!(code, 1);
}

#[test]
fn test_ignore_add_multiple_files() {
    let e = entry("multi-id", "Multiple files", "file1.rs:1-10,file2.rs:20-30,file3.rs:40-50");
    let out = handle_list_command(&vec![e], true);
    assert!(out.contains("file1.rs:1-10"));
    assert!(out.contains("file2.rs:20-30"));
    assert!(out.contains("file3.rs:40-50"));
}

#[test]
fn test_ignore_add_invalid_file_format() {
    let err = parse_file_ranges(&vec!["invalid-format".to_string()]).err().unwrap();
    assert!(err.contains("Invalid file range format"));
}

#[test]
fn list_shows_every_field() {
    let e = entry("abc", "Generated code", "a.rs:1-2,b.rs:3-4");
    assert_eq!(
        handle_list_command(&vec![e], false),
        "Ignored Duplicates (1)\n\n1. abc\n   Reason: Generated code\n   Added by: test-user\n   Added at: 2024-01-02 03:04:05 UTC\n   Files: 2 file(s)\n\n"
    );
}

#[test]
fn file_ranges_split_at_the_last_colon() {
    let r = parse_file_range("C:/src/a.rs:10-20").unwrap();
    assert_eq!((r.file.as_str(), r.start_line, r.end_line), ("C:/src/a.rs", 10, 20));
    assert_eq!(r.to_text(), "C:/src/a.rs:10-20");
    assert_eq!(
        parse_file_range("a.rs:10").err().unwrap(),
        "Invalid file range 'a.rs:10': expected path:start-end"
    );
    assert!(parse_file_range(":1-2").is_err());
    assert!(parse_file_range("a.rs:x-2").is_err());
    let err = parse_file_ranges(&vec!["a.rs:1-2".to_string(), "bad".to_string(), "worse".to_string()])
        .err()
        .unwrap();
    assert_eq!(err, "Invalid file range format: Invalid file range 'bad': expected path:start-end");
}

#[test]
fn interactive_file_lists_are_split_on_commas() {
    assert_eq!(split_file_list(" a.rs:1-2 , ,b.rs:3-4,"), vec!["a.rs:1-2", "b.rs:3-4"]);
    assert_eq!(split_file_list(""), Vec::<String>::new());
}

#[test]
fn id_comes_from_argument_or_location() {
    assert!(matches!(resolve_duplicate_id(Some("id".to_string()), &vec![]), Ok(IdSource::Given(i)) if i == "id"));
    assert!(matches!(resolve_duplicate_id(None, &vec!["a.rs:1-2".to_string()]), Ok(IdSource::ByLocation)));
    assert_eq!(
        resolve_duplicate_id(None, &vec![]).err().unwrap(),
        "Either provide an ID or use --files to generate one"
    );
    assert_eq!(get_reason(String::new()), "No reason provided");
    assert_eq!(get_reason("Because".to_string()), "Because");
}

fn dup(start1: usize, end1: Option<usize>, id: Option<&str>) -> DuplicateMatch {
    DuplicateMatch {
        file1: "a.js".to_string(),
        file2: "b.js".to_string(),
        start_line1: start1,
        start_line2: 100,
        end_line1: end1,
        end_line2: Some(110),
        length: 10,
        similarity: 900_000,
        hash: 1,
        clone_type: CloneType::Type3,
        duplicate_id: id.map(|s| s.to_string()),
        suppressed_by_directive: None,
    }
}

#[test]
fn matching_duplicate_overlaps_the_target_range() {
    let dups = vec![dup(1, Some(5), Some("first")), dup(20, None, Some("second")), dup(40, Some(45), None)];
    let paths = vec![
        (Some("/r/a.js".to_string()), Some("/r/b.js".to_string())),
        (Some("/r/a.js".to_string()), Some("/r/b.js".to_string())),
        (Some("/r/a.js".to_string()), None),
    ];
    let target = |s, e| FileRange { file: "a.js".to_string(), start_line: s, end_line: e };
    assert_eq!(find_matching_duplicate(&dups, &paths, &target(3, 8), "/r/a.js"), Ok("first".to_string()));
    // the second copy's end comes from its length: lines 20..29
    assert_eq!(find_matching_duplicate(&dups, &paths, &target(29, 35), "/r/a.js"), Ok("second".to_string()));
    assert_eq!(
        find_matching_duplicate(&dups, &paths, &target(42, 43), "/r/a.js"),
        Err("Found duplicate at lines 40 in a.js but ID was not computed.\nTry using 'polydup ignore add <id>' with the full ID instead.".to_string())
    );
    assert_eq!(
        find_matching_duplicate(&dups, &paths, &target(60, 70), "/r/a.js"),
        Err("No duplicate found at a.js:60-70.\nRun 'polydup scan a.js' to see all duplicates.".to_string())
    );
    assert_eq!(find_matching_duplicate(&dups, &paths, &target(101, 102), "/r/b.js"), Ok("first".to_string()));
}

#[test]
fn rescan_parameters_follow_the_configuration_file() {
    let mut cfg = Config::default();
    cfg.scan.min_block_size = 20;
    cfg.scan.similarity_threshold = 880_000;
    assert_eq!(resolve_scan_parameters(50, 850_000, Some(&cfg)), (20, 880_000, true, 850_000));
    assert_eq!(resolve_scan_parameters(30, 900_000, Some(&cfg)), (30, 900_000, true, 850_000));
    assert_eq!(resolve_scan_parameters(50, 850_000, None), (50, 850_000, true, 850_000));
}

#[test]
fn missing_ignore_file_is_not_an_error() {
    assert!(is_missing_ignore_file("No such file or directory (os error 2)"));
    assert!(is_missing_ignore_file("The system cannot find the file specified"));
    assert!(!is_missing_ignore_file("Unsupported .polydup-ignore version: 999"));
}
