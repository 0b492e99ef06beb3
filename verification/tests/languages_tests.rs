use polydup::cli::OutputFormat;
use polydup::languages::{
    full_support_count, languages_text, listed_positions, lists_as_json, Language, LanguageStatus,
};

fn lang(name: &str, exts: &[&str], status: LanguageStatus) -> Language {
    Language {
        name: name.to_string(),
        extensions: exts.iter().map(|e| e.to_string()).collect(),
        parser: "tree-sitter".to_string(),
        type3_support: status == LanguageStatus::Full,
        status,
    }
}

fn table() -> Vec<Language> {
    vec![
        lang("Rust", &["rs"], LanguageStatus::Full),
        lang("Vue", &["vue"], LanguageStatus::Partial),
        lang("TypeScript", &["ts", "mts", "cts"], LanguageStatus::Full),
        lang("Zig", &["zig"], LanguageStatus::Planned),
    ]
}

#[test]
fn listing_shows_every_language_with_status() {
    let text = languages_text(&table(), false);
    assert!(text.starts_with("Supported Languages:\n\n  ✓ Rust                 .rs\n  ◐ Vue                  .vue (partial)\n  ✓ TypeScript           .ts, .mts, .cts\n  ○ Zig                  .zig (planned)\n"));
    assert!(text.contains("\nTotal: 4 languages (2 with full support)\n\nLegend:\n"));
}

#[test]
fn full_only_keeps_fully_supported_languages() {
    let text = languages_text(&table(), true);
    assert!(text.contains("Total: 2 languages (2 with full support)"));
    assert!(!text.contains("◐ Vue"));
    assert_eq!(listed_positions(&table(), true), vec![0, 2]);
    assert_eq!(listed_positions(&table(), false), vec![0, 1, 2, 3]);
    assert_eq!(full_support_count(&table(), false), 2);
    assert_eq!(full_support_count(&vec![], false), 0);
}

#[test]
fn long_names_are_not_cut() {
    let text = languages_text(&vec![lang("AVeryLongLanguageNameIndeed", &["x"], LanguageStatus::Full)], false);
    assert!(text.contains("  ✓ AVeryLongLanguageNameIndeed .x\n"));
}

#[test]
fn json_for_json_and_sarif() {
    assert!(lists_as_json(OutputFormat::Json));
    assert!(lists_as_json(OutputFormat::Sarif));
    assert!(!lists_as_json(OutputFormat::Text));
    assert!(!lists_as_json(OutputFormat::Vscode));
    assert_eq!(LanguageStatus::Partial.name(), "partial");
}
