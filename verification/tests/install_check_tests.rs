use polydup::install_check::{
    display_installations, npm_installation, npm_json_installation, npm_text_installation,
    parse_npm_text_output, pip_show_field, split_words, InstallSource, Installation,
};

#[test]
fn test_parse_npm_text_output() {
    let text_output = "
/usr/local/lib
├── polydup@0.8.1
└── some-other-package@1.0.0
";
    let version = parse_npm_text_output(text_output).flatten();
    assert_eq!(version, Some("0.8.1".to_string()));
}

#[test]
fn test_install_source_display() {
    assert_eq!(InstallSource::Cargo.name(), "cargo");
    assert_eq!(InstallSource::Pip.name(), "pip");
    assert_eq!(InstallSource::Npm.name(), "npm");
}

#[test]
fn npm_output_without_polydup_means_not_installed() {
    assert_eq!(parse_npm_text_output("/usr/local/lib\n└── other@1.0.0\n"), None);
}

#[test]
fn pip_show_fields_are_read_by_key() {
    let out = "Name: polydup\nVersion: 0.8.1\nLocation: /usr/lib/python3/site-packages\n";
    assert_eq!(pip_show_field(out, "Version: "), Some("0.8.1".to_string()));
    assert_eq!(
        pip_show_field(out, "Location: "),
        Some("/usr/lib/python3/site-packages".to_string())
    );
    assert_eq!(pip_show_field(out, "Author: "), None);
}

#[test]
fn words_are_split_on_whitespace() {
    assert_eq!(split_words("  a  bb\tc\n"), vec!["a", "bb", "c"]);
    assert_eq!(split_words("   "), Vec::<String>::new());
}

fn install(source: InstallSource, version: &str, active: bool) -> Installation {
    Installation {
        source,
        version: Some(version.to_string()),
        path: Some(format!("/path/{}", source.name())),
        is_active: active,
    }
}

#[test]
fn single_installation_reports_nothing_else() {
    let text = display_installations(&vec![install(InstallSource::Cargo, "0.8.1", true)], false, "0.8.1");
    assert_eq!(
        text,
        "PolyDup Installation Check\n════════════════════════════════════════\n\nCLI Version: 0.8.1 (active)\n\nNo additional installations detected.\n"
    );
}

#[test]
fn different_versions_are_reported_as_mismatch() {
    let installs = vec![
        install(InstallSource::Cargo, "0.8.1", true),
        install(InstallSource::Pip, "0.7.0", false),
    ];
    let text = display_installations(&installs, true, "0.8.1");
    assert!(text.contains("\nDetected Installations:\n  📦 cargo: 0.8.1 (active)\n      /path/cargo\n  🐍 pip: 0.7.0 (library only)\n      /path/pip\n"));
    assert!(text.contains("⚠️ Version mismatch detected!"));
    assert!(text.contains("pip and npm packages are library bindings"));
}

#[test]
fn equal_versions_are_no_mismatch() {
    let installs = vec![
        install(InstallSource::Cargo, "0.8.1", true),
        install(InstallSource::Npm, "0.8.1", false),
        install(InstallSource::Pip, "0.8.1", false),
    ];
    let text = display_installations(&installs, false, "0.8.1");
    assert!(!text.contains("Version mismatch"));
    assert!(!text.contains("/path/"));
}

#[test]
fn mismatch_between_non_adjacent_installations_is_found() {
    let installs = vec![
        install(InstallSource::Cargo, "0.8.1", true),
        Installation { source: InstallSource::Npm, version: None, path: None, is_active: false },
        install(InstallSource::Pip, "0.9.0", false),
    ];
    let text = display_installations(&installs, false, "0.8.1");
    assert!(text.contains("  📦 npm: unknown (library only)\n"));
    assert!(text.contains("Version mismatch detected"));
}

#[test]
fn test_parse_npm_json_output() {
    let json_output = r#"{
            "dependencies": {
                "polydup": {
                    "version": "0.8.1"
                }
            }
        }"#;

    let version = npm_json_installation(json_output).and_then(|i| i.version);

    assert_eq!(version, Some("0.8.1".to_string()));
}

#[test]
fn test_parse_npm_json_missing_package() {
    let json_output = r#"{
            "dependencies": {
                "other-package": {
                    "version": "1.0.0"
                }
            }
        }"#;

    let version = npm_json_installation(json_output).and_then(|i| i.version);

    assert_eq!(version, None);
}

#[test]
fn npm_json_that_does_not_parse_gives_nothing() {
    assert!(npm_json_installation("polydup@0.8.1").is_none());
    assert!(npm_json_installation("{\"dependencies\": {\"polydup\": {\"version\": 8}}}").is_none());
}

#[test]
fn npm_installations_are_inactive_libraries() {
    let i = npm_json_installation("{\"dependencies\":{\"polydup\":{\"version\":\"1.2.3\"}}}").unwrap();
    assert_eq!(i.source, InstallSource::Npm);
    assert_eq!(i.version, Some("1.2.3".to_string()));
    assert_eq!(i.path, None);
    assert!(!i.is_active);
    let t = npm_text_installation("/usr/local/lib\n└── polydup@0.9.0\n").unwrap();
    assert_eq!(t.version, Some("0.9.0".to_string()));
    assert!(npm_text_installation("/usr/local/lib\n└── other@1.0.0\n").is_none());
    let bare = npm_installation(None);
    assert_eq!(bare.version, None);
    assert!(!bare.is_active);
}
