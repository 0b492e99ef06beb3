use polydup::versions::{
    detect_installation_method, display_update_notification, is_cargo_install, is_valid_version,
    plan_upgrade, upgrade_via_cargo_args, InstallMethod, UpgradeStep,
};

#[test]
fn test_install_method_display() {
    assert_eq!(InstallMethod::Cargo.name(), "cargo");
    assert_eq!(InstallMethod::Homebrew.name(), "homebrew");
    assert_eq!(InstallMethod::Unknown.name(), "unknown");
}

#[test]
fn test_current_version_is_valid_semver() {
    // the crate's own version, as Cargo.toml gives it
    assert!(is_valid_version("0.1.0"));
}

#[test]
fn version_parsing_rejects_malformed_text() {
    assert!(is_valid_version("1.2.3-beta.1+build.5"));
    assert!(!is_valid_version("1.2"));
    assert!(!is_valid_version("v1.2.3"));
    assert!(!is_valid_version(""));
}

#[test]
fn upgrade_plan_follows_versions_and_flags() {
    assert_eq!(
        plan_upgrade("0.8.1", "0.8.1", false, false, InstallMethod::Cargo),
        Some(UpgradeStep::UpToDate)
    );
    assert_eq!(
        plan_upgrade("0.9.0", "0.8.1", false, false, InstallMethod::Cargo),
        Some(UpgradeStep::UpToDate)
    );
    assert_eq!(
        plan_upgrade("0.8.1", "0.9.0", true, false, InstallMethod::Cargo),
        Some(UpgradeStep::ReportOnly)
    );
    assert_eq!(
        plan_upgrade("0.8.1", "0.9.0", false, false, InstallMethod::Cargo),
        Some(UpgradeStep::ViaCargo)
    );
    assert_eq!(
        plan_upgrade("0.8.1", "0.8.2", false, false, InstallMethod::Homebrew),
        Some(UpgradeStep::ViaHomebrew)
    );
    assert_eq!(
        plan_upgrade("1.0.0", "2.0.0", false, false, InstallMethod::Unknown),
        Some(UpgradeStep::Manual)
    );
    assert_eq!(plan_upgrade("1.0", "2.0.0", false, false, InstallMethod::Cargo), None);
}

#[test]
fn forced_upgrade_reinstalls_even_when_current() {
    assert_eq!(
        plan_upgrade("0.8.1", "0.8.1", false, true, InstallMethod::Cargo),
        Some(UpgradeStep::ViaCargo)
    );
    assert_eq!(
        plan_upgrade("0.8.1", "0.8.1", true, true, InstallMethod::Cargo),
        Some(UpgradeStep::ReportOnly)
    );
}

#[test]
fn prerelease_is_older_than_release() {
    assert_eq!(
        plan_upgrade("1.0.0-alpha", "1.0.0", false, false, InstallMethod::Cargo),
        Some(UpgradeStep::ViaCargo)
    );
}

#[test]
fn cargo_upgrade_arguments() {
    assert_eq!(upgrade_via_cargo_args(false), vec!["install", "polydup"]);
    assert_eq!(upgrade_via_cargo_args(true), vec!["install", "polydup", "--force"]);
}

#[test]
fn installation_method_from_paths() {
    assert!(is_cargo_install("/home/u/.cargo/bin/polydup", None, None));
    assert!(is_cargo_install("/opt/cargo/bin/polydup", Some("/opt/cargo"), None));
    assert!(is_cargo_install("/home/u/.cargo/bin/polydup", None, Some("/home/u")));
    assert!(!is_cargo_install("/usr/local/bin/polydup", None, Some("/home/u")));
    assert_eq!(
        detect_installation_method(Some("/home/u/.cargo/bin/polydup"), None, None, false),
        InstallMethod::Cargo
    );
    assert_eq!(
        detect_installation_method(Some("/opt/homebrew/bin/polydup"), None, None, false),
        InstallMethod::Homebrew
    );
    assert_eq!(
        detect_installation_method(Some("/usr/local/Cellar/polydup/1.0/bin/polydup"), None, None, false),
        InstallMethod::Homebrew
    );
    assert_eq!(
        detect_installation_method(Some("/usr/bin/polydup"), None, None, true),
        InstallMethod::Homebrew
    );
    assert_eq!(
        detect_installation_method(Some("/usr/bin/polydup"), None, None, false),
        InstallMethod::Unknown
    );
}

#[test]
fn update_notice_by_distance() {
    assert_eq!(
        display_update_notification("0.8.1", "1.0.0").unwrap(),
        "\n!! Major update available: 0.8.1 -> 1.0.0\n   Breaking changes may be present. Review changelog before updating.\n   Run 'polydup upgrade' or 'cargo install polydup' to update.\n\n"
    );
    assert_eq!(
        display_update_notification("0.8.1", "0.9.0").unwrap(),
        "\n-> Update available: 0.8.1 -> 0.9.0\n   New features available.\n   Run 'polydup upgrade' or 'cargo install polydup' to update.\n\n"
    );
    assert_eq!(
        display_update_notification("0.8.1", "0.8.2").unwrap(),
        "\n-> Patch available: 0.8.1 -> 0.8.2\n   Bug fixes available.\n   Run 'polydup upgrade' or 'cargo install polydup' to update.\n\n"
    );
    assert_eq!(display_update_notification("0.8", "0.8.2"), None);
}
