use polydup::detect::{
    combined_exclude_patterns, detect_environments, marker_files, recommended_install_command,
    Environment,
};

fn names(list: &[&str]) -> Vec<String> {
    list.iter().map(|s| s.to_string()).collect()
}

#[test]
fn test_detect_nodejs() {
    let envs = detect_environments(&names(&["package.json"]));
    assert!(envs.contains(&Environment::NodeJs));
}

#[test]
fn test_detect_rust() {
    let envs = detect_environments(&names(&["Cargo.toml"]));
    assert!(envs.contains(&Environment::Rust));
}

#[test]
fn test_detect_python() {
    let envs = detect_environments(&names(&["pyproject.toml"]));
    assert!(envs.contains(&Environment::Python));
}

#[test]
fn test_detect_monorepo() {
    let envs = detect_environments(&names(&["package.json", "Cargo.toml", "requirements.txt"]));
    assert_eq!(envs.len(), 3);
    assert!(envs.contains(&Environment::NodeJs));
    assert!(envs.contains(&Environment::Rust));
    assert!(envs.contains(&Environment::Python));
}

#[test]
fn test_combined_exclude_patterns() {
    let envs = vec![Environment::NodeJs, Environment::Rust];
    let patterns = combined_exclude_patterns(&envs);

    // Should contain patterns from both environments
    assert!(patterns.contains(&"**/node_modules/**".to_string()));
    assert!(patterns.contains(&"**/target/**".to_string()));

    // Should not have duplicates
    let unique_count = patterns.len();
    let mut sorted = patterns.clone();
    sorted.sort();
    sorted.dedup();
    assert_eq!(unique_count, sorted.len());
}

#[test]
fn test_environment_names() {
    assert_eq!(Environment::NodeJs.name(), "Node.js");
    assert_eq!(Environment::Rust.name(), "Rust");
    assert_eq!(Environment::Python.name(), "Python");
}

#[test]
fn test_recommended_install_command() {
    let envs = vec![Environment::NodeJs, Environment::Rust];
    assert_eq!(
        recommended_install_command(&envs),
        "cargo install polydup-cli"
    );

    let envs = vec![Environment::Python];
    assert_eq!(recommended_install_command(&envs), "pip install polydup");

    let envs = vec![];
    assert_eq!(
        recommended_install_command(&envs),
        "cargo install polydup-cli"
    );
}

#[test]
fn detect_nothing_without_markers() {
    assert!(detect_environments(&names(&["README.md"])).is_empty());
    assert!(detect_environments(&Vec::new()).is_empty());
}

#[test]
fn detect_keeps_fixed_order_and_each_once() {
    let envs = detect_environments(&names(&[
        "Gemfile", "go.mod", "yarn.lock", "package.json", "build.gradle.kts", "Pipfile",
    ]));
    assert_eq!(
        envs,
        vec![
            Environment::NodeJs,
            Environment::Python,
            Environment::Go,
            Environment::Java,
            Environment::Ruby
        ]
    );
}

#[test]
fn marker_list_covers_every_environment() {
    let markers: Vec<String> = marker_files().iter().map(|s| s.to_string()).collect();
    assert_eq!(markers.len(), 13);
    assert_eq!(detect_environments(&markers).len(), 6);
}

#[test]
fn combined_patterns_are_sorted_and_unique() {
    let envs = vec![Environment::Java, Environment::Rust, Environment::Java];
    let patterns = combined_exclude_patterns(&envs);
    assert_eq!(
        patterns,
        vec![
            "**/*Test.java",
            "**/*_test.rs",
            "**/.gradle/**",
            "**/bin/**",
            "**/build/**",
            "**/target/**",
            "**/tests/**",
        ]
    );
    assert!(combined_exclude_patterns(&[]).is_empty());
}

#[test]
fn install_commands_and_alternatives() {
    assert_eq!(Environment::NodeJs.install_command(), "npm install -g @polydup/core");
    assert_eq!(Environment::Go.install_command(), "cargo install polydup-cli");
    assert_eq!(
        Environment::Python.alt_install_methods(),
        vec!["cargo install polydup-cli", "Download binary from GitHub releases"]
    );
    assert_eq!(
        Environment::Ruby.alt_install_methods(),
        vec!["Download binary from GitHub releases"]
    );
    assert_eq!(recommended_install_command(&[Environment::Go, Environment::NodeJs]), "cargo install polydup-cli");
    assert_eq!(recommended_install_command(&[Environment::NodeJs, Environment::Python]), "npm install -g @polydup/core");
    assert_eq!(Environment::Go.exclude_patterns(), vec!["**/vendor/**", "**/*_test.go"]);
}

#[test]
fn every_environment_excludes_distinct_patterns_under_any_directory() {
    let all = [
        Environment::NodeJs,
        Environment::Rust,
        Environment::Python,
        Environment::Go,
        Environment::Java,
        Environment::Ruby,
    ];
    for env in all {
        let patterns = env.exclude_patterns();
        assert!(patterns.len() >= 2);
        assert!(patterns.iter().all(|p| p.starts_with("**/")));
        for (i, p) in patterns.iter().enumerate() {
            assert!(!patterns[i + 1..].contains(p));
        }
    }
    assert!(Environment::NodeJs.exclude_patterns().contains(&"**/node_modules/**".to_string()));
    assert_eq!(Environment::Rust.exclude_patterns(), vec!["**/target/**", "**/*_test.rs", "**/tests/**"]);
}
