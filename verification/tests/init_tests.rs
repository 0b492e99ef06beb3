use polydup::init::{CiSetup, InitArgs, InitStep, already_configured_text, ci_file, ci_setup, ci_setup_text, existing_config_text, init_banner_text, init_step, next_steps_text};
use polydup::defaults::{MIN_BLOCK_SIZE, SIMILARITY};
use polydup::detect::Environment;
use polydup::init::{
    azure_pipelines_content, block_size_choice, create_default_config, generate_github_workflow,
    generate_github_workflow_manual, gitlab_ci_content, interactive_config, jenkinsfile_content,
    threshold_choice,
};

#[test]
fn test_create_default_config() {
    let envs = vec![Environment::NodeJs, Environment::Rust];
    let config = create_default_config(&envs);

    assert_eq!(config.scan.min_block_size, MIN_BLOCK_SIZE);
    assert_eq!(config.scan.similarity_threshold, SIMILARITY);
    assert!(!config.scan.exclude.patterns.is_empty());
}

#[test]
fn test_generate_github_workflow() {
    let workflow = generate_github_workflow();
    assert!(workflow.contains("name: PolyDup Duplicate Detection"));
    assert!(workflow.contains("wiesnerbernard/polydup-action@v0.3.0"));
    assert!(workflow.contains("fail-on-duplicates: true"));
    assert!(workflow.contains("comment-on-pr: true"));
}

#[test]
fn test_generate_github_workflow_manual() {
    let workflow = generate_github_workflow_manual("cargo install polydup");
    assert!(workflow.contains("name: PolyDup Duplicate Detection"));
    assert!(workflow.contains("cargo install polydup"));
    assert!(workflow.contains("polydup scan"));
    assert!(workflow.contains("jq '.duplicates | length'"));
}

#[test]
fn default_config_without_environments_uses_generic_patterns() {
    let config = create_default_config(&[]);
    assert_eq!(config.scan.exclude.patterns.len(), 10);
    assert_eq!(config.scan.exclude.patterns[0], "**/*.test.ts");
    assert_eq!(config.output.format, "text");
    assert!(!config.ci.enabled);
    assert!(config.ci.fail_on_duplicates);
}

#[test]
fn default_config_patterns_are_sorted_and_unique() {
    let config = create_default_config(&[Environment::NodeJs, Environment::Rust]);
    let p = &config.scan.exclude.patterns;
    for i in 1..p.len() {
        assert!(p[i - 1] < p[i]);
    }
    assert!(p.contains(&"**/node_modules/**".to_string()));
    assert!(p.contains(&"**/target/**".to_string()));
}

#[test]
fn manual_workflow_installs_with_given_command() {
    let workflow = generate_github_workflow_manual("pip install polydup");
    assert!(workflow.contains("        run: pip install polydup\n"));
}

#[test]
fn ci_files_use_recommended_install_command() {
    let gitlab = gitlab_ci_content(&[Environment::Python]);
    assert!(gitlab.contains("    - pip install polydup\n"));
    assert!(gitlab.starts_with("# PolyDup Duplicate Detection\nstages:"));
    let azure = azure_pipelines_content(&[Environment::Rust]);
    assert!(azure.contains("  - script: cargo install polydup-cli\n"));
    assert!(azure.contains("vmImage"));
    let jenkins = jenkinsfile_content(&[]);
    assert!(jenkins.contains("sh 'cargo install polydup-cli'"));
    assert!(jenkins.contains("pipeline {"));
}

#[test]
fn menu_choices_map_to_values() {
    assert_eq!(threshold_choice(0, 0), 950_000);
    assert_eq!(threshold_choice(1, 0), 850_000);
    assert_eq!(threshold_choice(2, 0), 700_000);
    assert_eq!(threshold_choice(3, 420_000), 420_000);
    assert_eq!(threshold_choice(9, 420_000), 850_000);
    assert_eq!(block_size_choice(0, 7), 10);
    assert_eq!(block_size_choice(1, 7), 50);
    assert_eq!(block_size_choice(2, 7), 100);
    assert_eq!(block_size_choice(3, 7), 7);
    assert_eq!(block_size_choice(5, 7), 50);
}

#[test]
fn interactive_answers_build_configuration() {
    let config = interactive_config(
        &[Environment::Go],
        3,
        900_000,
        2,
        0,
        vec!["**/gen/**".to_string()],
        1,
        true,
    );
    assert_eq!(config.scan.similarity_threshold, 900_000);
    assert_eq!(config.scan.min_block_size, 100);
    assert_eq!(config.output.format, "json");
    assert!(config.output.verbose);
    assert_eq!(config.scan.exclude.patterns.last().unwrap(), "**/gen/**");
}

#[test]
fn ci_menus_choose_the_setup() {
    assert_eq!(ci_setup(true, 3, 1), Some(CiSetup::GithubAction));
    assert_eq!(ci_setup(false, 0, 0), Some(CiSetup::GithubAction));
    assert_eq!(ci_setup(false, 0, 1), Some(CiSetup::GithubManual));
    assert_eq!(ci_setup(false, 0, 2), None);
    assert_eq!(ci_setup(false, 1, 0), Some(CiSetup::GitlabCi));
    assert_eq!(ci_setup(false, 2, 0), Some(CiSetup::AzurePipelines));
    assert_eq!(ci_setup(false, 3, 0), Some(CiSetup::Jenkins));
    assert_eq!(ci_setup(false, 4, 0), Some(CiSetup::ManualSteps));
    assert_eq!(ci_setup(false, 5, 0), None);
}

#[test]
fn ci_files_and_messages() {
    let envs = vec![Environment::Python];
    let gitlab = ci_file(CiSetup::GitlabCi, &envs).unwrap();
    assert_eq!(gitlab.path, ".gitlab-ci.yml");
    assert_eq!(gitlab.dir, "");
    assert!(gitlab.content.contains("stages:"));
    assert!(gitlab.content.contains("pip install polydup"));
    assert!(gitlab.content.contains("polydup scan"));
    let azure = ci_file(CiSetup::AzurePipelines, &envs).unwrap();
    assert_eq!(azure.path, "azure-pipelines.yml");
    assert!(azure.content.contains("vmImage"));
    let jenkins = ci_file(CiSetup::Jenkins, &envs).unwrap();
    assert_eq!(jenkins.path, "Jenkinsfile");
    assert!(jenkins.content.contains("pipeline"));
    let github = ci_file(CiSetup::GithubAction, &envs).unwrap();
    assert_eq!((github.dir.as_str(), github.path.as_str()), (".github/workflows", ".github/workflows/polydup.yml"));
    assert_eq!(github.content, generate_github_workflow());
    assert_eq!(github.skip_message, "Skipping GitHub Actions workflow creation.");
    let manual = ci_file(CiSetup::GithubManual, &envs).unwrap();
    assert!(manual.content.contains("run: pip install polydup"));
    assert!(ci_file(CiSetup::ManualSteps, &envs).is_none());

    assert_eq!(
        ci_setup_text(CiSetup::GithubAction, true, &envs),
        "\nCI/CD configuration generated.\nPush your changes to trigger the workflow.\n"
    );
    assert!(ci_setup_text(CiSetup::GithubAction, false, &envs).contains("Uses: wiesnerbernard/polydup-action@v0.3.0"));
    assert_eq!(
        ci_setup_text(CiSetup::ManualSteps, false, &envs),
        "\nFor manual CI/CD setup, add this to your pipeline:\n\n  # Install PolyDup\n  pip install polydup\n\n  # Run scan\n  polydup scan . --format json\n\n"
    );
    assert_eq!(
        ci_setup_text(CiSetup::Jenkins, false, &envs),
        "\nJenkinsfile created.\nConfigure your Jenkins job to use this file.\n"
    );
}

#[test]
fn existing_configuration_is_reported_in_ci_only_mode() {
    assert_eq!(
        existing_config_text(&Ok(vec![])),
        ("✓ Existing .polyduprc.toml is valid\n\n".to_string(), false)
    );
    assert_eq!(
        existing_config_text(&Ok(vec!["w1".to_string(), "w2".to_string()])),
        ("✓ Existing .polyduprc.toml is valid (with warnings):\n  ⚠ w1\n  ⚠ w2\n\n".to_string(), false)
    );
    let (text, to_stderr) = existing_config_text(&Err("bad format".to_string()));
    assert!(to_stderr);
    assert!(text.starts_with("⚠ Warning: Existing .polyduprc.toml has validation errors:\n  - bad format\n"));
    assert!(text.ends_with("Fix errors with: polydup config validate\n\n"));
}

#[test]
fn init_steps_and_banner() {
    let args = |force, non_interactive, ci_only| InitArgs { force, non_interactive, ci_only };
    assert_eq!(init_step(&args(false, false, true), true), InitStep::CiOnly);
    assert_eq!(init_step(&args(false, false, false), true), InitStep::AlreadyConfigured);
    assert_eq!(init_step(&args(true, true, false), true), InitStep::DefaultConfig);
    assert_eq!(init_step(&args(false, false, false), false), InitStep::InteractiveConfig);
    assert_eq!(
        init_banner_text(&[]),
        "PolyDup Initialization Wizard\n=============================\n\nNo known project markers detected.\nGenerating generic configuration...\n\n"
    );
    assert_eq!(
        init_banner_text(&[Environment::Rust, Environment::Go]),
        "PolyDup Initialization Wizard\n=============================\n\nDetected environments:\n  - Rust\n  - Go\n\n"
    );
    assert_eq!(
        already_configured_text("/w/.polyduprc.toml"),
        "Configuration file already exists: /w/.polyduprc.toml\nUse --force to overwrite, or edit it manually.\n"
    );
}

#[test]
fn next_steps_guidance() {
    let rule = "=".repeat(60);
    let none = next_steps_text(&[], ".polyduprc.toml", false);
    assert!(none.starts_with(&format!("\n{}\nNext Steps\n{}\n\n1. Install PolyDup locally (recommended):\n   cargo install polydup-cli\n\n2.", rule, rule)));
    assert!(none.contains("   No CI workflow created yet.\n"));
    assert!(none.ends_with(&format!("for more info.\n\n{}\n", rule)));
    let two = next_steps_text(&[Environment::NodeJs, Environment::Python], "/w/.polyduprc.toml", true);
    assert!(two.contains("   npm install -g @polydup/core\n\n   Alternative install methods:\n   - Download binary from GitHub releases\n   - cargo install polydup-cli\n   - cargo install polydup-cli\n   - Download binary from GitHub releases\n"));
    assert!(two.contains("   /w/.polyduprc.toml\n   Edit this file to customize settings.\n"));
    assert!(two.contains("   ✓ GitHub Actions workflow created.\n"));
    let one = next_steps_text(&[Environment::Go], "c", false);
    assert!(!one.contains("Alternative install methods"));
}
