//! Project initialisation: the default and interactive configurations, the
//! CI/CD files that `polydup init` writes, and the guidance it prints.
//! Prompting, file access and the existence checks are the caller's task.

use vstd::prelude::*;
use crate::config::{CiConfig, Config, ExcludeConfig, OutputConfig, ScanConfig, spec_default_exclude_patterns};
use crate::defaults::{MIN_BLOCK_SIZE, SIMILARITY};
use crate::detect::{
    all_patterns, combined_exclude_patterns, recommended_install_command,
    spec_recommended_install_command, strictly_ascending, Environment,
};
use crate::text::{append_str, owned};

verus! {

broadcast use vstd::string::group_string_axioms;

/// Arguments for the init command
pub struct InitArgs {
    /// Force overwrite existing configuration
    pub force: bool,
    /// Skip interactive prompts and use defaults
    pub non_interactive: bool,
    /// Only generate CI/CD configuration (skip .polyduprc.toml)
    pub ci_only: bool,
}

/// GitHub Actions workflow that runs the PolyDup action on pull requests.
pub const GITHUB_WORKFLOW: &'static str = r#"name: PolyDup Duplicate Detection

on:
  pull_request:
    branches: [ main, master, develop ]

permissions:
  contents: read
  pull-requests: write  # Required for PR comments

jobs:
  duplicate-check:
    runs-on: ubuntu-latest
    name: Detect Duplicate Code

    steps:
      - name: Checkout code
        uses: actions/checkout@v4
        with:
          fetch-depth: 0  # Required for git-diff comparison

      - name: Run PolyDup
        uses: wiesnerbernard/polydup-action@v0.3.0
        with:
          threshold: 50
          similarity: 0.85
          fail-on-duplicates: true
          comment-on-pr: true

# This workflow uses the PolyDup GitHub Action for best CI experience:
# - Fast git-diff mode (scans all files, filters to changed)
# - Automatic PR comments with duplicate code reports
# - Configurable fail-on-duplicates behavior
# - No manual installation required
#
# Configuration options:
#   threshold: Minimum code block size in tokens (default: 50)
#   similarity: Similarity threshold 0.0-1.0 (default: 0.85)
#   fail-on-duplicates: Fail check if duplicates found (default: true)
#   comment-on-pr: Post results as PR comment (default: true)
#
# For more options, see: https://github.com/wiesnerbernard/polydup-action
"#;

/// GitHub Actions workflow with manual installation, up to the install command.
pub const GITHUB_MANUAL_HEAD: &'static str = r#"name: PolyDup Duplicate Detection

on:
  pull_request:
    branches: [ main, master, develop ]

jobs:
  duplicate-check:
    runs-on: ubuntu-latest
    name: Detect Duplicate Code

    steps:
      - name: Checkout code
        uses: actions/checkout@v4

      - name: Install PolyDup
        run: "#;

/// GitHub Actions workflow with manual installation, after the install command.
pub const GITHUB_MANUAL_TAIL: &'static str = r#"

      - name: Run duplicate detection
        id: polydup
        run: |
          polydup scan . --format json > polydup-report.json
          DUPLICATES=$(jq '.duplicates | length' polydup-report.json)
          echo "duplicates=$DUPLICATES" >> $GITHUB_OUTPUT

          if [ "$DUPLICATES" -gt 0 ]; then
            echo "::error::Found $DUPLICATES duplicate code block(s)"
            exit 1
          fi

      - name: Upload report
        if: always()
        uses: actions/upload-artifact@v4
        with:
          name: polydup-report
          path: polydup-report.json

# This workflow uses manual installation and scans the full repository.
# For better performance, consider using the GitHub Action:
#   uses: wiesnerbernard/polydup-action@v0.3.0
# which provides:
#   - 10-100x faster git-diff mode
#   - Automatic PR comments
#   - Better CI integration
"#;

/// GitLab CI configuration, up to the install command.
pub const GITLAB_HEAD: &'static str = r#"# PolyDup Duplicate Detection
stages:
  - test

polydup:
  stage: test
  image: rust:latest
  script:
    - "#;

/// GitLab CI configuration, after the install command.
pub const GITLAB_TAIL: &'static str = r#"
    - polydup scan . --format json > polydup-report.json || true
  artifacts:
    when: always
    paths:
      - polydup-report.json
    expire_in: 30 days
  allow_failure: true
"#;

/// Azure Pipelines configuration, up to the install command.
pub const AZURE_HEAD: &'static str = r#"# PolyDup Duplicate Detection
trigger:
  - main
  - master
  - develop

pool:
  vmImage: 'ubuntu-latest'

steps:
  - script: "#;

/// Azure Pipelines configuration, after the install command.
pub const AZURE_TAIL: &'static str = r#"
    displayName: 'Install PolyDup'

  - script: |
      polydup scan . --format json > polydup-report.json || true
    displayName: 'Run duplicate detection'

  - task: PublishBuildArtifacts@1
    condition: always()
    inputs:
      PathtoPublish: 'polydup-report.json'
      ArtifactName: 'polydup-report'
"#;

/// Jenkinsfile, up to the install command.
pub const JENKINS_HEAD: &'static str = r#"// PolyDup Duplicate Detection
pipeline {
    agent any

    stages {
        stage('Install PolyDup') {
            steps {
                sh '"#;

/// Jenkinsfile, after the install command.
pub const JENKINS_TAIL: &'static str = r#"'
            }
        }

        stage('Duplicate Detection') {
            steps {
                sh 'polydup scan . --format json > polydup-report.json || true'
            }
        }
    }

    post {
        always {
            archiveArtifacts artifacts: 'polydup-report.json', allowEmptyArchive: true
        }
    }
}
"#;

/// Generate GitHub Actions workflow content
pub fn generate_github_workflow() -> (r: String)
    ensures
        r@ == GITHUB_WORKFLOW@,
{
    owned(GITHUB_WORKFLOW)
}

/// Generate GitHub Actions workflow content with manual installation
pub fn generate_github_workflow_manual(install_command: &str) -> (r: String)
    ensures
        r@ == GITHUB_MANUAL_HEAD@ + install_command@ + GITHUB_MANUAL_TAIL@,
{
    let mut r = owned(GITHUB_MANUAL_HEAD);
    append_str(&mut r, install_command);
    append_str(&mut r, GITHUB_MANUAL_TAIL);
    r
}

/// The GitLab CI configuration for the given environments.
pub fn gitlab_ci_content(environments: &[Environment]) -> (r: String)
    ensures
        r@ == GITLAB_HEAD@ + spec_recommended_install_command(environments@) + GITLAB_TAIL@,
{
    let mut r = owned(GITLAB_HEAD);
    append_str(&mut r, recommended_install_command(environments));
    append_str(&mut r, GITLAB_TAIL);
    r
}

/// The Azure Pipelines configuration for the given environments.
pub fn azure_pipelines_content(environments: &[Environment]) -> (r: String)
    ensures
        r@ == AZURE_HEAD@ + spec_recommended_install_command(environments@) + AZURE_TAIL@,
{
    let mut r = owned(AZURE_HEAD);
    append_str(&mut r, recommended_install_command(environments));
    append_str(&mut r, AZURE_TAIL);
    r
}

/// The Jenkinsfile for the given environments.
pub fn jenkinsfile_content(environments: &[Environment]) -> (r: String)
    ensures
        r@ == JENKINS_HEAD@ + spec_recommended_install_command(environments@) + JENKINS_TAIL@,
{
    let mut r = owned(JENKINS_HEAD);
    append_str(&mut r, recommended_install_command(environments));
    append_str(&mut r, JENKINS_TAIL);
    r
}

/// `patterns` are the exclude patterns suggested for `environments`: the
/// generic defaults when none was detected, else every pattern of every
/// environment once, in ascending order.
pub open spec fn suggested_patterns(environments: Seq<Environment>, patterns: Seq<Seq<char>>) -> bool {
    if environments.len() == 0 {
        patterns == spec_default_exclude_patterns()
    } else {
        &&& strictly_ascending(patterns)
        &&& forall|p: Seq<char>| #[trigger]
            patterns.contains(p) <==> all_patterns(environments).contains(p)
    }
}

/// The exclude patterns suggested for the environments.
fn suggested_exclude_patterns(environments: &[Environment]) -> (r: Vec<String>)
    ensures
        suggested_patterns(environments@, r.deep_view()),
{
    if environments.len() == 0 {
        ExcludeConfig::default().patterns
    } else {
        combined_exclude_patterns(environments)
    }
}

/// Create configuration with default values
pub fn create_default_config(environments: &[Environment]) -> (r: Config)
    ensures
        r.scan.min_block_size == MIN_BLOCK_SIZE,
        r.scan.similarity_threshold == SIMILARITY,
        suggested_patterns(environments@, r.scan.exclude.patterns.deep_view()),
        r.output.format@ == "text"@,
        !r.output.verbose,
        !r.ci.enabled,
        r.ci.fail_on_duplicates,
{
    let exclude_patterns = suggested_exclude_patterns(environments);
    Config {
        scan: ScanConfig {
            min_block_size: MIN_BLOCK_SIZE,
            similarity_threshold: SIMILARITY,
            exclude: ExcludeConfig { patterns: exclude_patterns },
        },
        output: OutputConfig::default(),
        ci: CiConfig::default(),
    }
}

/// The similarity threshold (in millionths) for a choice of the threshold
/// menu: strict, standard, relaxed or the custom value.
pub open spec fn spec_threshold_choice(selection: int, custom: int) -> int {
    if selection == 0 {
        950_000
    } else if selection == 1 {
        850_000
    } else if selection == 2 {
        700_000
    } else if selection == 3 {
        custom
    } else {
        850_000
    }
}

/// The similarity threshold for a choice of the threshold menu.
pub fn threshold_choice(selection: usize, custom: i64) -> (r: i64)
    ensures
        r == spec_threshold_choice(selection as int, custom as int),
{
    if selection == 0 {
        950_000
    } else if selection == 1 {
        850_000
    } else if selection == 2 {
        700_000
    } else if selection == 3 {
        custom
    } else {
        850_000
    }
}

/// The minimum block size for a choice of the block size menu: small,
/// medium, large or the custom value.
pub open spec fn spec_block_size_choice(selection: int, custom: int) -> int {
    if selection == 0 {
        10
    } else if selection == 1 {
        50
    } else if selection == 2 {
        100
    } else if selection == 3 {
        custom
    } else {
        50
    }
}

/// The minimum block size for a choice of the block size menu.
pub fn block_size_choice(selection: usize, custom: usize) -> (r: usize)
    ensures
        r == spec_block_size_choice(selection as int, custom as int),
{
    if selection == 0 {
        10
    } else if selection == 1 {
        50
    } else if selection == 2 {
        100
    } else if selection == 3 {
        custom
    } else {
        50
    }
}

/// The output formats offered, in menu order.
pub open spec fn spec_format_options() -> Seq<Seq<char>> {
    seq!["text"@, "json"@]
}

/// Create configuration from the answers of the interactive prompts: the
/// confirmed environments, the threshold and block size menu choices with
/// their custom values, the extra exclude patterns, the output format choice
/// and the verbose answer.
pub fn interactive_config(
    selected: &[Environment],
    threshold_selection: usize,
    custom_threshold: i64,
    block_size_selection: usize,
    custom_block_size: usize,
    extra_patterns: Vec<String>,
    format_selection: usize,
    verbose: bool,
) -> (r: Config)
    requires
        format_selection < 2,
    ensures
        r.scan.min_block_size == spec_block_size_choice(
            block_size_selection as int,
            custom_block_size as int,
        ),
        r.scan.similarity_threshold == spec_threshold_choice(
            threshold_selection as int,
            custom_threshold as int,
        ),
        exists|base: Seq<Seq<char>>|
            suggested_patterns(selected@, base) && r.scan.exclude.patterns.deep_view() == base
                + extra_patterns.deep_view(),
        r.output.format@ == spec_format_options()[format_selection as int],
        r.output.verbose == verbose,
        !r.ci.enabled,
        r.ci.fail_on_duplicates,
{
    let similarity_threshold = threshold_choice(threshold_selection, custom_threshold);
    let min_block_size = block_size_choice(block_size_selection, custom_block_size);
    let mut patterns = suggested_exclude_patterns(selected);
    let ghost base = patterns.deep_view();
    let mut extra = extra_patterns;
    patterns.append(&mut extra);
    assert(patterns.deep_view() =~= base + extra_patterns.deep_view());
    let format = if format_selection == 0 {
        owned("text")
    } else {
        owned("json")
    };
    Config {
        scan: ScanConfig {
            min_block_size,
            similarity_threshold,
            exclude: ExcludeConfig { patterns },
        },
        output: OutputConfig { format, verbose },
        ci: CiConfig::default(),
    }
}

/// The line of sixty `=` that frames the next-steps guidance.
pub const RULE: &'static str = "============================================================";

/// What step 4 of the guidance says when a GitHub Actions workflow exists.
pub const CI_READY: &'static str = "   ✓ GitHub Actions workflow created.
   Push your changes to trigger the workflow.

   Note: CI is disabled by default in .polyduprc.toml
   To enable CI features (exit codes, fail on duplicates), set:
   [ci]
   enabled = true
";

/// What step 4 of the guidance says when no workflow exists yet.
pub const CI_MISSING: &'static str = "   No CI workflow created yet.
   To add CI/CD integration:
   - Run: polydup init --ci-only
   - Or manually set up using documentation

   Note: CI features are disabled by default in .polyduprc.toml
   To enable, edit your config and set: [ci] enabled = true
";

/// One line per alternative install method, for the first `n` methods.
pub open spec fn alt_method_lines(alts: Seq<Seq<char>>, n: int) -> Seq<char>
    decreases n,
{
    if n <= 0 {
        Seq::empty()
    } else {
        alt_method_lines(alts, n - 1) + "   - "@ + alts[n - 1] + "\n"@
    }
}

/// The alternative install lines of the first `n` environments, in order.
pub open spec fn alt_lines(envs: Seq<Environment>, n: int) -> Seq<char>
    decreases n,
{
    if n <= 0 {
        Seq::empty()
    } else {
        let alts = envs[n - 1].spec_alt_install_methods();
        alt_lines(envs, n - 1) + alt_method_lines(alts, alts.len() as int)
    }
}

/// The list of alternatives, shown only when more than one environment was
/// detected.
pub open spec fn alt_section(envs: Seq<Environment>) -> Seq<char> {
    if envs.len() > 1 {
        "\n   Alternative install methods:\n"@ + alt_lines(envs, envs.len() as int)
    } else {
        Seq::empty()
    }
}

/// Step 1 of the guidance: how to install polydup locally.
pub open spec fn install_steps(envs: Seq<Environment>) -> Seq<char> {
    if envs.len() == 0 {
        "   cargo install polydup-cli\n"@
    } else {
        "   "@ + spec_recommended_install_command(envs) + "\n"@ + alt_section(envs)
    }
}

/// Step 4 of the guidance, by whether a GitHub Actions workflow exists.
pub open spec fn ci_steps(workflow_exists: bool) -> Seq<char> {
    if workflow_exists {
        CI_READY@
    } else {
        CI_MISSING@
    }
}

/// The guidance printed at the end of `polydup init`.
pub open spec fn next_steps(
    envs: Seq<Environment>,
    config_path: Seq<char>,
    workflow_exists: bool,
) -> Seq<char> {
    "\n"@ + RULE@ + "\nNext Steps\n"@ + RULE@ + "\n\n1. Install PolyDup locally (recommended):\n"@
        + install_steps(envs)
        + "\n2. Try scanning your project:\n   polydup scan ./src\n\n3. Configuration file location:\n   "@
        + config_path + "\n   Edit this file to customize settings.\n\n4. CI/CD Integration:\n"@
        + ci_steps(workflow_exists)
        + "\n5. Documentation:\n   Visit https://github.com/wiesnerbernard/polydup for more info.\n\n"@
        + RULE@ + "\n"@
}

fn alt_section_text(environments: &[Environment]) -> (r: String)
    ensures
        r@ == alt_section(environments@),
{
    let mut s = String::new();
    if environments.len() > 1 {
        append_str(&mut s, "\n   Alternative install methods:\n");
        let ghost head = s@;
        let mut i: usize = 0;
        while i < environments.len()
            invariant
                i <= environments.len(),
                s@ == head + alt_lines(environments@, i as int),
            decreases environments.len() - i,
        {
            let alts = environments[i].alt_install_methods();
            let ghost before = s@;
            let mut j: usize = 0;
            while j < alts.len()
                invariant
                    j <= alts.len(),
                    s@ == before + alt_method_lines(alts.deep_view(), j as int),
                decreases alts.len() - j,
            {
                append_str(&mut s, "   - ");
                append_str(&mut s, alts[j]);
                append_str(&mut s, "\n");
                assert(alts.deep_view()[j as int] == alts@[j as int]@);
                j = j + 1;
            }
            assert(s@ == head + alt_lines(environments@, i + 1));
            i = i + 1;
        }
    }
    s
}

fn install_steps_text(environments: &[Environment]) -> (r: String)
    ensures
        r@ == install_steps(environments@),
{
    if environments.len() == 0 {
        owned("   cargo install polydup-cli\n")
    } else {
        let mut s = owned("   ");
        append_str(&mut s, recommended_install_command(environments));
        append_str(&mut s, "\n");
        let alts = alt_section_text(environments);
        append_str(&mut s, alts.as_str());
        s
    }
}

/// The guidance printed at the end of `polydup init`, for the detected
/// environments, the configuration file's path as displayed, and whether a
/// GitHub Actions workflow now exists.
pub fn next_steps_text(environments: &[Environment], config_path: &str, workflow_exists: bool) -> (r: String)
    ensures
        r@ == next_steps(environments@, config_path@, workflow_exists),
{
    let mut s = owned("\n");
    append_str(&mut s, RULE);
    append_str(&mut s, "\nNext Steps\n");
    append_str(&mut s, RULE);
    append_str(&mut s, "\n\n1. Install PolyDup locally (recommended):\n");
    let steps = install_steps_text(environments);
    append_str(&mut s, steps.as_str());
    append_str(
        &mut s,
        "\n2. Try scanning your project:\n   polydup scan ./src\n\n3. Configuration file location:\n   ",
    );
    append_str(&mut s, config_path);
    append_str(&mut s, "\n   Edit this file to customize settings.\n\n4. CI/CD Integration:\n");
    if workflow_exists {
        append_str(&mut s, CI_READY);
    } else {
        append_str(&mut s, CI_MISSING);
    }
    append_str(
        &mut s,
        "\n5. Documentation:\n   Visit https://github.com/wiesnerbernard/polydup for more info.\n\n",
    );
    append_str(&mut s, RULE);
    append_str(&mut s, "\n");
    s
}

/// The CI/CD setups that `polydup init --ci-only` can produce.
#[derive(PartialEq, Eq, Structural, Clone, Copy, Debug)]
pub enum CiSetup {
    /// GitHub Actions workflow using the PolyDup action
    GithubAction,
    /// GitHub Actions workflow installing polydup by hand
    GithubManual,
    /// GitLab CI configuration
    GitlabCi,
    /// Azure Pipelines configuration
    AzurePipelines,
    /// Jenkinsfile
    Jenkins,
    /// Instructions for any other CI system
    ManualSteps,
}

/// The setup chosen from the platform menu (GitHub Actions, GitLab CI,
/// Azure Pipelines, Jenkins, other) and, for GitHub, the setup menu (action,
/// manual installation); without prompts, the GitHub action. `None` when a
/// selection lies outside its menu.
pub open spec fn spec_ci_setup(non_interactive: bool, platform: int, github_setup: int) -> Option<CiSetup> {
    if non_interactive {
        Some(CiSetup::GithubAction)
    } else if platform == 0 {
        if github_setup == 0 {
            Some(CiSetup::GithubAction)
        } else if github_setup == 1 {
            Some(CiSetup::GithubManual)
        } else {
            None
        }
    } else if platform == 1 {
        Some(CiSetup::GitlabCi)
    } else if platform == 2 {
        Some(CiSetup::AzurePipelines)
    } else if platform == 3 {
        Some(CiSetup::Jenkins)
    } else if platform == 4 {
        Some(CiSetup::ManualSteps)
    } else {
        None
    }
}

/// The setup chosen from the CI/CD menus (see `spec_ci_setup`).
pub fn ci_setup(non_interactive: bool, platform: usize, github_setup: usize) -> (r: Option<CiSetup>)
    ensures
        r == spec_ci_setup(non_interactive, platform as int, github_setup as int),
{
    if non_interactive {
        Some(CiSetup::GithubAction)
    } else if platform == 0 {
        if github_setup == 0 {
            Some(CiSetup::GithubAction)
        } else if github_setup == 1 {
            Some(CiSetup::GithubManual)
        } else {
            None
        }
    } else if platform == 1 {
        Some(CiSetup::GitlabCi)
    } else if platform == 2 {
        Some(CiSetup::AzurePipelines)
    } else if platform == 3 {
        Some(CiSetup::Jenkins)
    } else if platform == 4 {
        Some(CiSetup::ManualSteps)
    } else {
        None
    }
}

/// What is printed once the GitHub action workflow was set up interactively.
pub const GITHUB_ACTION_DONE: &'static str = "
✓ GitHub Actions workflow created.
  Uses: wiesnerbernard/polydup-action@v0.3.0
  Features:
    - Git-diff mode (10-100x faster)
    - Automatic PR comments
    - Configurable fail-on-duplicates

Push your changes to trigger the workflow.
";

/// What is printed once the manual GitHub workflow was set up.
pub const GITHUB_MANUAL_DONE: &'static str = "
✓ GitHub Actions workflow created (manual installation).
  Scans: Full repository
  Note: Consider using the GitHub Action for better performance.

Push your changes to trigger the workflow.
";

/// The message printed after a CI/CD setup was carried out.
pub open spec fn ci_setup_message(setup: CiSetup, non_interactive: bool, envs: Seq<Environment>) -> Seq<char> {
    if non_interactive {
        "\nCI/CD configuration generated.\nPush your changes to trigger the workflow.\n"@
    } else {
        match setup {
            CiSetup::GithubAction => GITHUB_ACTION_DONE@,
            CiSetup::GithubManual => GITHUB_MANUAL_DONE@,
            CiSetup::GitlabCi => "\nGitLab CI configuration created.\nPush your changes to trigger the pipeline.\n"@,
            CiSetup::AzurePipelines => "\nAzure Pipelines configuration created.\nCommit and push to trigger the pipeline.\n"@,
            CiSetup::Jenkins => "\nJenkinsfile created.\nConfigure your Jenkins job to use this file.\n"@,
            CiSetup::ManualSteps => "\nFor manual CI/CD setup, add this to your pipeline:\n\n  # Install PolyDup\n  "@
                + spec_recommended_install_command(envs)
                + "\n\n  # Run scan\n  polydup scan . --format json\n\n"@,
        }
    }
}

/// The message printed after a CI/CD setup was carried out, for the
/// detected environments.
pub fn ci_setup_text(setup: CiSetup, non_interactive: bool, environments: &[Environment]) -> (r: String)
    ensures
        r@ == ci_setup_message(setup, non_interactive, environments@),
{
    if non_interactive {
        return owned("\nCI/CD configuration generated.\nPush your changes to trigger the workflow.\n");
    }
    match setup {
        CiSetup::GithubAction => owned(GITHUB_ACTION_DONE),
        CiSetup::GithubManual => owned(GITHUB_MANUAL_DONE),
        CiSetup::GitlabCi => owned(
            "\nGitLab CI configuration created.\nPush your changes to trigger the pipeline.\n",
        ),
        CiSetup::AzurePipelines => owned(
            "\nAzure Pipelines configuration created.\nCommit and push to trigger the pipeline.\n",
        ),
        CiSetup::Jenkins => owned(
            "\nJenkinsfile created.\nConfigure your Jenkins job to use this file.\n",
        ),
        CiSetup::ManualSteps => {
            let mut s = owned(
                "\nFor manual CI/CD setup, add this to your pipeline:\n\n  # Install PolyDup\n  ",
            );
            append_str(&mut s, recommended_install_command(environments));
            append_str(&mut s, "\n\n  # Run scan\n  polydup scan . --format json\n\n");
            s
        },
    }
}

/// A CI/CD file to write: where, what, and what to say when the user
/// declines to overwrite it or once it is written.
pub struct CiFile {
    /// Directory to create first, empty when the file sits at the root
    pub dir: String,
    /// Path of the file
    pub path: String,
    /// Contents of the file
    pub content: String,
    /// Printed when an existing file is kept
    pub skip_message: String,
    /// Printed, followed by `: ` and the path, once the file is written
    pub created_label: String,
}

/// The file a setup writes, for the detected environments; `None` for the
/// instructions of any other CI system.
pub open spec fn ci_file_spec(setup: CiSetup, envs: Seq<Environment>) -> Option<(Seq<char>, Seq<char>, Seq<char>, Seq<char>, Seq<char>)> {
    let install = spec_recommended_install_command(envs);
    match setup {
        CiSetup::GithubAction => Some((
            ".github/workflows"@,
            ".github/workflows/polydup.yml"@,
            GITHUB_WORKFLOW@,
            "Skipping GitHub Actions workflow creation."@,
            "GitHub Actions workflow created"@,
        )),
        CiSetup::GithubManual => Some((
            ".github/workflows"@,
            ".github/workflows/polydup.yml"@,
            GITHUB_MANUAL_HEAD@ + install + GITHUB_MANUAL_TAIL@,
            "Skipping GitHub Actions workflow creation."@,
            "GitHub Actions workflow created"@,
        )),
        CiSetup::GitlabCi => Some((
            Seq::empty(),
            ".gitlab-ci.yml"@,
            GITLAB_HEAD@ + install + GITLAB_TAIL@,
            "Skipping GitLab CI configuration creation."@,
            "GitLab CI configuration created"@,
        )),
        CiSetup::AzurePipelines => Some((
            Seq::empty(),
            "azure-pipelines.yml"@,
            AZURE_HEAD@ + install + AZURE_TAIL@,
            "Skipping Azure Pipelines configuration creation."@,
            "Azure Pipelines configuration created"@,
        )),
        CiSetup::Jenkins => Some((
            Seq::empty(),
            "Jenkinsfile"@,
            JENKINS_HEAD@ + install + JENKINS_TAIL@,
            "Skipping Jenkinsfile creation."@,
            "Jenkinsfile created"@,
        )),
        CiSetup::ManualSteps => None,
    }
}

/// The fields of a `CiFile` as a tuple of texts.
pub open spec fn ci_file_view(f: CiFile) -> (Seq<char>, Seq<char>, Seq<char>, Seq<char>, Seq<char>) {
    (f.dir@, f.path@, f.content@, f.skip_message@, f.created_label@)
}

/// The file a setup writes, for the detected environments.
pub fn ci_file(setup: CiSetup, environments: &[Environment]) -> (r: Option<CiFile>)
    ensures
        match ci_file_spec(setup, environments@) {
            Some(t) => r is Some && ci_file_view(r->0) == t,
            None => r is None,
        },
{
    match setup {
        CiSetup::GithubAction => Some(CiFile {
            dir: owned(".github/workflows"),
            path: owned(".github/workflows/polydup.yml"),
            content: generate_github_workflow(),
            skip_message: owned("Skipping GitHub Actions workflow creation."),
            created_label: owned("GitHub Actions workflow created"),
        }),
        CiSetup::GithubManual => Some(CiFile {
            dir: owned(".github/workflows"),
            path: owned(".github/workflows/polydup.yml"),
            content: generate_github_workflow_manual(recommended_install_command(environments)),
            skip_message: owned("Skipping GitHub Actions workflow creation."),
            created_label: owned("GitHub Actions workflow created"),
        }),
        CiSetup::GitlabCi => Some(CiFile {
            dir: String::new(),
            path: owned(".gitlab-ci.yml"),
            content: gitlab_ci_content(environments),
            skip_message: owned("Skipping GitLab CI configuration creation."),
            created_label: owned("GitLab CI configuration created"),
        }),
        CiSetup::AzurePipelines => Some(CiFile {
            dir: String::new(),
            path: owned("azure-pipelines.yml"),
            content: azure_pipelines_content(environments),
            skip_message: owned("Skipping Azure Pipelines configuration creation."),
            created_label: owned("Azure Pipelines configuration created"),
        }),
        CiSetup::Jenkins => Some(CiFile {
            dir: String::new(),
            path: owned("Jenkinsfile"),
            content: jenkinsfile_content(environments),
            skip_message: owned("Skipping Jenkinsfile creation."),
            created_label: owned("Jenkinsfile created"),
        }),
        CiSetup::ManualSteps => None,
    }
}

/// The report on an existing configuration in CI-only mode, from the result
/// of its validation: the text, and whether it goes to the error stream.
pub open spec fn existing_config_notice(validation: Result<Seq<Seq<char>>, Seq<char>>) -> (Seq<char>, bool) {
    match validation {
        Ok(warnings) => if warnings.len() == 0 {
            ("✓ Existing .polyduprc.toml is valid\n\n"@, false)
        } else {
            ("✓ Existing .polyduprc.toml is valid (with warnings):\n"@ + warning_lines(warnings, warnings.len() as int) + "\n"@, false)
        },
        Err(e) => (
            "⚠ Warning: Existing .polyduprc.toml has validation errors:\n  - "@ + e
                + "\n\nCI workflows will be generated, but may fail with invalid config.\nFix errors with: polydup config validate\n\n"@,
            true,
        ),
    }
}

/// One indented line per warning, for the first `n` warnings.
pub open spec fn warning_lines(warnings: Seq<Seq<char>>, n: int) -> Seq<char>
    decreases n,
{
    if n <= 0 {
        Seq::empty()
    } else {
        warning_lines(warnings, n - 1) + "  ⚠ "@ + warnings[n - 1] + "\n"@
    }
}

/// The view of a validation result.
pub open spec fn validation_view(v: Result<Vec<String>, String>) -> Result<Seq<Seq<char>>, Seq<char>> {
    match v {
        Ok(w) => Ok(w.deep_view()),
        Err(e) => Err(e@),
    }
}

/// The report on an existing configuration in CI-only mode (see
/// `existing_config_notice`).
pub fn existing_config_text(validation: &Result<Vec<String>, String>) -> (r: (String, bool))
    ensures
        (r.0@, r.1) == existing_config_notice(validation_view(*validation)),
{
    match validation {
        Ok(warnings) => {
            if warnings.len() == 0 {
                (owned("✓ Existing .polyduprc.toml is valid\n\n"), false)
            } else {
                let mut s = owned("✓ Existing .polyduprc.toml is valid (with warnings):\n");
                let ghost head = s@;
                let mut i: usize = 0;
                while i < warnings.len()
                    invariant
                        i <= warnings.len(),
                        s@ == head + warning_lines(warnings.deep_view(), i as int),
                    decreases warnings.len() - i,
                {
                    append_str(&mut s, "  ⚠ ");
                    append_str(&mut s, warnings[i].as_str());
                    append_str(&mut s, "\n");
                    assert(warnings.deep_view()[i as int] == warnings@[i as int]@);
                    i = i + 1;
                }
                append_str(&mut s, "\n");
                (s, false)
            }
        },
        Err(e) => {
            let mut s = owned("⚠ Warning: Existing .polyduprc.toml has validation errors:\n  - ");
            append_str(&mut s, e.as_str());
            append_str(
                &mut s,
                "\n\nCI workflows will be generated, but may fail with invalid config.\nFix errors with: polydup config validate\n\n",
            );
            (s, true)
        },
    }
}

/// The first thing `polydup init` does after detecting the environments.
#[derive(PartialEq, Eq, Structural, Clone, Copy, Debug)]
pub enum InitStep {
    /// Only generate CI/CD configuration
    CiOnly,
    /// Refuse: a configuration exists and `--force` was not given (exit 1)
    AlreadyConfigured,
    /// Write the default configuration without prompts
    DefaultConfig,
    /// Ask the user for the configuration
    InteractiveConfig,
}

/// The step `polydup init` takes for its arguments and whether a
/// configuration file already exists.
pub open spec fn spec_init_step(ci_only: bool, force: bool, non_interactive: bool, config_exists: bool) -> InitStep {
    if ci_only {
        InitStep::CiOnly
    } else if config_exists && !force {
        InitStep::AlreadyConfigured
    } else if non_interactive {
        InitStep::DefaultConfig
    } else {
        InitStep::InteractiveConfig
    }
}

/// The step `polydup init` takes (see `spec_init_step`).
pub fn init_step(args: &InitArgs, config_exists: bool) -> (r: InitStep)
    ensures
        r == spec_init_step(args.ci_only, args.force, args.non_interactive, config_exists),
{
    if args.ci_only {
        InitStep::CiOnly
    } else if config_exists && !args.force {
        InitStep::AlreadyConfigured
    } else if args.non_interactive {
        InitStep::DefaultConfig
    } else {
        InitStep::InteractiveConfig
    }
}

/// One indented line per environment name, for the first `n` environments.
pub open spec fn environment_lines(envs: Seq<Environment>, n: int) -> Seq<char>
    decreases n,
{
    if n <= 0 {
        Seq::empty()
    } else {
        environment_lines(envs, n - 1) + "  - "@ + envs[n - 1].spec_name() + "\n"@
    }
}

/// The banner of `polydup init` and what it says of the detected
/// environments.
pub open spec fn init_banner(envs: Seq<Environment>) -> Seq<char> {
    "PolyDup Initialization Wizard\n=============================\n\n"@ + if envs.len() == 0 {
        "No known project markers detected.\nGenerating generic configuration...\n\n"@
    } else {
        "Detected environments:\n"@ + environment_lines(envs, envs.len() as int) + "\n"@
    }
}

/// The banner of `polydup init` for the detected environments.
pub fn init_banner_text(environments: &[Environment]) -> (r: String)
    ensures
        r@ == init_banner(environments@),
{
    let mut body = String::new();
    if environments.len() == 0 {
        append_str(&mut body, "No known project markers detected.\nGenerating generic configuration...\n\n");
    } else {
        append_str(&mut body, "Detected environments:\n");
        let ghost head = body@;
        let mut i: usize = 0;
        while i < environments.len()
            invariant
                i <= environments.len(),
                body@ == head + environment_lines(environments@, i as int),
            decreases environments.len() - i,
        {
            append_str(&mut body, "  - ");
            append_str(&mut body, environments[i].name());
            append_str(&mut body, "\n");
            i = i + 1;
        }
        append_str(&mut body, "\n");
    }
    let mut s = owned("PolyDup Initialization Wizard\n=============================\n\n");
    append_str(&mut s, body.as_str());
    s
}

/// The error printed when a configuration already exists, for its path as
/// displayed.
pub fn already_configured_text(config_path: &str) -> (r: String)
    ensures
        r@ == "Configuration file already exists: "@ + config_path@
            + "\nUse --force to overwrite, or edit it manually.\n"@,
{
    let mut s = owned("Configuration file already exists: ");
    append_str(&mut s, config_path);
    append_str(&mut s, "\nUse --force to overwrite, or edit it manually.\n");
    s
}

} // verus!
