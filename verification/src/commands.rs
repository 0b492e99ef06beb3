//! The `config` and `cache` subcommands: which work each one asks for, and
//! what is printed about the outcome. Reading configuration files, building
//! caches and touching the file system are the caller's task.

use vstd::prelude::*;
use crate::cli::ConfigCommands;
use crate::config::{Config, ScanConfig};
use crate::defaults::{MIN_BLOCK_SIZE, SIMILARITY};
use crate::fixed::{percent_tenths_text, push_percent_tenths};
use crate::text::{append_str, decimal, owned, push_decimal};

verus! {

broadcast use vstd::string::group_string_axioms;

// ---------------------------------------------------------------------------
// config
// ---------------------------------------------------------------------------

/// The work that a `config` subcommand asks for.
pub enum ConfigTask {
    /// Load the configuration (from the given file, or by searching) and
    /// validate it
    Validate { config_path: Option<String> },
    /// Find the configuration file and print its path
    ShowPath,
    /// Load the configuration and print its summary
    Show { config_path: Option<String> },
}

/// Run the config command: the task that the subcommand asks for.
pub fn run(command: ConfigCommands) -> (r: ConfigTask)
    ensures
        match command {
            ConfigCommands::Validate { config_path } => r == ConfigTask::Validate { config_path },
            ConfigCommands::Path => r == ConfigTask::ShowPath,
            ConfigCommands::Show { config_path } => r == ConfigTask::Show { config_path },
        },
{
    match command {
        ConfigCommands::Validate { config_path } => ConfigTask::Validate { config_path },
        ConfigCommands::Path => ConfigTask::ShowPath,
        ConfigCommands::Show { config_path } => ConfigTask::Show { config_path },
    }
}

/// What a command prints and how it ends: standard output, standard error
/// and the exit code (0 for success).
pub struct Outcome {
    pub stdout: String,
    pub stderr: String,
    pub exit_code: i32,
}

/// The warning lines of a valid configuration.
pub open spec fn warning_lines(w: Seq<Seq<char>>) -> Seq<char>
    decreases w.len(),
{
    if w.len() == 0 {
        Seq::empty()
    } else {
        warning_lines(w.drop_last()) + "  ⚠ "@ + w.last() + "\n"@
    }
}

/// The report of `polydup config validate`: for a valid configuration, the
/// summary and any warnings on standard output; otherwise the error on
/// standard error and exit code 1.
pub open spec fn validation_report(c: Config) -> (Seq<char>, Seq<char>, int) {
    match c.validation() {
        Ok(w) => (
            "✓ Configuration is valid\n"@ + "\n"@ + c.spec_summary() + "\n"@ + (if w.len() > 0 {
                "\n"@ + "Warnings:\n"@ + warning_lines(w)
            } else {
                Seq::empty()
            }),
            Seq::empty(),
            0,
        ),
        Err(e) => (Seq::empty(), "✗ Configuration is invalid\n"@ + "\n"@ + "Error: "@ + e + "\n"@, 1),
    }
}

/// Validate configuration file: what `polydup config validate` prints for
/// a loaded configuration.
pub fn validate_config(config: &Config) -> (r: Outcome)
    ensures
        (r.stdout@, r.stderr@, r.exit_code as int) == validation_report(*config),
{
    match config.validate() {
        Ok(warnings) => {
            let summary = config.summary();
            let mut out = owned("✓ Configuration is valid\n");
            append_str(&mut out, "\n");
            append_str(&mut out, summary.as_str());
            append_str(&mut out, "\n");
            let mut tail = String::new();
            if warnings.len() > 0 {
                tail = owned("\n");
                append_str(&mut tail, "Warnings:\n");
                let ghost head = tail@;
                let ghost wv = warnings.deep_view();
                let mut i: usize = 0;
                while i < warnings.len()
                    invariant
                        i <= warnings.len(),
                        wv == warnings.deep_view(),
                        tail@ == head + warning_lines(wv.take(i as int)),
                    decreases warnings.len() - i,
                {
                    assert(wv.take(i + 1).drop_last() =~= wv.take(i as int));
                    let mut line = owned("  ⚠ ");
                    append_str(&mut line, warnings[i].as_str());
                    append_str(&mut line, "\n");
                    append_str(&mut tail, line.as_str());
                    assert(tail@ =~= head + warning_lines(wv.take(i + 1)));
                    i = i + 1;
                }
                assert(wv.take(warnings.len() as int) =~= wv);
            }
            append_str(&mut out, tail.as_str());
            Outcome { stdout: out, stderr: String::new(), exit_code: 0 }
        },
        Err(e) => {
            let mut err = owned("✗ Configuration is invalid\n");
            append_str(&mut err, "\n");
            append_str(&mut err, "Error: ");
            append_str(&mut err, e.as_str());
            append_str(&mut err, "\n");
            Outcome { stdout: String::new(), stderr: err, exit_code: 1 }
        },
    }
}

/// What is printed when no configuration file is found: a hint on standard
/// error, exit code 1.
pub fn missing_config() -> (r: Outcome)
    ensures
        r.stdout@ == Seq::<char>::empty(),
        r.stderr@ == "No configuration file found.\n\nRun 'polydup init' to create one.\n"@,
        r.exit_code == 1,
{
    Outcome {
        stdout: String::new(),
        stderr: owned("No configuration file found.\n\nRun 'polydup init' to create one.\n"),
        exit_code: 1,
    }
}

/// Show configuration file path: the path found, or the hint when none.
pub fn show_config_path(found: Option<&str>) -> (r: Outcome)
    ensures
        match found {
            Some(p) => r.stdout@ == p@ + "\n"@ && r.stderr@ == Seq::<char>::empty() && r.exit_code == 0,
            None => r.stdout@ == Seq::<char>::empty() && r.stderr@
                == "No configuration file found.\n\nRun 'polydup init' to create one.\n"@
                && r.exit_code == 1,
        },
{
    match found {
        Some(p) => {
            let mut out = owned(p);
            append_str(&mut out, "\n");
            Outcome { stdout: out, stderr: String::new(), exit_code: 0 }
        },
        None => missing_config(),
    }
}

/// Show configuration summary
pub fn show_config(config: &Config) -> (r: Outcome)
    ensures
        r.stdout@ == config.spec_summary() + "\n"@,
        r.stderr@ == Seq::<char>::empty(),
        r.exit_code == 0,
{
    let mut out = config.summary();
    append_str(&mut out, "\n");
    Outcome { stdout: out, stderr: String::new(), exit_code: 0 }
}

// ---------------------------------------------------------------------------
// cache
// ---------------------------------------------------------------------------

/// Cache subcommands
pub enum CacheCommand {
    /// Build hash cache for faster scanning
    Build {
        /// Paths to scan (defaults to current directory)
        paths: Vec<String>,
        /// Output path for cache file
        output: String,
        /// Verbose output
        verbose: bool,
    },
    /// Show cache statistics
    Info {
        /// Path to cache file
        cache: String,
    },
    /// Clear/delete the cache
    Clear {
        /// Path to cache file
        cache: String,
    },
}

/// The work that a `cache` subcommand asks for.
pub enum CacheTask {
    /// Scan the paths with the given block size and similarity (in
    /// millionths) and save the cache to `output`
    Build { paths: Vec<String>, output: String, verbose: bool, min_block_size: usize, similarity: i64 },
    /// Load the cache file and show its statistics
    Info { cache: String },
    /// Delete the cache file
    Clear { cache: String },
}

impl CacheCommand {
    /// The task of the subcommand. A build uses the block size and
    /// similarity of the configuration file when there is one, else the
    /// defaults.
    pub fn execute(self, config: Option<&Config>) -> (r: CacheTask)
        ensures
            match self {
                CacheCommand::Build { paths, output, verbose } => r == CacheTask::Build {
                    paths,
                    output,
                    verbose,
                    min_block_size: match config {
                        Some(c) => c.scan.min_block_size,
                        None => MIN_BLOCK_SIZE,
                    },
                    similarity: match config {
                        Some(c) => c.scan.similarity_threshold,
                        None => SIMILARITY,
                    },
                },
                CacheCommand::Info { cache } => r == CacheTask::Info { cache },
                CacheCommand::Clear { cache } => r == CacheTask::Clear { cache },
            },
    {
        match self {
            CacheCommand::Build { paths, output, verbose } => {
                let (min_block_size, similarity) = match config {
                    Some(c) => (c.scan.min_block_size, c.scan.similarity_threshold),
                    None => (MIN_BLOCK_SIZE, SIMILARITY),
                };
                CacheTask::Build { paths, output, verbose, min_block_size, similarity }
            },
            CacheCommand::Info { cache } => CacheTask::Info { cache },
            CacheCommand::Clear { cache } => CacheTask::Clear { cache },
        }
    }
}

/// The statistics of a hash cache.
pub struct CacheStats {
    pub files_cached: usize,
    pub total_hashes: usize,
    pub total_locations: usize,
    pub git_commit: Option<String>,
}

/// The lines printed after building a cache: the hash and file counts, where
/// it was saved, the build time as given, and a tip.
pub open spec fn cache_built_text(stats: CacheStats, output: Seq<char>, build_time: Seq<char>) -> Seq<char> {
    "✓ Cache built successfully: "@ + decimal(stats.total_hashes as nat) + " hashes from "@
        + decimal(stats.files_cached as nat) + " files\n"@ + "  Saved to: "@ + output + "\n"@
        + "  Build time: "@ + build_time + "s\n"@ + "\n"@
        + "Tip: Use 'polydup scan --git-diff <range>' for fast PR checks\n"@
}

/// What is printed after building a cache.
pub fn cache_built_summary(stats: &CacheStats, output: &str, build_time: &str) -> (r: String)
    ensures
        r@ == cache_built_text(*stats, output@, build_time@),
{
    let mut t = owned("✓ Cache built successfully: ");
    push_decimal(&mut t, stats.total_hashes as u64);
    append_str(&mut t, " hashes from ");
    push_decimal(&mut t, stats.files_cached as u64);
    append_str(&mut t, " files\n");
    append_str(&mut t, "  Saved to: ");
    append_str(&mut t, output);
    append_str(&mut t, "\n");
    append_str(&mut t, "  Build time: ");
    append_str(&mut t, build_time);
    append_str(&mut t, "s\n");
    append_str(&mut t, "\n");
    append_str(&mut t, "Tip: Use 'polydup scan --git-diff <range>' for fast PR checks\n");
    t
}

/// The verbose lines printed before building a cache: the paths (in their
/// debug form), the output, the threshold and the similarity.
pub open spec fn cache_build_plan_text(
    paths_debug: Seq<char>,
    output: Seq<char>,
    min_block_size: usize,
    similarity: i64,
) -> Seq<char> {
    "Building hash cache...\n"@ + "  Paths: "@ + paths_debug + "\n"@ + "  Output: "@ + output + "\n"@
        + "  Threshold: "@ + decimal(min_block_size as nat) + " tokens\n"@ + "  Similarity: "@
        + percent_tenths_text(similarity as int) + "%\n"@ + "\n"@
}

/// What is printed before building a cache in verbose mode.
pub fn cache_build_plan(paths_debug: &str, output: &str, min_block_size: usize, similarity: i64) -> (r: String)
    ensures
        r@ == cache_build_plan_text(paths_debug@, output@, min_block_size, similarity),
{
    let mut t = owned("Building hash cache...\n");
    append_str(&mut t, "  Paths: ");
    append_str(&mut t, paths_debug);
    append_str(&mut t, "\n");
    append_str(&mut t, "  Output: ");
    append_str(&mut t, output);
    append_str(&mut t, "\n");
    append_str(&mut t, "  Threshold: ");
    push_decimal(&mut t, min_block_size as u64);
    append_str(&mut t, " tokens\n");
    append_str(&mut t, "  Similarity: ");
    push_percent_tenths(&mut t, similarity);
    append_str(&mut t, "%\n");
    append_str(&mut t, "\n");
    t
}

/// The statistics printed about a cache file.
pub open spec fn cache_info_text(
    path: Seq<char>,
    version: Seq<char>,
    min_block_size: usize,
    stats: CacheStats,
    created_at: Seq<char>,
) -> Seq<char> {
    "Cache Information\n"@ + "══════════════════════════════════════════════════\n"@ + "\n"@
        + "Cache file: "@ + path + "\n"@ + "Version: v"@ + version + "\n"@ + "\n"@
        + "Configuration:\n"@ + "  Min tokens:       "@ + decimal(min_block_size as nat) + "\n"@
        + "\n"@ + "Statistics:\n"@ + "  Files cached:     "@ + decimal(stats.files_cached as nat)
        + "\n"@ + "  Unique hashes:    "@ + decimal(stats.total_hashes as nat) + "\n"@
        + "  Total locations:  "@ + decimal(stats.total_locations as nat) + "\n"@ + "\n"@ + (
    match stats.git_commit {
        Some(c) => "Git commit: "@ + c@ + "\n"@,
        None => Seq::empty(),
    }) + "Created at: "@ + created_at + "\n"@ + "\n"@
        + "Tip: Cache enables 10-100x faster git-diff scans\n"@
}

/// What `polydup cache info` prints; the creation time is given formatted.
pub fn cache_info(path: &str, version: &str, min_block_size: usize, stats: &CacheStats, created_at: &str) -> (r: String)
    ensures
        r@ == cache_info_text(path@, version@, min_block_size, *stats, created_at@),
{
    let mut t = owned("Cache Information\n");
    append_str(&mut t, "══════════════════════════════════════════════════\n");
    append_str(&mut t, "\n");
    append_str(&mut t, "Cache file: ");
    append_str(&mut t, path);
    append_str(&mut t, "\n");
    append_str(&mut t, "Version: v");
    append_str(&mut t, version);
    append_str(&mut t, "\n");
    append_str(&mut t, "\n");
    append_str(&mut t, "Configuration:\n");
    append_str(&mut t, "  Min tokens:       ");
    push_decimal(&mut t, min_block_size as u64);
    append_str(&mut t, "\n");
    append_str(&mut t, "\n");
    append_str(&mut t, "Statistics:\n");
    append_str(&mut t, "  Files cached:     ");
    push_decimal(&mut t, stats.files_cached as u64);
    append_str(&mut t, "\n");
    append_str(&mut t, "  Unique hashes:    ");
    push_decimal(&mut t, stats.total_hashes as u64);
    append_str(&mut t, "\n");
    append_str(&mut t, "  Total locations:  ");
    push_decimal(&mut t, stats.total_locations as u64);
    append_str(&mut t, "\n");
    append_str(&mut t, "\n");
    let mut commit = String::new();
    match &stats.git_commit {
        Some(c) => {
            commit = owned("Git commit: ");
            append_str(&mut commit, c.as_str());
            append_str(&mut commit, "\n");
        },
        None => {},
    }
    append_str(&mut t, commit.as_str());
    append_str(&mut t, "Created at: ");
    append_str(&mut t, created_at);
    append_str(&mut t, "\n");
    append_str(&mut t, "\n");
    append_str(&mut t, "Tip: Cache enables 10-100x faster git-diff scans\n");
    t
}

/// The error when the cache file to show is missing.
pub fn cache_missing_error(path: &str) -> (r: String)
    ensures
        r@ == "Cache file not found: "@ + path@ + "\nRun 'polydup cache build' to create it."@,
{
    let mut t = owned("Cache file not found: ");
    append_str(&mut t, path);
    append_str(&mut t, "\nRun 'polydup cache build' to create it.");
    t
}

/// What `polydup cache clear` prints, given whether the file existed (and
/// was then deleted).
pub fn cache_cleared_message(path: &str, existed: bool) -> (r: String)
    ensures
        r@ == if existed {
            "✓ Cache cleared: "@ + path@
        } else {
            "Cache file does not exist: "@ + path@
        },
{
    let mut t = if existed {
        owned("✓ Cache cleared: ")
    } else {
        owned("Cache file does not exist: ")
    };
    append_str(&mut t, path);
    t
}

/// The statistics printed in verbose mode after building a cache; the
/// build time is given formatted.
pub open spec fn cache_stats_text(stats: CacheStats, build_time: Seq<char>) -> Seq<char> {
    "Cache Statistics:\n  Files cached: "@ + decimal(stats.files_cached as nat) + "\n  Total hashes: "@
        + decimal(stats.total_hashes as nat) + "\n  Total locations: "@ + decimal(
        stats.total_locations as nat,
    ) + "\n"@ + (match stats.git_commit {
        Some(c) => "  Git commit: "@ + c@ + "\n"@,
        None => Seq::empty(),
    }) + "  Build time: "@ + build_time + "s\n\n"@
}

/// What is printed in verbose mode after building a cache.
pub fn cache_stats_summary(stats: &CacheStats, build_time: &str) -> (r: String)
    ensures
        r@ == cache_stats_text(*stats, build_time@),
{
    let mut t = owned("Cache Statistics:\n  Files cached: ");
    push_decimal(&mut t, stats.files_cached as u64);
    append_str(&mut t, "\n  Total hashes: ");
    push_decimal(&mut t, stats.total_hashes as u64);
    append_str(&mut t, "\n  Total locations: ");
    push_decimal(&mut t, stats.total_locations as u64);
    append_str(&mut t, "\n");
    let commit = match &stats.git_commit {
        Some(c) => {
            let mut line = owned("  Git commit: ");
            append_str(&mut line, c.as_str());
            append_str(&mut line, "\n");
            line
        },
        None => String::new(),
    };
    append_str(&mut t, commit.as_str());
    append_str(&mut t, "  Build time: ");
    append_str(&mut t, build_time);
    append_str(&mut t, "s\n\n");
    t
}

} // verus!
