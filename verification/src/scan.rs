//! The scan command's own rules: checking the options, merging them with
//! the configuration file, and the decisions and messages around a scan
//! (Type-3 warning, progress display, scan errors, CI exit status). The
//! file system, git and the detection engine are the caller's task.

use vstd::prelude::*;
use crate::cli::OutputFormat;
use crate::config::{bool_text, push_bool, Config};
use crate::defaults::{MIN_BLOCK_SIZE, SIMILARITY};
use crate::dashboard::{count_clone_type, count_type};
use crate::detect::contains_text;
use crate::report::{CloneType, Report, ScanStats};
use crate::filters::is_group_criterion;
use crate::fixed::{fraction_text, percent_text, push_fraction, push_percent, MILLION};
use crate::text::{append_str, chars_of, contains_seq, decimal, owned, push_decimal, str_contains, str_eq};

verus! {

broadcast use vstd::string::group_string_axioms;

/// Configuration for a scan operation
///
/// This struct reduces "argument drilling" by grouping related parameters.
/// Fractions are held in millionths.
pub struct ScanConfig {
    pub paths: Vec<String>,
    pub format: OutputFormat,
    pub min_block_size: usize,
    pub similarity: i64,
    pub verbose: bool,
    pub quiet: bool,
    pub exclude: Vec<String>,
    pub enable_type3: bool,
    pub type3_tolerance: i64,
    pub output: Option<String>,
    pub no_color: bool,
    pub only_type: Vec<String>,
    pub exclude_type: Vec<String>,
    pub group_by: Option<String>,
    pub debug: bool,
    pub save_baseline: Option<String>,
    pub compare_to: Option<String>,
    pub git_diff: Option<String>,
    pub enable_directives: bool,
    pub include_tests: bool,
    pub progress: bool,
    pub no_progress: bool,
    pub fail_on_duplicates: bool,
    pub fail_on_new: bool,
    pub show_code: bool,
    pub preview_lines: usize,
    pub suggest_refactoring: bool,
    pub show_ids: bool,
    pub dry_run: bool,
    pub id_length: usize,
    pub full_ids: bool,
}

// ---------------------------------------------------------------------------
// Validation
// ---------------------------------------------------------------------------

/// The names accepted by `--only-type` and `--exclude-type`.
pub open spec fn is_clone_type_name(t: Seq<char>) -> bool {
    t == "type-1"@ || t == "type-2"@ || t == "type-3"@
}

/// Position `i` holds the first `false` of `s`.
pub open spec fn is_first_false(s: Seq<bool>, i: int) -> bool {
    0 <= i < s.len() && !s[i] && forall|k: int| 0 <= k < i ==> s[k]
}

/// Position `i` holds the first name of `s` that is not a clone type.
pub open spec fn is_first_bad_type(s: Seq<Seq<char>>, i: int) -> bool {
    0 <= i < s.len() && !is_clone_type_name(s[i]) && forall|k: int|
        0 <= k < i ==> is_clone_type_name(#[trigger] s[k])
}

/// Some name of `s` is not a clone type.
pub open spec fn has_bad_type(s: Seq<Seq<char>>) -> bool {
    exists|i: int| 0 <= i < s.len() && !is_clone_type_name(#[trigger] s[i])
}

/// The error for a path that does not exist.
pub open spec fn missing_path_message(path: Seq<char>, debug: bool, cwd: Seq<char>) -> Seq<char> {
    "Path does not exist: "@ + path + "\n\n"@ + "Suggestion:"@
        + " Check the path spelling and ensure the file or directory exists.\n"@ + "           "@
        + "Use absolute paths if relative paths are not working.\n"@ + (if debug {
        "\nDebug Info:"@ + "\n  Current directory: "@ + cwd
    } else {
        Seq::empty()
    })
}

/// The error for an unknown `--only-type` value.
pub open spec fn bad_only_type_message(t: Seq<char>) -> Seq<char> {
    "Invalid --only-type value: '"@ + t + "'"@ + "\n\n"@ + "Suggestion:"@
        + " Use one of: type-1, type-2, or type-3\n"@ + "           "@
        + "Example: polydup scan ./src --only-type type-1\n"@ + "           "@
        + "Multiple types: --only-type type-1,type-2\n\n"@ + "Documentation:"@
        + " https://github.com/wiesnerbernard/polydup#clone-types\n"@
}

/// The error for an unknown `--exclude-type` value.
pub open spec fn bad_exclude_type_message(t: Seq<char>) -> Seq<char> {
    "Invalid --exclude-type value: '"@ + t + "'"@ + "\n\n"@ + "Suggestion:"@
        + " Use one of: type-1, type-2, or type-3\n"@ + "           "@
        + "Example: polydup scan ./src --exclude-type type-3\n"@
}

/// The error for an unknown `--group-by` value.
pub open spec fn bad_group_message(g: Seq<char>) -> Seq<char> {
    "Invalid --group-by value: '"@ + g + "'"@ + "\n\n"@ + "Suggestion:"@
        + " Use one of: file, similarity, type, or size\n"@ + "           "@
        + "Example: polydup scan ./src --group-by file\n\n"@ + "Options explained:"@
        + "\n  • file       - Group by source file (refactoring prioritization)\n"@
        + "  • similarity - Sort by match quality (highest first)\n"@
        + "  • type       - Group by Type-1/Type-2/Type-3\n"@
        + "  • size       - Sort by duplicate length (largest first)\n"@
}

/// The error for a similarity outside `[0, 1]`.
pub open spec fn bad_similarity_message(s: int) -> Seq<char> {
    "Similarity threshold must be between 0.0 and 1.0, got: "@ + fraction_text(s) + "\n\n"@
        + "Suggestion:"@ + " Use a decimal value like 0.85 for 85% similarity\n"@ + "           "@
        + "Example: polydup scan ./src --similarity 0.9\n"@
}

/// The error for a minimum block size of zero.
pub open spec fn zero_block_message() -> Seq<char> {
    "Minimum block size must be greater than 0"@ + "\n\n"@ + "Suggestion:"@
        + " Use at least 10 tokens for meaningful results\n"@ + "           "@
        + "Default is 50 tokens. Try values between 25-100.\n"@ + "           "@
        + "Example: polydup scan ./src --min-tokens 50\n"@
}

/// The outcome of checking the options, given whether each path exists
/// and the current directory: the first failing check gives its error.
pub open spec fn scan_validation(c: ScanConfig, exists: Seq<bool>, cwd: Seq<char>) -> Result<(), Seq<char>> {
    let only = c.only_type.deep_view();
    let excl = c.exclude_type.deep_view();
    if exists.contains(false) {
        let i = choose|i: int| is_first_false(exists, i);
        Err(missing_path_message(c.paths@[i]@, c.debug, cwd))
    } else if has_bad_type(only) {
        let i = choose|i: int| is_first_bad_type(only, i);
        Err(bad_only_type_message(only[i]))
    } else if has_bad_type(excl) {
        let i = choose|i: int| is_first_bad_type(excl, i);
        Err(bad_exclude_type_message(excl[i]))
    } else if c.group_by is Some && !is_group_criterion(c.group_by->0@) {
        Err(bad_group_message(c.group_by->0@))
    } else if !(0 <= c.similarity <= MILLION) {
        Err(bad_similarity_message(c.similarity as int))
    } else if c.min_block_size == 0 {
        Err(zero_block_message())
    } else {
        Ok(())
    }
}

/// Whether `t` names a clone type.
fn is_clone_type_text(t: &str) -> (r: bool)
    ensures
        r == is_clone_type_name(t@),
{
    str_eq(t, "type-1") || str_eq(t, "type-2") || str_eq(t, "type-3")
}

/// The position of the first name of `s` that is not a clone type.
fn first_bad_type(s: &Vec<String>) -> (r: Option<usize>)
    ensures
        match r {
            Some(i) => is_first_bad_type(s.deep_view(), i as int) && has_bad_type(s.deep_view()),
            None => !has_bad_type(s.deep_view()),
        },
{
    let mut i: usize = 0;
    while i < s.len()
        invariant
            i <= s.len(),
            forall|k: int| 0 <= k < i ==> is_clone_type_name(#[trigger] s.deep_view()[k]),
        decreases s.len() - i,
    {
        if !is_clone_type_text(s[i].as_str()) {
            assert(!is_clone_type_name(s.deep_view()[i as int]));
            return Some(i);
        }
        i = i + 1;
    }
    None
}

/// Uniqueness of the first failing position.
proof fn lemma_first_false_unique(s: Seq<bool>, i: int, j: int)
    requires
        is_first_false(s, i),
        is_first_false(s, j),
    ensures
        i == j,
{
}

proof fn lemma_first_bad_unique(s: Seq<Seq<char>>, i: int, j: int)
    requires
        is_first_bad_type(s, i),
        is_first_bad_type(s, j),
    ensures
        i == j,
{
    if i < j {
        assert(is_clone_type_name(s[i]));
    }
    if j < i {
        assert(is_clone_type_name(s[j]));
    }
}

impl ScanConfig {
    /// Returns true if we should print informational messages (not quiet mode)
    pub fn should_print(&self) -> (r: bool)
        ensures
            r == !self.quiet,
    {
        !self.quiet
    }

    /// Validate the scan configuration. `path_exists` tells, for each path,
    /// whether it exists; `current_dir` is shown in debug mode.
    pub fn validate(&self, path_exists: &Vec<bool>, current_dir: &str) -> (r: Result<(), String>)
        requires
            path_exists.len() == self.paths.len(),
        ensures
            match scan_validation(*self, path_exists@, current_dir@) {
                Ok(_) => r is Ok,
                Err(m) => r is Err && r->Err_0@ == m,
            },
    {
        // Validate paths exist
        let mut i: usize = 0;
        while i < path_exists.len()
            invariant
                i <= path_exists.len(),
                path_exists.len() == self.paths.len(),
                forall|k: int| 0 <= k < i ==> path_exists@[k],
            decreases path_exists.len() - i,
        {
            if !path_exists[i] {
                proof {
                    assert(is_first_false(path_exists@, i as int));
                    assert(path_exists@.contains(false)) by {
                        assert(path_exists@[i as int] == false);
                    }
                    let j = choose|j: int| is_first_false(path_exists@, j);
                    lemma_first_false_unique(path_exists@, i as int, j);
                }
                let mut m = owned("Path does not exist: ");
                append_str(&mut m, self.paths[i].as_str());
                append_str(&mut m, "\n\n");
                append_str(&mut m, "Suggestion:");
                append_str(&mut m, " Check the path spelling and ensure the file or directory exists.\n");
                append_str(&mut m, "           ");
                append_str(&mut m, "Use absolute paths if relative paths are not working.\n");
                let mut tail = String::new();
                if self.debug {
                    tail = owned("\nDebug Info:");
                    append_str(&mut tail, "\n  Current directory: ");
                    append_str(&mut tail, current_dir);
                }
                append_str(&mut m, tail.as_str());
                return Err(m);
            }
            i = i + 1;
        }
        assert(!path_exists@.contains(false));
        // Validate filter flags
        match first_bad_type(&self.only_type) {
            Some(k) => {
                proof {
                    let j = choose|j: int| is_first_bad_type(self.only_type.deep_view(), j);
                    lemma_first_bad_unique(self.only_type.deep_view(), k as int, j);
                }
                let mut m = owned("Invalid --only-type value: '");
                append_str(&mut m, self.only_type[k].as_str());
                append_str(&mut m, "'");
                append_str(&mut m, "\n\n");
                append_str(&mut m, "Suggestion:");
                append_str(&mut m, " Use one of: type-1, type-2, or type-3\n");
                append_str(&mut m, "           ");
                append_str(&mut m, "Example: polydup scan ./src --only-type type-1\n");
                append_str(&mut m, "           ");
                append_str(&mut m, "Multiple types: --only-type type-1,type-2\n\n");
                append_str(&mut m, "Documentation:");
                append_str(&mut m, " https://github.com/wiesnerbernard/polydup#clone-types\n");
                return Err(m);
            },
            None => {},
        }
        match first_bad_type(&self.exclude_type) {
            Some(k) => {
                proof {
                    let j = choose|j: int| is_first_bad_type(self.exclude_type.deep_view(), j);
                    lemma_first_bad_unique(self.exclude_type.deep_view(), k as int, j);
                }
                let mut m = owned("Invalid --exclude-type value: '");
                append_str(&mut m, self.exclude_type[k].as_str());
                append_str(&mut m, "'");
                append_str(&mut m, "\n\n");
                append_str(&mut m, "Suggestion:");
                append_str(&mut m, " Use one of: type-1, type-2, or type-3\n");
                append_str(&mut m, "           ");
                append_str(&mut m, "Example: polydup scan ./src --exclude-type type-3\n");
                return Err(m);
            },
            None => {},
        }
        // Validate group-by flag
        match &self.group_by {
            Some(g) => {
                if !crate::filters::is_valid_group_criterion(g.as_str()) {
                    let mut m = owned("Invalid --group-by value: '");
                    append_str(&mut m, g.as_str());
                    append_str(&mut m, "'");
                    append_str(&mut m, "\n\n");
                    append_str(&mut m, "Suggestion:");
                    append_str(&mut m, " Use one of: file, similarity, type, or size\n");
                    append_str(&mut m, "           ");
                    append_str(&mut m, "Example: polydup scan ./src --group-by file\n\n");
                    append_str(&mut m, "Options explained:");
                    append_str(&mut m, "\n  • file       - Group by source file (refactoring prioritization)\n");
                    append_str(&mut m, "  • similarity - Sort by match quality (highest first)\n");
                    append_str(&mut m, "  • type       - Group by Type-1/Type-2/Type-3\n");
                    append_str(&mut m, "  • size       - Sort by duplicate length (largest first)\n");
                    return Err(m);
                }
            },
            None => {},
        }
        // Validate numeric ranges
        if !(0 <= self.similarity && self.similarity <= MILLION) {
            let mut m = owned("Similarity threshold must be between 0.0 and 1.0, got: ");
            push_fraction(&mut m, self.similarity);
            append_str(&mut m, "\n\n");
            append_str(&mut m, "Suggestion:");
            append_str(&mut m, " Use a decimal value like 0.85 for 85% similarity\n");
            append_str(&mut m, "           ");
            append_str(&mut m, "Example: polydup scan ./src --similarity 0.9\n");
            return Err(m);
        }
        if self.min_block_size == 0 {
            let mut m = owned("Minimum block size must be greater than 0");
            append_str(&mut m, "\n\n");
            append_str(&mut m, "Suggestion:");
            append_str(&mut m, " Use at least 10 tokens for meaningful results\n");
            append_str(&mut m, "           ");
            append_str(&mut m, "Default is 50 tokens. Try values between 25-100.\n");
            append_str(&mut m, "           ");
            append_str(&mut m, "Example: polydup scan ./src --min-tokens 50\n");
            return Err(m);
        }
        Ok(())
    }
}

// ---------------------------------------------------------------------------
// Merging with the configuration file
// ---------------------------------------------------------------------------

/// `exclude` with the patterns of `extra` appended, in order, each unless
/// already present.
pub open spec fn merge_patterns(exclude: Seq<Seq<char>>, extra: Seq<Seq<char>>) -> Seq<Seq<char>>
    decreases extra.len(),
{
    if extra.len() == 0 {
        exclude
    } else {
        let m = merge_patterns(exclude, extra.drop_last());
        if m.contains(extra.last()) {
            m
        } else {
            m.push(extra.last())
        }
    }
}

/// The minimum block size after merging: the file's value when the command
/// line left the default.
pub open spec fn merged_min_block_size(cli: usize, file: usize) -> usize {
    if cli == MIN_BLOCK_SIZE {
        file
    } else {
        cli
    }
}

/// The similarity after merging: the file's value when the command line
/// left the default (within one thousandth).
pub open spec fn merged_similarity(cli: i64, file: i64) -> i64 {
    if SIMILARITY - 1000 < cli < SIMILARITY + 1000 {
        file
    } else {
        cli
    }
}

/// Every option but the minimum block size, the similarity and the exclude
/// patterns is the same.
pub open spec fn same_other_options(a: ScanConfig, b: ScanConfig) -> bool {
    &&& a.paths == b.paths
    &&& a.format == b.format
    &&& a.verbose == b.verbose
    &&& a.quiet == b.quiet
    &&& a.enable_type3 == b.enable_type3
    &&& a.type3_tolerance == b.type3_tolerance
    &&& a.output == b.output
    &&& a.no_color == b.no_color
    &&& a.only_type == b.only_type
    &&& a.exclude_type == b.exclude_type
    &&& a.group_by == b.group_by
    &&& a.debug == b.debug
    &&& a.save_baseline == b.save_baseline
    &&& a.compare_to == b.compare_to
    &&& a.git_diff == b.git_diff
    &&& a.enable_directives == b.enable_directives
    &&& a.include_tests == b.include_tests
    &&& a.progress == b.progress
    &&& a.no_progress == b.no_progress
    &&& a.fail_on_duplicates == b.fail_on_duplicates
    &&& a.fail_on_new == b.fail_on_new
    &&& a.show_code == b.show_code
    &&& a.preview_lines == b.preview_lines
    &&& a.suggest_refactoring == b.suggest_refactoring
    &&& a.show_ids == b.show_ids
    &&& a.dry_run == b.dry_run
    &&& a.id_length == b.id_length
    &&& a.full_ids == b.full_ids
}

/// Appends the patterns not yet present, in order.
fn merge_into(exclude: &mut Vec<String>, patterns: &Vec<String>)
    ensures
        final(exclude).deep_view() == merge_patterns(old(exclude).deep_view(), patterns.deep_view()),
{
    let ghost start = exclude.deep_view();
    let mut i: usize = 0;
    while i < patterns.len()
        invariant
            i <= patterns.len(),
            start == old(exclude).deep_view(),
            exclude.deep_view() == merge_patterns(start, patterns.deep_view().take(i as int)),
        decreases patterns.len() - i,
    {
        let ghost before = exclude.deep_view();
        assert(patterns.deep_view().take(i + 1).drop_last() =~= patterns.deep_view().take(i as int));
        assert(patterns.deep_view().take(i + 1).last() == patterns[i as int]@);
        if !contains_text(exclude, patterns[i].as_str()) {
            exclude.push(patterns[i].clone());
            assert(exclude.deep_view() =~= before.push(patterns[i as int]@));
        }
        i = i + 1;
    }
    assert(patterns.deep_view().take(patterns.len() as int) =~= patterns.deep_view());
}

impl ScanConfig {
    /// Merge configuration file settings with CLI arguments
    ///
    /// CLI arguments take precedence over config file settings: the file's
    /// block size and similarity apply where the command line kept the
    /// defaults, and its exclude patterns are added.
    pub fn merge_with_config_file(&mut self, config: Option<&Config>)
        ensures
            same_other_options(*final(self), *old(self)),
            match config {
                Some(cfg) => {
                    &&& final(self).min_block_size == merged_min_block_size(
                        old(self).min_block_size,
                        cfg.scan.min_block_size,
                    )
                    &&& final(self).similarity == merged_similarity(
                        old(self).similarity,
                        cfg.scan.similarity_threshold,
                    )
                    &&& final(self).exclude.deep_view() == merge_patterns(
                        old(self).exclude.deep_view(),
                        cfg.scan.exclude.patterns.deep_view(),
                    )
                },
                None => *final(self) == *old(self),
            },
    {
        if let Some(cfg) = config {
            if crate::defaults::is_default_min_block_size(self.min_block_size) {
                self.min_block_size = cfg.scan.min_block_size;
            }
            if crate::defaults::is_default_similarity(self.similarity) {
                self.similarity = cfg.scan.similarity_threshold;
            }
            merge_into(&mut self.exclude, &cfg.scan.exclude.patterns);
        }
    }
}

/// After merging, every pattern of the file is present, and so is every
/// pattern that was there before.
pub proof fn lemma_merge_patterns_contains(exclude: Seq<Seq<char>>, extra: Seq<Seq<char>>)
    ensures
        forall|i: int| 0 <= i < extra.len() ==> merge_patterns(exclude, extra).contains(#[trigger] extra[i]),
        forall|i: int| 0 <= i < exclude.len() ==> merge_patterns(exclude, extra).contains(#[trigger] exclude[i]),
    decreases extra.len(),
{
    if extra.len() > 0 {
        let init = extra.drop_last();
        lemma_merge_patterns_contains(exclude, init);
        let m = merge_patterns(exclude, init);
        let r = merge_patterns(exclude, extra);
        assert forall|i: int| 0 <= i < extra.len() implies r.contains(#[trigger] extra[i]) by {
            if i < init.len() {
                assert(init[i] == extra[i]);
                assert(m.contains(init[i]));
                if !m.contains(extra.last()) {
                    let k = choose|k: int| 0 <= k < m.len() && m[k] == init[i];
                    assert(r[k] == m[k]);
                }
            } else if !m.contains(extra.last()) {
                assert(r[m.len() as int] == extra.last());
            }
        }
        assert forall|i: int| 0 <= i < exclude.len() implies r.contains(#[trigger] exclude[i]) by {
            assert(m.contains(exclude[i]));
            if !m.contains(extra.last()) {
                let k = choose|k: int| 0 <= k < m.len() && m[k] == exclude[i];
                assert(r[k] == m[k]);
            }
        }
    }
}

/// Merging patterns that are all present already changes nothing.
proof fn lemma_merge_patterns_present(exclude: Seq<Seq<char>>, extra: Seq<Seq<char>>)
    requires
        forall|i: int| 0 <= i < extra.len() ==> exclude.contains(#[trigger] extra[i]),
    ensures
        merge_patterns(exclude, extra) == exclude,
    decreases extra.len(),
{
    if extra.len() > 0 {
        let init = extra.drop_last();
        assert forall|i: int| 0 <= i < init.len() implies exclude.contains(#[trigger] init[i]) by {
            assert(init[i] == extra[i]);
        }
        lemma_merge_patterns_present(exclude, init);
        assert(exclude.contains(extra[extra.len() - 1]));
    }
}

/// Merging the same configuration file twice gives what merging it once
/// gives: the block size, the similarity and the exclude patterns.
pub proof fn lemma_merge_idempotent(
    min_block_size: usize,
    similarity: i64,
    exclude: Seq<Seq<char>>,
    cfg: Config,
)
    ensures
        merged_min_block_size(
            merged_min_block_size(min_block_size, cfg.scan.min_block_size),
            cfg.scan.min_block_size,
        ) == merged_min_block_size(min_block_size, cfg.scan.min_block_size),
        merged_similarity(
            merged_similarity(similarity, cfg.scan.similarity_threshold),
            cfg.scan.similarity_threshold,
        ) == merged_similarity(similarity, cfg.scan.similarity_threshold),
        merge_patterns(
            merge_patterns(exclude, cfg.scan.exclude.patterns.deep_view()),
            cfg.scan.exclude.patterns.deep_view(),
        ) == merge_patterns(exclude, cfg.scan.exclude.patterns.deep_view()),
{
    let extra = cfg.scan.exclude.patterns.deep_view();
    lemma_merge_patterns_contains(exclude, extra);
    lemma_merge_patterns_present(merge_patterns(exclude, extra), extra);
}

/// Values given on the command line win: a block size other than the
/// default, or a similarity away from the default, stays as given.
pub proof fn lemma_cli_values_win(min_block_size: usize, similarity: i64, cfg: Config)
    ensures
        min_block_size != MIN_BLOCK_SIZE ==> merged_min_block_size(
            min_block_size,
            cfg.scan.min_block_size,
        ) == min_block_size,
        !(SIMILARITY - 1000 < similarity < SIMILARITY + 1000) ==> merged_similarity(
            similarity,
            cfg.scan.similarity_threshold,
        ) == similarity,
{
}

// ---------------------------------------------------------------------------
// Messages and decisions around a scan
// ---------------------------------------------------------------------------

/// The minimum block size below which Type-3 detection gives many false
/// positives.
pub const TYPE3_RECOMMENDED_MIN_THRESHOLD: usize = 75;

/// The warning about Type-3 detection with a low threshold.
pub open spec fn type3_warning_text(min_block_size: usize) -> Seq<char> {
    "Warning: Type-3 detection with threshold "@ + decimal(min_block_size as nat)
        + " may produce many false positives.\n"@
        + "         Consider using --min-tokens 75 or higher for Type-3 detection.\n"@
        + "         See: https://github.com/wiesnerbernard/polydup/issues/15\n\n"@
}

/// The progress spinner is shown when explicitly asked for (and not
/// disabled), or on a terminal when neither disabled nor quiet nor JSON
/// output.
pub open spec fn shows_progress(c: ScanConfig, stderr_is_tty: bool) -> bool {
    if c.progress && !c.no_progress {
        true
    } else if c.no_progress {
        false
    } else if c.quiet || c.format == OutputFormat::Json {
        false
    } else {
        stderr_is_tty
    }
}

/// The verbose summary printed before a scan.
pub open spec fn scan_summary_text(c: ScanConfig, paths_debug: Seq<char>, config_path: Option<Seq<char>>) -> Seq<char> {
    "PolyDup - Scanning for duplicates\n"@ + "  Paths: "@ + paths_debug + "\n"@ + "  Min block size: "@
        + decimal(c.min_block_size as nat) + " tokens\n"@ + "  Similarity threshold: "@
        + crate::fixed::percent_tenths_text(c.similarity as int) + "%\n"@ + (match config_path {
        Some(p) => "  Config: "@ + p + "\n"@,
        None => Seq::empty(),
    }) + "\n"@
}

/// The name that std's `str::to_lowercase` gives for a text.
pub uninterp spec fn lowercase(s: Seq<char>) -> Seq<char>;

/// Lowercases a text with std's `str::to_lowercase`; the contract only
/// names the result, which depends on the text alone.
#[verifier::external_body]
fn to_lowercase_text(s: &str) -> (r: String)
    ensures
        r@ == lowercase(s@),
{
    s.to_lowercase()
}

/// The advice given for a scan error, from its lowercased text.
pub open spec fn scan_error_advice(lower: Seq<char>) -> Seq<char> {
    if contains_seq(lower, "permission denied"@) || contains_seq(lower, "access denied"@) {
        "Suggestion:"@ + " Check file permissions for the scanned directory\n"@ + "           "@
            + "Try running with appropriate access rights or scan a different directory.\n"@
    } else if contains_seq(lower, "no such file"@) || contains_seq(lower, "not found"@) {
        "Suggestion:"@ + " Verify the path exists and is accessible\n"@ + "           "@
            + "Use absolute paths if relative paths are causing issues.\n"@
    } else if contains_seq(lower, "parse"@) || contains_seq(lower, "syntax"@) {
        "Suggestion:"@ + " Some files may have syntax errors or unsupported syntax\n"@ + "           "@
            + "This is usually safe to ignore as PolyDup skips unparseable files.\n"@ + "           "@
            + "Supported languages: JavaScript, TypeScript, Python, Rust\n\n"@ + "Documentation:"@
            + " https://github.com/wiesnerbernard/polydup#language-support\n"@
    } else {
        "Suggestion:"@ + " Try running with --debug for detailed error information\n"@ + "           "@
            + "Example: polydup scan ./src --debug\n"@
    }
}

/// The detailed scan error: the error, advice chosen by its text, and in
/// debug mode the paths, settings and the error's debug form.
pub open spec fn scan_error_text(
    error: Seq<char>,
    error_debug: Seq<char>,
    paths_debug: Seq<char>,
    c: ScanConfig,
) -> Seq<char> {
    "Scan failed: "@ + error + "\n\n"@ + scan_error_advice(lowercase(error)) + (if c.debug {
        "\nDebug Info:"@ + "\n  Paths: "@ + paths_debug + "\n  Min block size: "@ + decimal(
            c.min_block_size as nat,
        ) + "\n  Similarity: "@ + fraction_text(c.similarity as int) + "\n  Full error: "@
            + error_debug
    } else {
        Seq::empty()
    })
}

/// The CI outcome of a scan with `n` duplicates: exit code 1 with a message
/// (unless quiet) when failing on duplicates or on new duplicates, else 0.
pub open spec fn scan_exit(c: ScanConfig, n: nat) -> (i32, Option<Seq<char>>) {
    if c.fail_on_duplicates && n > 0 {
        (1, if !c.quiet {
            Some("CI Check Failed: "@ + decimal(n) + " duplicate(s) found"@)
        } else {
            None
        })
    } else if c.fail_on_new && n > 0 {
        (1, if !c.quiet {
            Some("CI Check Failed: "@ + decimal(n) + " new duplicate(s) found since baseline"@)
        } else {
            None
        })
    } else {
        (0, None)
    }
}

/// The advice for a scan error.
pub fn scan_error_advice_of(lower: &str) -> (r: String)
    ensures
        r@ == scan_error_advice(lower@),
{
    let mut m = owned("Suggestion:");
    if str_contains(lower, "permission denied") || str_contains(lower, "access denied") {
        append_str(&mut m, " Check file permissions for the scanned directory\n");
        append_str(&mut m, "           ");
        append_str(&mut m, "Try running with appropriate access rights or scan a different directory.\n");
    } else if str_contains(lower, "no such file") || str_contains(lower, "not found") {
        append_str(&mut m, " Verify the path exists and is accessible\n");
        append_str(&mut m, "           ");
        append_str(&mut m, "Use absolute paths if relative paths are causing issues.\n");
    } else if str_contains(lower, "parse") || str_contains(lower, "syntax") {
        append_str(&mut m, " Some files may have syntax errors or unsupported syntax\n");
        append_str(&mut m, "           ");
        append_str(&mut m, "This is usually safe to ignore as PolyDup skips unparseable files.\n");
        append_str(&mut m, "           ");
        append_str(&mut m, "Supported languages: JavaScript, TypeScript, Python, Rust\n\n");
        append_str(&mut m, "Documentation:");
        append_str(&mut m, " https://github.com/wiesnerbernard/polydup#language-support\n");
    } else {
        append_str(&mut m, " Try running with --debug for detailed error information\n");
        append_str(&mut m, "           ");
        append_str(&mut m, "Example: polydup scan ./src --debug\n");
    }
    m
}

/// Build detailed error message for scan failures. `error_debug` and
/// `paths_debug` are the debug forms of the error and of the paths.
pub fn build_scan_error(error: &str, error_debug: &str, paths_debug: &str, config: &ScanConfig) -> (r: String)
    ensures
        r@ == scan_error_text(error@, error_debug@, paths_debug@, *config),
{
    let lower = to_lowercase_text(error);
    let mut m = owned("Scan failed: ");
    append_str(&mut m, error);
    append_str(&mut m, "\n\n");
    let advice = scan_error_advice_of(lower.as_str());
    append_str(&mut m, advice.as_str());
    let mut tail = String::new();
    if config.debug {
        tail = owned("\nDebug Info:");
        append_str(&mut tail, "\n  Paths: ");
        append_str(&mut tail, paths_debug);
        append_str(&mut tail, "\n  Min block size: ");
        push_decimal(&mut tail, config.min_block_size as u64);
        append_str(&mut tail, "\n  Similarity: ");
        push_fraction(&mut tail, config.similarity);
        append_str(&mut tail, "\n  Full error: ");
        append_str(&mut tail, error_debug);
    }
    append_str(&mut m, tail.as_str());
    m
}

impl ScanConfig {
    /// The warning printed before a text-format scan with Type-3 detection
    /// and a threshold below the recommended one.
    pub fn type3_warning(&self) -> (r: Option<String>)
        ensures
            match r {
                Some(t) => self.enable_type3 && self.min_block_size < 75 && self.format
                    == OutputFormat::Text && t@ == type3_warning_text(self.min_block_size),
                None => !(self.enable_type3 && self.min_block_size < 75 && self.format
                    == OutputFormat::Text),
            },
    {
        if self.enable_type3 && self.min_block_size < TYPE3_RECOMMENDED_MIN_THRESHOLD
            && self.format == OutputFormat::Text {
            let mut t = owned("Warning: Type-3 detection with threshold ");
            push_decimal(&mut t, self.min_block_size as u64);
            append_str(&mut t, " may produce many false positives.\n");
            append_str(&mut t, "         Consider using --min-tokens 75 or higher for Type-3 detection.\n");
            append_str(&mut t, "         See: https://github.com/wiesnerbernard/polydup/issues/15\n\n");
            Some(t)
        } else {
            None
        }
    }

    /// Print verbose configuration summary: the text, when verbose and not
    /// quiet.
    pub fn print_summary(&self, paths_debug: &str, config_path: Option<&str>) -> (r: Option<String>)
        ensures
            match r {
                Some(t) => self.verbose && !self.quiet && t@ == scan_summary_text(
                    *self,
                    paths_debug@,
                    match config_path {
                        Some(p) => Some(p@),
                        None => None,
                    },
                ),
                None => !(self.verbose && !self.quiet),
            },
    {
        if self.verbose && self.should_print() {
            let mut t = owned("PolyDup - Scanning for duplicates\n");
            append_str(&mut t, "  Paths: ");
            append_str(&mut t, paths_debug);
            append_str(&mut t, "\n");
            append_str(&mut t, "  Min block size: ");
            push_decimal(&mut t, self.min_block_size as u64);
            append_str(&mut t, " tokens\n");
            append_str(&mut t, "  Similarity threshold: ");
            crate::fixed::push_percent_tenths(&mut t, self.similarity);
            append_str(&mut t, "%\n");
            let mut c = String::new();
            match config_path {
                Some(p) => {
                    c = owned("  Config: ");
                    append_str(&mut c, p);
                    append_str(&mut c, "\n");
                },
                None => {},
            }
            append_str(&mut t, c.as_str());
            append_str(&mut t, "\n");
            Some(t)
        } else {
            None
        }
    }

    /// Determine if progress indicator should be shown
    pub fn should_show_progress(&self, stderr_is_tty: bool) -> (r: bool)
        ensures
            r == shows_progress(*self, stderr_is_tty),
    {
        if self.progress && !self.no_progress {
            return true;
        }
        if self.no_progress {
            return false;
        }
        if self.quiet || self.format == OutputFormat::Json {
            return false;
        }
        stderr_is_tty
    }

    /// The first message of the progress spinner.
    pub fn progress_message(&self) -> (r: &'static str)
        ensures
            r@ == (if self.enable_type3 {
                "Scanning... (Type-3 detection may take longer)"@
            } else {
                "Scanning for duplicates..."@
            }),
    {
        if self.enable_type3 {
            "Scanning... (Type-3 detection may take longer)"
        } else {
            "Scanning for duplicates..."
        }
    }

    /// The ID length used in text output: 64 with `--full-ids`.
    pub fn effective_id_length(&self) -> (r: usize)
        ensures
            r == (if self.full_ids {
                64
            } else {
                self.id_length
            }),
    {
        if self.full_ids {
            64
        } else {
            self.id_length
        }
    }

    /// The exit code and message that CI mode gives after a scan that left
    /// `duplicates` duplicates.
    pub fn exit_status(&self, duplicates: usize) -> (r: (i32, Option<String>))
        ensures
            r.0 == scan_exit(*self, duplicates as nat).0,
            match r.1 {
                Some(t) => scan_exit(*self, duplicates as nat).1 == Some(t@),
                None => scan_exit(*self, duplicates as nat).1 is None,
            },
    {
        if self.fail_on_duplicates && duplicates > 0 {
            if self.should_print() {
                let mut t = owned("CI Check Failed: ");
                push_decimal(&mut t, duplicates as u64);
                append_str(&mut t, " duplicate(s) found");
                (1, Some(t))
            } else {
                (1, None)
            }
        } else if self.fail_on_new && duplicates > 0 {
            if self.should_print() {
                let mut t = owned("CI Check Failed: ");
                push_decimal(&mut t, duplicates as u64);
                append_str(&mut t, " new duplicate(s) found since baseline");
                (1, Some(t))
            } else {
                (1, None)
            }
        } else {
            (0, None)
        }
    }
}

/// The CI outcome never fails a scan without duplicates, and always fails
/// one with duplicates when failing on duplicates is asked for.
pub proof fn lemma_exit_status(c: ScanConfig, n: nat)
    ensures
        n == 0 ==> scan_exit(c, n).0 == 0,
        c.fail_on_duplicates && n > 0 ==> scan_exit(c, n).0 == 1,
        !c.fail_on_duplicates && !c.fail_on_new ==> scan_exit(c, n).0 == 0,
{
}

// ---------------------------------------------------------------------------
// Dry run
// ---------------------------------------------------------------------------

/// The texts of `s` joined by `sep`.
pub open spec fn join_texts(s: Seq<Seq<char>>, sep: Seq<char>) -> Seq<char>
    decreases s.len(),
{
    if s.len() == 0 {
        Seq::empty()
    } else if s.len() == 1 {
        s[0]
    } else {
        join_texts(s.drop_last(), sep) + sep + s.last()
    }
}

/// Joins texts with a separator.
pub fn join_strings(s: &Vec<String>, sep: &str) -> (r: String)
    ensures
        r@ == join_texts(s.deep_view(), sep@),
{
    let mut r = String::new();
    let mut i: usize = 0;
    while i < s.len()
        invariant
            i <= s.len(),
            r@ == join_texts(s.deep_view().take(i as int), sep@),
        decreases s.len() - i,
    {
        let ghost before = r@;
        assert(s.deep_view().take(i + 1).drop_last() =~= s.deep_view().take(i as int));
        if i > 0 {
            append_str(&mut r, sep);
        }
        append_str(&mut r, s[i].as_str());
        proof {
            if i == 0 {
                assert(s.deep_view().take(1) =~= seq![s.deep_view()[0]]);
                assert(r@ =~= s.deep_view()[0]);
            }
        }
        i = i + 1;
    }
    assert(s.deep_view().take(s.len() as int) =~= s.deep_view());
    r
}

/// The lines listing exclude patterns in the dry run.
pub open spec fn pattern_lines(p: Seq<Seq<char>>) -> Seq<char>
    decreases p.len(),
{
    if p.len() == 0 {
        Seq::empty()
    } else {
        pattern_lines(p.drop_last()) + "    - "@ + p.last() + "\n"@
    }
}

/// The configuration part of the dry run output.
pub open spec fn dry_run_header_text(c: ScanConfig) -> Seq<char> {
    "\n"@ + "Dry run - no duplicate detection performed\n"@ + "\n"@ + "Configuration:\n"@
        + "  Paths: "@ + join_texts(c.paths.deep_view(), ", "@) + "\n"@ + "  Min block size: "@
        + decimal(c.min_block_size as nat) + " tokens\n"@ + "  Similarity: "@ + crate::fixed::percent_text(
        c.similarity as int,
    ) + "%\n"@ + "  Type-3: "@ + (if c.enable_type3 {
        "enabled (tolerance: "@ + crate::fixed::percent_text(c.type3_tolerance as int) + "%)"@
    } else {
        "disabled"@
    }) + "\n"@ + "  Exclude patterns: "@ + decimal(c.exclude@.len()) + "\n"@ + pattern_lines(
        c.exclude.deep_view(),
    ) + "\n"@
}

/// The position of the last `c` in `s`, or -1.
pub open spec fn last_index_of(s: Seq<char>, c: char) -> int
    decreases s.len(),
{
    if s.len() == 0 {
        -1
    } else if s.last() == c {
        s.len() - 1
    } else {
        last_index_of(s.drop_last(), c)
    }
}

/// The last component of a `/`-separated path.
pub open spec fn file_name_part(p: Seq<char>) -> Seq<char> {
    p.skip(last_index_of(p, '/') + 1)
}

/// The extension of a path: what follows the last `.` of its file name,
/// when the file name has a `.` after its first character.
pub open spec fn extension_of(p: Seq<char>) -> Option<Seq<char>> {
    let n = file_name_part(p);
    let k = last_index_of(n, '.');
    if n == ".."@ || k <= 0 {
        None
    } else {
        Some(n.skip(k + 1))
    }
}

/// The extensions of the paths that have one, in order.
pub open spec fn extensions_of(files: Seq<Seq<char>>) -> Seq<Seq<char>>
    decreases files.len(),
{
    if files.len() == 0 {
        Seq::empty()
    } else {
        let rest = extensions_of(files.drop_last());
        match extension_of(files.last()) {
            Some(e) => rest.push(e),
            None => rest,
        }
    }
}

/// The language shown for a file extension.
pub open spec fn language_of(ext: Seq<char>) -> Seq<char> {
    if ext == "rs"@ {
        "Rust"@
    } else if ext == "py"@ || ext == "pyi"@ {
        "Python"@
    } else if ext == "js"@ || ext == "mjs"@ || ext == "cjs"@ {
        "JavaScript"@
    } else if ext == "ts"@ || ext == "mts"@ || ext == "cts"@ {
        "TypeScript"@
    } else if ext == "jsx"@ {
        "JSX"@
    } else if ext == "tsx"@ {
        "TSX"@
    } else if ext == "vue"@ {
        "Vue"@
    } else if ext == "svelte"@ {
        "Svelte"@
    } else {
        ext
    }
}

/// The per-language lines of the dry run.
pub open spec fn language_lines(t: Seq<crate::dashboard::Tally>) -> Seq<char>
    decreases t.len(),
{
    if t.len() == 0 {
        Seq::empty()
    } else {
        language_lines(t.drop_last()) + "    ."@ + t.last().0 + ": "@ + decimal(t.last().1)
            + " files ("@ + language_of(t.last().0) + ")\n"@
    }
}

/// The file summary part of the dry run output: the number of files and,
/// per extension, the number of files, most first (ties in order of first
/// appearance).
pub open spec fn dry_run_summary_text(files: Seq<Seq<char>>) -> Seq<char> {
    let t = crate::order::insertion_sorted(
        crate::dashboard::tallies_of(extensions_of(files)),
        crate::dashboard::tally_order(),
    );
    "File summary:\n"@ + "  Total files to scan: "@ + decimal(files.len()) + "\n"@ + (if t.len() > 0 {
        "  By language:\n"@ + language_lines(t)
    } else {
        Seq::empty()
    }) + "\n"@ + "Ready to scan. Remove --dry-run to perform duplicate detection.\n"@
}

/// The position of the last `c` in the text.
fn last_index_of_char(v: &Vec<char>, c: char) -> (r: Option<usize>)
    ensures
        match r {
            Some(k) => last_index_of(v@, c) == k && k < v.len(),
            None => last_index_of(v@, c) == -1,
        },
{
    let mut j: usize = v.len();
    assert(v@.take(v.len() as int) =~= v@);
    while j > 0 && v[j - 1] != c
        invariant
            j <= v.len(),
            last_index_of(v@.take(j as int), c) == last_index_of(v@, c),
        decreases j,
    {
        assert(v@.take(j as int).drop_last() =~= v@.take(j - 1));
        j = j - 1;
    }
    if j == 0 {
        assert(v@.take(0) =~= Seq::<char>::empty());
        None
    } else {
        assert(v@.take(j as int).last() == v@[j - 1]);
        Some(j - 1)
    }
}

/// The characters of `v` from position `start` on, as a string.
fn text_from(v: &Vec<char>, start: usize) -> (r: String)
    requires
        start <= v.len(),
    ensures
        r@ == v@.skip(start as int),
{
    let mut r = String::new();
    let mut i: usize = start;
    while i < v.len()
        invariant
            start <= i <= v.len(),
            r@ == v@.subrange(start as int, i as int),
        decreases v.len() - i,
    {
        crate::text::push_char(&mut r, v[i]);
        assert(v@.subrange(start as int, i + 1) =~= v@.subrange(start as int, i as int).push(v@[i as int]));
        i = i + 1;
    }
    assert(v@.subrange(start as int, v.len() as int) =~= v@.skip(start as int));
    r
}

/// The extension of a path.
pub fn extension_text(path: &str) -> (r: Option<String>)
    ensures
        match r {
            Some(e) => extension_of(path@) == Some(e@),
            None => extension_of(path@) is None,
        },
{
    let v = chars_of(path);
    let start = match last_index_of_char(&v, '/') {
        Some(k) => k + 1,
        None => 0,
    };
    let name = text_from(&v, start);
    let nv = chars_of(name.as_str());
    match last_index_of_char(&nv, '.') {
        Some(k) => {
            if k == 0 || str_eq(name.as_str(), "..") {
                None
            } else {
                Some(text_from(&nv, k + 1))
            }
        },
        None => None,
    }
}

/// The language shown for a file extension.
pub fn language_name(ext: &str) -> (r: String)
    ensures
        r@ == language_of(ext@),
{
    if str_eq(ext, "rs") {
        owned("Rust")
    } else if str_eq(ext, "py") || str_eq(ext, "pyi") {
        owned("Python")
    } else if str_eq(ext, "js") || str_eq(ext, "mjs") || str_eq(ext, "cjs") {
        owned("JavaScript")
    } else if str_eq(ext, "ts") || str_eq(ext, "mts") || str_eq(ext, "cts") {
        owned("TypeScript")
    } else if str_eq(ext, "jsx") {
        owned("JSX")
    } else if str_eq(ext, "tsx") {
        owned("TSX")
    } else if str_eq(ext, "vue") {
        owned("Vue")
    } else if str_eq(ext, "svelte") {
        owned("Svelte")
    } else {
        owned(ext)
    }
}

impl ScanConfig {
    /// Dry-run mode: the configuration shown before collecting files.
    pub fn dry_run_header(&self) -> (r: String)
        ensures
            r@ == dry_run_header_text(*self),
    {
        let paths = join_strings(&self.paths, ", ");
        let mut t = owned("\n");
        append_str(&mut t, "Dry run - no duplicate detection performed\n");
        append_str(&mut t, "\n");
        append_str(&mut t, "Configuration:\n");
        append_str(&mut t, "  Paths: ");
        append_str(&mut t, paths.as_str());
        append_str(&mut t, "\n");
        append_str(&mut t, "  Min block size: ");
        push_decimal(&mut t, self.min_block_size as u64);
        append_str(&mut t, " tokens\n");
        append_str(&mut t, "  Similarity: ");
        crate::fixed::push_percent(&mut t, self.similarity);
        append_str(&mut t, "%\n");
        append_str(&mut t, "  Type-3: ");
        let type3 = if self.enable_type3 {
            let mut e = owned("enabled (tolerance: ");
            crate::fixed::push_percent(&mut e, self.type3_tolerance);
            append_str(&mut e, "%)");
            e
        } else {
            owned("disabled")
        };
        append_str(&mut t, type3.as_str());
        append_str(&mut t, "\n");
        append_str(&mut t, "  Exclude patterns: ");
        push_decimal(&mut t, self.exclude.len() as u64);
        append_str(&mut t, "\n");
        let mut lines = String::new();
        let mut i: usize = 0;
        while i < self.exclude.len()
            invariant
                i <= self.exclude.len(),
                lines@ == pattern_lines(self.exclude.deep_view().take(i as int)),
            decreases self.exclude.len() - i,
        {
            assert(self.exclude.deep_view().take(i + 1).drop_last() =~= self.exclude.deep_view().take(i as int));
            let mut line = owned("    - ");
            append_str(&mut line, self.exclude[i].as_str());
            append_str(&mut line, "\n");
            append_str(&mut lines, line.as_str());
            assert(lines@ =~= pattern_lines(self.exclude.deep_view().take(i + 1)));
            i = i + 1;
        }
        assert(self.exclude.deep_view().take(self.exclude.len() as int) =~= self.exclude.deep_view());
        append_str(&mut t, lines.as_str());
        append_str(&mut t, "\n");
        t
    }
}

/// Dry-run mode: the summary of the files that a scan would read, with the
/// number of files per extension.
pub fn dry_run_summary(files: &Vec<String>) -> (r: String)
    ensures
        r@ == dry_run_summary_text(files.deep_view()),
{
    let ghost fv = files.deep_view();
    let mut exts: Vec<String> = Vec::new();
    let mut i: usize = 0;
    while i < files.len()
        invariant
            i <= files.len(),
            fv == files.deep_view(),
            exts.deep_view() == extensions_of(fv.take(i as int)),
        decreases files.len() - i,
    {
        assert(fv.take(i + 1).drop_last() =~= fv.take(i as int));
        assert(fv.take(i + 1).last() == files[i as int]@);
        match extension_text(files[i].as_str()) {
            Some(e) => {
                let ghost before = exts.deep_view();
                exts.push(e);
                assert(exts.deep_view() =~= before.push(e@));
            },
            None => {},
        }
        i = i + 1;
    }
    assert(fv.take(files.len() as int) =~= fv);
    let counts = crate::dashboard::tally_texts(&exts);
    let sorted = crate::dashboard::sort_tallies(&counts);
    let ghost t = crate::dashboard::tally_views(sorted@);
    let mut t_text = owned("File summary:\n");
    append_str(&mut t_text, "  Total files to scan: ");
    push_decimal(&mut t_text, files.len() as u64);
    append_str(&mut t_text, "\n");
    let mut by_lang = String::new();
    if sorted.len() > 0 {
        by_lang = owned("  By language:\n");
        let ghost head = by_lang@;
        let mut k: usize = 0;
        while k < sorted.len()
            invariant
                k <= sorted.len(),
                t == crate::dashboard::tally_views(sorted@),
                by_lang@ == head + language_lines(t.take(k as int)),
            decreases sorted.len() - k,
        {
            assert(t.take(k + 1).drop_last() =~= t.take(k as int));
            assert(t.take(k + 1).last() == (sorted@[k as int].0@, sorted@[k as int].1 as nat));
            let mut line = owned("    .");
            append_str(&mut line, sorted[k].0.as_str());
            append_str(&mut line, ": ");
            push_decimal(&mut line, sorted[k].1 as u64);
            append_str(&mut line, " files (");
            let lang = language_name(sorted[k].0.as_str());
            append_str(&mut line, lang.as_str());
            append_str(&mut line, ")\n");
            let ghost before = by_lang@;
            append_str(&mut by_lang, line.as_str());
            assert(by_lang@ =~= head + language_lines(t.take(k + 1)));
            k = k + 1;
        }
        assert(t.take(sorted.len() as int) =~= t);
    }
    append_str(&mut t_text, by_lang.as_str());
    append_str(&mut t_text, "\n");
    append_str(&mut t_text, "Ready to scan. Remove --dry-run to perform duplicate detection.\n");
    t_text
}

// ---------------------------------------------------------------------------
// Git-diff mode and baselines
// ---------------------------------------------------------------------------

/// Notes shown on the standard error stream are shown unless quiet, and
/// only in verbose mode or for text output.
pub open spec fn shows_notes(c: ScanConfig) -> bool {
    !c.quiet && (c.verbose || c.format == OutputFormat::Text)
}

impl ScanConfig {
    /// The notice that git-diff mode is on.
    pub fn git_diff_notice(&self, range: &str) -> (r: Option<String>)
        ensures
            match r {
                Some(t) => shows_notes(*self) && t@ == "Git-Diff Mode: Only scanning files changed in "@ + range@,
                None => !shows_notes(*self),
            },
    {
        if self.should_print() && (self.verbose || self.format == OutputFormat::Text) {
            let mut t = owned("Git-Diff Mode: Only scanning files changed in ");
            append_str(&mut t, range);
            Some(t)
        } else {
            None
        }
    }

    /// The notice when no file changed: shown unless quiet or JSON output
    /// (JSON output prints an empty report instead).
    pub fn no_changes_notice(&self) -> (r: Option<String>)
        ensures
            match r {
                Some(t) => !self.quiet && self.format != OutputFormat::Json && t@
                    == "No files changed in the specified range\nNo duplicates found!\n"@,
                None => self.quiet || self.format == OutputFormat::Json,
            },
    {
        if self.should_print() && self.format != OutputFormat::Json {
            Some(owned("No files changed in the specified range\nNo duplicates found!\n"))
        } else {
            None
        }
    }

    /// What a git-diff scan does when no file changed, before it ends with
    /// success: JSON output (unless quiet) prints an empty report, other
    /// output prints the no-changes notice (unless quiet).
    pub fn no_changes_action(&self) -> (r: NoChangesAction)
        ensures
            match r {
                NoChangesAction::EmptyReport(rep) => !self.quiet && self.format == OutputFormat::Json
                    && is_empty_report(rep),
                NoChangesAction::Notice(t) => !self.quiet && self.format != OutputFormat::Json && t@
                    == "No files changed in the specified range\nNo duplicates found!\n"@,
                NoChangesAction::Silent => self.quiet,
            },
    {
        if self.format == OutputFormat::Json && self.should_print() {
            NoChangesAction::EmptyReport(Report {
                files_scanned: 0,
                functions_analyzed: 0,
                duplicates: Vec::new(),
                skipped_files: Vec::new(),
                stats: ScanStats {
                    total_lines: 0,
                    total_tokens: 0,
                    unique_hashes: 0,
                    duration_ms: 0,
                    suppressed_by_ignore_file: 0,
                    suppressed_by_directive: 0,
                },
            })
        } else {
            match self.no_changes_notice() {
                Some(t) => NoChangesAction::Notice(t),
                None => NoChangesAction::Silent,
            }
        }
    }

    /// The notice listing the changed files: every file in verbose mode,
    /// their number for text output.
    pub fn changed_files_notice(&self, changed: &Vec<String>) -> (r: Option<String>)
        ensures
            match r {
                Some(t) => !self.quiet && (if self.verbose {
                    t@ == "  Changed files ("@ + decimal(changed@.len()) + "):\n"@ + changed_lines(changed.deep_view()) + "\n"@
                } else {
                    self.format == OutputFormat::Text && t@ == "  "@ + decimal(changed@.len()) + " file(s) changed, scanning for duplicates...\n\n"@
                }),
                None => self.quiet || (!self.verbose && self.format != OutputFormat::Text),
            },
    {
        if !self.should_print() {
            return None;
        }
        if self.verbose {
            let mut t = owned("  Changed files (");
            push_decimal(&mut t, changed.len() as u64);
            append_str(&mut t, "):\n");
            let mut lines = String::new();
            let mut i: usize = 0;
            while i < changed.len()
                invariant
                    i <= changed.len(),
                    lines@ == changed_lines(changed.deep_view().take(i as int)),
                decreases changed.len() - i,
            {
                assert(changed.deep_view().take(i + 1).drop_last() =~= changed.deep_view().take(i as int));
                let mut line = owned("    - ");
                append_str(&mut line, changed[i].as_str());
                append_str(&mut line, "\n");
                append_str(&mut lines, line.as_str());
                assert(lines@ =~= changed_lines(changed.deep_view().take(i + 1)));
                i = i + 1;
            }
            assert(changed.deep_view().take(changed.len() as int) =~= changed.deep_view());
            append_str(&mut t, lines.as_str());
            append_str(&mut t, "\n");
            Some(t)
        } else if self.format == OutputFormat::Text {
            let mut t = owned("  ");
            push_decimal(&mut t, changed.len() as u64);
            append_str(&mut t, " file(s) changed, scanning for duplicates...\n\n");
            Some(t)
        } else {
            None
        }
    }

    /// The notice after saving a baseline of `count` duplicates.
    pub fn baseline_saved_notice(&self, path: &str, count: usize) -> (r: Option<String>)
        ensures
            match r {
                Some(t) => shows_notes(*self) && t@ == "Baseline saved to: "@ + path@ + "\n  "@
                    + decimal(count as nat) + " duplicates recorded\n"@,
                None => !shows_notes(*self),
            },
    {
        if self.should_print() && (self.verbose || self.format == OutputFormat::Text) {
            let mut t = owned("Baseline saved to: ");
            append_str(&mut t, path);
            append_str(&mut t, "\n  ");
            push_decimal(&mut t, count as u64);
            append_str(&mut t, " duplicates recorded\n");
            Some(t)
        } else {
            None
        }
    }

    /// The notice after comparing `total` duplicates with a baseline, of
    /// which `new_count` are new.
    pub fn baseline_compared_notice(&self, path: &str, total: usize, new_count: usize) -> (r: Option<String>)
        ensures
            match r {
                Some(t) => shows_notes(*self) && t@ == "Comparing against baseline: "@ + path@ + "\n  "@
                    + decimal(total as nat) + " total duplicates, "@ + decimal(new_count as nat)
                    + " new since baseline\n"@,
                None => !shows_notes(*self),
            },
    {
        if self.should_print() && (self.verbose || self.format == OutputFormat::Text) {
            let mut t = owned("Comparing against baseline: ");
            append_str(&mut t, path);
            append_str(&mut t, "\n  ");
            push_decimal(&mut t, total as u64);
            append_str(&mut t, " total duplicates, ");
            push_decimal(&mut t, new_count as u64);
            append_str(&mut t, " new since baseline\n");
            Some(t)
        } else {
            None
        }
    }
}

/// The lines listing changed files in verbose git-diff mode.
pub open spec fn changed_lines(p: Seq<Seq<char>>) -> Seq<char>
    decreases p.len(),
{
    if p.len() == 0 {
        Seq::empty()
    } else {
        changed_lines(p.drop_last()) + "    - "@ + p.last() + "\n"@
    }
}

impl ScanConfig {
    /// The scan run by a bare `polydup <PATHS>...`: the options that only the
    /// `scan` subcommand offers (baselines, git-diff, directives, CI failure
    /// modes, refactoring suggestions) are off; the others are kept.
    pub fn legacy(self) -> (r: ScanConfig)
        ensures
            r == (ScanConfig {
                save_baseline: None,
                compare_to: None,
                git_diff: None,
                enable_directives: false,
                fail_on_duplicates: false,
                fail_on_new: false,
                suggest_refactoring: false,
                ..self
            }),
    {
        ScanConfig {
            save_baseline: None,
            compare_to: None,
            git_diff: None,
            enable_directives: false,
            fail_on_duplicates: false,
            fail_on_new: false,
            suggest_refactoring: false,
            ..self
        }
    }
}

/// What a git-diff scan does when the range changed no file.
pub enum NoChangesAction {
    /// Print this report, which has no file and no duplicate
    EmptyReport(Report),
    /// Print this notice on the standard error stream
    Notice(String),
    /// Print nothing
    Silent,
}

/// A report of a scan that looked at nothing.
pub open spec fn is_empty_report(r: Report) -> bool {
    &&& r.files_scanned == 0
    &&& r.functions_analyzed == 0
    &&& r.duplicates@.len() == 0
    &&& r.skipped_files@.len() == 0
    &&& r.stats.total_lines == 0
    &&& r.stats.total_tokens == 0
    &&& r.stats.unique_hashes == 0
    &&& r.stats.duration_ms == 0
    &&& r.stats.suppressed_by_ignore_file == 0
    &&& r.stats.suppressed_by_directive == 0
}

/// What is known of the hash cache before a git-diff scan.
pub enum CacheState {
    /// No `.polydup-cache.json`
    Missing,
    /// The cache could not be loaded, with the error's text
    Unreadable(String),
    /// The cache loaded, built with this minimum block size
    Built(usize),
}

/// How a git-diff scan runs.
#[derive(PartialEq, Eq, Structural, Clone, Copy, Debug)]
pub enum ScanPlan {
    /// Scan the changed files with the cached hashes
    WithCache,
    /// Scan everything, then keep the duplicates touching changed files
    FullScan,
}

/// The plan of a git-diff scan over `n_changed` changed files, and the
/// notice shown in verbose mode (unless quiet): the cache is used only when
/// it was built with the scan's minimum block size.
pub open spec fn cache_plan(c: ScanConfig, cache: CacheState, n_changed: nat) -> (ScanPlan, Seq<char>) {
    let fallback = "Falling back to git-diff scan without cache...\n"@;
    match cache {
        CacheState::Missing => (
            ScanPlan::FullScan,
            "No cache found (.polydup-cache.json)\nTip: Run 'polydup cache build' to create cache for faster scans\n"@
                + fallback,
        ),
        CacheState::Unreadable(e) => (
            ScanPlan::FullScan,
            "Warning: Failed to load cache: "@ + e@ + "\n"@ + fallback,
        ),
        CacheState::Built(t) => if t == c.min_block_size {
            (
                ScanPlan::WithCache,
                "Using existing cache: .polydup-cache.json\nScanning "@ + decimal(n_changed)
                    + " changed files with cached hash lookup...\n"@,
            )
        } else {
            (
                ScanPlan::FullScan,
                "Warning: Cache was built with threshold "@ + decimal(t as nat) + " but scanner is using "@
                    + decimal(c.min_block_size as nat) + "\n         Run 'polydup cache build --min-tokens "@
                    + decimal(c.min_block_size as nat) + "' to rebuild cache\n         "@ + fallback,
            )
        },
    }
}

impl ScanConfig {
    /// The plan of a git-diff scan and its notice (see `cache_plan`); the
    /// notice is `None` unless verbose and not quiet.
    pub fn git_diff_scan_plan(&self, cache: &CacheState, n_changed: usize) -> (r: (ScanPlan, Option<String>))
        ensures
            r.0 == cache_plan(*self, *cache, n_changed as nat).0,
            match r.1 {
                Some(t) => self.verbose && !self.quiet && t@ == cache_plan(*self, *cache, n_changed as nat).1,
                None => !(self.verbose && !self.quiet),
            },
    {
        let fallback = "Falling back to git-diff scan without cache...\n";
        let (plan, mut t) = match cache {
            CacheState::Missing => (
                ScanPlan::FullScan,
                owned(
                    "No cache found (.polydup-cache.json)\nTip: Run 'polydup cache build' to create cache for faster scans\n",
                ),
            ),
            CacheState::Unreadable(e) => {
                let mut t = owned("Warning: Failed to load cache: ");
                append_str(&mut t, e.as_str());
                append_str(&mut t, "\n");
                (ScanPlan::FullScan, t)
            },
            CacheState::Built(th) => {
                if *th == self.min_block_size {
                    let mut t = owned("Using existing cache: .polydup-cache.json\nScanning ");
                    push_decimal(&mut t, n_changed as u64);
                    append_str(&mut t, " changed files with cached hash lookup...\n");
                    (ScanPlan::WithCache, t)
                } else {
                    let mut t = owned("Warning: Cache was built with threshold ");
                    push_decimal(&mut t, *th as u64);
                    append_str(&mut t, " but scanner is using ");
                    push_decimal(&mut t, self.min_block_size as u64);
                    append_str(&mut t, "\n         Run 'polydup cache build --min-tokens ");
                    push_decimal(&mut t, self.min_block_size as u64);
                    append_str(&mut t, "' to rebuild cache\n         ");
                    (ScanPlan::FullScan, t)
                }
            },
        };
        if plan == ScanPlan::FullScan {
            append_str(&mut t, fallback);
        }
        if self.verbose && self.should_print() {
            (plan, Some(t))
        } else {
            (plan, None)
        }
    }

    /// The scan configuration shown in debug mode; `paths_debug` is the
    /// debug form of the paths, `git_diff` whether a changed-file list is in
    /// use.
    pub fn debug_config_text(&self, paths_debug: &str, git_diff: bool) -> (r: String)
        ensures
            r@ == "Debug: Scan Configuration\n  Paths: "@ + paths_debug@ + "\n  Min block size: "@
                + decimal(self.min_block_size as nat) + " tokens\n  Similarity threshold: "@
                + percent_text(self.similarity as int) + "%\n  Type-3 detection: "@ + bool_text(
                self.enable_type3,
            ) + "\n  Include tests: "@ + bool_text(self.include_tests) + "\n"@ + (if git_diff {
                "  Git-diff mode: Using hash cache if available\n"@
            } else {
                Seq::empty()
            }) + "\n"@,
    {
        let mut t = owned("Debug: Scan Configuration\n  Paths: ");
        append_str(&mut t, paths_debug);
        append_str(&mut t, "\n  Min block size: ");
        push_decimal(&mut t, self.min_block_size as u64);
        append_str(&mut t, " tokens\n  Similarity threshold: ");
        push_percent(&mut t, self.similarity);
        append_str(&mut t, "%\n  Type-3 detection: ");
        push_bool(&mut t, self.enable_type3);
        append_str(&mut t, "\n  Include tests: ");
        push_bool(&mut t, self.include_tests);
        append_str(&mut t, "\n");
        let tail = if git_diff {
            owned("  Git-diff mode: Using hash cache if available\n")
        } else {
            String::new()
        };
        append_str(&mut t, tail.as_str());
        append_str(&mut t, "\n");
        t
    }
}

impl ScanConfig {
    /// The scan results shown in debug mode; `duration_debug` is the debug
    /// form of the scan's duration.
    pub fn debug_results_text(&self, report: &Report, duration_debug: &str) -> (r: String)
        ensures
            r@ == "Debug: Scan Results\n  Files scanned: "@ + decimal(report.files_scanned as nat)
                + "\n  Functions analyzed: "@ + decimal(report.functions_analyzed as nat)
                + "\n  Duplicates found: "@ + decimal(report.duplicates@.len()) + "\n  Scan duration: "@
                + duration_debug@ + "\n  Total tokens: "@ + decimal(report.stats.total_tokens as nat)
                + "\n  Unique hashes: "@ + decimal(report.stats.unique_hashes as nat) + "\n"@ + (
            if report.duplicates@.len() > 0 {
                "  Clone types: Type-1: "@ + decimal(count_type(report.duplicates@, CloneType::Type1))
                    + ", Type-2: "@ + decimal(count_type(report.duplicates@, CloneType::Type2))
                    + ", Type-3: "@ + decimal(count_type(report.duplicates@, CloneType::Type3)) + "\n"@
            } else {
                Seq::empty()
            }) + "\n"@,
    {
        let mut t = owned("Debug: Scan Results\n  Files scanned: ");
        push_decimal(&mut t, report.files_scanned as u64);
        append_str(&mut t, "\n  Functions analyzed: ");
        push_decimal(&mut t, report.functions_analyzed as u64);
        append_str(&mut t, "\n  Duplicates found: ");
        push_decimal(&mut t, report.duplicates.len() as u64);
        append_str(&mut t, "\n  Scan duration: ");
        append_str(&mut t, duration_debug);
        append_str(&mut t, "\n  Total tokens: ");
        push_decimal(&mut t, report.stats.total_tokens as u64);
        append_str(&mut t, "\n  Unique hashes: ");
        push_decimal(&mut t, report.stats.unique_hashes as u64);
        append_str(&mut t, "\n");
        let mut types = String::new();
        if report.duplicates.len() > 0 {
            append_str(&mut types, "  Clone types: Type-1: ");
            push_decimal(&mut types, count_clone_type(&report.duplicates, CloneType::Type1) as u64);
            append_str(&mut types, ", Type-2: ");
            push_decimal(&mut types, count_clone_type(&report.duplicates, CloneType::Type2) as u64);
            append_str(&mut types, ", Type-3: ");
            push_decimal(&mut types, count_clone_type(&report.duplicates, CloneType::Type3) as u64);
            append_str(&mut types, "\n");
        }
        append_str(&mut t, types.as_str());
        append_str(&mut t, "\n");
        t
    }
}

} // verus!
