//! The configuration that a `.polyduprc.toml` file holds: its defaults, the
//! rules that make it valid, and its summary. Reading and writing the file
//! is the caller's task; fractions are held in millionths.

use vstd::prelude::*;
use crate::defaults::{MIN_BLOCK_SIZE, SIMILARITY};
use crate::fixed::{fraction_text, percent_text, push_fraction, push_percent, MILLION};
use crate::scan::last_index_of;
use crate::text::{append_str, decimal, owned, push_decimal, str_eq};
use crate::vcs::{join_path, join_path_text, parent_of, parent_path, strip_trailing_slashes};

verus! {

broadcast use vstd::string::group_string_axioms;

/// Config file names to search for at each directory level, in priority
/// order. The first match found wins.
pub open spec fn spec_config_file_names() -> Seq<Seq<char>> {
    seq![
        ".polyduprc.toml"@,
        ".polydup/config.toml"@,
        "polydup.toml"@,
        ".config/polydup.toml"@,
    ]
}

/// The config file names, in priority order.
pub fn config_file_names() -> (r: Vec<&'static str>)
    ensures
        r.deep_view() == spec_config_file_names(),
{
    let r = vec![".polyduprc.toml", ".polydup/config.toml", "polydup.toml", ".config/polydup.toml"];
    assert(r.deep_view() =~= spec_config_file_names());
    r
}

/// Configuration structure for PolyDup
pub struct Config {
    /// Scan configuration
    pub scan: ScanConfig,
    /// Output configuration
    pub output: OutputConfig,
    /// CI/CD configuration
    pub ci: CiConfig,
}

/// Scan-related configuration
pub struct ScanConfig {
    /// Minimum block size in tokens (default: 50)
    pub min_block_size: usize,
    /// Similarity threshold in millionths (0 to 1_000_000, default: 850_000)
    pub similarity_threshold: i64,
    /// Exclude patterns configuration
    pub exclude: ExcludeConfig,
}

/// Exclude patterns configuration
pub struct ExcludeConfig {
    /// Glob patterns to exclude from scanning
    pub patterns: Vec<String>,
}

/// Output-related configuration
pub struct OutputConfig {
    /// Output format: "text" or "json" (default: "text")
    pub format: String,
    /// Verbose output (default: false)
    pub verbose: bool,
}

/// CI/CD-related configuration
pub struct CiConfig {
    /// Enable CI/CD integration (default: false)
    pub enabled: bool,
    /// Fail build if duplicates found (default: true)
    pub fail_on_duplicates: bool,
}

/// The exclude patterns used when no environment suggests others.
pub open spec fn spec_default_exclude_patterns() -> Seq<Seq<char>> {
    seq![
        "**/*.test.ts"@,
        "**/*.test.js"@,
        "**/*.spec.ts"@,
        "**/*.spec.js"@,
        "**/__tests__/**"@,
        "**/*.test.py"@,
        "**/test_*.py"@,
        "**/*_test.rs"@,
        "**/tests/**"@,
        "**/*.min.js"@,
    ]
}

pub fn default_min_block_size() -> (r: usize)
    ensures
        r == 50,
{
    50
}

pub fn default_similarity_threshold() -> (r: i64)
    ensures
        r == 850_000,
{
    850_000
}

pub fn default_output_format() -> (r: String)
    ensures
        r@ == "text"@,
{
    owned("text")
}

pub fn default_fail_on_duplicates() -> (r: bool)
    ensures
        r,
{
    true
}

pub fn default_exclude_patterns() -> (r: Vec<String>)
    ensures
        r.deep_view() == spec_default_exclude_patterns(),
{
    let r = vec![
        owned("**/*.test.ts"),
        owned("**/*.test.js"),
        owned("**/*.spec.ts"),
        owned("**/*.spec.js"),
        owned("**/__tests__/**"),
        owned("**/*.test.py"),
        owned("**/test_*.py"),
        owned("**/*_test.rs"),
        owned("**/tests/**"),
        owned("**/*.min.js"),
    ];
    assert(r.deep_view() =~= spec_default_exclude_patterns());
    r
}

impl ExcludeConfig {
    pub fn default() -> (r: Self)
        ensures
            r.patterns.deep_view() == spec_default_exclude_patterns(),
    {
        ExcludeConfig { patterns: default_exclude_patterns() }
    }
}

impl ScanConfig {
    pub fn default() -> (r: Self)
        ensures
            r.min_block_size == MIN_BLOCK_SIZE,
            r.similarity_threshold == SIMILARITY,
            r.exclude.patterns.deep_view() == spec_default_exclude_patterns(),
    {
        ScanConfig {
            min_block_size: default_min_block_size(),
            similarity_threshold: default_similarity_threshold(),
            exclude: ExcludeConfig::default(),
        }
    }
}

impl OutputConfig {
    pub fn default() -> (r: Self)
        ensures
            r.format@ == "text"@,
            !r.verbose,
    {
        OutputConfig { format: default_output_format(), verbose: false }
    }
}

impl CiConfig {
    pub fn default() -> (r: Self)
        ensures
            !r.enabled,
            r.fail_on_duplicates,
    {
        CiConfig { enabled: false, fail_on_duplicates: default_fail_on_duplicates() }
    }
}

/// `"true"` or `"false"`.
pub open spec fn bool_text(b: bool) -> Seq<char> {
    if b { "true"@ } else { "false"@ }
}

pub fn push_bool(s: &mut String, b: bool)
    ensures
        final(s)@ == old(s)@ + bool_text(b),
{
    if b {
        append_str(s, "true");
    } else {
        append_str(s, "false");
    }
}

impl Config {
    /// The default configuration.
    pub open spec fn is_default(&self) -> bool {
        &&& self.scan.min_block_size == MIN_BLOCK_SIZE
        &&& self.scan.similarity_threshold == SIMILARITY
        &&& self.scan.exclude.patterns.deep_view() == spec_default_exclude_patterns()
        &&& self.output.format@ == "text"@
        &&& !self.output.verbose
        &&& !self.ci.enabled
        &&& self.ci.fail_on_duplicates
    }

    pub fn default() -> (r: Self)
        ensures
            r.is_default(),
    {
        Config { scan: ScanConfig::default(), output: OutputConfig::default(), ci: CiConfig::default() }
    }

    /// The warnings about the similarity threshold.
    pub open spec fn similarity_warnings(&self) -> Seq<Seq<char>> {
        let s = self.scan.similarity_threshold;
        if s < 500_000 {
            seq![
                "similarity_threshold is very low ("@ + fraction_text(s as int)
                    + "). This may produce many false positives."@,
            ]
        } else if s > 980_000 {
            seq![
                "similarity_threshold is very high ("@ + fraction_text(s as int)
                    + "). This may miss similar code."@,
            ]
        } else {
            Seq::empty()
        }
    }

    /// The warnings about the minimum block size.
    pub open spec fn block_size_warnings(&self) -> Seq<Seq<char>> {
        let b = self.scan.min_block_size;
        if b < 10 {
            seq![
                "min_block_size is very small ("@ + decimal(b as nat)
                    + "). This may produce many small duplicates."@,
            ]
        } else if b > 500 {
            seq![
                "min_block_size is very large ("@ + decimal(b as nat)
                    + "). This may miss smaller duplicates."@,
            ]
        } else {
            Seq::empty()
        }
    }

    /// The outcome of validation: the error for the first rule broken, or the
    /// warnings about unusual values.
    pub open spec fn validation(&self) -> Result<Seq<Seq<char>>, Seq<char>> {
        let s = self.scan.similarity_threshold;
        if !(0 <= s <= MILLION) {
            Err("similarity_threshold must be between 0.0 and 1.0, got "@ + fraction_text(s as int))
        } else if self.scan.min_block_size == 0 {
            Err("min_block_size must be greater than 0"@)
        } else if self.output.format@ != "text"@ && self.output.format@ != "json"@ {
            Err("output format must be 'text' or 'json', got '"@ + self.output.format@ + "'"@)
        } else if exists|i: int|
            0 <= i < self.scan.exclude.patterns.len()
                && #[trigger] self.scan.exclude.patterns@[i]@.len() == 0 {
            Err("exclude pattern cannot be empty"@)
        } else {
            Ok(self.similarity_warnings() + self.block_size_warnings())
        }
    }

    /// Validate the configuration and return any warnings
    pub fn validate(&self) -> (r: Result<Vec<String>, String>)
        ensures
            match r {
                Ok(w) => self.validation() == Ok::<Seq<Seq<char>>, Seq<char>>(w.deep_view()),
                Err(e) => self.validation() == Err::<Seq<Seq<char>>, Seq<char>>(e@),
            },
    {
        let mut warnings: Vec<String> = Vec::new();
        let s = self.scan.similarity_threshold;
        // Validate similarity threshold
        if !(0 <= s && s <= MILLION) {
            let mut e = owned("similarity_threshold must be between 0.0 and 1.0, got ");
            push_fraction(&mut e, s);
            return Err(e);
        }
        // Warn about unusual similarity thresholds
        if s < 500_000 {
            let mut w = owned("similarity_threshold is very low (");
            push_fraction(&mut w, s);
            append_str(&mut w, "). This may produce many false positives.");
            warnings.push(w);
        } else if s > 980_000 {
            let mut w = owned("similarity_threshold is very high (");
            push_fraction(&mut w, s);
            append_str(&mut w, "). This may miss similar code.");
            warnings.push(w);
        }
        assert(warnings.deep_view() =~= self.similarity_warnings());
        let ghost w1 = warnings.deep_view();
        // Validate min_block_size
        let b = self.scan.min_block_size;
        if b == 0 {
            return Err(owned("min_block_size must be greater than 0"));
        }
        // Warn about unusual block sizes
        if b < 10 {
            let mut w = owned("min_block_size is very small (");
            push_decimal(&mut w, b as u64);
            append_str(&mut w, "). This may produce many small duplicates.");
            warnings.push(w);
        } else if b > 500 {
            let mut w = owned("min_block_size is very large (");
            push_decimal(&mut w, b as u64);
            append_str(&mut w, "). This may miss smaller duplicates.");
            warnings.push(w);
        }
        assert(warnings.deep_view() =~= w1 + self.block_size_warnings());
        // Validate output format
        let f = self.output.format.as_str();
        if !str_eq(f, "text") && !str_eq(f, "json") {
            let mut e = owned("output format must be 'text' or 'json', got '");
            append_str(&mut e, f);
            append_str(&mut e, "'");
            return Err(e);
        }
        // Validate exclude patterns
        let mut i: usize = 0;
        while i < self.scan.exclude.patterns.len()
            invariant
                i <= self.scan.exclude.patterns.len(),
                0 <= self.scan.similarity_threshold <= MILLION,
                self.scan.min_block_size != 0,
                self.output.format@ == "text"@ || self.output.format@ == "json"@,
                forall|k: int| 0 <= k < i ==> #[trigger] self.scan.exclude.patterns@[k]@.len() != 0,
            decreases self.scan.exclude.patterns.len() - i,
        {
            if self.scan.exclude.patterns[i].as_str().is_empty() {
                assert(self.scan.exclude.patterns@[i as int]@.len() == 0);
                return Err(owned("exclude pattern cannot be empty"));
            }
            i = i + 1;
        }
        Ok(warnings)
    }

    /// The summary text of a configuration.
    pub open spec fn spec_summary(&self) -> Seq<char> {
        "Configuration Summary:\n\nScan Settings:\nMin block size: "@ + decimal(
            self.scan.min_block_size as nat,
        ) + " tokens\nSimilarity threshold: "@ + percent_text(
            self.scan.similarity_threshold as int,
        ) + "%\nExclude patterns: "@ + decimal(self.scan.exclude.patterns.len() as nat)
            + "\n\nOutput Settings:\nFormat: "@ + self.output.format@ + "\nVerbose: "@ + bool_text(
            self.output.verbose,
        ) + "\n\nCI/CD Settings:\nEnabled: "@ + bool_text(self.ci.enabled)
            + "\nFail on duplicates: "@ + bool_text(self.ci.fail_on_duplicates)
    }

    /// Get a summary of the configuration
    pub fn summary(&self) -> (r: String)
        ensures
            r@ == self.spec_summary(),
    {
        let mut s = owned("Configuration Summary:\n\nScan Settings:\nMin block size: ");
        push_decimal(&mut s, self.scan.min_block_size as u64);
        append_str(&mut s, " tokens\nSimilarity threshold: ");
        push_percent(&mut s, self.scan.similarity_threshold);
        append_str(&mut s, "%\nExclude patterns: ");
        push_decimal(&mut s, self.scan.exclude.patterns.len() as u64);
        append_str(&mut s, "\n\nOutput Settings:\nFormat: ");
        append_str(&mut s, self.output.format.as_str());
        append_str(&mut s, "\nVerbose: ");
        push_bool(&mut s, self.output.verbose);
        append_str(&mut s, "\n\nCI/CD Settings:\nEnabled: ");
        push_bool(&mut s, self.ci.enabled);
        append_str(&mut s, "\nFail on duplicates: ");
        push_bool(&mut s, self.ci.fail_on_duplicates);
        s
    }
}

/// A default configuration passes validation without warnings.
pub proof fn lemma_default_config_is_valid(c: &Config)
    requires
        c.is_default(),
    ensures
        c.validation() == Ok::<Seq<Seq<char>>, Seq<char>>(Seq::empty()),
{
    reveal_strlit("text");
    assert(c.similarity_warnings() =~= Seq::<Seq<char>>::empty());
    assert(c.block_size_warnings() =~= Seq::<Seq<char>>::empty());
    assert forall|i: int| 0 <= i < c.scan.exclude.patterns.len() implies #[trigger] c.scan.exclude.patterns@[i]@.len() != 0 by {
        let p = spec_default_exclude_patterns();
        assert(c.scan.exclude.patterns.deep_view()[i] == p[i]);
        assert(p.len() == 10);
        reveal_strlit("**/*.test.ts");
        reveal_strlit("**/*.test.js");
        reveal_strlit("**/*.spec.ts");
        reveal_strlit("**/*.spec.js");
        reveal_strlit("**/__tests__/**");
        reveal_strlit("**/*.test.py");
        reveal_strlit("**/test_*.py");
        reveal_strlit("**/*_test.rs");
        reveal_strlit("**/tests/**");
        reveal_strlit("**/*.min.js");
        if i == 0 { assert(p[i].len() != 0); }
        else if i == 1 { assert(p[i].len() != 0); }
        else if i == 2 { assert(p[i].len() != 0); }
        else if i == 3 { assert(p[i].len() != 0); }
        else if i == 4 { assert(p[i].len() != 0); }
        else if i == 5 { assert(p[i].len() != 0); }
        else if i == 6 { assert(p[i].len() != 0); }
        else if i == 7 { assert(p[i].len() != 0); }
        else if i == 8 { assert(p[i].len() != 0); }
        else { assert(p[i].len() != 0); }
    }
    assert(Seq::<Seq<char>>::empty() + Seq::<Seq<char>>::empty() =~= Seq::<Seq<char>>::empty());
}

proof fn lemma_strip_len(p: Seq<char>)
    ensures
        strip_trailing_slashes(p).len() <= p.len(),
    decreases p.len(),
{
    if p.len() > 1 && p.last() == '/' {
        lemma_strip_len(p.drop_last());
    }
}

proof fn lemma_last_index_bound(s: Seq<char>, c: char)
    ensures
        -1 <= last_index_of(s, c) < s.len(),
    decreases s.len(),
{
    if s.len() > 0 && s.last() != c {
        lemma_last_index_bound(s.drop_last(), c);
    }
}

/// The parent of a path is shorter than the path.
pub proof fn lemma_parent_shorter(p: Seq<char>)
    ensures
        parent_of(p) matches Some(q) ==> q.len() < p.len(),
{
    let q = strip_trailing_slashes(p);
    lemma_strip_len(p);
    if q.len() > 0 && q != "/"@ {
        let k = last_index_of(q, '/');
        lemma_last_index_bound(q, '/');
        if k > 0 {
            lemma_strip_len(q.take(k));
        }
        if k == 0 {
            reveal_strlit("/");
            if q.len() == 1 {
                assert(q.drop_last().len() == 0);
                assert(last_index_of(q.drop_last(), '/') == -1);
                assert(q.last() == '/');
                assert(q =~= "/"@);
            }
        }
    }
}

/// A directory followed by its ancestors, nearest first.
pub open spec fn ancestors(dir: Seq<char>) -> Seq<Seq<char>>
    decreases dir.len(),
{
    match parent_of(dir) {
        Some(up) => {
            proof {
                lemma_parent_shorter(dir);
            }
            seq![dir] + ancestors(up)
        },
        None => seq![dir],
    }
}

/// The configuration files looked for in the directories `dirs`: in each
/// directory, every file name in priority order.
pub open spec fn candidates_in(dirs: Seq<Seq<char>>) -> Seq<Seq<char>>
    decreases dirs.len(),
{
    if dirs.len() == 0 {
        Seq::empty()
    } else {
        spec_config_file_names().map_values(|n: Seq<char>| join_path(dirs[0], n)) + candidates_in(
            dirs.drop_first(),
        )
    }
}

/// The configuration files looked for from a start directory, in the order
/// of the search: the start directory first, then each parent up to the
/// root, and in each directory the file names in priority order.
pub open spec fn config_candidates(start_dir: Seq<char>) -> Seq<Seq<char>> {
    candidates_in(ancestors(start_dir))
}

/// The configuration files looked for from a start directory, in the order
/// of the search (see `config_candidates`).
pub fn config_candidate_paths(start_dir: &str) -> (r: Vec<String>)
    ensures
        r.deep_view() == config_candidates(start_dir@),
{
    let names = config_file_names();
    let mut r: Vec<String> = Vec::new();
    let mut cur = owned(start_dir);
    loop
        invariant
            names.deep_view() == spec_config_file_names(),
            r.deep_view() + candidates_in(ancestors(cur@)) == config_candidates(start_dir@),
        decreases cur@.len(),
    {
        let ghost before = r.deep_view();
        let mut j: usize = 0;
        while j < names.len()
            invariant
                j <= names.len(),
                names.deep_view() == spec_config_file_names(),
                r.deep_view() == before + spec_config_file_names().take(j as int).map_values(
                    |n: Seq<char>| join_path(cur@, n),
                ),
            decreases names.len() - j,
        {
            let c = join_path_text(cur.as_str(), names[j]);
            let ghost mid = r.deep_view();
            r.push(c);
            assert(names.deep_view()[j as int] == names@[j as int]@);
            assert(spec_config_file_names().take(j + 1) =~= spec_config_file_names().take(j as int).push(
                spec_config_file_names()[j as int],
            ));
            assert(r.deep_view() =~= mid.push(c@));
            assert(r.deep_view() =~= before + spec_config_file_names().take(j + 1).map_values(
                |n: Seq<char>| join_path(cur@, n),
            ));
            j = j + 1;
        }
        assert(spec_config_file_names().take(4) =~= spec_config_file_names());
        let ghost block = spec_config_file_names().map_values(|n: Seq<char>| join_path(cur@, n));
        match parent_path(cur.as_str()) {
            Some(up) => {
                proof {
                    lemma_parent_shorter(cur@);
                    assert(ancestors(cur@) == seq![cur@] + ancestors(up@));
                    assert((seq![cur@] + ancestors(up@)).drop_first() =~= ancestors(up@));
                    assert(candidates_in(ancestors(cur@)) == block + candidates_in(ancestors(up@)));
                    assert(before + block + candidates_in(ancestors(up@)) =~= before + (block
                        + candidates_in(ancestors(up@))));
                }
                cur = up;
            },
            None => {
                proof {
                    assert(ancestors(cur@) == seq![cur@]);
                    assert(seq![cur@].drop_first() =~= Seq::<Seq<char>>::empty());
                    assert(candidates_in(Seq::<Seq<char>>::empty()) == Seq::<Seq<char>>::empty());
                    assert(candidates_in(ancestors(cur@)) =~= block);
                    assert(r.deep_view() + Seq::<Seq<char>>::empty() =~= r.deep_view());
                }
                return r;
            },
        }
    }
}

/// `found` is the first of the candidates that exists (`exists` tells, for
/// each candidate, whether it does), or `None` when none does.
pub open spec fn first_existing(found: Option<Seq<char>>, candidates: Seq<Seq<char>>, exists: Seq<bool>) -> bool {
    match found {
        Some(p) => exists|i: int|
            0 <= i < candidates.len() && exists[i] && p == candidates[i] && forall|k: int|
                0 <= k < i ==> !exists[k],
        None => forall|i: int| 0 <= i < exists.len() ==> !exists[i],
    }
}

/// The candidates in the directories `dirs` come in blocks of four, one
/// block per directory in order, each block holding the file names in
/// priority order.
pub proof fn lemma_candidates_in_layout(dirs: Seq<Seq<char>>)
    ensures
        candidates_in(dirs).len() == 4 * dirs.len(),
        forall|d: int, n: int|
            0 <= d < dirs.len() && 0 <= n < 4 ==> #[trigger] candidates_in(dirs)[4 * d + n]
                == join_path(dirs[d], spec_config_file_names()[n]),
    decreases dirs.len(),
{
    let names = spec_config_file_names();
    assert(names.len() == 4);
    if dirs.len() > 0 {
        let block = names.map_values(|n: Seq<char>| join_path(dirs[0], n));
        let rest = dirs.drop_first();
        lemma_candidates_in_layout(rest);
        assert forall|d: int, n: int| 0 <= d < dirs.len() && 0 <= n < 4 implies #[trigger] candidates_in(dirs)[4 * d + n]
            == join_path(dirs[d], names[n]) by {
            if d > 0 {
                assert(candidates_in(rest)[4 * (d - 1) + n] == join_path(rest[d - 1], names[n]));
                assert(candidates_in(dirs)[4 * d + n] == candidates_in(rest)[4 * (d - 1) + n]);
            } else {
                assert(candidates_in(dirs)[n] == block[n]);
            }
        }
    }
}

/// Whether the candidate for the directory at `d` in search order and the
/// file name at `n` in priority order exists.
pub open spec fn candidate_exists(exists: Seq<bool>, d: int, n: int) -> bool {
    exists[4 * d + n]
}

/// The configuration search finds the file in the nearest directory, from
/// the start directory up through its ancestors, that holds one of the
/// configuration file names; within that directory, the name first in
/// priority order. So a nearer directory wins over a name of higher priority
/// farther up. When no directory holds one, nothing is found.
pub proof fn lemma_config_search(start_dir: Seq<char>, exists: Seq<bool>, found: Option<Seq<char>>)
    requires
        exists.len() == config_candidates(start_dir).len(),
        first_existing(found, config_candidates(start_dir), exists),
    ensures
        ({
            let dirs = ancestors(start_dir);
            let names = spec_config_file_names();
            match found {
                Some(p) => exists|d: int, n: int|
                    0 <= d < dirs.len() && 0 <= n < names.len() && candidate_exists(exists, d, n) && p == join_path(
                        dirs[d],
                        names[n],
                    ) && (forall|d2: int, n2: int|
                        0 <= d2 < d && 0 <= n2 < names.len() ==> !#[trigger] candidate_exists(exists, d2, n2))
                        && (forall|n2: int| 0 <= n2 < n ==> !#[trigger] candidate_exists(exists, d, n2)),
                None => forall|d: int, n: int|
                    0 <= d < dirs.len() && 0 <= n < names.len() ==> !#[trigger] candidate_exists(exists, d, n),
            }
        }),
{
    let dirs = ancestors(start_dir);
    let names = spec_config_file_names();
    let cands = config_candidates(start_dir);
    lemma_candidates_in_layout(dirs);
    assert(names.len() == 4);
    match found {
        Some(p) => {
            let i = choose|i: int|
                0 <= i < cands.len() && exists[i] && p == cands[i] && forall|k: int| 0 <= k < i ==> !exists[k];
            let d = i / 4;
            let n = i % 4;
            assert(i == 4 * d + n && 0 <= n < 4 && 0 <= d < dirs.len());
            assert(p == join_path(dirs[d], names[n]));
            assert(candidate_exists(exists, d, n));
            assert forall|d2: int, n2: int| 0 <= d2 < d && 0 <= n2 < names.len() implies !#[trigger] candidate_exists(exists, d2, n2) by {
                assert(4 * d2 + n2 < i);
            }
            assert forall|n2: int| 0 <= n2 < n implies !#[trigger] candidate_exists(exists, d, n2) by {
                assert(4 * d + n2 < i);
            }
        },
        None => {
            assert forall|d: int, n: int| 0 <= d < dirs.len() && 0 <= n < names.len() implies !#[trigger] candidate_exists(exists, d, n) by {
                assert(0 <= 4 * d + n < exists.len());
            }
        },
    }
}

/// The configuration file found: the first candidate, in search order, that
/// exists (`exists` tells, for each candidate, whether it does).
pub fn find_config_path(candidates: &Vec<String>, exists: &Vec<bool>) -> (r: Option<String>)
    requires
        exists.len() == candidates.len(),
    ensures
        first_existing(
            match r {
                Some(p) => Some(p@),
                None => None,
            },
            candidates.deep_view(),
            exists@,
        ),
{
    let mut i: usize = 0;
    while i < candidates.len()
        invariant
            i <= candidates.len(),
            exists.len() == candidates.len(),
            forall|k: int| 0 <= k < i ==> !exists@[k],
        decreases candidates.len() - i,
    {
        if exists[i] {
            return Some(candidates[i].clone());
        }
        i = i + 1;
    }
    None
}

} // verus!
