//! Detection of the programming environments a project uses, from the
//! marker files that are present in its root directory, and the settings
//! that each environment suggests.

use vstd::prelude::*;
use crate::order::{SortKey, stable_sort_by_keys, lex_lt, key_values, is_permutation, stably_sorted, reorder, stable_before, is_listed, lemma_lex_irreflexive, lemma_lex_total, lemma_lex_transitive};
use crate::text::{owned, starts_with_seq, str_eq};

verus! {

broadcast use vstd::string::group_string_axioms;

/// A detected programming environment.
#[derive(Debug, Clone, Copy, PartialEq, Eq, Structural, Hash)]
pub enum Environment {
    /// Node.js / JavaScript / TypeScript project
    NodeJs,
    /// Rust project
    Rust,
    /// Python project
    Python,
    /// Go project
    Go,
    /// Java project
    Java,
    /// Ruby project
    Ruby,
}

impl Environment {
    /// Display name of the environment.
    pub open spec fn spec_name(self) -> Seq<char> {
        match self {
            Environment::NodeJs => "Node.js"@,
            Environment::Rust => "Rust"@,
            Environment::Python => "Python"@,
            Environment::Go => "Go"@,
            Environment::Java => "Java"@,
            Environment::Ruby => "Ruby"@,
        }
    }

    /// Glob patterns of build output, dependencies and tests for the
    /// environment.
    pub open spec fn spec_exclude_patterns(self) -> Seq<Seq<char>> {
        match self {
            Environment::NodeJs => seq![
                "**/node_modules/**"@,
                "**/dist/**"@,
                "**/build/**"@,
                "**/*.test.js"@,
                "**/*.test.ts"@,
                "**/*.spec.js"@,
                "**/*.spec.ts"@,
                "**/__tests__/**"@,
                "**/*.min.js"@,
            ],
            Environment::Rust => seq!["**/target/**"@, "**/*_test.rs"@, "**/tests/**"@],
            Environment::Python => seq![
                "**/__pycache__/**"@,
                "**/*.pyc"@,
                "**/.venv/**"@,
                "**/venv/**"@,
                "**/.pytest_cache/**"@,
                "**/test_*.py"@,
                "**/*_test.py"@,
            ],
            Environment::Go => seq!["**/vendor/**"@, "**/*_test.go"@],
            Environment::Java => seq![
                "**/target/**"@,
                "**/build/**"@,
                "**/.gradle/**"@,
                "**/bin/**"@,
                "**/*Test.java"@,
            ],
            Environment::Ruby => seq![
                "**/vendor/**"@,
                "**/.bundle/**"@,
                "**/*_spec.rb"@,
                "**/spec/**"@,
            ],
        }
    }

    /// The command that installs polydup in the environment.
    pub open spec fn spec_install_command(self) -> Seq<char> {
        match self {
            Environment::NodeJs => "npm install -g @polydup/core"@,
            Environment::Python => "pip install polydup"@,
            _ => "cargo install polydup-cli"@,
        }
    }

    /// Other ways of installing polydup in the environment.
    pub open spec fn spec_alt_install_methods(self) -> Seq<Seq<char>> {
        match self {
            Environment::NodeJs => seq![
                "Download binary from GitHub releases"@,
                "cargo install polydup-cli"@,
            ],
            Environment::Python => seq![
                "cargo install polydup-cli"@,
                "Download binary from GitHub releases"@,
            ],
            _ => seq!["Download binary from GitHub releases"@],
        }
    }

    /// Get display name for the environment
    pub fn name(&self) -> (r: &'static str)
        ensures
            r@ == self.spec_name(),
    {
        match self {
            Environment::NodeJs => "Node.js",
            Environment::Rust => "Rust",
            Environment::Python => "Python",
            Environment::Go => "Go",
            Environment::Java => "Java",
            Environment::Ruby => "Ruby",
        }
    }

    /// Get environment-specific exclude patterns
    pub fn exclude_patterns(&self) -> (r: Vec<String>)
        ensures
            r.deep_view() == self.spec_exclude_patterns(),
    {
        let r = match self {
            Environment::NodeJs => vec![
                owned("**/node_modules/**"),
                owned("**/dist/**"),
                owned("**/build/**"),
                owned("**/*.test.js"),
                owned("**/*.test.ts"),
                owned("**/*.spec.js"),
                owned("**/*.spec.ts"),
                owned("**/__tests__/**"),
                owned("**/*.min.js"),
            ],
            Environment::Rust => vec![
                owned("**/target/**"),
                owned("**/*_test.rs"),
                owned("**/tests/**"),
            ],
            Environment::Python => vec![
                owned("**/__pycache__/**"),
                owned("**/*.pyc"),
                owned("**/.venv/**"),
                owned("**/venv/**"),
                owned("**/.pytest_cache/**"),
                owned("**/test_*.py"),
                owned("**/*_test.py"),
            ],
            Environment::Go => vec![owned("**/vendor/**"), owned("**/*_test.go")],
            Environment::Java => vec![
                owned("**/target/**"),
                owned("**/build/**"),
                owned("**/.gradle/**"),
                owned("**/bin/**"),
                owned("**/*Test.java"),
            ],
            Environment::Ruby => vec![
                owned("**/vendor/**"),
                owned("**/.bundle/**"),
                owned("**/*_spec.rb"),
                owned("**/spec/**"),
            ],
        };
        assert(r.deep_view() =~= self.spec_exclude_patterns());
        r
    }

    /// Get recommended install command for this environment
    pub fn install_command(&self) -> (r: &'static str)
        ensures
            r@ == self.spec_install_command(),
    {
        match self {
            Environment::NodeJs => "npm install -g @polydup/core",
            Environment::Rust => "cargo install polydup-cli",
            Environment::Python => "pip install polydup",
            Environment::Go => "cargo install polydup-cli",
            Environment::Java => "cargo install polydup-cli",
            Environment::Ruby => "cargo install polydup-cli",
        }
    }

    /// Get alternative install methods for this environment
    pub fn alt_install_methods(&self) -> (r: Vec<&'static str>)
        ensures
            r.deep_view() == self.spec_alt_install_methods(),
    {
        let r = match self {
            Environment::NodeJs => vec![
                "Download binary from GitHub releases",
                "cargo install polydup-cli",
            ],
            Environment::Rust => vec!["Download binary from GitHub releases"],
            Environment::Python => vec![
                "cargo install polydup-cli",
                "Download binary from GitHub releases",
            ],
            _ => vec!["Download binary from GitHub releases"],
        };
        assert(r.deep_view() =~= self.spec_alt_install_methods());
        r
    }
}

/// The marker files whose presence reveals an environment.
pub open spec fn spec_marker_files() -> Seq<Seq<char>> {
    seq![
        "package.json"@,
        "yarn.lock"@,
        "pnpm-lock.yaml"@,
        "Cargo.toml"@,
        "pyproject.toml"@,
        "setup.py"@,
        "requirements.txt"@,
        "Pipfile"@,
        "go.mod"@,
        "pom.xml"@,
        "build.gradle"@,
        "build.gradle.kts"@,
        "Gemfile"@,
    ]
}

/// The marker files that [`detect_environments`] looks for.
pub fn marker_files() -> (r: Vec<&'static str>)
    ensures
        r.deep_view() == spec_marker_files(),
{
    let r = vec![
        "package.json",
        "yarn.lock",
        "pnpm-lock.yaml",
        "Cargo.toml",
        "pyproject.toml",
        "setup.py",
        "requirements.txt",
        "Pipfile",
        "go.mod",
        "pom.xml",
        "build.gradle",
        "build.gradle.kts",
        "Gemfile",
    ];
    assert(r.deep_view() =~= spec_marker_files());
    r
}

/// A one-element sequence when `b` holds, else the empty sequence.
pub open spec fn when<T>(b: bool, x: T) -> Seq<T> {
    if b { seq![x] } else { Seq::empty() }
}

/// The environments revealed by the marker files named in `present`, in the
/// fixed order Node.js, Rust, Python, Go, Java, Ruby.
pub open spec fn spec_detect(present: Seq<Seq<char>>) -> Seq<Environment> {
    when(
        present.contains("package.json"@) || present.contains("yarn.lock"@) || present.contains(
            "pnpm-lock.yaml"@,
        ),
        Environment::NodeJs,
    ) + when(present.contains("Cargo.toml"@), Environment::Rust) + when(
        present.contains("pyproject.toml"@) || present.contains("setup.py"@) || present.contains(
            "requirements.txt"@,
        ) || present.contains("Pipfile"@),
        Environment::Python,
    ) + when(present.contains("go.mod"@), Environment::Go) + when(
        present.contains("pom.xml"@) || present.contains("build.gradle"@) || present.contains(
            "build.gradle.kts"@,
        ),
        Environment::Java,
    ) + when(present.contains("Gemfile"@), Environment::Ruby)
}

/// Whether `list` holds a string equal to `t`.
pub fn contains_text(list: &Vec<String>, t: &str) -> (r: bool)
    ensures
        r == list.deep_view().contains(t@),
{
    let mut i: usize = 0;
    while i < list.len()
        invariant
            i <= list.len(),
            forall|k: int| 0 <= k < i ==> list.deep_view()[k] != t@,
        decreases list.len() - i,
    {
        if str_eq(list[i].as_str(), t) {
            assert(list.deep_view()[i as int] == t@);
            return true;
        }
        i = i + 1;
    }
    false
}

/// Detect programming environments from the names of the marker files that
/// exist in a directory (see [`marker_files`]).
pub fn detect_environments(present: &Vec<String>) -> (r: Vec<Environment>)
    ensures
        r@ == spec_detect(present.deep_view()),
{
    let mut r: Vec<Environment> = Vec::new();
    if contains_text(present, "package.json") || contains_text(present, "yarn.lock")
        || contains_text(present, "pnpm-lock.yaml") {
        r.push(Environment::NodeJs);
    }
    if contains_text(present, "Cargo.toml") {
        r.push(Environment::Rust);
    }
    if contains_text(present, "pyproject.toml") || contains_text(present, "setup.py")
        || contains_text(present, "requirements.txt") || contains_text(present, "Pipfile") {
        r.push(Environment::Python);
    }
    if contains_text(present, "go.mod") {
        r.push(Environment::Go);
    }
    if contains_text(present, "pom.xml") || contains_text(present, "build.gradle")
        || contains_text(present, "build.gradle.kts") {
        r.push(Environment::Java);
    }
    if contains_text(present, "Gemfile") {
        r.push(Environment::Ruby);
    }
    assert(r@ =~= spec_detect(present.deep_view()));
    r
}

/// Every pattern of the list reaches into any directory (starts with `**/`).
pub open spec fn all_any_directory(pats: Seq<Seq<char>>) -> bool {
    forall|i: int| 0 <= i < pats.len() ==> starts_with_seq(#[trigger] pats[i], "**/"@)
}

/// Every environment suggests at least two exclude patterns, each of which
/// reaches into any directory (starts with `**/`), and none of them twice.
pub proof fn lemma_exclude_patterns_shape(e: Environment)
    ensures
        e.spec_exclude_patterns().len() >= 2,
        all_any_directory(e.spec_exclude_patterns()),
        e.spec_exclude_patterns().no_duplicates(),
{
    reveal_strlit("**/");
    let pats = e.spec_exclude_patterns();
    match e {
        Environment::NodeJs => {
            reveal_strlit("**/node_modules/**");
            reveal_strlit("**/dist/**");
            reveal_strlit("**/build/**");
            reveal_strlit("**/*.test.js");
            reveal_strlit("**/*.test.ts");
            reveal_strlit("**/*.spec.js");
            reveal_strlit("**/*.spec.ts");
            reveal_strlit("**/__tests__/**");
            reveal_strlit("**/*.min.js");
            assert(pats[2][3] != pats[8][3]);
            assert(pats[3][10] != pats[4][10]);
            assert(pats[3][5] != pats[5][5]);
            assert(pats[3][5] != pats[6][5]);
            assert(pats[4][5] != pats[5][5]);
            assert(pats[4][5] != pats[6][5]);
            assert(pats[5][10] != pats[6][10]);
        },
        Environment::Rust => {
            reveal_strlit("**/target/**");
            reveal_strlit("**/*_test.rs");
            reveal_strlit("**/tests/**");
            assert(pats[0][3] != pats[1][3]);
        },
        Environment::Python => {
            reveal_strlit("**/__pycache__/**");
            reveal_strlit("**/*.pyc");
            reveal_strlit("**/.venv/**");
            reveal_strlit("**/venv/**");
            reveal_strlit("**/.pytest_cache/**");
            reveal_strlit("**/test_*.py");
            reveal_strlit("**/*_test.py");
            assert(pats[5][3] != pats[6][3]);
        },
        Environment::Go => {
            reveal_strlit("**/vendor/**");
            reveal_strlit("**/*_test.go");
            assert(pats[0][3] != pats[1][3]);
        },
        Environment::Java => {
            reveal_strlit("**/target/**");
            reveal_strlit("**/build/**");
            reveal_strlit("**/.gradle/**");
            reveal_strlit("**/bin/**");
            reveal_strlit("**/*Test.java");
            assert(pats[2][3] != pats[4][3]);
        },
        Environment::Ruby => {
            reveal_strlit("**/vendor/**");
            reveal_strlit("**/.bundle/**");
            reveal_strlit("**/*_spec.rb");
            reveal_strlit("**/spec/**");
            assert(pats[0][3] != pats[2][3]);
        },
    }
    assert forall|i: int| 0 <= i < pats.len() implies starts_with_seq(#[trigger] pats[i], "**/"@) by {
        assert(pats[i].subrange(0, 3) =~= "**/"@);
    }
    assert forall|i: int, j: int| 0 <= i < pats.len() && 0 <= j < pats.len() && i != j implies pats[i] != pats[j] by {
    }
}

/// All exclude patterns of the environments, in order, repetitions kept.
pub open spec fn all_patterns(envs: Seq<Environment>) -> Seq<Seq<char>>
    decreases envs.len(),
{
    if envs.len() == 0 {
        Seq::empty()
    } else {
        all_patterns(envs.drop_last()) + envs.last().spec_exclude_patterns()
    }
}

/// Every element precedes the next one in lexicographic order, so the
/// sequence is sorted and free of repetitions.
pub open spec fn strictly_ascending(s: Seq<Seq<char>>) -> bool {
    forall|j: int, k: int| 0 <= j < k < s.len() ==> lex_lt(#[trigger] s[j], #[trigger] s[k])
}

/// Generate combined exclude patterns from multiple environments: every
/// pattern of every environment, once, in ascending order.
pub fn combined_exclude_patterns(environments: &[Environment]) -> (r: Vec<String>)
    ensures
        strictly_ascending(r.deep_view()),
        forall|p: Seq<char>| #[trigger]
            r.deep_view().contains(p) <==> all_patterns(environments@).contains(p),
{
    // Gather every pattern.
    let mut patterns: Vec<String> = Vec::new();
    let mut keys: Vec<SortKey> = Vec::new();
    let mut e: usize = 0;
    while e < environments.len()
        invariant
            e <= environments.len(),
            patterns.deep_view() == all_patterns(environments@.take(e as int)),
            keys.len() == patterns.len(),
            forall|j: int|
                0 <= j < keys.len() ==> #[trigger] key_values(keys@)[j] == (
                    0u64,
                    patterns.deep_view()[j],
                    0u64,
                    Seq::<char>::empty(),
                ),
        decreases environments.len() - e,
    {
        let env_patterns = environments[e].exclude_patterns();
        let ghost before = patterns.deep_view();
        let mut j: usize = 0;
        while j < env_patterns.len()
            invariant
                e < environments.len(),
                j <= env_patterns.len(),
                env_patterns.deep_view() == environments@[e as int].spec_exclude_patterns(),
                patterns.deep_view() == before + env_patterns.deep_view().take(j as int),
                keys.len() == patterns.len(),
                forall|k: int|
                    0 <= k < keys.len() ==> #[trigger] key_values(keys@)[k] == (
                        0u64,
                        patterns.deep_view()[k],
                        0u64,
                        Seq::<char>::empty(),
                    ),
            decreases env_patterns.len() - j,
        {
            let p = owned(env_patterns[j].as_str());
            let k = SortKey { n1: 0, t1: owned(env_patterns[j].as_str()), n2: 0, t2: String::new() };
            let ghost pv = patterns.deep_view();
            let ghost kv = key_values(keys@);
            assert(p@ == env_patterns.deep_view()[j as int]);
            patterns.push(p);
            keys.push(k);
            assert(patterns.deep_view() =~= pv.push(p@));
            assert(key_values(keys@) =~= kv.push(k@));
            assert(env_patterns.deep_view().take(j + 1) =~= env_patterns.deep_view().take(
                j as int,
            ).push(p@));
            assert(patterns.deep_view() =~= before + env_patterns.deep_view().take(j + 1));
            j = j + 1;
        }
        assert(environments@.take(e + 1).drop_last() =~= environments@.take(e as int));
        assert(env_patterns.deep_view().take(j as int) =~= env_patterns.deep_view());
        e = e + 1;
    }
    assert(environments@.take(environments.len() as int) =~= environments@);
    let ghost all = patterns.deep_view();
    let ghost ks = key_values(keys@);
    let ghost orig_patterns = patterns@;
    // Sort them.
    stable_sort_by_keys(&mut patterns, &mut keys);
    let ghost perm = choose|perm: Seq<int>|
        #[trigger] is_permutation(perm, orig_patterns.len() as int) && stably_sorted(ks, perm)
            && patterns@ == reorder(orig_patterns, perm) && key_values(keys@) == reorder(ks, perm);
    let ghost sorted = patterns.deep_view();
    assert forall|j: int, k: int| 0 <= j < k < sorted.len() implies lex_lt(
        #[trigger] sorted[j],
        #[trigger] sorted[k],
    ) || sorted[j] == sorted[k] by {
        assert(stable_before(ks, perm[j], perm[k]));
        assert(sorted[j] == all[perm[j]]);
        assert(sorted[k] == all[perm[k]]);
    }
    assert forall|p: Seq<char>| sorted.contains(p) <==> all.contains(p) by {
        if sorted.contains(p) {
            let j = choose|j: int| 0 <= j < sorted.len() && sorted[j] == p;
            assert(all[perm[j]] == p);
        }
        if all.contains(p) {
            let m = choose|m: int| 0 <= m < all.len() && all[m] == p;
            assert(is_listed(perm, m));
            let j = choose|j: int| 0 <= j < perm.len() && #[trigger] perm[j] == m;
            assert(sorted[j] == p);
        }
    }
    // Drop repetitions, which now stand next to each other.
    let mut r: Vec<String> = Vec::new();
    let mut i: usize = 0;
    while i < patterns.len()
        invariant
            i <= patterns.len(),
            patterns.deep_view() == sorted,
            forall|j: int, k: int|
                0 <= j < k < sorted.len() ==> lex_lt(#[trigger] sorted[j], #[trigger] sorted[k])
                    || sorted[j] == sorted[k],
            strictly_ascending(r.deep_view()),
            i > 0 ==> r.len() > 0 && r.deep_view().last() == sorted[i - 1],
            i == 0 ==> r.len() == 0,
            forall|p: Seq<char>| #[trigger]
                r.deep_view().contains(p) <==> sorted.take(i as int).contains(p),
        decreases patterns.len() - i,
    {
        let keep = if i == 0 {
            true
        } else {
            !str_eq(r[r.len() - 1].as_str(), patterns[i].as_str())
        };
        let ghost old_r = r.deep_view();
        if keep {
            r.push(owned(patterns[i].as_str()));
            proof {
                assert(r.deep_view() =~= old_r.push(sorted[i as int]));
                if i > 0 {
                    assert(old_r.last() == old_r[old_r.len() - 1]);
                    assert(old_r.last() != sorted[i as int]);
                    assert(lex_lt(sorted[i - 1], sorted[i as int]));
                    assert forall|j: int| 0 <= j < old_r.len() implies lex_lt(
                        #[trigger] old_r[j],
                        sorted[i as int],
                    ) by {
                        if j < old_r.len() - 1 {
                            lemma_lex_transitive(old_r[j], old_r.last(), sorted[i as int]);
                        }
                    }
                }
                let rv = r.deep_view();
                assert forall|j: int, k: int| 0 <= j < k < rv.len() implies lex_lt(
                    #[trigger] rv[j],
                    #[trigger] rv[k],
                ) by {
                    if k == rv.len() - 1 {
                        assert(rv[j] == old_r[j]);
                    } else {
                        assert(rv[j] == old_r[j] && rv[k] == old_r[k]);
                    }
                }
            }
        }
        proof {
            assert(sorted.take(i + 1) =~= sorted.take(i as int).push(sorted[i as int]));
            if !keep {
                assert(r.deep_view() =~= old_r);
                assert(old_r.last() == sorted[i as int]);
                assert(old_r.contains(sorted[i as int]));
            }
            let s1 = sorted.take(i + 1);
            let s0 = sorted.take(i as int);
            let rv = r.deep_view();
            assert forall|p: Seq<char>| #[trigger] rv.contains(p) implies s1.contains(p) by {
                if p == sorted[i as int] {
                    assert(s1[i as int] == p);
                } else {
                    if keep {
                        let j = choose|j: int| 0 <= j < rv.len() && rv[j] == p;
                        assert(j < old_r.len());
                        assert(old_r[j] == p);
                        assert(old_r.contains(p));
                    } else {
                        assert(old_r.contains(p));
                    }
                    assert(s0.contains(p));
                    let m = choose|m: int| 0 <= m < s0.len() && s0[m] == p;
                    assert(s1[m] == p);
                }
            }
            assert forall|p: Seq<char>| #[trigger] s1.contains(p) implies rv.contains(p) by {
                if p == sorted[i as int] {
                    if keep {
                        assert(rv[rv.len() - 1] == p);
                    } else {
                        assert(old_r.contains(p));
                    }
                } else {
                    let j = choose|j: int| 0 <= j < s1.len() && s1[j] == p;
                    assert(j < i);
                    assert(s0[j] == p);
                    assert(s0.contains(p));
                    assert(old_r.contains(p));
                    let m = choose|m: int| 0 <= m < old_r.len() && old_r[m] == p;
                    assert(rv[m] == p);
                }
            }
        }
        i = i + 1;
    }
    assert(sorted.take(sorted.len() as int) =~= sorted);
    r
}

/// The recommended install command for the detected environments.
pub open spec fn spec_recommended_install_command(environments: Seq<Environment>) -> Seq<char> {
    if environments.len() == 0 || environments.contains(Environment::Rust) {
        "cargo install polydup-cli"@
    } else {
        environments[0].spec_install_command()
    }
}

/// Get a recommended install command based on detected environments
pub fn recommended_install_command(environments: &[Environment]) -> (r: &'static str)
    ensures
        r@ == spec_recommended_install_command(environments@),
{
    if environments.len() == 0 {
        // Universal install method
        return "cargo install polydup-cli";
    }
    // Prioritize Rust if detected (native install)
    let mut i: usize = 0;
    while i < environments.len()
        invariant
            i <= environments.len(),
            forall|k: int| 0 <= k < i ==> environments@[k] != Environment::Rust,
        decreases environments.len() - i,
    {
        if environments[i] == Environment::Rust {
            return "cargo install polydup-cli";
        }
        i = i + 1;
    }
    // Otherwise use the first detected environment's method
    environments[0].install_command()
}

} // verus!
