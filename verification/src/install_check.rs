//! Installation check: reading what `pip show` and `npm list` print, and the
//! report of the installations found with a warning when their versions
//! differ. Running the package managers is the caller's task.

use vstd::prelude::*;
use crate::text::{
    append_str, chars_of, contains_seq, is_whitespace, char_is_whitespace, lines_of, owned,
    split_lines, starts_with_seq, str_contains, str_eq, str_starts_with, string_of, trim_seq,
    trim_text,
};

verus! {

broadcast use vstd::string::group_string_axioms;

/// The source/method of installation
#[derive(Clone, Copy, Debug, PartialEq, Eq, Structural)]
pub enum InstallSource {
    Cargo,
    Pip,
    Npm,
}

impl InstallSource {
    /// The name of the package manager.
    pub open spec fn spec_name(self) -> Seq<char> {
        match self {
            InstallSource::Cargo => "cargo"@,
            InstallSource::Pip => "pip"@,
            InstallSource::Npm => "npm"@,
        }
    }

    /// The name of the package manager.
    pub fn name(&self) -> (r: &'static str)
        ensures
            r@ == self.spec_name(),
    {
        match self {
            InstallSource::Cargo => "cargo",
            InstallSource::Pip => "pip",
            InstallSource::Npm => "npm",
        }
    }
}

/// Represents a detected polydup installation
pub struct Installation {
    pub source: InstallSource,
    pub version: Option<String>,
    pub path: Option<String>,
    pub is_active: bool,
}

// ---------------------------------------------------------------------------
// Reading package manager output
// ---------------------------------------------------------------------------

/// `s` with every leading repetition of `p` removed (std
/// `str::trim_start_matches` with a text pattern).
pub open spec fn strip_all_prefix(s: Seq<char>, p: Seq<char>) -> Seq<char>
    decreases s.len(),
{
    if p.len() > 0 && starts_with_seq(s, p) {
        strip_all_prefix(s.skip(p.len() as int), p)
    } else {
        s
    }
}

/// The first line that starts with `p`.
pub open spec fn first_starting_with(lines: Seq<Seq<char>>, p: Seq<char>) -> Option<Seq<char>>
    decreases lines.len(),
{
    if lines.len() == 0 {
        None
    } else {
        match first_starting_with(lines.drop_last(), p) {
            Some(l) => Some(l),
            None => if starts_with_seq(lines.last(), p) {
                Some(lines.last())
            } else {
                None
            },
        }
    }
}

/// The first line that contains `p`.
pub open spec fn first_containing(lines: Seq<Seq<char>>, p: Seq<char>) -> Option<Seq<char>>
    decreases lines.len(),
{
    if lines.len() == 0 {
        None
    } else {
        match first_containing(lines.drop_last(), p) {
            Some(l) => Some(l),
            None => if contains_seq(lines.last(), p) {
                Some(lines.last())
            } else {
                None
            },
        }
    }
}

/// The value of a `Key:` line of `pip show` output: the first line starting
/// with the key, without the key and surrounding whitespace.
pub open spec fn pip_field(stdout: Seq<char>, key: Seq<char>) -> Option<Seq<char>> {
    match first_starting_with(lines_of(stdout), key) {
        Some(l) => Some(trim_seq(strip_all_prefix(l, key))),
        None => None,
    }
}

fn strip_all_prefix_text(s: &str, p: &str) -> (r: String)
    ensures
        r@ == strip_all_prefix(s@, p@),
{
    let v = chars_of(s);
    let pv = chars_of(p);
    let mut i: usize = 0;
    assert(v@.skip(0) =~= v@);
    while pv.len() > 0 && v.len() - i >= pv.len() && crate::text::matches_at(&v, &pv, i)
        invariant
            i <= v.len(),
            v@ == s@,
            pv@ == p@,
            strip_all_prefix(v@.skip(i as int), p@) == strip_all_prefix(s@, p@),
        decreases v.len() - i,
    {
        let ghost rest = v@.skip(i as int);
        assert(rest.subrange(0, p@.len() as int) =~= v@.subrange(i as int, i + p@.len()));
        assert(starts_with_seq(rest, p@));
        assert(rest.skip(p@.len() as int) =~= v@.skip(i + pv.len()));
        i = i + pv.len();
    }
    let ghost rest = v@.skip(i as int);
    proof {
        if p@.len() > 0 && starts_with_seq(rest, p@) {
            assert(v@.subrange(i as int, i + p@.len()) =~= rest.subrange(0, p@.len() as int));
        }
    }
    let mut w: Vec<char> = Vec::new();
    let mut k: usize = i;
    while k < v.len()
        invariant
            i <= k <= v.len(),
            w@ == v@.subrange(i as int, k as int),
        decreases v.len() - k,
    {
        w.push(v[k]);
        assert(v@.subrange(i as int, k + 1) =~= v@.subrange(i as int, k as int).push(v@[k as int]));
        k = k + 1;
    }
    assert(w@ =~= rest);
    string_of(&w)
}

/// A field of `pip show` output.
pub fn pip_show_field(stdout: &str, key: &str) -> (r: Option<String>)
    ensures
        match r {
            Some(t) => pip_field(stdout@, key@) == Some(t@),
            None => pip_field(stdout@, key@) is None,
        },
{
    let lines = split_lines(stdout);
    let ghost lv = lines.deep_view();
    let mut i: usize = 0;
    while i < lines.len()
        invariant
            i <= lines.len(),
            lv == lines.deep_view(),
            lv == lines_of(stdout@),
            first_starting_with(lv.take(i as int), key@) is None,
        decreases lines.len() - i,
    {
        assert(lv.take(i + 1).drop_last() =~= lv.take(i as int));
        assert(lv.take(i + 1).last() == lines[i as int]@);
        if str_starts_with(lines[i].as_str(), key) {
            proof {
                lemma_first_starting_with_prefix(lv, key@, i as int + 1);
            }
            let stripped = strip_all_prefix_text(lines[i].as_str(), key);
            return Some(trim_text(stripped.as_str()));
        }
        i = i + 1;
    }
    assert(lv.take(lines.len() as int) =~= lv);
    None
}

/// A first match in a prefix is the first match of the whole.
proof fn lemma_first_starting_with_prefix(lines: Seq<Seq<char>>, p: Seq<char>, n: int)
    requires
        0 <= n <= lines.len(),
        first_starting_with(lines.take(n), p) is Some,
    ensures
        first_starting_with(lines, p) == first_starting_with(lines.take(n), p),
    decreases lines.len(),
{
    if n < lines.len() {
        assert(lines.drop_last().take(n) =~= lines.take(n));
        lemma_first_starting_with_prefix(lines.drop_last(), p, n);
    } else {
        assert(lines.take(n) =~= lines);
    }
}

/// A first match in a prefix is the first match of the whole.
proof fn lemma_first_containing_prefix(lines: Seq<Seq<char>>, p: Seq<char>, n: int)
    requires
        0 <= n <= lines.len(),
        first_containing(lines.take(n), p) is Some,
    ensures
        first_containing(lines, p) == first_containing(lines.take(n), p),
    decreases lines.len(),
{
    if n < lines.len() {
        assert(lines.drop_last().take(n) =~= lines.take(n));
        lemma_first_containing_prefix(lines.drop_last(), p, n);
    } else {
        assert(lines.take(n) =~= lines);
    }
}

/// The words of `s` after the partial word `cur`: maximal runs of
/// characters other than whitespace.
pub open spec fn words_from(s: Seq<char>, cur: Seq<char>) -> Seq<Seq<char>>
    decreases s.len(),
{
    if s.len() == 0 {
        if cur.len() == 0 {
            Seq::empty()
        } else {
            seq![cur]
        }
    } else if is_whitespace(s[0]) {
        (if cur.len() == 0 {
            Seq::empty()
        } else {
            seq![cur]
        }) + words_from(s.drop_first(), Seq::empty())
    } else {
        words_from(s.drop_first(), cur.push(s[0]))
    }
}

/// The words of a text, as std's `str::split_whitespace` yields them.
pub open spec fn words_of(s: Seq<char>) -> Seq<Seq<char>> {
    words_from(s, Seq::empty())
}

/// The words of a text (std `str::split_whitespace`).
pub fn split_words(s: &str) -> (r: Vec<String>)
    ensures
        r.deep_view() == words_of(s@),
{
    let v = chars_of(s);
    let mut r: Vec<String> = Vec::new();
    let mut cur: Vec<char> = Vec::new();
    let mut i: usize = 0;
    assert(s@.skip(0) =~= s@);
    while i < v.len()
        invariant
            i <= v.len(),
            v@ == s@,
            r.deep_view() + words_from(s@.skip(i as int), cur@) == words_of(s@),
        decreases v.len() - i,
    {
        let ghost rest = s@.skip(i as int);
        assert(rest.drop_first() =~= s@.skip(i + 1));
        if char_is_whitespace(v[i]) {
            let ghost old_r = r.deep_view();
            if cur.len() > 0 {
                r.push(string_of(&cur));
                assert(r.deep_view() =~= old_r + seq![cur@]);
                assert(old_r + (seq![cur@] + words_from(s@.skip(i + 1), Seq::empty())) =~= old_r
                    + seq![cur@] + words_from(s@.skip(i + 1), Seq::empty()));
            } else {
                assert(old_r + (Seq::<Seq<char>>::empty() + words_from(s@.skip(i + 1), Seq::empty()))
                    =~= old_r + words_from(s@.skip(i + 1), Seq::empty()));
            }
            cur = Vec::new();
            assert(cur@ =~= Seq::<char>::empty());
        } else {
            cur.push(v[i]);
        }
        i = i + 1;
    }
    assert(s@.skip(v.len() as int) =~= Seq::<char>::empty());
    if cur.len() > 0 {
        let ghost old_r = r.deep_view();
        r.push(string_of(&cur));
        assert(r.deep_view() =~= old_r + seq![cur@]);
    } else {
        assert(r.deep_view() + Seq::<Seq<char>>::empty() =~= r.deep_view());
    }
    r
}

/// The first word that contains `p`.
pub open spec fn first_word_containing(words: Seq<Seq<char>>, p: Seq<char>) -> Option<Seq<char>> {
    first_containing(words, p)
}

/// The text after the last `@` of a word (the whole word without one).
pub open spec fn after_last_at(w: Seq<char>) -> Seq<char> {
    w.skip(crate::scan::last_index_of(w, '@') + 1)
}

/// What `npm list -g polydup` printed, in its text form: `None` when it
/// does not mention `polydup@`, else the version after the `@` of the first
/// word mentioning it on the first line mentioning it, when there is one.
pub open spec fn npm_text_version(stdout: Seq<char>) -> Option<Option<Seq<char>>> {
    if !contains_seq(stdout, "polydup@"@) {
        None
    } else {
        Some(
            match first_containing(lines_of(stdout), "polydup@"@) {
                Some(line) => match first_word_containing(words_of(line), "polydup@"@) {
                    Some(w) => Some(trim_seq(after_last_at(w))),
                    None => None,
                },
                None => None,
            },
        )
    }
}

/// The first text of `items` that contains `p`.
fn find_containing(items: &Vec<String>, p: &str) -> (r: Option<usize>)
    ensures
        match r {
            Some(i) => i < items.len() && first_containing(items.deep_view(), p@) == Some(
                items.deep_view()[i as int],
            ),
            None => first_containing(items.deep_view(), p@) is None,
        },
{
    let ghost iv = items.deep_view();
    let mut i: usize = 0;
    while i < items.len()
        invariant
            i <= items.len(),
            iv == items.deep_view(),
            first_containing(iv.take(i as int), p@) is None,
        decreases items.len() - i,
    {
        assert(iv.take(i + 1).drop_last() =~= iv.take(i as int));
        assert(iv.take(i + 1).last() == items[i as int]@);
        if str_contains(items[i].as_str(), p) {
            proof {
                lemma_first_containing_prefix(iv, p@, i as int + 1);
            }
            return Some(i);
        }
        i = i + 1;
    }
    assert(iv.take(items.len() as int) =~= iv);
    None
}

/// The version that `serde_json` finds in a JSON text at
/// `dependencies.polydup.version`, when the text parses and that value is a
/// string.
pub uninterp spec fn npm_json_version_of(text: Seq<char>) -> Option<Seq<char>>;

/// Calls `serde_json::from_str` into a `serde_json::Value`, then
/// `Value::get` for `dependencies`, `polydup` and `version` in turn and
/// `Value::as_str`. The contract claims only that the result is the string
/// found there, named by `npm_json_version_of`; what JSON text parses and how
/// is left to serde_json.
#[verifier::external_body]
fn npm_json_version(stdout: &str) -> (r: Option<String>)
    ensures
        match r {
            Some(v) => npm_json_version_of(stdout@) == Some(v@),
            None => npm_json_version_of(stdout@) is None,
        },
{
    let json: serde_json::Value = serde_json::from_str(stdout).ok()?;
    let version = json.get("dependencies")?.get("polydup")?.get("version")?.as_str()?;
    Some(version.to_string())
}

/// An npm installation with the given version: npm holds the library
/// bindings, never the active command line tool, and gives no path.
pub fn npm_installation(version: Option<String>) -> (r: Installation)
    ensures
        r.source == InstallSource::Npm,
        r.version == version,
        r.path is None,
        !r.is_active,
{
    Installation { source: InstallSource::Npm, version, path: None, is_active: false }
}

/// Reads the JSON form of `npm list -g polydup --json`: an installation when
/// it names the version of the `polydup` dependency, else `None`.
pub fn npm_json_installation(stdout: &str) -> (r: Option<Installation>)
    ensures
        match (npm_json_version_of(stdout@), r) {
            (Some(v), Some(i)) => i.source == InstallSource::Npm && i.path is None && !i.is_active
                && match i.version {
                    Some(w) => w@ == v,
                    None => false,
                },
            (None, None) => true,
            _ => false,
        },
{
    match npm_json_version(stdout) {
        Some(v) => Some(npm_installation(Some(v))),
        None => None,
    }
}

/// Reads the text form of `npm list -g polydup`: an installation when the
/// text names `polydup@`, with the version read from it where there is one.
pub fn npm_text_installation(stdout: &str) -> (r: Option<Installation>)
    ensures
        match (npm_text_version(stdout@), r) {
            (Some(v), Some(i)) => i.source == InstallSource::Npm && i.path is None && !i.is_active
                && match (i.version, v) {
                    (Some(w), Some(u)) => w@ == u,
                    (None, None) => true,
                    _ => false,
                },
            (None, None) => true,
            _ => false,
        },
{
    match parse_npm_text_output(stdout) {
        Some(v) => Some(npm_installation(v)),
        None => None,
    }
}

/// Reads the text form of `npm list -g polydup`.
pub fn parse_npm_text_output(stdout: &str) -> (r: Option<Option<String>>)
    ensures
        match r {
            None => npm_text_version(stdout@) is None,
            Some(None) => npm_text_version(stdout@) == Some(None::<Seq<char>>),
            Some(Some(v)) => npm_text_version(stdout@) == Some(Some(v@)),
        },
{
    if !str_contains(stdout, "polydup@") {
        return None;
    }
    let lines = split_lines(stdout);
    let line = match find_containing(&lines, "polydup@") {
        Some(i) => i,
        None => {
            return Some(None);
        },
    };
    let words = split_words(lines[line].as_str());
    let w = match find_containing(&words, "polydup@") {
        Some(k) => k,
        None => {
            return Some(None);
        },
    };
    let wv = chars_of(words[w].as_str());
    let mut j: usize = wv.len();
    assert(wv@.take(wv.len() as int) =~= wv@);
    while j > 0 && wv[j - 1] != '@'
        invariant
            j <= wv.len(),
            crate::scan::last_index_of(wv@.take(j as int), '@') == crate::scan::last_index_of(wv@, '@'),
        decreases j,
    {
        assert(wv@.take(j as int).drop_last() =~= wv@.take(j - 1));
        j = j - 1;
    }
    if j > 0 {
        assert(wv@.take(j as int).last() == wv@[j - 1]);
    } else {
        assert(wv@.take(0) =~= Seq::<char>::empty());
    }
    let mut tail: Vec<char> = Vec::new();
    let mut k: usize = j;
    while k < wv.len()
        invariant
            j <= k <= wv.len(),
            tail@ == wv@.subrange(j as int, k as int),
        decreases wv.len() - k,
    {
        tail.push(wv[k]);
        assert(wv@.subrange(j as int, k + 1) =~= wv@.subrange(j as int, k as int).push(wv@[k as int]));
        k = k + 1;
    }
    assert(tail@ =~= after_last_at(wv@));
    let t = string_of(&tail);
    Some(Some(trim_text(t.as_str())))
}

// ---------------------------------------------------------------------------
// Report
// ---------------------------------------------------------------------------

/// The known versions of the installations, in order.
pub open spec fn known_versions(installs: Seq<Installation>) -> Seq<Seq<char>>
    decreases installs.len(),
{
    if installs.len() == 0 {
        Seq::empty()
    } else {
        let rest = known_versions(installs.drop_last());
        match installs.last().version {
            Some(v) => rest.push(v@),
            None => rest,
        }
    }
}

/// Every version equals the next one.
pub open spec fn neighbours_equal(vs: Seq<Seq<char>>) -> bool {
    forall|i: int| 0 <= i < vs.len() - 1 ==> #[trigger] vs[i] == vs[i + 1]
}

/// Every two versions are equal.
pub open spec fn all_equal(vs: Seq<Seq<char>>) -> bool {
    forall|i: int, j: int| 0 <= i < vs.len() && 0 <= j < vs.len() ==> #[trigger] vs[i] == #[trigger] vs[j]
}

/// Comparing neighbours, as the installation check does, detects exactly
/// the sequences with two different versions.
pub proof fn lemma_neighbours_equal_all(vs: Seq<Seq<char>>)
    ensures
        neighbours_equal(vs) <==> all_equal(vs),
{
    if neighbours_equal(vs) {
        assert forall|i: int, j: int| 0 <= i < vs.len() && 0 <= j < vs.len() implies #[trigger] vs[i]
            == #[trigger] vs[j] by {
            lemma_chain(vs, i);
            lemma_chain(vs, j);
        }
    }
    if all_equal(vs) {
        assert forall|i: int| 0 <= i < vs.len() - 1 implies #[trigger] vs[i] == vs[i + 1] by {
            assert(vs[i] == vs[i + 1]);
        }
    }
}

proof fn lemma_chain(vs: Seq<Seq<char>>, i: int)
    requires
        neighbours_equal(vs),
        0 <= i < vs.len(),
    ensures
        vs[i] == vs[0],
    decreases i,
{
    if i > 0 {
        lemma_chain(vs, i - 1);
        assert(vs[i - 1] == vs[i]);
    }
}

/// The line of one installation.
pub open spec fn installation_line(i: Installation, verbose: bool) -> Seq<char> {
    let icon = match i.source {
        InstallSource::Pip => "🐍"@,
        _ => "📦"@,
    };
    "  "@ + icon + " "@ + i.source.spec_name() + ": "@ + (match i.version {
        Some(v) => v@,
        None => "unknown"@,
    }) + " "@ + (if i.is_active {
        "(active)"@
    } else {
        "(library only)"@
    }) + "\n"@ + (if verbose && i.path is Some {
        "      "@ + i.path->0@ + "\n"@
    } else {
        Seq::empty()
    })
}

/// The lines of the first `n` installations.
pub open spec fn installation_lines(s: Seq<Installation>, n: int, verbose: bool) -> Seq<char>
    decreases n,
{
    if n <= 0 {
        Seq::empty()
    } else {
        installation_lines(s, n - 1, verbose) + installation_line(s[n - 1], verbose)
    }
}

/// Some installation comes from pip or npm.
pub open spec fn has_library_packages(s: Seq<Installation>) -> bool {
    exists|k: int| 0 <= k < s.len() && (#[trigger] s[k]).source != InstallSource::Cargo
}

/// The installation check report.
pub open spec fn installations_text(s: Seq<Installation>, verbose: bool, cli_version: Seq<char>) -> Seq<char> {
    let head = "PolyDup Installation Check\n"@ + "════════════════════════════════════════\n"@
        + "\nCLI Version: "@ + cli_version + " (active)\n"@;
    if s.len() <= 1 {
        head + "\nNo additional installations detected.\n"@
    } else {
        let vs = known_versions(s);
        head + "\nDetected Installations:\n"@ + installation_lines(s, s.len() as int, verbose) + (if !all_equal(
            vs,
        ) && vs.len() > 1 {
            "\n"@ + "⚠️ Version mismatch detected!\n"@ + "   Different versions may cause unexpected behavior.\n"@
                + "   Update CLI: cargo install polydup --force\n"@
        } else {
            Seq::empty()
        }) + (if has_library_packages(s) {
            "\n"@ + "Note:\n"@ + "  pip and npm packages are library bindings for programmatic use.\n"@
                + "  For CLI usage, use: cargo install polydup\n"@
        } else {
            Seq::empty()
        })
    }
}

fn installation_line_of(i: &Installation, verbose: bool) -> (r: String)
    ensures
        r@ == installation_line(*i, verbose),
{
    let icon = match i.source {
        InstallSource::Pip => "🐍",
        _ => "📦",
    };
    let mut t = owned("  ");
    append_str(&mut t, icon);
    append_str(&mut t, " ");
    append_str(&mut t, i.source.name());
    append_str(&mut t, ": ");
    match &i.version {
        Some(v) => append_str(&mut t, v.as_str()),
        None => append_str(&mut t, "unknown"),
    }
    append_str(&mut t, " ");
    append_str(&mut t, if i.is_active { "(active)" } else { "(library only)" });
    append_str(&mut t, "\n");
    let mut p = String::new();
    if verbose {
        match &i.path {
            Some(path) => {
                p = owned("      ");
                append_str(&mut p, path.as_str());
                append_str(&mut p, "\n");
            },
            None => {},
        }
    }
    append_str(&mut t, p.as_str());
    t
}

/// Display installation check results
pub fn display_installations(installations: &Vec<Installation>, verbose: bool, cli_version: &str) -> (r: String)
    ensures
        r@ == installations_text(installations@, verbose, cli_version@),
{
    let mut head = owned("PolyDup Installation Check\n");
    append_str(&mut head, "════════════════════════════════════════\n");
    append_str(&mut head, "\nCLI Version: ");
    append_str(&mut head, cli_version);
    append_str(&mut head, " (active)\n");
    if installations.len() <= 1 {
        append_str(&mut head, "\nNo additional installations detected.\n");
        return head;
    }
    let ghost s = installations@;
    let mut lines = String::new();
    let mut versions: Vec<String> = Vec::new();
    let mut library = false;
    let mut i: usize = 0;
    while i < installations.len()
        invariant
            i <= installations.len(),
            s == installations@,
            lines@ == installation_lines(s, i as int, verbose),
            versions.deep_view() == known_versions(s.take(i as int)),
            library == (exists|k: int| 0 <= k < i && (#[trigger] s[k]).source != InstallSource::Cargo),
        decreases installations.len() - i,
    {
        let inst = &installations[i];
        let line = installation_line_of(inst, verbose);
        append_str(&mut lines, line.as_str());
        assert(s.take(i + 1).drop_last() =~= s.take(i as int));
        assert(s.take(i + 1).last() == *inst);
        match &inst.version {
            Some(v) => {
                let ghost before = versions.deep_view();
                versions.push(v.clone());
                assert(versions.deep_view() =~= before.push(v@));
            },
            None => {},
        }
        if inst.source != InstallSource::Cargo {
            library = true;
        }
        i = i + 1;
    }
    assert(s.take(installations.len() as int) =~= s);
    // Check for version mismatches
    let ghost vs = versions.deep_view();
    let mut same = true;
    let n = versions.len();
    let mut k: usize = 0;
    while k < n && n - k > 1
        invariant
            k <= n,
            n == 0 || k < n,
            n == versions.len(),
            vs == versions.deep_view(),
            same == (forall|m: int| 0 <= m < k ==> #[trigger] vs[m] == vs[m + 1]),
        decreases n - k,
    {
        let eq = str_eq(versions[k].as_str(), versions[k + 1].as_str());
        assert(eq == (vs[k as int] == vs[k + 1]));
        if !eq {
            same = false;
        }
        assert(same == (forall|m: int| 0 <= m < k + 1 ==> #[trigger] vs[m] == vs[m + 1])) by {
            if !eq {
                assert(!(vs[k as int] == vs[k as int + 1]));
            }
        }
        k = k + 1;
    }
    proof {
        lemma_neighbours_equal_all(vs);
        if versions.len() > 1 {
            assert(k == n - 1);
            if same {
                assert forall|i: int| 0 <= i < vs.len() - 1 implies #[trigger] vs[i] == vs[i + 1] by {
                    assert(0 <= i < k);
                }
            } else {
                let m = choose|m: int| 0 <= m < k && !(#[trigger] vs[m] == vs[m + 1]);
                assert(!(vs[m] == vs[m + 1]));
            }
            assert(same == neighbours_equal(vs));
        }
    }
    let mut t = head;
    append_str(&mut t, "\nDetected Installations:\n");
    append_str(&mut t, lines.as_str());
    let mut mismatch = String::new();
    if !same && versions.len() > 1 {
        mismatch = owned("\n");
        append_str(&mut mismatch, "⚠️ Version mismatch detected!\n");
        append_str(&mut mismatch, "   Different versions may cause unexpected behavior.\n");
        append_str(&mut mismatch, "   Update CLI: cargo install polydup --force\n");
    }
    append_str(&mut t, mismatch.as_str());
    let mut note = String::new();
    if library {
        note = owned("\n");
        append_str(&mut note, "Note:\n");
        append_str(&mut note, "  pip and npm packages are library bindings for programmatic use.\n");
        append_str(&mut note, "  For CLI usage, use: cargo install polydup\n");
    }
    append_str(&mut t, note.as_str());
    t
}

} // verus!
