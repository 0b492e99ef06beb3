//! Watch mode: which changed files trigger a new scan, and what is printed
//! about the scans. Watching, timing and the clock are the caller's task.

use vstd::prelude::*;
use crate::dashboard::distinct_in_order;
use crate::detect::contains_text;
use crate::report::{DuplicateMatch, Report};
use crate::scan::{extension_of, extension_text, file_name_part, join_strings, join_texts, last_index_of};
use crate::text::{
    append_str, chars_of, contains_seq, decimal, ends_with_seq, owned, push_decimal, starts_with_seq,
    str_contains, str_eq, string_of,
};
use crate::vcs::strip_trailing_slashes;

verus! {

broadcast use vstd::string::group_string_axioms;

/// The extensions of the source files that watch mode follows.
pub open spec fn source_extensions() -> Seq<Seq<char>> {
    seq!["rs"@, "js"@, "ts"@, "jsx"@, "tsx"@, "py"@, "vue"@, "svelte"@]
}

/// A path is a source file when its extension is one that watch mode
/// follows.
pub open spec fn is_source_path(path: Seq<char>) -> bool {
    match extension_of(path) {
        Some(e) => source_extensions().contains(e),
        None => false,
    }
}

/// The last occurrence of `c` is unchanged by appending text without `c`.
proof fn lemma_last_index_append(a: Seq<char>, b: Seq<char>, c: char)
    requires
        forall|i: int| 0 <= i < b.len() ==> b[i] != c,
    ensures
        last_index_of(a + b, c) == last_index_of(a, c),
    decreases b.len(),
{
    if b.len() == 0 {
        assert(a + b =~= a);
    } else {
        assert((a + b).drop_last() =~= a + b.drop_last());
        assert((a + b).last() == b.last());
        lemma_last_index_append(a, b.drop_last(), c);
    }
}

/// Watch mode follows exactly the files with the extensions rs, js, ts,
/// jsx, tsx, py, vue and svelte: a file named `stem.ext`, in any directory
/// or none, is a source file when `ext` is one of them, and not otherwise.
pub proof fn lemma_source_files_by_extension(dir: Seq<char>, stem: Seq<char>, ext: Seq<char>)
    requires
        dir.len() == 0 || dir.last() == '/',
        stem.len() > 0,
        forall|i: int| 0 <= i < stem.len() ==> stem[i] != '/',
        forall|i: int| 0 <= i < ext.len() ==> ext[i] != '/' && ext[i] != '.',
    ensures
        is_source_path(dir + stem + "."@ + ext) <==> (ext == "rs"@ || ext == "js"@ || ext == "ts"@ || ext
            == "jsx"@ || ext == "tsx"@ || ext == "py"@ || ext == "vue"@ || ext == "svelte"@),
{
    reveal_strlit(".");
    reveal_strlit("..");
    reveal_strlit("rs");
    reveal_strlit("js");
    reveal_strlit("ts");
    reveal_strlit("jsx");
    reveal_strlit("tsx");
    reveal_strlit("py");
    reveal_strlit("vue");
    reveal_strlit("svelte");
    let name = stem + "."@ + ext;
    let p = dir + stem + "."@ + ext;
    assert(p =~= dir + name);
    assert forall|i: int| 0 <= i < name.len() implies name[i] != '/' by {
        if i < stem.len() {
            assert(name[i] == stem[i]);
        } else if i > stem.len() {
            assert(name[i] == ext[i - stem.len() - 1]);
        }
    }
    lemma_last_index_append(dir, name, '/');
    if dir.len() > 0 {
        assert(dir =~= dir.drop_last().push('/'));
    } else {
        assert(last_index_of(dir, '/') == -1);
    }
    assert(last_index_of(p, '/') == dir.len() - 1);
    assert(file_name_part(p) =~= name);
    let with_dot = stem + "."@;
    assert(name =~= with_dot + ext);
    lemma_last_index_append(with_dot, ext, '.');
    assert(with_dot.last() == '.');
    assert(last_index_of(with_dot, '.') == stem.len());
    let s = source_extensions();
    if name == ".."@ {
        assert(name.len() == 2);
        assert(ext.len() == 0);
    } else {
        assert(name.skip(stem.len() + 1int) =~= ext);
        assert(extension_of(p) == Some(ext));
        if s.contains(ext) {
            let k = choose|k: int| 0 <= k < s.len() && s[k] == ext;
            assert(k == 0 || k == 1 || k == 2 || k == 3 || k == 4 || k == 5 || k == 6 || k == 7);
        }
        if ext == "rs"@ { assert(s[0] == ext); }
        if ext == "js"@ { assert(s[1] == ext); }
        if ext == "ts"@ { assert(s[2] == ext); }
        if ext == "jsx"@ { assert(s[3] == ext); }
        if ext == "tsx"@ { assert(s[4] == ext); }
        if ext == "py"@ { assert(s[5] == ext); }
        if ext == "vue"@ { assert(s[6] == ext); }
        if ext == "svelte"@ { assert(s[7] == ext); }
    }
}

/// A file whose name has no `.`, in any directory or none, is never a
/// source file.
pub proof fn lemma_no_extension_no_source(dir: Seq<char>, name: Seq<char>)
    requires
        dir.len() == 0 || dir.last() == '/',
        forall|i: int| 0 <= i < name.len() ==> name[i] != '/' && name[i] != '.',
    ensures
        !is_source_path(dir + name),
{
    lemma_last_index_append(dir, name, '/');
    if dir.len() > 0 {
        assert(dir =~= dir.drop_last().push('/'));
    } else {
        assert(last_index_of(dir, '/') == -1);
    }
    assert(file_name_part(dir + name) =~= name);
    lemma_last_index_append(Seq::<char>::empty(), name, '.');
    assert(Seq::<char>::empty() + name =~= name);
    assert(last_index_of(Seq::<char>::empty(), '.') == -1);
}

/// Check if a path is a source file we care about
pub fn is_source_file(path: &str) -> (r: bool)
    ensures
        r == is_source_path(path@),
{
    match extension_text(path) {
        Some(e) => {
            let x = e.as_str();
            let r = str_eq(x, "rs") || str_eq(x, "js") || str_eq(x, "ts") || str_eq(x, "jsx")
                || str_eq(x, "tsx") || str_eq(x, "py") || str_eq(x, "vue") || str_eq(x, "svelte");
            proof {
                let s = source_extensions();
                if r {
                    if e@ == "rs"@ { assert(s[0] == e@); }
                    if e@ == "js"@ { assert(s[1] == e@); }
                    if e@ == "ts"@ { assert(s[2] == e@); }
                    if e@ == "jsx"@ { assert(s[3] == e@); }
                    if e@ == "tsx"@ { assert(s[4] == e@); }
                    if e@ == "py"@ { assert(s[5] == e@); }
                    if e@ == "vue"@ { assert(s[6] == e@); }
                    if e@ == "svelte"@ { assert(s[7] == e@); }
                } else {
                    assert forall|k: int| 0 <= k < s.len() implies s[k] != e@ by {
                        assert(s[k] == source_extensions()[k]);
                    }
                }
            }
            r
        },
        None => false,
    }
}

/// The directories that watch mode always ignores.
pub open spec fn default_excludes() -> Seq<Seq<char>> {
    seq!["node_modules"@, "target"@, ".git"@, "__pycache__"@, "dist"@, "build"@]
}

/// The glob `p` matches the whole of `s`: `**/` stands for any number of
/// leading directories (none included), any other `**` for any text, `*`
/// for any text without a `/`, and every other character for itself.
pub open spec fn glob(p: Seq<char>, s: Seq<char>) -> bool
    decreases p.len() + s.len(), 0int,
{
    if p.len() == 0 {
        s.len() == 0
    } else if p.len() >= 3 && p[0] == '*' && p[1] == '*' && p[2] == '/' {
        glob(p.skip(3), s) || glob_after_any(p.skip(2), s)
    } else if p.len() >= 2 && p[0] == '*' && p[1] == '*' {
        glob_after_any(p.skip(2), s)
    } else if p[0] == '*' {
        glob(p.skip(1), s) || (s.len() > 0 && s[0] != '/' && glob(p, s.skip(1)))
    } else {
        s.len() > 0 && s[0] == p[0] && glob(p.skip(1), s.skip(1))
    }
}

/// The glob `rest` matches some suffix of `s` (what a `**` skips may hold
/// any character).
pub open spec fn glob_after_any(rest: Seq<char>, s: Seq<char>) -> bool
    decreases rest.len() + s.len(), 1int,
{
    glob(rest, s) || (s.len() > 0 && glob_after_any(rest, s.skip(1)))
}

/// The substring test for a pattern: `**/x` when the path contains `x`,
/// `x/**` when it contains `x`, and any other pattern when the path contains
/// it.
pub open spec fn contains_pattern(path: Seq<char>, pattern: Seq<char>) -> bool {
    if starts_with_seq(pattern, "**/"@) {
        contains_seq(path, pattern.skip(3))
    } else if ends_with_seq(pattern, "/**"@) {
        contains_seq(path, pattern.take(pattern.len() - 3))
    } else {
        contains_seq(path, pattern)
    }
}

/// A path matches an exclude pattern when the pattern, as a glob, matches
/// the whole path, or when the path contains the pattern's text (see
/// `contains_pattern`).
pub open spec fn matches_pattern(path: Seq<char>, pattern: Seq<char>) -> bool {
    glob(pattern, path) || contains_pattern(path, pattern)
}

/// A path is excluded when it matches one of the patterns or contains one
/// of the default excludes.
pub open spec fn is_excluded_path(path: Seq<char>, patterns: Seq<Seq<char>>) -> bool {
    (exists|i: int| 0 <= i < patterns.len() && matches_pattern(path, #[trigger] patterns[i]))
        || (exists|i: int| 0 <= i < default_excludes().len() && contains_seq(path, #[trigger] default_excludes()[i]))
}

/// The characters of `v` from `a` to `b`, as a string.
fn text_between(v: &Vec<char>, a: usize, b: usize) -> (r: String)
    requires
        a <= b <= v.len(),
    ensures
        r@ == v@.subrange(a as int, b as int),
{
    let mut w: Vec<char> = Vec::new();
    let mut i: usize = a;
    while i < b
        invariant
            a <= i <= b,
            b <= v.len(),
            w@ == v@.subrange(a as int, i as int),
        decreases b - i,
    {
        w.push(v[i]);
        assert(v@.subrange(a as int, i + 1) =~= v@.subrange(a as int, i as int).push(v@[i as int]));
        i = i + 1;
    }
    string_of(&w)
}

fn glob_at(p: &Vec<char>, i: usize, s: &Vec<char>, j: usize) -> (r: bool)
    requires
        i <= p.len(),
        j <= s.len(),
    ensures
        r == glob(p@.skip(i as int), s@.skip(j as int)),
    decreases (p.len() - i) + (s.len() - j), 0int,
{
    let ghost ps = p@.skip(i as int);
    let ghost ss = s@.skip(j as int);
    if i == p.len() {
        return j == s.len();
    }
    assert(ps[0] == p@[i as int]);
    assert(ps.skip(1) =~= p@.skip(i + 1));
    if j < s.len() {
        assert(ss[0] == s@[j as int]);
        assert(ss.skip(1) =~= s@.skip(j + 1));
    }
    if p.len() - i >= 3 && p[i] == '*' && p[i + 1] == '*' && p[i + 2] == '/' {
        assert(ps[1] == p@[i + 1] && ps[2] == p@[i + 2]);
        assert(ps.skip(3) =~= p@.skip(i + 3));
        assert(ps.skip(2) =~= p@.skip(i + 2));
        glob_at(p, i + 3, s, j) || glob_after_any_at(p, i + 2, s, j)
    } else if p.len() - i >= 2 && p[i] == '*' && p[i + 1] == '*' {
        assert(ps[1] == p@[i + 1]);
        assert(ps.skip(2) =~= p@.skip(i + 2));
        glob_after_any_at(p, i + 2, s, j)
    } else if p[i] == '*' {
        proof {
            if ps.len() >= 2 {
                assert(ps[1] == p@[i + 1]);
            }
            if ps.len() >= 3 {
                assert(ps[2] == p@[i + 2]);
            }
        }
        glob_at(p, i + 1, s, j) || (j < s.len() && s[j] != '/' && glob_at(p, i, s, j + 1))
    } else {
        j < s.len() && s[j] == p[i] && glob_at(p, i + 1, s, j + 1)
    }
}

fn glob_after_any_at(p: &Vec<char>, i: usize, s: &Vec<char>, j: usize) -> (r: bool)
    requires
        i <= p.len(),
        j <= s.len(),
    ensures
        r == glob_after_any(p@.skip(i as int), s@.skip(j as int)),
    decreases (p.len() - i) + (s.len() - j), 1int,
{
    if j < s.len() {
        assert(s@.skip(j as int).skip(1) =~= s@.skip(j + 1));
    }
    glob_at(p, i, s, j) || (j < s.len() && glob_after_any_at(p, i, s, j + 1))
}

/// Whether a glob matches the whole of a text.
pub fn glob_matches(pattern: &str, text: &str) -> (r: bool)
    ensures
        r == glob(pattern@, text@),
{
    let p = chars_of(pattern);
    let s = chars_of(text);
    assert(p@.skip(0) =~= p@);
    assert(s@.skip(0) =~= s@);
    glob_at(&p, 0, &s, 0)
}

fn matches_pattern_text(path: &str, pattern: &str) -> (r: bool)
    ensures
        r == matches_pattern(path@, pattern@),
{
    glob_matches(pattern, path) || contains_pattern_text(path, pattern)
}

fn contains_pattern_text(path: &str, pattern: &str) -> (r: bool)
    ensures
        r == contains_pattern(path@, pattern@),
{
    let pv = chars_of(pattern);
    if crate::text::str_starts_with(pattern, "**/") {
        proof {
            reveal_strlit("**/");
        }
        let suffix = text_between(&pv, 3, pv.len());
        assert(suffix@ =~= pattern@.skip(3));
        str_contains(path, suffix.as_str())
    } else if crate::text::str_ends_with(pattern, "/**") {
        proof {
            reveal_strlit("/**");
        }
        let prefix = text_between(&pv, 0, pv.len() - 3);
        assert(prefix@ =~= pattern@.take(pattern@.len() - 3));
        str_contains(path, prefix.as_str())
    } else {
        str_contains(path, pattern)
    }
}

/// Check if a path matches any exclude pattern
pub fn is_excluded(path: &str, exclude_patterns: &Vec<String>) -> (r: bool)
    ensures
        r == is_excluded_path(path@, exclude_patterns.deep_view()),
{
    let ghost pv = exclude_patterns.deep_view();
    let mut i: usize = 0;
    while i < exclude_patterns.len()
        invariant
            i <= exclude_patterns.len(),
            pv == exclude_patterns.deep_view(),
            forall|k: int| 0 <= k < i ==> !matches_pattern(path@, #[trigger] pv[k]),
        decreases exclude_patterns.len() - i,
    {
        if matches_pattern_text(path, exclude_patterns[i].as_str()) {
            assert(matches_pattern(path@, pv[i as int]));
            return true;
        }
        i = i + 1;
    }
    let defaults = ["node_modules", "target", ".git", "__pycache__", "dist", "build"];
    let mut k: usize = 0;
    while k < 6
        invariant
            k <= 6,
            forall|m: int| 0 <= m < i ==> !matches_pattern(path@, #[trigger] pv[m]),
            i == pv.len(),
            defaults@.len() == 6,
            forall|m: int| 0 <= m < 6 ==> defaults@[m]@ == #[trigger] default_excludes()[m],
            forall|m: int| 0 <= m < k ==> !contains_seq(path@, #[trigger] default_excludes()[m]),
        decreases 6 - k,
    {
        if str_contains(path, defaults[k]) {
            assert(contains_seq(path@, default_excludes()[k as int]));
            return true;
        }
        k = k + 1;
    }
    false
}

/// The file name of a path, when it has one.
pub open spec fn file_name_of(path: Seq<char>) -> Option<Seq<char>> {
    let n = file_name_part(strip_trailing_slashes(path));
    if n.len() == 0 || n == ".."@ {
        None
    } else {
        Some(n)
    }
}

/// The file names of the paths that have one, at most `limit` of them.
pub open spec fn first_file_names(paths: Seq<Seq<char>>, limit: nat) -> Seq<Seq<char>>
    decreases paths.len(),
{
    if paths.len() == 0 {
        Seq::empty()
    } else {
        let rest = first_file_names(paths.drop_last(), limit);
        match file_name_of(paths.last()) {
            Some(n) => if rest.len() < limit {
                rest.push(n)
            } else {
                rest
            },
            None => rest,
        }
    }
}

/// The changed files as shown: up to three file names, and how many more
/// files changed.
pub open spec fn changed_files_text(paths: Seq<Seq<char>>) -> Seq<char> {
    let names = join_texts(first_file_names(paths, 3), ", "@);
    if paths.len() > 3 {
        names + " (+"@ + decimal((paths.len() - 3) as nat) + " more)"@
    } else {
        names
    }
}

/// The file name of a path.
fn file_name_text(path: &str) -> (r: Option<String>)
    ensures
        match r {
            Some(n) => file_name_of(path@) == Some(n@),
            None => file_name_of(path@) is None,
        },
{
    let v = chars_of(path);
    let mut n = v.len();
    assert(v@.take(n as int) =~= v@);
    while n > 1 && v[n - 1] == '/'
        invariant
            n <= v.len(),
            strip_trailing_slashes(v@.take(n as int)) == strip_trailing_slashes(v@),
        decreases n,
    {
        assert(v@.take(n as int).drop_last() =~= v@.take(n - 1));
        n = n - 1;
    }
    let ghost q = v@.take(n as int);
    assert(strip_trailing_slashes(q) == q);
    let mut k = n;
    assert(q.take(n as int) =~= q);
    while k > 0 && v[k - 1] != '/'
        invariant
            k <= n,
            n <= v.len(),
            q == v@.take(n as int),
            crate::scan::last_index_of(q.take(k as int), '/') == crate::scan::last_index_of(q, '/'),
        decreases k,
    {
        assert(q.take(k as int).drop_last() =~= q.take(k - 1));
        k = k - 1;
    }
    if k > 0 {
        assert(q.take(k as int).last() == q[k - 1]);
    } else {
        assert(q.take(0) =~= Seq::<char>::empty());
    }
    let name = text_between(&v, k, n);
    assert(name@ =~= file_name_part(q));
    if k == n || str_eq(name.as_str(), "..") {
        None
    } else {
        Some(name)
    }
}

/// Format changed files for display: up to three file names, in the order
/// given, and the number of further files.
pub fn format_changed_files(files: &Vec<String>) -> (r: String)
    ensures
        r@ == changed_files_text(files.deep_view()),
{
    let ghost fv = files.deep_view();
    let mut names: Vec<String> = Vec::new();
    let mut i: usize = 0;
    while i < files.len()
        invariant
            i <= files.len(),
            fv == files.deep_view(),
            names.deep_view() == first_file_names(fv.take(i as int), 3),
        decreases files.len() - i,
    {
        assert(fv.take(i + 1).drop_last() =~= fv.take(i as int));
        assert(fv.take(i + 1).last() == files[i as int]@);
        match file_name_text(files[i].as_str()) {
            Some(n) => {
                if names.len() < 3 {
                    let ghost before = names.deep_view();
                    names.push(n);
                    assert(names.deep_view() =~= before.push(n@));
                }
            },
            None => {},
        }
        i = i + 1;
    }
    assert(fv.take(files.len() as int) =~= fv);
    let mut r = join_strings(&names, ", ");
    if files.len() > 3 {
        append_str(&mut r, " (+");
        push_decimal(&mut r, (files.len() - 3) as u64);
        append_str(&mut r, " more)");
    }
    r
}

/// The change summary after a rescan: duplicates detected or resolved,
/// then a blank line.
pub open spec fn change_summary_text(old_count: nat, new_count: nat) -> Seq<char> {
    (if new_count > old_count {
        let d = (new_count - old_count) as nat;
        "         [!] +"@ + decimal(d) + " duplicate"@ + (if d == 1 {
            Seq::empty()
        } else {
            "s"@
        }) + " detected\n"@
    } else if new_count < old_count {
        let d = (old_count - new_count) as nat;
        "         [ok] -"@ + decimal(d) + " duplicate"@ + (if d == 1 {
            Seq::empty()
        } else {
            "s"@
        }) + " resolved\n"@
    } else {
        Seq::empty()
    }) + "\n"@
}

/// Print change summary comparing old and new duplicate counts
pub fn print_change_summary(old_count: usize, new_count: usize) -> (r: String)
    ensures
        r@ == change_summary_text(old_count as nat, new_count as nat),
{
    let mut r = String::new();
    if new_count > old_count {
        let d = new_count - old_count;
        r = owned("         [!] +");
        push_decimal(&mut r, d as u64);
        append_str(&mut r, " duplicate");
        append_str(&mut r, if d == 1 { "" } else { "s" });
        append_str(&mut r, " detected\n");
        proof {
            reveal_strlit("");
            assert(""@ =~= Seq::<char>::empty());
        }
    } else if new_count < old_count {
        let d = old_count - new_count;
        r = owned("         [ok] -");
        push_decimal(&mut r, d as u64);
        append_str(&mut r, " duplicate");
        append_str(&mut r, if d == 1 { "" } else { "s" });
        append_str(&mut r, " resolved\n");
        proof {
            reveal_strlit("");
            assert(""@ =~= Seq::<char>::empty());
        }
    }
    let ghost before = r@;
    append_str(&mut r, "\n");
    r
}

/// The header printed when watch mode starts; the similarity is given as
/// the whole percent to show.
pub open spec fn watch_header_text(
    paths: Seq<Seq<char>>,
    min_block_size: nat,
    similarity_percent: nat,
    debounce_ms: nat,
) -> Seq<char> {
    "\n"@ + "╔═══════════════════════════════════════════════════════════╗\n"@
        + "║                    PolyDup Watch Mode                     ║\n"@
        + "╚═══════════════════════════════════════════════════════════╝\n"@ + "\n"@ + "  Paths: "@
        + join_texts(paths, ", "@) + "\n"@ + "  Min block: "@ + decimal(min_block_size) + " tokens\n"@
        + "  Similarity: "@ + decimal(similarity_percent) + "%\n"@ + "  Debounce: "@ + decimal(
        debounce_ms,
    ) + "ms\n"@
}

/// Print the watch mode header
pub fn print_header(paths: &Vec<String>, min_block_size: usize, similarity_percent: u32, debounce_ms: u64) -> (r: String)
    ensures
        r@ == watch_header_text(
            paths.deep_view(),
            min_block_size as nat,
            similarity_percent as nat,
            debounce_ms as nat,
        ),
{
    let joined = join_strings(paths, ", ");
    let mut r = owned("\n");
    append_str(&mut r, "╔═══════════════════════════════════════════════════════════╗\n");
    append_str(&mut r, "║                    PolyDup Watch Mode                     ║\n");
    append_str(&mut r, "╚═══════════════════════════════════════════════════════════╝\n");
    append_str(&mut r, "\n");
    append_str(&mut r, "  Paths: ");
    append_str(&mut r, joined.as_str());
    append_str(&mut r, "\n");
    append_str(&mut r, "  Min block: ");
    push_decimal(&mut r, min_block_size as u64);
    append_str(&mut r, " tokens\n");
    append_str(&mut r, "  Similarity: ");
    push_decimal(&mut r, similarity_percent as u64);
    append_str(&mut r, "%\n");
    append_str(&mut r, "  Debounce: ");
    push_decimal(&mut r, debounce_ms);
    append_str(&mut r, "ms\n");
    r
}

/// Format paths for display
pub fn format_paths(paths: &Vec<String>) -> (r: String)
    ensures
        r@ == join_texts(paths.deep_view(), ", "@),
{
    join_strings(paths, ", ")
}

/// The lines listing the first duplicates after the initial scan.
pub open spec fn duplicate_lines(dups: Seq<DuplicateMatch>) -> Seq<char>
    decreases dups.len(),
{
    if dups.len() == 0 {
        Seq::empty()
    } else {
        let d = dups.last();
        duplicate_lines(dups.drop_last()) + "    - "@ + d.file1@ + ":"@ + decimal(d.start_line1 as nat)
            + " <-> "@ + d.file2@ + ":"@ + decimal(d.start_line2 as nat) + "\n"@
    }
}

/// What is printed after the initial scan: duration, counts and, in verbose
/// mode, the first five duplicates.
pub open spec fn initial_scan_text(duration: Seq<char>, r: Report, verbose: bool) -> Seq<char> {
    let n = r.duplicates@.len();
    "\n"@ + "[ok] Initial scan complete in "@ + duration + "\n\n"@ + "  "@ + decimal(
        r.files_scanned as nat,
    ) + " files scanned, "@ + decimal(r.functions_analyzed as nat) + " functions analyzed\n"@
        + "  "@ + decimal(n) + " duplicates found\n\n"@ + (if verbose && n > 0 {
        "  Duplicates:\n"@ + duplicate_lines(r.duplicates@.take(if n > 5 { 5 } else { n as int }))
            + (if n > 5 {
            "    - ... and "@ + decimal((n - 5) as nat) + " more\n"@
        } else {
            Seq::empty()
        }) + "\n"@
    } else {
        Seq::empty()
    })
}

/// What is printed after the initial scan.
pub fn initial_scan_summary(duration: &str, report: &Report, verbose: bool) -> (r: String)
    ensures
        r@ == initial_scan_text(duration@, *report, verbose),
{
    let n = report.duplicates.len();
    let mut r = owned("\n");
    append_str(&mut r, "[ok] Initial scan complete in ");
    append_str(&mut r, duration);
    append_str(&mut r, "\n\n");
    append_str(&mut r, "  ");
    push_decimal(&mut r, report.files_scanned as u64);
    append_str(&mut r, " files scanned, ");
    push_decimal(&mut r, report.functions_analyzed as u64);
    append_str(&mut r, " functions analyzed\n");
    append_str(&mut r, "  ");
    push_decimal(&mut r, n as u64);
    append_str(&mut r, " duplicates found\n\n");
    let mut tail = String::new();
    if verbose && n > 0 {
        let shown = if n > 5 { 5 } else { n };
        tail = owned("  Duplicates:\n");
        let ghost head = tail@;
        let ghost dv = report.duplicates@;
        let mut i: usize = 0;
        while i < shown
            invariant
                i <= shown,
                shown <= n,
                n == dv.len(),
                dv == report.duplicates@,
                tail@ == head + duplicate_lines(dv.take(i as int)),
            decreases shown - i,
        {
            let d = &report.duplicates[i];
            assert(dv.take(i + 1).drop_last() =~= dv.take(i as int));
            assert(dv.take(i + 1).last() == *d);
            let mut line = owned("    - ");
            append_str(&mut line, d.file1.as_str());
            append_str(&mut line, ":");
            push_decimal(&mut line, d.start_line1 as u64);
            append_str(&mut line, " <-> ");
            append_str(&mut line, d.file2.as_str());
            append_str(&mut line, ":");
            push_decimal(&mut line, d.start_line2 as u64);
            append_str(&mut line, "\n");
            let ghost before = tail@;
            append_str(&mut tail, line.as_str());
            assert(tail@ =~= head + duplicate_lines(dv.take(i + 1)));
            i = i + 1;
        }
        let mut more = String::new();
        if n > 5 {
            more = owned("    - ... and ");
            push_decimal(&mut more, (n - 5) as u64);
            append_str(&mut more, " more\n");
        }
        append_str(&mut tail, more.as_str());
        append_str(&mut tail, "\n");
    }
    append_str(&mut r, tail.as_str());
    r
}

/// The line printed after a rescan.
pub fn rescan_summary(timestamp: &str, duration: &str, count: usize) -> (r: String)
    ensures
        r@ == "["@ + timestamp@ + "] [ok] Re-scanned in "@ + duration@ + ": "@ + decimal(count as nat)
            + " duplicates"@,
{
    let mut r = owned("[");
    append_str(&mut r, timestamp);
    append_str(&mut r, "] [ok] Re-scanned in ");
    append_str(&mut r, duration);
    append_str(&mut r, ": ");
    push_decimal(&mut r, count as u64);
    append_str(&mut r, " duplicates");
    r
}

/// The source files, not excluded, among the paths of a batch of file
/// events.
pub open spec fn relevant_paths(paths: Seq<Seq<char>>, exclude: Seq<Seq<char>>) -> Seq<Seq<char>>
    decreases paths.len(),
{
    if paths.len() == 0 {
        Seq::empty()
    } else {
        let rest = relevant_paths(paths.drop_last(), exclude);
        let p = paths.last();
        if is_source_path(p) && !is_excluded_path(p, exclude) {
            rest.push(p)
        } else {
            rest
        }
    }
}

/// The changed files that trigger a rescan: the source files among the
/// event paths that no exclude pattern matches, each once, in the order of
/// their first event.
pub fn changed_sources(paths: &Vec<String>, exclude_patterns: &Vec<String>) -> (r: Vec<String>)
    ensures
        r.deep_view() == distinct_in_order(relevant_paths(paths.deep_view(), exclude_patterns.deep_view())),
{
    let ghost pv = paths.deep_view();
    let ghost ev = exclude_patterns.deep_view();
    let mut r: Vec<String> = Vec::new();
    let mut i: usize = 0;
    while i < paths.len()
        invariant
            i <= paths.len(),
            pv == paths.deep_view(),
            ev == exclude_patterns.deep_view(),
            r.deep_view() == distinct_in_order(relevant_paths(pv.take(i as int), ev)),
        decreases paths.len() - i,
    {
        assert(pv.take(i + 1).drop_last() =~= pv.take(i as int));
        assert(pv.take(i + 1).last() == paths@[i as int]@);
        let p = paths[i].as_str();
        if is_source_file(p) && !is_excluded(p, exclude_patterns) {
            let ghost rel = relevant_paths(pv.take(i as int), ev);
            assert(relevant_paths(pv.take(i + 1), ev) == rel.push(p@));
            assert(rel.push(p@).drop_last() =~= rel);
            if !contains_text(&r, p) {
                let ghost before = r.deep_view();
                r.push(paths[i].clone());
                assert(r.deep_view() =~= before.push(p@));
            }
        }
        i = i + 1;
    }
    assert(pv.take(paths.len() as int) =~= pv);
    r
}

} // verus!
