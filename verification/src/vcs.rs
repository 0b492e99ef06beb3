//! Git integration: reading what `git` prints, choosing the project root,
//! and turning `git diff --name-only` output into the changed files. The
//! caller runs `git` and checks which paths exist. Paths are handled as
//! text with `/` as the separator.

use vstd::prelude::*;
use crate::order::{
    is_listed, is_permutation, is_stable_sort_of, key_values, lemma_lex_irreflexive, lemma_lex_transitive,
    lex_lt, reorder, stable_before, stable_sort_by_keys, stably_sorted, KeyV, SortKey,
};
use crate::scan::last_index_of;
use crate::text::{
    append_str, chars_of, lines_of, owned, push_char, push_signed_decimal, signed_decimal,
    split_lines, str_eq, trim_seq, trim_text, string_of,
};

verus! {

broadcast use vstd::string::group_string_axioms;

/// The repository root that `git rev-parse --show-toplevel` printed: its
/// output without surrounding whitespace, when not empty.
pub open spec fn repo_root_of(output: Seq<char>) -> Option<Seq<char>> {
    if trim_seq(output).len() == 0 {
        None
    } else {
        Some(trim_seq(output))
    }
}

/// The repository root that `git rev-parse --show-toplevel` printed.
pub fn repo_root_from_output(output: &str) -> (r: Option<String>)
    ensures
        match r {
            Some(t) => repo_root_of(output@) == Some(t@),
            None => repo_root_of(output@) is None,
        },
{
    let t = trim_text(output);
    if chars_of(t.as_str()).len() == 0 {
        None
    } else {
        Some(t)
    }
}

/// `path` joined to `base`: an absolute path replaces the base; otherwise a
/// separator is put between them unless the base ends with one or is empty.
pub open spec fn join_path(base: Seq<char>, path: Seq<char>) -> Seq<char> {
    if path.len() > 0 && path[0] == '/' {
        path
    } else if base.len() == 0 || base.last() == '/' {
        base + path
    } else {
        base + "/"@ + path
    }
}

/// Joins a path to a base path.
pub fn join_path_text(base: &str, path: &str) -> (r: String)
    ensures
        r@ == join_path(base@, path@),
{
    let p = chars_of(path);
    if p.len() > 0 && p[0] == '/' {
        return owned(path);
    }
    let b = chars_of(base);
    let mut r = owned(base);
    if !(b.len() == 0 || b[b.len() - 1] == '/') {
        append_str(&mut r, "/");
    }
    append_str(&mut r, path);
    r
}

/// The paths named by `git diff --name-only` output, joined to the
/// repository root; blank lines are skipped.
pub open spec fn diff_candidates(root: Seq<char>, lines: Seq<Seq<char>>) -> Seq<Seq<char>>
    decreases lines.len(),
{
    if lines.len() == 0 {
        Seq::empty()
    } else {
        let rest = diff_candidates(root, lines.drop_last());
        if trim_seq(lines.last()).len() == 0 {
            rest
        } else {
            rest.push(join_path(root, lines.last()))
        }
    }
}

/// The paths named by `git diff --name-only` output, joined to the
/// repository root.
pub fn changed_candidates(repo_root: &str, stdout: &str) -> (r: Vec<String>)
    ensures
        r.deep_view() == diff_candidates(repo_root@, lines_of(stdout@)),
{
    let lines = split_lines(stdout);
    let ghost lv = lines.deep_view();
    let mut r: Vec<String> = Vec::new();
    let mut i: usize = 0;
    while i < lines.len()
        invariant
            i <= lines.len(),
            lv == lines.deep_view(),
            lv == lines_of(stdout@),
            r.deep_view() == diff_candidates(repo_root@, lv.take(i as int)),
        decreases lines.len() - i,
    {
        assert(lv.take(i + 1).drop_last() =~= lv.take(i as int));
        assert(lv.take(i + 1).last() == lines[i as int]@);
        let t = trim_text(lines[i].as_str());
        if chars_of(t.as_str()).len() != 0 {
            let ghost before = r.deep_view();
            r.push(join_path_text(repo_root, lines[i].as_str()));
            assert(r.deep_view() =~= before.push(join_path(repo_root@, lines[i as int]@)));
        }
        i = i + 1;
    }
    assert(lv.take(lines.len() as int) =~= lv);
    r
}

/// A path with each separator replaced by the smallest character, so that
/// comparing the results compares paths component by component.
pub open spec fn path_order_key(p: Seq<char>) -> Seq<char> {
    Seq::new(p.len(), |i: int| if p[i] == '/' { '\0' } else { p[i] })
}

/// The sort keys of paths.
pub open spec fn path_keys(s: Seq<Seq<char>>) -> Seq<KeyV> {
    Seq::new(s.len(), |i: int| (0u64, path_order_key(s[i]), 0u64, Seq::<char>::empty()))
}

/// The elements of `s` whose flag is set, in order.
pub open spec fn kept_by(s: Seq<Seq<char>>, flags: Seq<bool>) -> Seq<Seq<char>>
    decreases s.len(),
{
    if s.len() == 0 || flags.len() < s.len() {
        Seq::empty()
    } else {
        let rest = kept_by(s.drop_last(), flags.take(s.len() - 1));
        if flags[s.len() - 1] {
            rest.push(s.last())
        } else {
            rest
        }
    }
}

/// `s` without elements equal to the one before them.
pub open spec fn dedup_adjacent(s: Seq<Seq<char>>) -> Seq<Seq<char>>
    decreases s.len(),
{
    if s.len() <= 1 {
        s
    } else {
        let rest = dedup_adjacent(s.drop_last());
        if s[s.len() - 2] == s.last() {
            rest
        } else {
            rest.push(s.last())
        }
    }
}

/// The key of a path.
fn path_key(p: &String) -> (k: SortKey)
    ensures
        k@ == (0u64, path_order_key(p@), 0u64, Seq::<char>::empty()),
{
    let v = chars_of(p.as_str());
    let mut w: Vec<char> = Vec::new();
    let mut i: usize = 0;
    while i < v.len()
        invariant
            i <= v.len(),
            v@ == p@,
            w@ == path_order_key(p@).take(i as int),
        decreases v.len() - i,
    {
        w.push(if v[i] == '/' { '\0' } else { v[i] });
        assert(w@ =~= path_order_key(p@).take(i + 1));
        i = i + 1;
    }
    assert(path_order_key(p@).take(v.len() as int) =~= path_order_key(p@));
    SortKey { n1: 0, t1: string_of(&w), n2: 0, t2: String::new() }
}

/// `r` is what becomes of the candidates: those that exist (`exists` tells,
/// for each candidate, whether it does), sorted stably by path, with
/// repetitions removed.
pub open spec fn finalized_changes(r: Seq<Seq<char>>, candidates: Seq<Seq<char>>, exists: Seq<bool>) -> bool {
    exists|sorted: Seq<Seq<char>>|
        is_stable_sort_of(sorted, kept_by(candidates, exists), path_keys(kept_by(candidates, exists)))
            && r == dedup_adjacent(sorted)
}

/// The changed files that exist, sorted by path with repetitions removed.
/// `exists` tells, for each candidate, whether it exists.
pub fn finalize_changed(candidates: &Vec<String>, exists: &Vec<bool>) -> (r: Vec<String>)
    requires
        exists.len() == candidates.len(),
    ensures
        finalized_changes(r.deep_view(), candidates.deep_view(), exists@),
{
    let ghost cv = candidates.deep_view();
    let mut kept: Vec<String> = Vec::new();
    let mut i: usize = 0;
    while i < candidates.len()
        invariant
            i <= candidates.len(),
            exists.len() == candidates.len(),
            cv == candidates.deep_view(),
            kept.deep_view() == kept_by(cv.take(i as int), exists@.take(i as int)),
        decreases candidates.len() - i,
    {
        assert(cv.take(i + 1).drop_last() =~= cv.take(i as int));
        assert(exists@.take(i + 1).take(i as int) =~= exists@.take(i as int));
        let ghost before = kept.deep_view();
        if exists[i] {
            kept.push(candidates[i].clone());
            assert(kept.deep_view() =~= before.push(cv[i as int]));
        }
        i = i + 1;
    }
    assert(cv.take(candidates.len() as int) =~= cv);
    assert(exists@.take(candidates.len() as int) =~= exists@);
    let ghost kv = kept.deep_view();
    let mut keys: Vec<SortKey> = Vec::new();
    let mut k: usize = 0;
    while k < kept.len()
        invariant
            k <= kept.len(),
            keys.len() == k,
            kv == kept.deep_view(),
            forall|j: int| 0 <= j < k ==> (#[trigger] keys@[j])@ == path_keys(kv)[j],
        decreases kept.len() - k,
    {
        keys.push(path_key(&kept[k]));
        k = k + 1;
    }
    assert(key_values(keys@) =~= path_keys(kv));
    let ghost before_sort = kept@;
    stable_sort_by_keys(&mut kept, &mut keys);
    let ghost sorted = kept.deep_view();
    proof {
        let perm = choose|perm: Seq<int>|
            #[trigger] crate::order::is_permutation(perm, before_sort.len() as int)
                && crate::order::stably_sorted(path_keys(kv), perm) && kept@
                == crate::order::reorder(before_sort, perm);
        assert(kept.deep_view() =~= crate::order::reorder(kv, perm));
        assert(is_stable_sort_of(sorted, kv, path_keys(kv)));
    }
    // Remove repetitions.
    let mut r: Vec<String> = Vec::new();
    let mut m: usize = 0;
    while m < kept.len()
        invariant
            m <= kept.len(),
            sorted == kept.deep_view(),
            r.deep_view() == dedup_adjacent(sorted.take(m as int)),
        decreases kept.len() - m,
    {
        assert(sorted.take(m + 1).drop_last() =~= sorted.take(m as int));
        let ghost before = r.deep_view();
        if m == 0 || !str_eq(kept[m - 1].as_str(), kept[m].as_str()) {
            r.push(kept[m].clone());
            assert(r.deep_view() =~= before.push(sorted[m as int]));
        }
        m = m + 1;
    }
    assert(sorted.take(kept.len() as int) =~= sorted);
    assert(is_stable_sort_of(sorted, kv, path_keys(kv)) && r.deep_view() == dedup_adjacent(sorted));
    r
}

/// No path of the sequence holds the NUL character (no file name can).
pub open spec fn nul_free(s: Seq<Seq<char>>) -> bool {
    forall|i: int| 0 <= i < s.len() ==> !(#[trigger] s[i]).contains('\0')
}

/// `a` comes no later than `b` in path order.
pub open spec fn path_le(a: Seq<char>, b: Seq<char>) -> bool {
    lex_lt(path_order_key(a), path_order_key(b)) || path_order_key(a) == path_order_key(b)
}

/// The paths are strictly ascending in path order: sorted, and none twice.
pub open spec fn ascending_paths(s: Seq<Seq<char>>) -> bool {
    forall|j: int, k: int|
        0 <= j < k < s.len() ==> lex_lt(path_order_key(#[trigger] s[j]), path_order_key(#[trigger] s[k]))
}

/// Paths without NUL characters that have the same key are equal.
proof fn lemma_path_key_injective(a: Seq<char>, b: Seq<char>)
    requires
        !a.contains('\0'),
        !b.contains('\0'),
        path_order_key(a) == path_order_key(b),
    ensures
        a == b,
{
    assert(a.len() == path_order_key(a).len());
    assert(b.len() == path_order_key(b).len());
    assert forall|i: int| 0 <= i < a.len() implies a[i] == b[i] by {
        assert(path_order_key(a)[i] == path_order_key(b)[i]);
        assert(path_order_key(a)[i] == if a[i] == '/' { '\0' } else { a[i] });
        assert(path_order_key(b)[i] == if b[i] == '/' { '\0' } else { b[i] });
        assert(a[i] != '\0');
        assert(b[i] != '\0');
    }
    assert(a =~= b);
}

/// The elements kept by the flags are those whose flag is set.
proof fn lemma_kept_by_members(s: Seq<Seq<char>>, flags: Seq<bool>)
    requires
        flags.len() == s.len(),
    ensures
        forall|x: Seq<char>|
            kept_by(s, flags).contains(x) <==> exists|i: int| 0 <= i < s.len() && flags[i] && #[trigger] s[i] == x,
    decreases s.len(),
{
    if s.len() > 0 {
        let s2 = s.drop_last();
        let f2 = flags.take(s.len() - 1);
        lemma_kept_by_members(s2, f2);
        let rest = kept_by(s2, f2);
        let kept = kept_by(s, flags);
        let n = s.len() - 1;
        assert forall|x: Seq<char>| kept.contains(x) <==> exists|i: int|
            0 <= i < s.len() && flags[i] && #[trigger] s[i] == x by {
            if kept.contains(x) {
                let j = choose|j: int| 0 <= j < kept.len() && kept[j] == x;
                if flags[n] && j == rest.len() {
                    assert(s[n] == x);
                } else {
                    assert(rest[j] == x);
                    assert(rest.contains(x));
                    let i = choose|i: int| 0 <= i < s2.len() && f2[i] && #[trigger] s2[i] == x;
                    assert(s[i] == x && flags[i]);
                }
            }
            if exists|i: int| 0 <= i < s.len() && flags[i] && #[trigger] s[i] == x {
                let i = choose|i: int| 0 <= i < s.len() && flags[i] && #[trigger] s[i] == x;
                if i == n {
                    assert(kept[rest.len() as int] == x);
                } else {
                    assert(s2[i] == x && f2[i]);
                    assert(rest.contains(x));
                    let j = choose|j: int| 0 <= j < rest.len() && rest[j] == x;
                    assert(kept[j] == x);
                }
            }
        }
    }
}

/// A stable sort by path holds the same paths, in ascending path order.
proof fn lemma_sorted_paths(sorted: Seq<Seq<char>>, items: Seq<Seq<char>>)
    requires
        is_stable_sort_of(sorted, items, path_keys(items)),
    ensures
        sorted.len() == items.len(),
        forall|j: int, k: int| 0 <= j < k < sorted.len() ==> path_le(#[trigger] sorted[j], #[trigger] sorted[k]),
        forall|x: Seq<char>| sorted.contains(x) <==> items.contains(x),
{
    let keys = path_keys(items);
    let perm = choose|perm: Seq<int>|
        #[trigger] is_permutation(perm, items.len() as int) && stably_sorted(keys, perm) && sorted
            == reorder(items, perm);
    lemma_lex_irreflexive(Seq::<char>::empty());
    assert forall|j: int, k: int| 0 <= j < k < sorted.len() implies path_le(#[trigger] sorted[j], #[trigger] sorted[k]) by {
        assert(stable_before(keys, perm[j], perm[k]));
        assert(sorted[j] == items[perm[j]]);
        assert(sorted[k] == items[perm[k]]);
    }
    assert forall|x: Seq<char>| sorted.contains(x) <==> items.contains(x) by {
        if sorted.contains(x) {
            let j = choose|j: int| 0 <= j < sorted.len() && sorted[j] == x;
            assert(items[perm[j]] == x);
        }
        if items.contains(x) {
            let i = choose|i: int| 0 <= i < items.len() && items[i] == x;
            assert(is_listed(perm, i));
            let j = choose|j: int| 0 <= j < perm.len() && #[trigger] perm[j] == i;
            assert(sorted[j] == x);
        }
    }
}

/// Removing adjacent repetitions from paths in ascending path order leaves
/// them strictly ascending, with the same paths and the same last one.
proof fn lemma_dedup_ascending(s: Seq<Seq<char>>)
    requires
        forall|j: int, k: int| 0 <= j < k < s.len() ==> path_le(#[trigger] s[j], #[trigger] s[k]),
        nul_free(s),
    ensures
        ascending_paths(dedup_adjacent(s)),
        forall|x: Seq<char>| dedup_adjacent(s).contains(x) <==> s.contains(x),
        s.len() > 0 ==> dedup_adjacent(s).len() > 0 && dedup_adjacent(s).last() == s.last(),
    decreases s.len(),
{
    if s.len() > 1 {
        let s2 = s.drop_last();
        let n = s.len() - 1;
        assert forall|j: int, k: int| 0 <= j < k < s2.len() implies path_le(#[trigger] s2[j], #[trigger] s2[k]) by {
            assert(s2[j] == s[j] && s2[k] == s[k]);
        }
        assert forall|i: int| 0 <= i < s2.len() implies !(#[trigger] s2[i]).contains('\0') by {
            assert(s2[i] == s[i]);
        }
        lemma_dedup_ascending(s2);
        let d2 = dedup_adjacent(s2);
        let d = dedup_adjacent(s);
        assert(s2.last() == s[n - 1]);
        if s[n - 1] == s.last() {
            assert(d == d2);
            assert forall|x: Seq<char>| d.contains(x) <==> s.contains(x) by {
                if s.contains(x) {
                    let i = choose|i: int| 0 <= i < s.len() && s[i] == x;
                    if i == n {
                        assert(s2[n - 1] == x);
                    } else {
                        assert(s2[i] == x);
                    }
                    assert(s2.contains(x));
                    assert(d2.contains(x));
                }
                if d.contains(x) {
                    assert(d2.contains(x));
                    assert(s2.contains(x));
                    let i = choose|i: int| 0 <= i < s2.len() && s2[i] == x;
                    assert(s[i] == x);
                }
            }
        } else {
            assert(d == d2.push(s.last()));
            assert(path_le(s[n - 1], s[n]));
            if path_order_key(s[n - 1]) == path_order_key(s[n]) {
                lemma_path_key_injective(s[n - 1], s[n]);
            }
            let last_key = path_order_key(s[n]);
            assert forall|j: int, k: int| 0 <= j < k < d.len() implies lex_lt(
                path_order_key(#[trigger] d[j]),
                path_order_key(#[trigger] d[k]),
            ) by {
                if k < d2.len() {
                    assert(d[j] == d2[j] && d[k] == d2[k]);
                } else {
                    assert(d[k] == s[n]);
                    assert(d[j] == d2[j]);
                    if j < d2.len() - 1 {
                        assert(lex_lt(path_order_key(d2[j]), path_order_key(d2[d2.len() - 1])));
                        lemma_lex_transitive(path_order_key(d2[j]), path_order_key(s[n - 1]), last_key);
                    }
                }
            }
            assert forall|x: Seq<char>| d.contains(x) <==> s.contains(x) by {
                if s.contains(x) {
                    let i = choose|i: int| 0 <= i < s.len() && s[i] == x;
                    if i == n {
                        assert(d[d.len() - 1] == x);
                    } else {
                        assert(s2[i] == x);
                        assert(s2.contains(x));
                        assert(d2.contains(x));
                        let j = choose|j: int| 0 <= j < d2.len() && d2[j] == x;
                        assert(d[j] == x);
                    }
                }
                if d.contains(x) {
                    let j = choose|j: int| 0 <= j < d.len() && d[j] == x;
                    if j == d2.len() {
                        assert(s[n] == x);
                    } else {
                        assert(d2[j] == x);
                        assert(d2.contains(x));
                        assert(s2.contains(x));
                        let i = choose|i: int| 0 <= i < s2.len() && s2[i] == x;
                        assert(s[i] == x);
                    }
                }
            }
        }
    }
}

/// The changed files come out strictly ascending in path order (sorted, and
/// none twice), and they are exactly the candidates that exist: a deleted or
/// missing path never appears.
pub proof fn lemma_changed_files(r: Seq<Seq<char>>, candidates: Seq<Seq<char>>, exists: Seq<bool>)
    requires
        exists.len() == candidates.len(),
        nul_free(candidates),
        finalized_changes(r, candidates, exists),
    ensures
        ascending_paths(r),
        forall|x: Seq<char>|
            r.contains(x) <==> exists|i: int| 0 <= i < candidates.len() && exists[i] && #[trigger] candidates[i] == x,
{
    let kept = kept_by(candidates, exists);
    let sorted = choose|sorted: Seq<Seq<char>>|
        is_stable_sort_of(sorted, kept, path_keys(kept)) && r == dedup_adjacent(sorted);
    lemma_kept_by_members(candidates, exists);
    lemma_sorted_paths(sorted, kept);
    assert forall|i: int| 0 <= i < sorted.len() implies !(#[trigger] sorted[i]).contains('\0') by {
        assert(sorted.contains(sorted[i]));
        assert(kept.contains(sorted[i]));
        let c = choose|c: int| 0 <= c < candidates.len() && exists[c] && #[trigger] candidates[c] == sorted[i];
    }
    lemma_dedup_ascending(sorted);
    assert forall|x: Seq<char>|
        r.contains(x) <==> exists|i: int| 0 <= i < candidates.len() && exists[i] && #[trigger] candidates[i] == x by {
        assert(r.contains(x) <==> sorted.contains(x));
        assert(sorted.contains(x) <==> kept.contains(x));
    }
}

/// `p` without trailing separators, keeping a lone `/`.
pub open spec fn strip_trailing_slashes(p: Seq<char>) -> Seq<char>
    decreases p.len(),
{
    if p.len() > 1 && p.last() == '/' {
        strip_trailing_slashes(p.drop_last())
    } else {
        p
    }
}

/// The parent of a path: `None` for the empty path and for `/`, the empty
/// path for a single relative component, `/` for a single absolute one,
/// and otherwise everything before the last separator (trailing
/// separators ignored).
pub open spec fn parent_of(p: Seq<char>) -> Option<Seq<char>> {
    let q = strip_trailing_slashes(p);
    if q.len() == 0 || q == "/"@ {
        None
    } else {
        let k = last_index_of(q, '/');
        if k < 0 {
            Some(Seq::empty())
        } else if k == 0 {
            Some("/"@)
        } else {
            Some(strip_trailing_slashes(q.take(k)))
        }
    }
}

fn strip_trailing(v: &Vec<char>) -> (r: usize)
    ensures
        r <= v.len(),
        v@.take(r as int) == strip_trailing_slashes(v@),
{
    let mut n = v.len();
    assert(v@.take(n as int) =~= v@);
    while n > 1 && v[n - 1] == '/'
        invariant
            n <= v.len(),
            strip_trailing_slashes(v@.take(n as int)) == strip_trailing_slashes(v@),
        decreases n,
    {
        assert(v@.take(n as int).drop_last() =~= v@.take(n - 1));
        n = n - 1;
    }
    n
}

/// The parent of a path.
pub fn parent_path(p: &str) -> (r: Option<String>)
    ensures
        match r {
            Some(t) => parent_of(p@) == Some(t@),
            None => parent_of(p@) is None,
        },
{
    let v = chars_of(p);
    let n = strip_trailing(&v);
    let ghost q = v@.take(n as int);
    if n == 0 || (n == 1 && v[0] == '/') {
        proof {
            reveal_strlit("/");
            if n == 1 {
                assert(q =~= "/"@);
            }
        }
        return None;
    }
    proof {
        reveal_strlit("/");
        if q == "/"@ {
            assert(q.len() == 1 && q[0] == v@[0]);
        }
    }
    let mut k = n;
    assert(q.take(n as int) =~= q);
    while k > 0 && v[k - 1] != '/'
        invariant
            k <= n,
            n <= v.len(),
            q == v@.take(n as int),
            last_index_of(q.take(k as int), '/') == last_index_of(q, '/'),
        decreases k,
    {
        assert(q.take(k as int).drop_last() =~= q.take(k - 1));
        k = k - 1;
    }
    assert(q.take(n as int) =~= q);
    if k == 0 {
        assert(q.take(0) =~= Seq::<char>::empty());
        return Some(String::new());
    }
    assert(q.take(k as int).last() == q[k - 1]);
    if k == 1 {
        proof {
            assert(last_index_of(q, '/') == 0);
        }
        return Some(owned("/"));
    }
    let mut w: Vec<char> = Vec::new();
    let mut i: usize = 0;
    while i < k - 1
        invariant
            i <= k - 1,
            k <= n,
            n <= v.len(),
            w@ == v@.take(i as int),
        decreases k - 1 - i,
    {
        w.push(v[i]);
        assert(v@.take(i + 1) =~= v@.take(i as int).push(v@[i as int]));
        i = i + 1;
    }
    let m = strip_trailing(&w);
    assert(w@ =~= q.take(k - 1));
    let mut r: Vec<char> = Vec::new();
    let mut j: usize = 0;
    while j < m
        invariant
            j <= m,
            m <= w.len(),
            r@ == w@.take(j as int),
        decreases m - j,
    {
        r.push(w[j]);
        assert(w@.take(j + 1) =~= w@.take(j as int).push(w@[j as int]));
        j = j + 1;
    }
    Some(string_of(&r))
}

/// The project root for ignore files: the repository root of the first
/// path, else the first path when it is a directory, else its parent;
/// without a first path (or parent), the repository root of the current
/// directory, else the current directory.
pub open spec fn project_root(
    first: Option<Seq<char>>,
    first_repo_root: Option<Seq<char>>,
    first_is_dir: bool,
    cwd_repo_root: Option<Seq<char>>,
    cwd: Seq<char>,
) -> Seq<char> {
    let from_first: Option<Seq<char>> = match first {
        Some(f) => match first_repo_root {
            Some(root) => Some(root),
            None => if first_is_dir {
                Some(f)
            } else {
                parent_of(f)
            },
        },
        None => None,
    };
    match from_first {
        Some(r) => r,
        None => match cwd_repo_root {
            Some(root) => root,
            None => cwd,
        },
    }
}

/// Determine the project root directory for ignore file operations, from
/// what the caller found: the first path, the repository root of the first
/// path, whether it is a directory, the repository root of the current
/// directory and the current directory.
pub fn determine_project_root(
    first: Option<&str>,
    first_repo_root: Option<String>,
    first_is_dir: bool,
    cwd_repo_root: Option<String>,
    cwd: String,
) -> (r: String)
    ensures
        r@ == project_root(
            match first {
                Some(f) => Some(f@),
                None => None,
            },
            match first_repo_root {
                Some(t) => Some(t@),
                None => None,
            },
            first_is_dir,
            match cwd_repo_root {
                Some(t) => Some(t@),
                None => None,
            },
            cwd@,
        ),
{
    if let Some(f) = first {
        if let Some(root) = first_repo_root {
            return root;
        }
        if first_is_dir {
            return owned(f);
        }
        if let Some(parent) = parent_path(f) {
            return parent;
        }
    }
    match cwd_repo_root {
        Some(root) => root,
        None => cwd,
    }
}

/// The error for a failed `git diff`: git's message and advice, and in
/// debug mode the command, the exit code (-1 when killed by a signal) and
/// git's full error output.
pub open spec fn git_diff_error_text(stderr: Seq<char>, range: Seq<char>, debug: bool, code: Option<i32>) -> Seq<char> {
    "Git diff command failed: "@ + trim_seq(stderr) + "\n\n"@ + "Suggestion:"@
        + " Verify the git diff range is valid\n"@ + "           "@
        + "Example: origin/main..HEAD or main..feature-branch\n"@ + "           "@
        + "Run 'git log --oneline' to see available commits\n"@ + (if debug {
        "\nDebug Info:"@ + "\n  Command: git diff --name-only --diff-filter=ACMR "@ + range
            + "\n  Exit code: "@ + signed_decimal(
            match code {
                Some(c) => c as int,
                None => -1,
            },
        ) + "\n  Stderr: "@ + stderr
    } else {
        Seq::empty()
    })
}

/// The error for a failed `git diff`.
pub fn git_diff_error(stderr: &str, range: &str, debug: bool, code: Option<i32>) -> (r: String)
    ensures
        r@ == git_diff_error_text(stderr@, range@, debug, code),
{
    let trimmed = trim_text(stderr);
    let mut m = owned("Git diff command failed: ");
    append_str(&mut m, trimmed.as_str());
    append_str(&mut m, "\n\n");
    append_str(&mut m, "Suggestion:");
    append_str(&mut m, " Verify the git diff range is valid\n");
    append_str(&mut m, "           ");
    append_str(&mut m, "Example: origin/main..HEAD or main..feature-branch\n");
    append_str(&mut m, "           ");
    append_str(&mut m, "Run 'git log --oneline' to see available commits\n");
    let mut tail = String::new();
    if debug {
        tail = owned("\nDebug Info:");
        append_str(&mut tail, "\n  Command: git diff --name-only --diff-filter=ACMR ");
        append_str(&mut tail, range);
        append_str(&mut tail, "\n  Exit code: ");
        push_signed_decimal(&mut tail, match code {
            Some(c) => c as i64,
            None => -1,
        });
        append_str(&mut tail, "\n  Stderr: ");
        append_str(&mut tail, stderr);
    }
    append_str(&mut m, tail.as_str());
    m
}

} // verus!
