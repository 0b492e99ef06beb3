//! Shaping the duplicates of a report before it is rendered: the clone type
//! filters, the grouping orders and the git-diff restriction to changed
//! files.

use vstd::prelude::*;
use crate::detect::contains_text;
use crate::fixed::MILLION;
use crate::order::{
    is_permutation, is_stable_sort_of, key_lt, key_values, lex_lt, reorder, stable_before,
    stable_sort_by_keys, stably_sorted, KeyV, SortKey,
};
use crate::report::{all_wf, CloneType, DuplicateMatch, Report};
use crate::text::{chars_of, str_eq, string_of};

verus! {

broadcast use vstd::string::group_string_axioms;

// ---------------------------------------------------------------------------
// Clone type filters
// ---------------------------------------------------------------------------

/// A duplicate of clone type `ct` passes `--only-type` (when given) and is
/// not named by `--exclude-type`.
pub open spec fn type_kept(ct: CloneType, only: Seq<Seq<char>>, exclude: Seq<Seq<char>>) -> bool {
    (only.len() == 0 || only.contains(ct.spec_tag())) && !exclude.contains(ct.spec_tag())
}

/// The duplicates that pass the clone type filters, in their order.
pub open spec fn filter_types(
    dups: Seq<DuplicateMatch>,
    only: Seq<Seq<char>>,
    exclude: Seq<Seq<char>>,
) -> Seq<DuplicateMatch>
    decreases dups.len(),
{
    if dups.len() == 0 {
        dups
    } else {
        let rest = filter_types(dups.drop_last(), only, exclude);
        if type_kept(dups.last().clone_type, only, exclude) {
            rest.push(dups.last())
        } else {
            rest
        }
    }
}

/// Apply clone type filters to the report
pub fn apply_clone_type_filters(
    report: &mut Report,
    only_type: &Vec<String>,
    exclude_type: &Vec<String>,
)
    ensures
        final(report).duplicates@ == filter_types(
            old(report).duplicates@,
            only_type.deep_view(),
            exclude_type.deep_view(),
        ),
        final(report).files_scanned == old(report).files_scanned,
        final(report).functions_analyzed == old(report).functions_analyzed,
        final(report).skipped_files == old(report).skipped_files,
        final(report).stats == old(report).stats,
{
    let ghost only = only_type.deep_view();
    let ghost exclude = exclude_type.deep_view();
    let mut kept: Vec<DuplicateMatch> = Vec::new();
    let mut i: usize = 0;
    while i < report.duplicates.len()
        invariant
            i <= report.duplicates.len(),
            only == only_type.deep_view(),
            exclude == exclude_type.deep_view(),
            kept@ == filter_types(report.duplicates@.take(i as int), only, exclude),
        decreases report.duplicates.len() - i,
    {
        let d = &report.duplicates[i];
        let tag = d.clone_type.tag();
        let listed = contains_text(only_type, tag);
        let excluded = contains_text(exclude_type, tag);
        assert(report.duplicates@.take(i + 1).drop_last() =~= report.duplicates@.take(i as int));
        if (only_type.len() == 0 || listed) && !excluded {
            kept.push(d.copy());
        }
        i = i + 1;
    }
    assert(report.duplicates@.take(report.duplicates.len() as int) =~= report.duplicates@);
    report.duplicates = kept;
}

/// Filtering by clone type keeps exactly the duplicates whose type passes,
/// in their original order: whatever is kept passes and was in the input.
pub proof fn lemma_filter_types_members(
    dups: Seq<DuplicateMatch>,
    only: Seq<Seq<char>>,
    exclude: Seq<Seq<char>>,
)
    ensures
        filter_types(dups, only, exclude).len() <= dups.len(),
        forall|j: int|
            0 <= j < filter_types(dups, only, exclude).len() ==> type_kept(
                (#[trigger] filter_types(dups, only, exclude)[j]).clone_type,
                only,
                exclude,
            ) && dups.contains(filter_types(dups, only, exclude)[j]),
        forall|k: int|
            0 <= k < dups.len() && type_kept((#[trigger] dups[k]).clone_type, only, exclude)
                ==> filter_types(dups, only, exclude).contains(dups[k]),
    decreases dups.len(),
{
    if dups.len() > 0 {
        let init = dups.drop_last();
        lemma_filter_types_members(init, only, exclude);
        let f = filter_types(dups, only, exclude);
        let fi = filter_types(init, only, exclude);
        assert forall|j: int| 0 <= j < f.len() implies type_kept(
            (#[trigger] f[j]).clone_type,
            only,
            exclude,
        ) && dups.contains(f[j]) by {
            if j < fi.len() {
                assert(f[j] == fi[j]);
                let m = choose|m: int| 0 <= m < init.len() && init[m] == fi[j];
                assert(dups[m] == f[j]);
            } else {
                assert(f[j] == dups.last());
                assert(dups[dups.len() - 1] == f[j]);
            }
        }
        assert forall|k: int|
            0 <= k < dups.len() && type_kept((#[trigger] dups[k]).clone_type, only, exclude)
                implies f.contains(dups[k]) by {
            if k < init.len() {
                assert(init[k] == dups[k]);
                assert(fi.contains(init[k]));
                let m = choose|m: int| 0 <= m < fi.len() && fi[m] == init[k];
                assert(f[m] == fi[m]);
            } else {
                assert(f[f.len() - 1] == dups.last());
            }
        }
    }
}

/// The clone type filters keep a duplicate exactly when its type's tag is
/// listed by `--only-type` (or nothing is listed there) and is not listed
/// by `--exclude-type`: every kept duplicate passes, and every duplicate
/// that passes is kept.
pub proof fn lemma_filter_types_by_tags(
    dups: Seq<DuplicateMatch>,
    only: Seq<Seq<char>>,
    exclude: Seq<Seq<char>>,
)
    ensures
        forall|k: int|
            0 <= k < dups.len() && (only.len() == 0 || exists|j: int| 0 <= j < only.len() && only[j]
                == (#[trigger] dups[k]).clone_type.spec_tag()) && (forall|j: int|
                0 <= j < exclude.len() ==> exclude[j] != dups[k].clone_type.spec_tag())
                ==> filter_types(dups, only, exclude).contains(dups[k]),
        forall|m: int|
            0 <= m < filter_types(dups, only, exclude).len() ==> ({
                let d = #[trigger] filter_types(dups, only, exclude)[m];
                &&& dups.contains(d)
                &&& only.len() == 0 || exists|j: int| 0 <= j < only.len() && only[j] == d.clone_type.spec_tag()
                &&& forall|j: int| 0 <= j < exclude.len() ==> exclude[j] != d.clone_type.spec_tag()
            }),
{
    lemma_filter_types_members(dups, only, exclude);
    let f = filter_types(dups, only, exclude);
    assert forall|k: int|
        0 <= k < dups.len() && (only.len() == 0 || exists|j: int| 0 <= j < only.len() && only[j]
            == (#[trigger] dups[k]).clone_type.spec_tag()) && (forall|j: int|
            0 <= j < exclude.len() ==> exclude[j] != dups[k].clone_type.spec_tag())
            implies f.contains(dups[k]) by {
        let t = dups[k].clone_type.spec_tag();
        if only.len() > 0 {
            let j = choose|j: int| 0 <= j < only.len() && only[j] == t;
            assert(only.contains(t));
        }
        assert(!exclude.contains(t));
        assert(type_kept(dups[k].clone_type, only, exclude));
    }
    assert forall|m: int| 0 <= m < f.len() implies ({
        let d = #[trigger] f[m];
        &&& dups.contains(d)
        &&& only.len() == 0 || exists|j: int| 0 <= j < only.len() && only[j] == d.clone_type.spec_tag()
        &&& forall|j: int| 0 <= j < exclude.len() ==> exclude[j] != d.clone_type.spec_tag()
    }) by {
        let d = f[m];
        assert(type_kept(d.clone_type, only, exclude));
        assert forall|j: int| 0 <= j < exclude.len() implies exclude[j] != d.clone_type.spec_tag() by {
            if exclude[j] == d.clone_type.spec_tag() {
                assert(exclude.contains(d.clone_type.spec_tag()));
            }
        }
    }
}

/// The clone type filters keep, in their order, exactly the duplicates
/// whose type's tag is listed by `--only-type` (or nothing is listed there)
/// and is not listed by `--exclude-type`.
pub proof fn lemma_filter_types_is_filter(
    dups: Seq<DuplicateMatch>,
    only: Seq<Seq<char>>,
    exclude: Seq<Seq<char>>,
)
    ensures
        filter_types(dups, only, exclude) == dups.filter(
            |d: DuplicateMatch|
                (only.len() == 0 || only.contains(d.clone_type.spec_tag())) && !exclude.contains(
                    d.clone_type.spec_tag(),
                ),
        ),
    decreases dups.len(),
{
    reveal(Seq::filter);
    let pass = |d: DuplicateMatch|
        (only.len() == 0 || only.contains(d.clone_type.spec_tag())) && !exclude.contains(d.clone_type.spec_tag());
    if dups.len() > 0 {
        lemma_filter_types_is_filter(dups.drop_last(), only, exclude);
        assert(dups.filter(pass) == if pass(dups.last()) {
            dups.drop_last().filter(pass).push(dups.last())
        } else {
            dups.drop_last().filter(pass)
        });
    } else {
        assert(dups.filter(pass) == dups);
    }
}

/// Applying the clone type filters a second time changes nothing.
pub proof fn lemma_filter_types_idempotent(
    dups: Seq<DuplicateMatch>,
    only: Seq<Seq<char>>,
    exclude: Seq<Seq<char>>,
)
    ensures
        filter_types(filter_types(dups, only, exclude), only, exclude) == filter_types(
            dups,
            only,
            exclude,
        ),
    decreases dups.len(),
{
    if dups.len() > 0 {
        lemma_filter_types_idempotent(dups.drop_last(), only, exclude);
        let fi = filter_types(dups.drop_last(), only, exclude);
        if type_kept(dups.last().clone_type, only, exclude) {
            assert(fi.push(dups.last()).drop_last() =~= fi);
        }
    }
}

/// With neither `--only-type` nor `--exclude-type`, every duplicate stays.
pub proof fn lemma_no_type_filter_keeps_all(dups: Seq<DuplicateMatch>)
    ensures
        filter_types(dups, Seq::empty(), Seq::empty()) == dups,
    decreases dups.len(),
{
    if dups.len() > 0 {
        lemma_no_type_filter_keeps_all(dups.drop_last());
        assert(dups.drop_last().push(dups.last()) =~= dups);
    }
}

// ---------------------------------------------------------------------------
// Grouping
// ---------------------------------------------------------------------------

/// The criteria accepted by `--group-by`.
pub open spec fn is_group_criterion(c: Seq<char>) -> bool {
    c == "file"@ || c == "similarity"@ || c == "type"@ || c == "size"@
}

/// The sort key of a duplicate under a grouping criterion. Ascending keys
/// give: by file, the first then the second file in lexicographic order; by
/// similarity, the highest similarity first and then the longest; by type,
/// Type-1 before Type-2 before Type-3 and then the highest similarity; by
/// size, the longest first and then the highest similarity.
pub open spec fn group_key(d: DuplicateMatch, criterion: Seq<char>) -> KeyV {
    if criterion == "file"@ {
        (0u64, d.file1@, 0u64, d.file2@)
    } else if criterion == "similarity"@ {
        ((MILLION - d.similarity) as u64, Seq::empty(), (u64::MAX - d.length) as u64, Seq::empty())
    } else if criterion == "type"@ {
        (d.clone_type.spec_rank(), Seq::empty(), (MILLION - d.similarity) as u64, Seq::empty())
    } else {
        ((u64::MAX - d.length) as u64, Seq::empty(), (MILLION - d.similarity) as u64, Seq::empty())
    }
}

/// The keys of a sequence of duplicates under a grouping criterion.
pub open spec fn group_keys(dups: Seq<DuplicateMatch>, criterion: Seq<char>) -> Seq<KeyV> {
    Seq::new(dups.len(), |i: int| group_key(dups[i], criterion))
}

/// The sort key of a duplicate under a grouping criterion.
fn make_group_key(d: &DuplicateMatch, criterion: &str) -> (k: SortKey)
    requires
        d.wf(),
        is_group_criterion(criterion@),
    ensures
        k@ == group_key(*d, criterion@),
{
    let similarity_desc = (MILLION - d.similarity) as u64;
    let length_desc = u64::MAX - (d.length as u64);
    if str_eq(criterion, "file") {
        SortKey { n1: 0, t1: d.file1.clone(), n2: 0, t2: d.file2.clone() }
    } else if str_eq(criterion, "similarity") {
        SortKey { n1: similarity_desc, t1: String::new(), n2: length_desc, t2: String::new() }
    } else if str_eq(criterion, "type") {
        SortKey { n1: d.clone_type.rank(), t1: String::new(), n2: similarity_desc, t2: String::new() }
    } else {
        SortKey { n1: length_desc, t1: String::new(), n2: similarity_desc, t2: String::new() }
    }
}

/// Whether `criterion` is one of the grouping criteria.
pub fn is_valid_group_criterion(criterion: &str) -> (r: bool)
    ensures
        r == is_group_criterion(criterion@),
{
    str_eq(criterion, "file") || str_eq(criterion, "similarity") || str_eq(criterion, "type")
        || str_eq(criterion, "size")
}

/// `result` is `dups` grouped by the criterion `group_by`: sorted stably by
/// its key when it is one of the criteria, else unchanged.
pub open spec fn grouping_of(
    result: Seq<DuplicateMatch>,
    dups: Seq<DuplicateMatch>,
    group_by: Option<Seq<char>>,
) -> bool {
    match group_by {
        Some(c) => if is_group_criterion(c) {
            is_stable_sort_of(result, dups, group_keys(dups, c))
        } else {
            result == dups
        },
        None => result == dups,
    }
}

/// Apply grouping/sorting to the report: with a grouping criterion the
/// duplicates are sorted stably by its key; without one, or with an unknown
/// one, they stay as they are.
pub fn apply_grouping(report: &mut Report, group_by: Option<&str>)
    requires
        old(report).wf(),
    ensures
        grouping_of(
            final(report).duplicates@,
            old(report).duplicates@,
            match group_by {
                Some(c) => Some(c@),
                None => None,
            },
        ),
        final(report).files_scanned == old(report).files_scanned,
        final(report).functions_analyzed == old(report).functions_analyzed,
        final(report).skipped_files == old(report).skipped_files,
        final(report).stats == old(report).stats,
{
    if let Some(criterion) = group_by {
        if is_valid_group_criterion(criterion) {
            let mut keys: Vec<SortKey> = Vec::new();
            let mut i: usize = 0;
            while i < report.duplicates.len()
                invariant
                    i <= report.duplicates.len(),
                    all_wf(report.duplicates@),
                    is_group_criterion(criterion@),
                    keys.len() == i,
                    forall|j: int|
                        0 <= j < i ==> (#[trigger] keys@[j])@ == group_key(
                            report.duplicates@[j],
                            criterion@,
                        ),
                decreases report.duplicates.len() - i,
            {
                let k = make_group_key(&report.duplicates[i], criterion);
                keys.push(k);
                i = i + 1;
            }
            let ghost before = report.duplicates@;
            assert(key_values(keys@) =~= group_keys(before, criterion@));
            stable_sort_by_keys(&mut report.duplicates, &mut keys);
        }
    }
}

/// The order that a grouping criterion asks for, with `a` placed before `b`:
/// by similarity, the more similar first and then the longer; by size, the
/// longer first and then the more similar; by file, the first files and then
/// the second files in lexicographic order; by type, Type-1 before Type-2
/// before Type-3 and then the more similar.
pub open spec fn group_order(a: DuplicateMatch, b: DuplicateMatch, c: Seq<char>) -> bool {
    if c == "similarity"@ {
        a.similarity > b.similarity || (a.similarity == b.similarity && a.length >= b.length)
    } else if c == "size"@ {
        a.length > b.length || (a.length == b.length && a.similarity >= b.similarity)
    } else if c == "file"@ {
        lex_lt(a.file1@, b.file1@) || (a.file1@ == b.file1@ && (lex_lt(a.file2@, b.file2@)
            || a.file2@ == b.file2@))
    } else {
        a.clone_type.spec_rank() < b.clone_type.spec_rank() || (a.clone_type == b.clone_type
            && a.similarity >= b.similarity)
    }
}

/// The grouping criterion does not tell `a` and `b` apart.
pub open spec fn group_tie(a: DuplicateMatch, b: DuplicateMatch, c: Seq<char>) -> bool {
    if c == "similarity"@ || c == "size"@ {
        a.similarity == b.similarity && a.length == b.length
    } else if c == "file"@ {
        a.file1@ == b.file1@ && a.file2@ == b.file2@
    } else {
        a.clone_type == b.clone_type && a.similarity == b.similarity
    }
}

/// Grouping by a criterion rearranges the duplicates (each one stays, as
/// often as before), puts them in the order that the criterion asks for,
/// and keeps the earlier order of those that it does not tell apart; with no
/// criterion, or an unknown one, nothing moves.
pub proof fn lemma_grouping(
    result: Seq<DuplicateMatch>,
    dups: Seq<DuplicateMatch>,
    group_by: Option<Seq<char>>,
)
    requires
        all_wf(dups),
        grouping_of(result, dups, group_by),
    ensures
        match group_by {
            Some(c) => if is_group_criterion(c) {
                exists|perm: Seq<int>|
                    #[trigger] is_permutation(perm, dups.len() as int) && result == reorder(dups, perm)
                        && (forall|j: int, k: int|
                        0 <= j < k < result.len() ==> group_order(#[trigger] result[j], #[trigger] result[k], c))
                        && (forall|j: int, k: int|
                        0 <= j < k < result.len() && group_tie(#[trigger] result[j], #[trigger] result[k], c)
                            ==> perm[j] < perm[k])
            } else {
                result == dups
            },
            None => result == dups,
        },
{
    if let Some(c) = group_by {
        if is_group_criterion(c) {
            reveal_strlit("file");
            reveal_strlit("similarity");
            reveal_strlit("type");
            reveal_strlit("size");
            lemma_criteria_distinct();
            let keys = group_keys(dups, c);
            let perm = choose|perm: Seq<int>|
                #[trigger] is_permutation(perm, dups.len() as int) && stably_sorted(keys, perm)
                    && result == reorder(dups, perm);
            assert forall|j: int, k: int| 0 <= j < k < result.len() implies group_order(
                #[trigger] result[j],
                #[trigger] result[k],
                c,
            ) && (group_tie(result[j], result[k], c) ==> perm[j] < perm[k]) by {
                assert(stable_before(keys, perm[j], perm[k]));
                let a = dups[perm[j]];
                let b = dups[perm[k]];
                assert(result[j] == a);
                assert(result[k] == b);
                assert(a.wf());
                assert(b.wf());
                if c == "similarity"@ {
                    lemma_similarity_key(a, b);
                } else if c == "size"@ {
                    lemma_size_key(a, b);
                } else if c == "type"@ {
                    lemma_type_key(a, b);
                }
                if group_tie(a, b, c) {
                    assert(group_key(a, c) == group_key(b, c));
                    crate::order::lemma_key_irreflexive(group_key(a, c));
                }
            }
        }
    }
}

/// The grouping criteria are four different words.
proof fn lemma_criteria_distinct()
    ensures
        "file"@ != "similarity"@,
        "file"@ != "type"@,
        "file"@ != "size"@,
        "similarity"@ != "type"@,
        "similarity"@ != "size"@,
        "type"@ != "size"@,
{
    reveal_strlit("file");
    reveal_strlit("similarity");
    reveal_strlit("type");
    reveal_strlit("size");
    assert("file"@[0] != "type"@[0]);
    assert("file"@[0] != "size"@[0]);
    assert("type"@[0] != "size"@[0]);
    assert("similarity"@[2] != "size"@[2]);
    assert("similarity"@[0] != "type"@[0]);
    assert("similarity"@[0] != "file"@[0]);
}

/// Under the similarity key, a key no greater than another belongs to a
/// duplicate at least as similar, and at least as long when equally similar.
proof fn lemma_similarity_key(a: DuplicateMatch, b: DuplicateMatch)
    requires
        a.wf(),
        b.wf(),
        key_lt(group_key(a, "similarity"@), group_key(b, "similarity"@)) || group_key(
            a,
            "similarity"@,
        ) == group_key(b, "similarity"@),
    ensures
        a.similarity > b.similarity || (a.similarity == b.similarity && a.length >= b.length),
{
    reveal_strlit("file");
    reveal_strlit("similarity");
    crate::order::lemma_lex_irreflexive(Seq::<char>::empty());
    lemma_criteria_distinct();
    let ka = group_key(a, "similarity"@);
    let kb = group_key(b, "similarity"@);
    assert(ka.0 == MILLION - a.similarity);
    assert(kb.0 == MILLION - b.similarity);
    assert(ka.2 == u64::MAX - a.length);
    assert(kb.2 == u64::MAX - b.length);
}

/// Under the type key, a key no greater than another belongs to a
/// duplicate of an earlier type, or of the same type and at least as similar.
proof fn lemma_type_key(a: DuplicateMatch, b: DuplicateMatch)
    requires
        a.wf(),
        b.wf(),
        key_lt(group_key(a, "type"@), group_key(b, "type"@)) || group_key(a, "type"@)
            == group_key(b, "type"@),
    ensures
        a.clone_type.spec_rank() < b.clone_type.spec_rank() || (a.clone_type == b.clone_type
            && a.similarity >= b.similarity),
{
    reveal_strlit("file");
    reveal_strlit("similarity");
    reveal_strlit("type");
    crate::order::lemma_lex_irreflexive(Seq::<char>::empty());
    lemma_criteria_distinct();
    let ka = group_key(a, "type"@);
    let kb = group_key(b, "type"@);
    assert(ka.0 == a.clone_type.spec_rank());
    assert(kb.0 == b.clone_type.spec_rank());
    assert(ka.2 == MILLION - a.similarity);
    assert(kb.2 == MILLION - b.similarity);
}

/// Under the size key, a key no greater than another belongs to a duplicate
/// at least as long, and at least as similar when equally long.
proof fn lemma_size_key(a: DuplicateMatch, b: DuplicateMatch)
    requires
        a.wf(),
        b.wf(),
        key_lt(group_key(a, "size"@), group_key(b, "size"@)) || group_key(a, "size"@)
            == group_key(b, "size"@),
    ensures
        a.length > b.length || (a.length == b.length && a.similarity >= b.similarity),
{
    reveal_strlit("file");
    reveal_strlit("similarity");
    reveal_strlit("type");
    reveal_strlit("size");
    crate::order::lemma_lex_irreflexive(Seq::<char>::empty());
    lemma_criteria_distinct();
    let ka = group_key(a, "size"@);
    let kb = group_key(b, "size"@);
    assert(ka.0 == u64::MAX - a.length);
    assert(kb.0 == u64::MAX - b.length);
    assert(ka.2 == MILLION - a.similarity);
    assert(kb.2 == MILLION - b.similarity);
}

// ---------------------------------------------------------------------------
// Git-diff restriction
// ---------------------------------------------------------------------------

/// A path with its leading `./` segments removed.
pub open spec fn trim_dot_slash(p: Seq<char>) -> Seq<char>
    decreases p.len(),
{
    if p.len() >= 2 && p[0] == '.' && p[1] == '/' {
        trim_dot_slash(p.subrange(2, p.len() as int))
    } else {
        p
    }
}

/// `root` without one trailing separator, unless it is the file system root.
pub open spec fn root_without_slash(root: Seq<char>) -> Seq<char> {
    if root.len() > 1 && root.last() == '/' {
        root.drop_last()
    } else {
        root
    }
}

/// An absolute path made relative to `root` when it lies below it (or is
/// it), and left as it is otherwise. Paths are compared as text with `/` as
/// the separator.
pub open spec fn strip_root(path: Seq<char>, root: Seq<char>) -> Seq<char> {
    let r = root_without_slash(root);
    if path == r {
        Seq::empty()
    } else if r == seq!['/'] && path.len() > 0 && path[0] == '/' {
        path.subrange(1, path.len() as int)
    } else if r.len() < path.len() && path.subrange(0, r.len() as int) == r && path[r.len() as int]
        == '/' {
        path.subrange(r.len() as int + 1, path.len() as int)
    } else {
        path
    }
}

/// A path as the git-diff filter compares it: relative to the repository
/// root when absolute, without leading `./`.
pub open spec fn normalize_path(path: Seq<char>, root: Seq<char>) -> Seq<char> {
    if path.len() > 0 && path[0] == '/' {
        trim_dot_slash(strip_root(path, root))
    } else {
        trim_dot_slash(path)
    }
}

/// The characters of `v` from position `start` on.
fn chars_from(v: &Vec<char>, start: usize) -> (r: Vec<char>)
    requires
        start <= v.len(),
    ensures
        r@ == v@.subrange(start as int, v.len() as int),
{
    let mut r: Vec<char> = Vec::new();
    let mut i: usize = start;
    while i < v.len()
        invariant
            start <= i <= v.len(),
            r@ == v@.subrange(start as int, i as int),
        decreases v.len() - i,
    {
        r.push(v[i]);
        assert(v@.subrange(start as int, i + 1) =~= v@.subrange(start as int, i as int).push(
            v@[i as int],
        ));
        i = i + 1;
    }
    r
}

/// Whether the first `n` characters of `a` and `b` agree.
fn same_prefix(a: &Vec<char>, b: &Vec<char>, n: usize) -> (r: bool)
    requires
        n <= a.len(),
        n <= b.len(),
    ensures
        r == (a@.subrange(0, n as int) == b@.subrange(0, n as int)),
{
    let mut i: usize = 0;
    while i < n
        invariant
            i <= n,
            n <= a.len(),
            n <= b.len(),
            a@.subrange(0, i as int) == b@.subrange(0, i as int),
        decreases n - i,
    {
        if a[i] != b[i] {
            assert(a@.subrange(0, n as int)[i as int] != b@.subrange(0, n as int)[i as int]);
            return false;
        }
        assert(a@.subrange(0, i + 1) =~= a@.subrange(0, i as int).push(a@[i as int]));
        assert(b@.subrange(0, i + 1) =~= b@.subrange(0, i as int).push(b@[i as int]));
        i = i + 1;
    }
    true
}

/// An absolute path made relative to `root`, as characters.
fn strip_root_chars(p: &Vec<char>, root: &str) -> (r: Vec<char>)
    ensures
        r@ == strip_root(p@, root@),
{
    let rt = chars_of(root);
    let mut rl = rt.len();
    if rl > 1 && rt[rl - 1] == '/' {
        rl = rl - 1;
    }
    let ghost r = root_without_slash(root@);
    assert(r =~= rt@.subrange(0, rl as int));
    let whole = p.len() == rl && same_prefix(p, &rt, rl);
    assert(whole == (p@ == r)) by {
        if p.len() == rl {
            assert(p@.subrange(0, rl as int) =~= p@);
        }
    }
    if whole {
        let e: Vec<char> = Vec::new();
        assert(e@ =~= strip_root(p@, root@));
        return e;
    }
    let is_root = rl == 1 && rt[0] == '/';
    assert(is_root == (r == seq!['/'])) by {
        if r == seq!['/'] {
            assert(r.len() == 1);
            assert(r[0] == rt@[0]);
        }
        if is_root {
            assert(r =~= seq!['/']);
        }
    }
    if is_root {
        if p.len() > 0 && p[0] == '/' {
            return chars_from(p, 1);
        }
        proof {
            if 1 < p@.len() && p@.subrange(0, 1) == r {
                assert(p@.subrange(0, 1)[0] == p@[0]);
                assert(r[0] == '/');
            }
        }
        return p.clone();
    }
    if rl < p.len() && same_prefix(p, &rt, rl) && p[rl] == '/' {
        return chars_from(p, rl + 1);
    }
    p.clone()
}

/// A path as the git-diff filter compares it.
pub fn normalize_path_text(path: &str, root: &str) -> (r: String)
    ensures
        r@ == normalize_path(path@, root@),
{
    let p = chars_of(path);
    let stripped: Vec<char> = if p.len() > 0 && p[0] == '/' {
        strip_root_chars(&p, root)
    } else {
        p
    };
    assert(stripped@ == (if path@.len() > 0 && path@[0] == '/' {
        strip_root(path@, root@)
    } else {
        path@
    }));
    // Remove leading "./" segments.
    let mut i: usize = 0;
    assert(stripped@.subrange(0, stripped.len() as int) =~= stripped@);
    while stripped.len() - i >= 2 && stripped[i] == '.' && stripped[i + 1] == '/'
        invariant
            i <= stripped.len(),
            trim_dot_slash(stripped@.subrange(i as int, stripped.len() as int)) == trim_dot_slash(
                stripped@,
            ),
        decreases stripped.len() - i,
    {
        let ghost rest = stripped@.subrange(i as int, stripped.len() as int);
        assert(rest.subrange(2, rest.len() as int) =~= stripped@.subrange(
            i + 2,
            stripped.len() as int,
        ));
        i = i + 2;
    }
    let tail = chars_from(&stripped, i);
    assert(trim_dot_slash(tail@) == tail@);
    assert(stripped@.subrange(0, stripped.len() as int) =~= stripped@);
    string_of(&tail)
}

/// The changed paths, normalized.
pub open spec fn normalized_all(changed: Seq<Seq<char>>, root: Seq<char>) -> Seq<Seq<char>> {
    Seq::new(changed.len(), |i: int| normalize_path(changed[i], root))
}

/// A duplicate involves a changed file when either of its files is one.
pub open spec fn touches_changed(d: DuplicateMatch, changed: Seq<Seq<char>>, root: Seq<char>) -> bool {
    normalized_all(changed, root).contains(normalize_path(d.file1@, root))
        || normalized_all(changed, root).contains(normalize_path(d.file2@, root))
}

/// The duplicates that involve a changed file, in their order.
pub open spec fn filter_changed(
    dups: Seq<DuplicateMatch>,
    changed: Seq<Seq<char>>,
    root: Seq<char>,
) -> Seq<DuplicateMatch>
    decreases dups.len(),
{
    if dups.len() == 0 {
        dups
    } else {
        let rest = filter_changed(dups.drop_last(), changed, root);
        if touches_changed(dups.last(), changed, root) {
            rest.push(dups.last())
        } else {
            rest
        }
    }
}

/// Filter duplicates to only show those involving changed files. Paths are
/// normalized against the repository root `repo_root`.
pub fn filter_duplicates_by_changed_files(
    report: &mut Report,
    changed: &Vec<String>,
    repo_root: &str,
)
    ensures
        final(report).duplicates@ == filter_changed(
            old(report).duplicates@,
            changed.deep_view(),
            repo_root@,
        ),
        final(report).files_scanned == old(report).files_scanned,
        final(report).functions_analyzed == old(report).functions_analyzed,
        final(report).skipped_files == old(report).skipped_files,
        final(report).stats == old(report).stats,
{
    let ghost root = repo_root@;
    let mut changed_set: Vec<String> = Vec::new();
    let mut c: usize = 0;
    while c < changed.len()
        invariant
            c <= changed.len(),
            root == repo_root@,
            changed_set.deep_view() =~= normalized_all(changed.deep_view(), root).take(c as int),
        decreases changed.len() - c,
    {
        let n = normalize_path_text(changed[c].as_str(), repo_root);
        changed_set.push(n);
        assert(normalized_all(changed.deep_view(), root).take(c + 1) =~= normalized_all(
            changed.deep_view(),
            root,
        ).take(c as int).push(normalize_path(changed.deep_view()[c as int], root)));
        c = c + 1;
    }
    assert(normalized_all(changed.deep_view(), root).take(changed.len() as int) =~= normalized_all(
        changed.deep_view(),
        root,
    ));
    let mut kept: Vec<DuplicateMatch> = Vec::new();
    let mut i: usize = 0;
    while i < report.duplicates.len()
        invariant
            i <= report.duplicates.len(),
            root == repo_root@,
            changed_set.deep_view() == normalized_all(changed.deep_view(), root),
            kept@ == filter_changed(report.duplicates@.take(i as int), changed.deep_view(), root),
        decreases report.duplicates.len() - i,
    {
        let d = &report.duplicates[i];
        let n1 = normalize_path_text(d.file1.as_str(), repo_root);
        let n2 = normalize_path_text(d.file2.as_str(), repo_root);
        let hit = contains_text(&changed_set, n1.as_str()) || contains_text(
            &changed_set,
            n2.as_str(),
        );
        assert(report.duplicates@.take(i + 1).drop_last() =~= report.duplicates@.take(i as int));
        if hit {
            kept.push(d.copy());
        }
        i = i + 1;
    }
    assert(report.duplicates@.take(report.duplicates.len() as int) =~= report.duplicates@);
    report.duplicates = kept;
}

/// The git-diff filter keeps a duplicate exactly when one of its files is a
/// changed file, and keeps the order.
pub proof fn lemma_filter_changed_members(
    dups: Seq<DuplicateMatch>,
    changed: Seq<Seq<char>>,
    root: Seq<char>,
)
    ensures
        forall|j: int|
            0 <= j < filter_changed(dups, changed, root).len() ==> touches_changed(
                #[trigger] filter_changed(dups, changed, root)[j],
                changed,
                root,
            ) && dups.contains(filter_changed(dups, changed, root)[j]),
        forall|k: int|
            0 <= k < dups.len() && touches_changed(#[trigger] dups[k], changed, root)
                ==> filter_changed(dups, changed, root).contains(dups[k]),
    decreases dups.len(),
{
    if dups.len() > 0 {
        let init = dups.drop_last();
        lemma_filter_changed_members(init, changed, root);
        let f = filter_changed(dups, changed, root);
        let fi = filter_changed(init, changed, root);
        assert forall|j: int| 0 <= j < f.len() implies touches_changed(
            #[trigger] f[j],
            changed,
            root,
        ) && dups.contains(f[j]) by {
            if j < fi.len() {
                assert(f[j] == fi[j]);
                let m = choose|m: int| 0 <= m < init.len() && init[m] == fi[j];
                assert(dups[m] == f[j]);
            } else {
                assert(dups[dups.len() - 1] == f[j]);
            }
        }
        assert forall|k: int| 0 <= k < dups.len() && touches_changed(#[trigger] dups[k], changed, root)
            implies f.contains(dups[k]) by {
            if k < init.len() {
                assert(init[k] == dups[k]);
                let m = choose|m: int| 0 <= m < fi.len() && fi[m] == init[k];
                assert(f[m] == fi[m]);
            } else {
                assert(f[f.len() - 1] == dups.last());
            }
        }
    }
}

} // verus!
