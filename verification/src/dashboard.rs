//! The summary tables at the top of the text report: the scan dashboard,
//! the clone type breakdown and the files with the most duplicates. The
//! rows are computed here; drawing the boxes is left to `tabled`.

use vstd::prelude::*;
use crate::encoding::{byte_suffix, is_byte_boundary, suffix_start, utf8_len, utf8_len_exceeds};
use crate::fixed::{percent_tenths_text, push_percent_tenths};
use crate::order::{insert_by, insertion_sorted, lemma_insert_by_at, lemma_insertion_sorted, sorted_by, total_preorder};
use crate::report::{CloneType, DuplicateMatch, Report};
use crate::text::{append_str, decimal, owned, push_char, push_decimal, str_eq, chars_of};

verus! {

broadcast use vstd::string::group_string_axioms;

// ---------------------------------------------------------------------------
// Drawing tables
// ---------------------------------------------------------------------------

/// The text that `tabled` draws for one-column rows in the double-line box
/// style of the dashboard.
pub uninterp spec fn boxed_rows(rows: Seq<Seq<char>>) -> Seq<char>;

/// Draws one-column rows in a double-line box with `tabled`'s `Builder`
/// and `Style::empty()` with the `═ ║ ╔ ╗ ╚ ╝ ╠ ╣ ╬` characters and no
/// horizontal lines between rows. The contract only names the drawing: it
/// depends on the rows alone.
#[verifier::external_body]
pub(crate) fn boxed_table(rows: &Vec<String>) -> (r: String)
    ensures
        r@ == boxed_rows(rows.deep_view()),
{
    let mut builder = tabled::builder::Builder::default();
    for row in rows.iter() {
        builder.push_record([row.clone()]);
    }
    let style = tabled::settings::Style::empty().top('═').bottom('═').left('║').right('║')
        .horizontal('═').vertical('║').corner_top_left('╔').corner_top_right('╗')
        .corner_bottom_left('╚').corner_bottom_right('╝').intersection_top('╠')
        .intersection_bottom('╣').intersection('╬').remove_horizontal();
    builder.build().with(style).to_string()
}

// ---------------------------------------------------------------------------
// Dashboard
// ---------------------------------------------------------------------------

/// The sum of the lengths of the duplicates.
pub open spec fn total_length(dups: Seq<DuplicateMatch>) -> nat
    decreases dups.len(),
{
    if dups.len() == 0 {
        0
    } else {
        total_length(dups.drop_last()) + dups.last().length as nat
    }
}

/// The counters of the report fit in machine words: the total length of the
/// duplicates, the number of suppressed duplicates, and twice the number of
/// duplicates.
pub open spec fn counts_fit(r: Report) -> bool {
    &&& total_length(r.duplicates@) <= usize::MAX
    &&& r.stats.suppressed_by_ignore_file + r.stats.suppressed_by_directive <= usize::MAX
    &&& 2 * r.duplicates@.len() <= usize::MAX
}

/// "Scan Results" centred in 63 columns.
pub open spec fn dashboard_title() -> Seq<char> {
    "                         Scan Results                          "@
}

/// The rows of the dashboard table.
pub open spec fn dashboard_rows(r: Report) -> Seq<Seq<char>> {
    let ignored = r.stats.suppressed_by_ignore_file + r.stats.suppressed_by_directive;
    seq![
        dashboard_title(),
        "Files scanned: "@ + decimal(r.files_scanned as nat),
        "Functions analyzed: "@ + decimal(r.functions_analyzed as nat),
        "Duplicates found: "@ + decimal(r.duplicates@.len()),
    ] + (if r.skipped_files@.len() > 0 {
        seq!["Files skipped: "@ + decimal(r.skipped_files@.len())]
    } else {
        Seq::empty()
    }) + (if ignored > 0 {
        seq!["Duplicates ignored: "@ + decimal(ignored as nat)]
    } else {
        Seq::empty()
    }) + (if r.duplicates@.len() > 0 {
        seq!["Estimated savings: ~"@ + decimal(total_length(r.duplicates@)) + " lines"@]
    } else {
        Seq::empty()
    })
}

/// A label followed by a number.
fn labelled(label: &str, n: usize) -> (r: String)
    ensures
        r@ == label@ + decimal(n as nat),
{
    let mut r = owned(label);
    push_decimal(&mut r, n as u64);
    r
}

/// The rows of the dashboard table.
pub fn dashboard_rows_of(report: &Report) -> (rows: Vec<String>)
    requires
        counts_fit(*report),
    ensures
        rows.deep_view() == dashboard_rows(*report),
{
    let mut rows: Vec<String> = Vec::new();
    rows.push(owned("                         Scan Results                          "));
    rows.push(labelled("Files scanned: ", report.files_scanned));
    rows.push(labelled("Functions analyzed: ", report.functions_analyzed));
    rows.push(labelled("Duplicates found: ", report.duplicates.len()));
    let ghost base = rows.deep_view();
    if report.skipped_files.len() > 0 {
        rows.push(labelled("Files skipped: ", report.skipped_files.len()));
    }
    let ghost with_skipped = rows.deep_view();
    let ignored = report.stats.suppressed_by_ignore_file + report.stats.suppressed_by_directive;
    if ignored > 0 {
        rows.push(labelled("Duplicates ignored: ", ignored));
    }
    let ghost with_ignored = rows.deep_view();
    if report.duplicates.len() > 0 {
        let mut total: usize = 0;
        let mut i: usize = 0;
        while i < report.duplicates.len()
            invariant
                i <= report.duplicates.len(),
                total == total_length(report.duplicates@.take(i as int)),
                total_length(report.duplicates@) <= usize::MAX,
            decreases report.duplicates.len() - i,
        {
            assert(report.duplicates@.take(i + 1).drop_last() =~= report.duplicates@.take(i as int));
            proof {
                lemma_total_length_prefix(report.duplicates@, i as int + 1);
            }
            total = total + report.duplicates[i].length;
            i = i + 1;
        }
        assert(report.duplicates@.take(report.duplicates.len() as int) =~= report.duplicates@);
        let mut row = labelled("Estimated savings: ~", total);
        append_str(&mut row, " lines");
        rows.push(row);
    }
    assert(rows.deep_view() =~= dashboard_rows(*report));
    rows
}

/// The total length of a prefix is at most the total length.
proof fn lemma_total_length_prefix(dups: Seq<DuplicateMatch>, n: int)
    requires
        0 <= n <= dups.len(),
    ensures
        total_length(dups.take(n)) <= total_length(dups),
    decreases dups.len(),
{
    if n < dups.len() {
        lemma_total_length_prefix(dups.drop_last(), n);
        assert(dups.drop_last().take(n) =~= dups.take(n));
    } else {
        assert(dups.take(n) =~= dups);
    }
}

// ---------------------------------------------------------------------------
// Clone type breakdown
// ---------------------------------------------------------------------------

/// The number of duplicates of clone type `ct`.
pub open spec fn count_type(dups: Seq<DuplicateMatch>, ct: CloneType) -> nat
    decreases dups.len(),
{
    if dups.len() == 0 {
        0
    } else {
        count_type(dups.drop_last(), ct) + if dups.last().clone_type == ct {
            1nat
        } else {
            0nat
        }
    }
}

proof fn lemma_count_type_le(dups: Seq<DuplicateMatch>, ct: CloneType)
    ensures
        count_type(dups, ct) <= dups.len(),
    decreases dups.len(),
{
    if dups.len() > 0 {
        lemma_count_type_le(dups.drop_last(), ct);
    }
}

/// The number of duplicates of clone type `ct`.
pub fn count_clone_type(dups: &Vec<DuplicateMatch>, ct: CloneType) -> (r: usize)
    ensures
        r == count_type(dups@, ct),
{
    let mut n: usize = 0;
    let mut i: usize = 0;
    while i < dups.len()
        invariant
            i <= dups.len(),
            n == count_type(dups@.take(i as int), ct),
        decreases dups.len() - i,
    {
        assert(dups@.take(i + 1).drop_last() =~= dups@.take(i as int));
        proof {
            lemma_count_type_le(dups@.take(i as int), ct);
        }
        if dups[i].clone_type == ct {
            n = n + 1;
        }
        i = i + 1;
    }
    assert(dups@.take(dups.len() as int) =~= dups@);
    n
}

/// The lowest similarity of a non-empty sequence of duplicates.
pub open spec fn min_similarity(dups: Seq<DuplicateMatch>) -> int
    decreases dups.len(),
{
    if dups.len() <= 1 {
        dups[0].similarity as int
    } else {
        let m = min_similarity(dups.drop_last());
        if dups.last().similarity < m {
            dups.last().similarity as int
        } else {
            m
        }
    }
}

/// The highest similarity of a non-empty sequence of duplicates.
pub open spec fn max_similarity(dups: Seq<DuplicateMatch>) -> int
    decreases dups.len(),
{
    if dups.len() <= 1 {
        dups[0].similarity as int
    } else {
        let m = max_similarity(dups.drop_last());
        if dups.last().similarity > m {
            dups.last().similarity as int
        } else {
            m
        }
    }
}

/// The rows of the clone type breakdown table of a non-empty sequence of
/// duplicates: one row per clone type present, then the similarity range.
pub open spec fn breakdown_rows(dups: Seq<DuplicateMatch>) -> Seq<Seq<char>> {
    let t1 = count_type(dups, CloneType::Type1);
    let t2 = count_type(dups, CloneType::Type2);
    let t3 = count_type(dups, CloneType::Type3);
    seq!["Clone Type Breakdown:"@] + (if t1 > 0 {
        seq!["  Type-1 (exact): "@ + decimal(t1) + " groups │ Critical priority"@]
    } else {
        Seq::empty()
    }) + (if t2 > 0 {
        seq!["  Type-2 (renamed): "@ + decimal(t2) + " groups │ High priority"@]
    } else {
        Seq::empty()
    }) + (if t3 > 0 {
        seq!["  Type-3 (modified): "@ + decimal(t3) + " groups │ Medium priority"@]
    } else {
        Seq::empty()
    }) + seq![
        "  Similarity range: "@ + percent_tenths_text(min_similarity(dups)) + "% - "@
            + percent_tenths_text(max_similarity(dups)) + "%"@,
    ]
}

/// The rows of the clone type breakdown table.
pub fn breakdown_rows_of(dups: &Vec<DuplicateMatch>) -> (rows: Vec<String>)
    requires
        dups.len() > 0,
    ensures
        rows.deep_view() == breakdown_rows(dups@),
{
    let mut t1: usize = 0;
    let mut t2: usize = 0;
    let mut t3: usize = 0;
    let mut lo: i64 = dups[0].similarity;
    let mut hi: i64 = dups[0].similarity;
    assert(dups@.take(1).drop_last() =~= dups@.take(0));
    let mut i: usize = 0;
    while i < dups.len()
        invariant
            i <= dups.len(),
            dups.len() > 0,
            t1 == count_type(dups@.take(i as int), CloneType::Type1),
            t2 == count_type(dups@.take(i as int), CloneType::Type2),
            t3 == count_type(dups@.take(i as int), CloneType::Type3),
            t1 + t2 + t3 == i,
            i > 0 ==> lo == min_similarity(dups@.take(i as int)),
            i > 0 ==> hi == max_similarity(dups@.take(i as int)),
            i == 0 ==> lo == dups@[0].similarity && hi == dups@[0].similarity,
        decreases dups.len() - i,
    {
        let ghost prefix = dups@.take(i + 1);
        assert(prefix.drop_last() =~= dups@.take(i as int));
        assert(prefix.last() == dups@[i as int]);
        let d = &dups[i];
        match d.clone_type {
            CloneType::Type1 => { t1 = t1 + 1; },
            CloneType::Type2 => { t2 = t2 + 1; },
            CloneType::Type3 => { t3 = t3 + 1; },
        }
        if i > 0 {
            if d.similarity < lo {
                lo = d.similarity;
            }
            if d.similarity > hi {
                hi = d.similarity;
            }
        }
        i = i + 1;
    }
    assert(dups@.take(dups.len() as int) =~= dups@);
    let mut rows: Vec<String> = Vec::new();
    rows.push(owned("Clone Type Breakdown:"));
    if t1 > 0 {
        let mut row = labelled("  Type-1 (exact): ", t1);
        append_str(&mut row, " groups │ Critical priority");
        rows.push(row);
    }
    if t2 > 0 {
        let mut row = labelled("  Type-2 (renamed): ", t2);
        append_str(&mut row, " groups │ High priority");
        rows.push(row);
    }
    if t3 > 0 {
        let mut row = labelled("  Type-3 (modified): ", t3);
        append_str(&mut row, " groups │ Medium priority");
        rows.push(row);
    }
    let mut range = owned("  Similarity range: ");
    push_percent_tenths(&mut range, lo);
    append_str(&mut range, "% - ");
    push_percent_tenths(&mut range, hi);
    append_str(&mut range, "%");
    rows.push(range);
    assert(rows.deep_view() =~= breakdown_rows(dups@));
    rows
}

// ---------------------------------------------------------------------------
// Top offenders
// ---------------------------------------------------------------------------

/// The files of the duplicates, two per duplicate, in order.
pub open spec fn files_of(dups: Seq<DuplicateMatch>) -> Seq<Seq<char>>
    decreases dups.len(),
{
    if dups.len() == 0 {
        Seq::empty()
    } else {
        files_of(dups.drop_last()).push(dups.last().file1@).push(dups.last().file2@)
    }
}

/// How often `f` occurs in `s`.
pub open spec fn occurrences(s: Seq<Seq<char>>, f: Seq<char>) -> nat
    decreases s.len(),
{
    if s.len() == 0 {
        0
    } else {
        occurrences(s.drop_last(), f) + if s.last() == f {
            1nat
        } else {
            0nat
        }
    }
}

/// The distinct elements of `s` in order of first appearance.
pub open spec fn distinct_in_order(s: Seq<Seq<char>>) -> Seq<Seq<char>>
    decreases s.len(),
{
    if s.len() == 0 {
        Seq::empty()
    } else {
        let d = distinct_in_order(s.drop_last());
        if d.contains(s.last()) {
            d
        } else {
            d.push(s.last())
        }
    }
}

/// A file with the number of duplicates that involve it.
pub type Tally = (Seq<char>, nat);

/// Every distinct element of `s` with the number of its occurrences, in
/// order of first appearance.
pub open spec fn tallies_of(s: Seq<Seq<char>>) -> Seq<Tally> {
    let names = distinct_in_order(s);
    Seq::new(names.len(), |i: int| (names[i], occurrences(s, names[i])))
}

/// Every file of the duplicates with its count, in order of first
/// appearance.
pub open spec fn tallies(dups: Seq<DuplicateMatch>) -> Seq<Tally> {
    tallies_of(files_of(dups))
}

/// Files with more duplicates come first.
pub open spec fn tally_le(a: Tally, b: Tally) -> bool {
    a.1 >= b.1
}

/// The order of tallies, as a function value.
pub open spec fn tally_order() -> spec_fn(Tally, Tally) -> bool {
    |a: Tally, b: Tally| tally_le(a, b)
}

/// The five files with the most duplicates, most first; files with equal
/// counts keep their order of first appearance.
pub open spec fn top_offenders(dups: Seq<DuplicateMatch>) -> Seq<Tally> {
    let sorted = insertion_sorted(tallies(dups), tally_order());
    if sorted.len() > 5 {
        sorted.take(5)
    } else {
        sorted
    }
}

/// A file name shortened to its last 37 bytes after `...` when longer than
/// 40 bytes.
pub open spec fn display_name(f: Seq<char>) -> Seq<char> {
    if utf8_len(f) > 40 {
        "..."@ + byte_suffix(f, utf8_len(f) - 37)
    } else {
        f
    }
}

/// A file name can be shortened: when longer than 40 bytes, its last 37
/// bytes start at a character.
pub open spec fn name_fits(f: Seq<char>) -> bool {
    utf8_len(f) > 40 ==> is_byte_boundary(f, utf8_len(f) - 37)
}

/// Every name among the tallies can be shortened.
pub open spec fn names_fit(top: Seq<Tally>) -> bool {
    forall|i: int| 0 <= i < top.len() ==> name_fits(#[trigger] top[i].0)
}

/// The row of the `i`-th offender.
pub open spec fn offender_row(t: Tally, i: int) -> Seq<char> {
    "  "@ + decimal((i + 1) as nat) + ". "@ + display_name(t.0) + " "@ + decimal(t.1)
        + " duplicates"@
}

/// The rows of the top offenders table.
pub open spec fn offender_rows(top: Seq<Tally>) -> Seq<Seq<char>> {
    seq!["Top Offenders:"@] + Seq::new(top.len(), |i: int| offender_row(top[i], i))
}

/// The values of file counts.
pub open spec fn tally_views(s: Seq<(String, usize)>) -> Seq<Tally> {
    Seq::new(s.len(), |i: int| (s[i].0@, s[i].1 as nat))
}

/// Counts one more occurrence of `f`.
pub(crate) fn count_file(names: &mut Vec<String>, counts: &mut Vec<usize>, f: &String, Ghost(seen): Ghost<Seq<Seq<char>>>)
    requires
        old(names).len() == old(counts).len(),
        old(names).deep_view() == distinct_in_order(seen),
        forall|k: int| 0 <= k < old(counts).len() ==> #[trigger] old(counts)@[k] == occurrences(seen, old(names).deep_view()[k]),
        seen.len() < usize::MAX,
    ensures
        final(names).len() == final(counts).len(),
        final(names).deep_view() == distinct_in_order(seen.push(f@)),
        forall|k: int| 0 <= k < final(counts).len() ==> #[trigger] final(counts)@[k] == occurrences(seen.push(f@), final(names).deep_view()[k]),
{
    let ghost s2 = seen.push(f@);
    assert(s2.drop_last() =~= seen);
    proof {
        lemma_occurrences_bound(seen, f@);
    }
    let mut k: usize = 0;
    while k < names.len()
        invariant
            k <= names.len(),
            names.len() == counts.len(),
            names.deep_view() == distinct_in_order(seen),
            forall|m: int| 0 <= m < counts.len() ==> #[trigger] counts@[m] == occurrences(seen, names.deep_view()[m]),
            forall|m: int| 0 <= m < k ==> names.deep_view()[m] != f@,
            occurrences(seen, f@) <= seen.len(),
            seen.len() < usize::MAX,
            s2 == seen.push(f@),
            s2.drop_last() == seen,
            s2.last() == f@,
            s2.len() > 0,
        decreases names.len() - k,
    {
        if str_eq(names[k].as_str(), f.as_str()) {
            let ghost nv = names.deep_view();
            assert(nv[k as int] == f@);
            assert(nv.contains(f@));
            assert(counts@[k as int] == occurrences(seen, f@));
            assert(occurrences(seen, f@) <= seen.len());
            let c = counts[k] + 1;
            counts.set(k, c);
            assert forall|m: int| 0 <= m < counts.len() implies #[trigger] counts@[m] == occurrences(s2, names.deep_view()[m]) by {
                if m != k {
                    assert(nv[m] != f@) by {
                        lemma_distinct_in_order_unique(seen, m, k as int);
                    }
                }
            }
            return;
        }
        k = k + 1;
    }
    let ghost nv = names.deep_view();
    assert(!nv.contains(f@));
    names.push(f.clone());
    counts.push(1);
    assert(names.deep_view() =~= nv.push(f@));
    assert forall|m: int| 0 <= m < counts.len() implies #[trigger] counts@[m] == occurrences(s2, names.deep_view()[m]) by {
        if m < nv.len() {
            assert(names.deep_view()[m] == nv[m]);
            assert(nv[m] != f@);
        } else {
            lemma_occurrences_absent(seen, f@);
        }
    }
}

/// Occurrences never exceed the length.
proof fn lemma_occurrences_bound(s: Seq<Seq<char>>, f: Seq<char>)
    ensures
        occurrences(s, f) <= s.len(),
    decreases s.len(),
{
    if s.len() > 0 {
        lemma_occurrences_bound(s.drop_last(), f);
    }
}

/// An element that is not among the distinct elements does not occur.
proof fn lemma_occurrences_absent(s: Seq<Seq<char>>, f: Seq<char>)
    requires
        !distinct_in_order(s).contains(f),
    ensures
        occurrences(s, f) == 0,
    decreases s.len(),
{
    if s.len() > 0 {
        let d = distinct_in_order(s.drop_last());
        if d.contains(f) {
            let m = choose|m: int| 0 <= m < d.len() && d[m] == f;
            if !d.contains(s.last()) {
                assert(d.push(s.last())[m] == f);
            }
        }
        assert(!d.contains(f));
        lemma_occurrences_absent(s.drop_last(), f);
        if s.last() == f {
            if !d.contains(s.last()) {
                assert(d.push(s.last())[d.len() as int] == f);
            }
        }
    }
}

/// The distinct elements are distinct.
proof fn lemma_distinct_in_order_unique(s: Seq<Seq<char>>, a: int, b: int)
    requires
        0 <= a < distinct_in_order(s).len(),
        0 <= b < distinct_in_order(s).len(),
        a != b,
    ensures
        distinct_in_order(s)[a] != distinct_in_order(s)[b],
    decreases s.len(),
{
    let d = distinct_in_order(s.drop_last());
    if s.len() > 0 {
        if d.contains(s.last()) {
            lemma_distinct_in_order_unique(s.drop_last(), a, b);
        } else {
            if a < d.len() && b < d.len() {
                lemma_distinct_in_order_unique(s.drop_last(), a, b);
            } else if a < d.len() {
                assert(distinct_in_order(s)[a] == d[a]);
            } else {
                assert(distinct_in_order(s)[b] == d[b]);
            }
        }
    }
}

/// The distinct elements are the elements, each once.
proof fn lemma_distinct_in_order_members(s: Seq<Seq<char>>)
    ensures
        forall|x: Seq<char>| distinct_in_order(s).contains(x) <==> s.contains(x),
        distinct_in_order(s).no_duplicates(),
        distinct_in_order(s).len() == s.to_set().len(),
    decreases s.len(),
{
    let d = distinct_in_order(s);
    if s.len() > 0 {
        let init = s.drop_last();
        lemma_distinct_in_order_members(init);
        let d0 = distinct_in_order(init);
        assert forall|x: Seq<char>| d.contains(x) <==> s.contains(x) by {
            if d.contains(x) {
                if d0.contains(x) {
                    assert(init.contains(x));
                    let m = choose|m: int| 0 <= m < init.len() && init[m] == x;
                    assert(s[m] == x);
                } else {
                    let k = choose|k: int| 0 <= k < d.len() && d[k] == x;
                    if d0.contains(s.last()) {
                        assert(d == d0);
                    } else {
                        assert(d == d0.push(s.last()));
                        if k < d0.len() {
                            assert(d0[k] == x);
                        }
                    }
                    assert(s[s.len() - 1] == x);
                }
            }
            if s.contains(x) {
                let m = choose|m: int| 0 <= m < s.len() && s[m] == x;
                if m < init.len() {
                    assert(init[m] == x);
                    assert(init.contains(x));
                    assert(d0.contains(x));
                    let k = choose|k: int| 0 <= k < d0.len() && d0[k] == x;
                    if !d0.contains(s.last()) {
                        assert(d[k] == x);
                    }
                } else if !d0.contains(s.last()) {
                    assert(d[d0.len() as int] == x);
                }
            }
        }
    }
    assert forall|a: int, b: int| 0 <= a < d.len() && 0 <= b < d.len() && a != b implies d[a] != d[b] by {
        lemma_distinct_in_order_unique(s, a, b);
    }
    d.unique_seq_to_set();
    assert(d.to_set() =~= s.to_set()) by {
        assert forall|x: Seq<char>| d.to_set().contains(x) <==> s.to_set().contains(x) by {}
    }
}

/// A file occurs among the files of the duplicates once for each duplicate
/// whose first file it is and once for each whose second file it is.
pub proof fn lemma_file_occurrences(dups: Seq<DuplicateMatch>, f: Seq<char>)
    ensures
        occurrences(files_of(dups), f) == dups.filter(|d: DuplicateMatch| d.file1@ == f).len() + dups.filter(
            |d: DuplicateMatch| d.file2@ == f,
        ).len(),
    decreases dups.len(),
{
    reveal(Seq::filter);
    let p1 = |d: DuplicateMatch| d.file1@ == f;
    let p2 = |d: DuplicateMatch| d.file2@ == f;
    if dups.len() > 0 {
        let init = dups.drop_last();
        lemma_file_occurrences(init, f);
        let fi = files_of(init);
        let d = dups.last();
        assert(files_of(dups) == fi.push(d.file1@).push(d.file2@));
        assert(fi.push(d.file1@).push(d.file2@).drop_last() =~= fi.push(d.file1@));
        assert(fi.push(d.file1@).drop_last() =~= fi);
        assert(dups.filter(p1) == if p1(d) { init.filter(p1).push(d) } else { init.filter(p1) });
        assert(dups.filter(p2) == if p2(d) { init.filter(p2).push(d) } else { init.filter(p2) });
        let a = fi.push(d.file1@);
        let b = a.push(d.file2@);
        assert(b.drop_last() == a);
        assert(b.last() == d.file2@);
        assert(occurrences(b, f) == occurrences(a, f) + (if d.file2@ == f { 1nat } else { 0nat }));
        assert(a.drop_last() == fi);
        assert(a.last() == d.file1@);
        assert(occurrences(a, f) == occurrences(fi, f) + (if d.file1@ == f { 1nat } else { 0nat }));
        assert(occurrences(files_of(dups), f) == occurrences(fi, f) + (if d.file1@ == f { 1nat } else { 0nat }) + (
        if d.file2@ == f {
            1nat
        } else {
            0nat
        }));
    } else {
        assert(dups.filter(p1).len() == 0);
        assert(dups.filter(p2).len() == 0);
    }
}

/// The top offenders are the files that occur most often among the files
/// of the duplicates (each duplicate counting once for each of its two
/// files), most first: as many as there are distinct files, up to five;
/// each with its number of occurrences; and no file left out occurs more
/// often than any file listed.
pub proof fn lemma_top_offenders(dups: Seq<DuplicateMatch>)
    ensures
        top_offenders(dups).len() == if files_of(dups).to_set().len() < 5 {
            files_of(dups).to_set().len()
        } else {
            5
        },
        forall|i: int|
            0 <= i < top_offenders(dups).len() ==> files_of(dups).contains((#[trigger] top_offenders(dups)[i]).0)
                && top_offenders(dups)[i].1 == occurrences(files_of(dups), top_offenders(dups)[i].0),
        forall|i: int, j: int|
            0 <= i < j < top_offenders(dups).len() ==> (#[trigger] top_offenders(dups)[i]).1 >= (
            #[trigger] top_offenders(dups)[j]).1,
        forall|f: Seq<char>, i: int|
            files_of(dups).contains(f) && (forall|k: int| 0 <= k < top_offenders(dups).len() ==> (
            #[trigger] top_offenders(dups)[k]).0 != f) && 0 <= i < top_offenders(dups).len()
                ==> top_offenders(dups)[i].1 >= occurrences(files_of(dups), f),
{
    let files = files_of(dups);
    let t = tallies(dups);
    let names = distinct_in_order(files);
    let sorted = insertion_sorted(t, tally_order());
    let top = top_offenders(dups);
    lemma_distinct_in_order_members(files);
    lemma_insertion_sorted(t, tally_order());
    assert(total_preorder(tally_order())) by {
        assert forall|a: Tally, b: Tally| #[trigger] tally_order()(a, b) || tally_order()(b, a) by {
            assert(tally_order()(a, b) == tally_le(a, b));
            assert(tally_order()(b, a) == tally_le(b, a));
        }
        assert forall|a: Tally, b: Tally, c: Tally| #[trigger] tally_order()(a, b) && #[trigger] tally_order()(b, c)
            implies tally_order()(a, c) by {
            assert(tally_order()(a, b) == tally_le(a, b));
            assert(tally_order()(b, c) == tally_le(b, c));
            assert(tally_order()(a, c) == tally_le(a, c));
        }
    }
    assert(sorted_by(sorted, tally_order()));
    assert(t.len() == names.len());
    assert forall|i: int| 0 <= i < top.len() implies top[i] == sorted[i] by {}
    assert forall|i: int| 0 <= i < top.len() implies files.contains((#[trigger] top[i]).0) && top[i].1
        == occurrences(files, top[i].0) by {
        assert(sorted.contains(sorted[i]));
        assert(t.contains(sorted[i]));
        let k = choose|k: int| 0 <= k < t.len() && t[k] == sorted[i];
        assert(names.contains(names[k]));
    }
    assert forall|i: int, j: int| 0 <= i < j < top.len() implies (#[trigger] top[i]).1 >= (#[trigger] top[j]).1 by {
        assert(tally_order()(sorted[i], sorted[j]));
        assert(tally_order()(sorted[i], sorted[j]) == tally_le(sorted[i], sorted[j]));
    }
    assert forall|f: Seq<char>, i: int|
        files.contains(f) && (forall|k: int| 0 <= k < top.len() ==> (#[trigger] top[k]).0 != f) && 0 <= i
            < top.len() implies top[i].1 >= occurrences(files, f) by {
        assert(names.contains(f));
        let k = choose|k: int| 0 <= k < names.len() && names[k] == f;
        assert(t[k] == (f, occurrences(files, f)));
        assert(t.contains(t[k]));
        assert(sorted.contains(t[k]));
        let p = choose|p: int| 0 <= p < sorted.len() && sorted[p] == t[k];
        if p < top.len() {
            assert(top[p].0 == f);
        }
        assert(i < p);
        assert(tally_order()(sorted[i], sorted[p]));
        assert(tally_order()(sorted[i], sorted[p]) == tally_le(sorted[i], sorted[p]));
    }
}

/// The files of the duplicates with the number of duplicates that involve
/// each, in order of first appearance.
fn tally_files(dups: &Vec<DuplicateMatch>) -> (r: Vec<(String, usize)>)
    requires
        2 * dups.len() <= usize::MAX,
    ensures
        tally_views(r@) == tallies(dups@),
{
    let mut names: Vec<String> = Vec::new();
    let mut counts: Vec<usize> = Vec::new();
    let mut i: usize = 0;
    while i < dups.len()
        invariant
            i <= dups.len(),
            2 * dups.len() <= usize::MAX,
            names.len() == counts.len(),
            names.deep_view() == distinct_in_order(files_of(dups@.take(i as int))),
            forall|k: int| 0 <= k < counts.len() ==> #[trigger] counts@[k] == occurrences(files_of(dups@.take(i as int)), names.deep_view()[k]),
            files_of(dups@.take(i as int)).len() == 2 * i,
        decreases dups.len() - i,
    {
        let ghost s0 = files_of(dups@.take(i as int));
        assert(dups@.take(i + 1).drop_last() =~= dups@.take(i as int));
        assert(dups@.take(i + 1).last() == dups@[i as int]);
        count_file(&mut names, &mut counts, &dups[i].file1, Ghost(s0));
        count_file(&mut names, &mut counts, &dups[i].file2, Ghost(s0.push(dups@[i as int].file1@)));
        i = i + 1;
    }
    assert(dups@.take(dups.len() as int) =~= dups@);
    let mut r: Vec<(String, usize)> = Vec::new();
    let mut k: usize = 0;
    while k < names.len()
        invariant
            k <= names.len(),
            names.len() == counts.len(),
            names.deep_view() == distinct_in_order(files_of(dups@)),
            forall|m: int| 0 <= m < counts.len() ==> #[trigger] counts@[m] == occurrences(files_of(dups@), names.deep_view()[m]),
            tally_views(r@) == tallies(dups@).take(k as int),
        decreases names.len() - k,
    {
        let ghost before = tally_views(r@);
        let name = names[k].clone();
        assert(name@ == names.deep_view()[k as int]);
        r.push((name, counts[k]));
        assert(tallies(dups@)[k as int] == (names.deep_view()[k as int], counts@[k as int] as nat));
        assert(tally_views(r@) =~= before.push((name@, counts@[k as int] as nat)));
        assert(tally_views(r@) =~= tallies(dups@).take(k + 1));
        k = k + 1;
    }
    assert(tallies(dups@).take(names.len() as int) =~= tallies(dups@));
    r
}

/// Tallies sorted stably by count, highest first.
pub(crate) fn sort_tallies(all: &Vec<(String, usize)>) -> (r: Vec<(String, usize)>)
    ensures
        tally_views(r@) == insertion_sorted(tally_views(all@), tally_order()),
{
    let ghost tv = tally_views(all@);
    let mut sorted: Vec<(String, usize)> = Vec::new();
    let mut t: usize = 0;
    while t < all.len()
        invariant
            t <= all.len(),
            tv == tally_views(all@),
            tally_views(sorted@) == insertion_sorted(tv.take(t as int), tally_order()),
        decreases all.len() - t,
    {
        let ghost before = tally_views(sorted@);
        let ghost x: Tally = (all@[t as int].0@, all@[t as int].1 as nat);
        assert(tv.take(t + 1).drop_last() =~= tv.take(t as int));
        assert(tv.take(t + 1).last() == x);
        let c = all[t].1;
        let mut j: usize = sorted.len();
        while j > 0 && sorted[j - 1].1 < c
            invariant
                j <= sorted.len(),
                before == tally_views(sorted@),
                x.1 == c,
                forall|m: int| j <= m < before.len() ==> !tally_le(#[trigger] before[m], x),
            decreases j,
        {
            j = j - 1;
        }
        proof {
            lemma_insert_by_at(before, x, tally_order(), j as int);
        }
        sorted.insert(j, (all[t].0.clone(), c));
        assert(tally_views(sorted@) =~= before.take(j as int).push(x) + before.skip(j as int));
        t = t + 1;
    }
    assert(tv.take(all.len() as int) =~= tv);
    sorted
}

/// The five files with the most duplicates, with their counts.
pub fn find_top_offenders(dups: &Vec<DuplicateMatch>) -> (r: Vec<(String, usize)>)
    requires
        2 * dups.len() <= usize::MAX,
    ensures
        tally_views(r@) == top_offenders(dups@),
{
    let all = tally_files(dups);
    let mut sorted = sort_tallies(&all);
    sorted.truncate(5);
    assert(tally_views(sorted@) =~= top_offenders(dups@));
    sorted
}

/// A file name as shown among the top offenders.
fn display_name_of(f: &str) -> (r: String)
    requires
        name_fits(f@),
    ensures
        r@ == display_name(f@),
{
    let v = chars_of(f);
    if utf8_len_exceeds(&v, 40) {
        let start = suffix_start(&v, 37);
        let mut r = owned("...");
        let mut i: usize = start;
        while i < v.len()
            invariant
                start <= i <= v.len(),
                v@ == f@,
                r@ == "..."@ + f@.subrange(start as int, i as int),
            decreases v.len() - i,
        {
            push_char(&mut r, v[i]);
            assert(f@.subrange(start as int, i + 1) =~= f@.subrange(start as int, i as int).push(
                f@[i as int],
            ));
            i = i + 1;
        }
        assert(f@.subrange(start as int, v.len() as int) =~= f@.skip(start as int));
        r
    } else {
        owned(f)
    }
}

/// The rows of the top offenders table.
pub fn offender_rows_of(top: &Vec<(String, usize)>) -> (rows: Vec<String>)
    requires
        top.len() < usize::MAX,
        names_fit(tally_views(top@)),
    ensures
        rows.deep_view() == offender_rows(tally_views(top@)),
{
    let mut rows: Vec<String> = Vec::new();
    rows.push(owned("Top Offenders:"));
    let mut i: usize = 0;
    while i < top.len()
        invariant
            i <= top.len(),
            top.len() < usize::MAX,
            names_fit(tally_views(top@)),
            rows.deep_view() == offender_rows(tally_views(top@)).take(i + 1),
        decreases top.len() - i,
    {
        let mut row = labelled("  ", i + 1);
        append_str(&mut row, ". ");
        assert(tally_views(top@)[i as int].0 == top@[i as int].0@);
        let name = display_name_of(top[i].0.as_str());
        append_str(&mut row, name.as_str());
        append_str(&mut row, " ");
        push_decimal(&mut row, top[i].1 as u64);
        append_str(&mut row, " duplicates");
        assert(row@ == offender_row(tally_views(top@)[i as int], i as int));
        let ghost before = rows.deep_view();
        rows.push(row);
        assert(offender_rows(tally_views(top@))[i + 1] == offender_row(
            tally_views(top@)[i as int],
            i as int,
        ));
        assert(rows.deep_view() =~= before.push(row@));
        assert(rows.deep_view() =~= offender_rows(tally_views(top@)).take(i + 2));
        i = i + 1;
    }
    assert(offender_rows(tally_views(top@)).take(top.len() + 1) =~= offender_rows(tally_views(top@)));
    rows
}

/// Every distinct text of `items` with the number of its occurrences, in
/// order of first appearance.
pub(crate) fn tally_texts(items: &Vec<String>) -> (r: Vec<(String, usize)>)
    ensures
        tally_views(r@) == tallies_of(items.deep_view()),
{
    let ghost all = items.deep_view();
    let mut names: Vec<String> = Vec::new();
    let mut counts: Vec<usize> = Vec::new();
    let mut i: usize = 0;
    while i < items.len()
        invariant
            i <= items.len(),
            all == items.deep_view(),
            names.len() == counts.len(),
            names.deep_view() == distinct_in_order(all.take(i as int)),
            forall|k: int| 0 <= k < counts.len() ==> #[trigger] counts@[k] == occurrences(all.take(i as int), names.deep_view()[k]),
        decreases items.len() - i,
    {
        assert(all.take(i + 1) =~= all.take(i as int).push(items[i as int]@));
        count_file(&mut names, &mut counts, &items[i], Ghost(all.take(i as int)));
        i = i + 1;
    }
    assert(all.take(items.len() as int) =~= all);
    let mut r: Vec<(String, usize)> = Vec::new();
    let mut k: usize = 0;
    while k < names.len()
        invariant
            k <= names.len(),
            names.len() == counts.len(),
            names.deep_view() == distinct_in_order(all),
            forall|m: int| 0 <= m < counts.len() ==> #[trigger] counts@[m] == occurrences(all, names.deep_view()[m]),
            tally_views(r@) == tallies_of(all).take(k as int),
        decreases names.len() - k,
    {
        let ghost before = tally_views(r@);
        let name = names[k].clone();
        assert(name@ == names.deep_view()[k as int]);
        r.push((name, counts[k]));
        assert(tallies_of(all)[k as int] == (names.deep_view()[k as int], counts@[k as int] as nat));
        assert(tally_views(r@) =~= before.push((name@, counts@[k as int] as nat)));
        k = k + 1;
    }
    assert(tallies_of(all).take(names.len() as int) =~= tallies_of(all));
    r
}

} // verus!
