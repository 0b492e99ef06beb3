//! The `ignore` subcommand: file ranges, finding the duplicate at a given
//! location, the choices around adding an entry, and what is printed.
//! Reading and writing the ignore file, scanning and resolving paths are
//! the caller's task.

use vstd::prelude::*;
use crate::cli::{parse_i64, parse_i64_text};
use crate::config::Config;
use crate::defaults::TYPE3_TOLERANCE;
use crate::report::DuplicateMatch;
use crate::scan::{last_index_of, merged_min_block_size, merged_similarity};
use crate::text::{
    append_str, chars_of, decimal, owned, push_decimal, str_contains, string_of, trim_seq,
    trim_text, contains_seq,
};

verus! {

broadcast use vstd::string::group_string_axioms;

/// A location in a file: the file and an inclusive range of lines.
pub struct FileRange {
    pub file: String,
    pub start_line: usize,
    pub end_line: usize,
}

/// The text of a file range: `path:start-end`.
pub open spec fn file_range_text(r: FileRange) -> Seq<char> {
    r.file@ + ":"@ + decimal(r.start_line as nat) + "-"@ + decimal(r.end_line as nat)
}

impl FileRange {
    /// The text of a file range: `path:start-end`.
    pub fn to_text(&self) -> (r: String)
        ensures
            r@ == file_range_text(*self),
    {
        let mut t = owned(self.file.as_str());
        append_str(&mut t, ":");
        push_decimal(&mut t, self.start_line as u64);
        append_str(&mut t, "-");
        push_decimal(&mut t, self.end_line as u64);
        t
    }
}

/// A line number: a decimal number that fits in `usize`.
pub open spec fn line_number(s: Seq<char>) -> Option<usize> {
    match parse_i64(s) {
        Some(n) => if 0 <= n <= usize::MAX {
            Some(n as usize)
        } else {
            None
        },
        None => None,
    }
}

/// The file range written `path:start-end`: the path is everything before
/// the last `:`, the lines are separated by the first `-` after it.
pub open spec fn parse_range(s: Seq<char>) -> Option<FileRangeV> {
    let c = last_index_of(s, ':');
    if c < 0 {
        None
    } else {
        let path = s.take(c);
        let lines = s.skip(c + 1);
        let d = first_index_of(lines, '-');
        if d < 0 || path.len() == 0 {
            None
        } else {
            match (line_number(lines.take(d)), line_number(lines.skip(d + 1))) {
                (Some(a), Some(b)) => Some((path, a, b)),
                _ => None,
            }
        }
    }
}

/// A file range as values: path, start line, end line.
pub type FileRangeV = (Seq<char>, usize, usize);

/// The position of the first `c` in `s`, or -1.
pub open spec fn first_index_of(s: Seq<char>, c: char) -> int
    decreases s.len(),
{
    if s.len() == 0 {
        -1
    } else if s[0] == c {
        0
    } else {
        let k = first_index_of(s.drop_first(), c);
        if k < 0 {
            -1
        } else {
            k + 1
        }
    }
}

/// The characters of `v` from `a` to `b`, as a string.
fn text_between(v: &Vec<char>, a: usize, b: usize) -> (r: String)
    requires
        a <= b <= v.len(),
    ensures
        r@ == v@.subrange(a as int, b as int),
{
    let mut w: Vec<char> = Vec::new();
    let mut i: usize = a;
    while i < b
        invariant
            a <= i <= b,
            b <= v.len(),
            w@ == v@.subrange(a as int, i as int),
        decreases b - i,
    {
        w.push(v[i]);
        assert(v@.subrange(a as int, i + 1) =~= v@.subrange(a as int, i as int).push(v@[i as int]));
        i = i + 1;
    }
    string_of(&w)
}

fn line_number_text(s: &str) -> (r: Option<usize>)
    ensures
        r == line_number(s@),
{
    match parse_i64_text(s) {
        Some(n) => {
            if n >= 0 && (n as u64) <= (usize::MAX as u64) {
                Some(n as usize)
            } else {
                None
            }
        },
        None => None,
    }
}

/// Parse a file range written `path:start-end`.
pub fn parse_file_range(s: &str) -> (r: Result<FileRange, String>)
    ensures
        match parse_range(s@) {
            Some(v) => r is Ok && (r->Ok_0.file@, r->Ok_0.start_line, r->Ok_0.end_line) == v,
            None => r is Err && r->Err_0@ == "Invalid file range '"@ + s@
                + "': expected path:start-end"@,
        },
{
    let v = chars_of(s);
    let mut c = v.len();
    assert(v@.take(c as int) =~= v@);
    while c > 0 && v[c - 1] != ':'
        invariant
            c <= v.len(),
            v@ == s@,
            last_index_of(v@.take(c as int), ':') == last_index_of(s@, ':'),
        decreases c,
    {
        assert(v@.take(c as int).drop_last() =~= v@.take(c - 1));
        c = c - 1;
    }
    let mut err = owned("Invalid file range '");
    append_str(&mut err, s);
    append_str(&mut err, "': expected path:start-end");
    if c == 0 {
        assert(v@.take(0) =~= Seq::<char>::empty());
        return Err(err);
    }
    assert(v@.take(c as int).last() == v@[c - 1]);
    let colon = c - 1;
    let ghost lines = s@.skip(colon + 1);
    let mut d = colon + 1;
    assert(s@.skip(d as int) =~= lines);
    while d < v.len() && v[d] != '-'
        invariant
            colon + 1 <= d <= v.len(),
            v@ == s@,
            lines == s@.skip(colon + 1),
            first_index_of(lines, '-') == if first_index_of(s@.skip(d as int), '-') < 0 {
                -1
            } else {
                first_index_of(s@.skip(d as int), '-') + (d - colon - 1)
            },
        decreases v.len() - d,
    {
        assert(s@.skip(d as int).drop_first() =~= s@.skip(d + 1));
        d = d + 1;
    }
    if d == v.len() || colon == 0 {
        proof {
            if d == v.len() {
                assert(s@.skip(d as int) =~= Seq::<char>::empty());
            }
        }
        return Err(err);
    }
    let ghost k = d - colon - 1;
    assert(first_index_of(lines, '-') == k);
    let path = text_between(&v, 0, colon);
    let a = text_between(&v, colon + 1, d);
    let b = text_between(&v, d + 1, v.len());
    assert(path@ =~= s@.take(colon as int));
    assert(a@ =~= lines.take(k));
    assert(b@ =~= lines.skip(k + 1));
    match (line_number_text(a.as_str()), line_number_text(b.as_str())) {
        (Some(x), Some(y)) => Ok(FileRange { file: path, start_line: x, end_line: y }),
        _ => Err(err),
    }
}

// ---------------------------------------------------------------------------
// Finding a duplicate by location
// ---------------------------------------------------------------------------

/// `a + b`, or the largest `usize` when that overflows.
pub open spec fn saturating_add(a: int, b: int) -> int {
    if a + b > usize::MAX {
        usize::MAX as int
    } else {
        a + b
    }
}

/// A copy at lines `start..end` (its end worked out from the duplicate's
/// length when unknown) overlaps the target range.
pub open spec fn overlaps(start: usize, end: Option<usize>, length: usize, target: FileRange) -> bool {
    let resolved_end = match end {
        Some(e) => e as int,
        None => saturating_add(start as int, if length >= 1 { length - 1 } else { 0 }),
    };
    start <= target.end_line && resolved_end >= target.start_line
}

/// A duplicate is at the target: one of its files resolves to the target's
/// resolved path and its lines there overlap the target range. `paths`
/// holds the resolved paths of its two files, when they resolve.
pub open spec fn at_target(
    d: DuplicateMatch,
    paths: (Option<String>, Option<String>),
    target: FileRange,
    target_path: Seq<char>,
) -> bool {
    (paths.0 is Some && paths.0->0@ == target_path && overlaps(d.start_line1, d.end_line1, d.length, target))
        || (paths.1 is Some && paths.1->0@ == target_path && overlaps(
        d.start_line2,
        d.end_line2,
        d.length,
        target,
    ))
}

/// The outcome of looking for the duplicate at the target: the ID of the
/// first duplicate there, an error when it has no ID, or an error when no
/// duplicate is there.
pub open spec fn matching_duplicate(
    dups: Seq<DuplicateMatch>,
    paths: Seq<(Option<String>, Option<String>)>,
    target: FileRange,
    target_path: Seq<char>,
) -> Result<Seq<char>, Seq<char>> {
    if exists|i: int| 0 <= i < dups.len() && at_target(#[trigger] dups[i], paths[i], target, target_path) {
        let i = choose|i: int|
            0 <= i < dups.len() && at_target(#[trigger] dups[i], paths[i], target, target_path)
                && forall|k: int| 0 <= k < i ==> !at_target(#[trigger] dups[k], paths[k], target, target_path);
        match dups[i].duplicate_id {
            Some(id) => Ok(id@),
            None => Err(
                "Found duplicate at lines "@ + decimal(dups[i].start_line1 as nat) + " in "@
                    + dups[i].file1@ + " but ID was not computed.\nTry using 'polydup ignore add <id>' with the full ID instead."@,
            ),
        }
    } else {
        Err(
            "No duplicate found at "@ + file_range_text(target) + ".\nRun 'polydup scan "@ + target.file@
                + "' to see all duplicates."@,
        )
    }
}

/// Line `x` lies in the inclusive range `lo..hi`.
pub open spec fn within(x: int, lo: int, hi: int) -> bool {
    lo <= x <= hi
}

/// A copy with known lines `start..end` meets the target range exactly when
/// the two ranges intersect: it starts no later than the target ends and
/// ends no earlier than the target starts. For proper ranges this is having
/// a line in common, so a target that encloses the copy, or lies inside it,
/// meets it. A copy whose last line is unknown is taken to span as many
/// lines as the duplicate has tokens.
pub proof fn lemma_overlap_is_intersection(start: usize, end: usize, length: usize, target: FileRange)
    ensures
        overlaps(start, Some(end), length, target) <==> (start <= target.end_line && end >= target.start_line),
        start <= end && target.start_line <= target.end_line ==> (overlaps(start, Some(end), length, target)
            <==> exists|x: int| #[trigger] within(x, start as int, end as int) && within(
            x,
            target.start_line as int,
            target.end_line as int,
        )),
        overlaps(start, None, length, target) <==> (start <= target.end_line && start + (if length >= 1 {
            length - 1
        } else {
            0
        }) >= target.start_line),
{
    if start <= end && target.start_line <= target.end_line && start <= target.end_line && end
        >= target.start_line {
        let x: int = if start >= target.start_line { start as int } else { target.start_line as int };
        assert(within(x, start as int, end as int) && within(x, target.start_line as int, target.end_line as int));
    }
}

/// The duplicate found at a target range is the first one with a copy in
/// the target's file whose lines meet the range: when the `i`-th duplicate
/// has one of its copies there, at lines that intersect the range, and no
/// earlier duplicate has a copy in that file, its ID is the answer.
pub proof fn lemma_found_where_copy_meets_range(
    dups: Seq<DuplicateMatch>,
    paths: Seq<(Option<String>, Option<String>)>,
    target: FileRange,
    target_path: Seq<char>,
    i: int,
)
    requires
        paths.len() == dups.len(),
        0 <= i < dups.len(),
        (paths[i].0 is Some && paths[i].0->0@ == target_path && dups[i].end_line1 is Some
            && dups[i].start_line1 <= target.end_line && dups[i].end_line1->0 >= target.start_line) || (
        paths[i].1 is Some && paths[i].1->0@ == target_path && dups[i].end_line2 is Some
            && dups[i].start_line2 <= target.end_line && dups[i].end_line2->0 >= target.start_line),
        forall|k: int|
            0 <= k < i ==> !(#[trigger] paths[k].0 is Some && paths[k].0->0@ == target_path) && !(paths[k].1 is Some
                && paths[k].1->0@ == target_path),
    ensures
        dups[i].duplicate_id is Some ==> matching_duplicate(dups, paths, target, target_path) == Ok::<
            Seq<char>,
            Seq<char>,
        >(dups[i].duplicate_id->0@),
        matching_duplicate(dups, paths, target, target_path) is Ok || dups[i].duplicate_id is None,
{
    if dups[i].end_line1 is Some {
        lemma_overlap_is_intersection(dups[i].start_line1, dups[i].end_line1->0, dups[i].length, target);
    }
    if dups[i].end_line2 is Some {
        lemma_overlap_is_intersection(dups[i].start_line2, dups[i].end_line2->0, dups[i].length, target);
    }
    assert(at_target(dups[i], paths[i], target, target_path));
    assert forall|k: int| 0 <= k < i implies !at_target(#[trigger] dups[k], paths[k], target, target_path) by {
        assert(!(paths[k].0 is Some && paths[k].0->0@ == target_path));
    }
    let j = choose|j: int|
        0 <= j < dups.len() && at_target(#[trigger] dups[j], paths[j], target, target_path) && forall|k: int|
            0 <= k < j ==> !at_target(#[trigger] dups[k], paths[k], target, target_path);
    if j < i {
        assert(!at_target(dups[j], paths[j], target, target_path));
    }
    if j > i {
        assert(!at_target(dups[i], paths[i], target, target_path));
    }
    assert(j == i);
}

/// No duplicate is found when none has a copy in the target's file whose
/// lines meet the range: every copy in that file has known lines that end
/// before the range starts or start after it ends.
pub proof fn lemma_not_found_when_no_copy_meets_range(
    dups: Seq<DuplicateMatch>,
    paths: Seq<(Option<String>, Option<String>)>,
    target: FileRange,
    target_path: Seq<char>,
)
    requires
        paths.len() == dups.len(),
        forall|k: int|
            0 <= k < dups.len() && (#[trigger] paths[k].0 is Some && paths[k].0->0@ == target_path) ==> (
            dups[k].end_line1 is Some && (dups[k].start_line1 > target.end_line || dups[k].end_line1->0
                < target.start_line)),
        forall|k: int|
            0 <= k < dups.len() && (#[trigger] paths[k].1 is Some && paths[k].1->0@ == target_path) ==> (
            dups[k].end_line2 is Some && (dups[k].start_line2 > target.end_line || dups[k].end_line2->0
                < target.start_line)),
    ensures
        matching_duplicate(dups, paths, target, target_path) == Err::<Seq<char>, Seq<char>>(
            "No duplicate found at "@ + target.file@ + ":"@ + decimal(target.start_line as nat) + "-"@
                + decimal(target.end_line as nat) + ".\nRun 'polydup scan "@ + target.file@
                + "' to see all duplicates."@,
        ),
{
    assert forall|k: int| 0 <= k < dups.len() implies !at_target(#[trigger] dups[k], paths[k], target, target_path) by {
        if paths[k].0 is Some && paths[k].0->0@ == target_path {
            lemma_overlap_is_intersection(dups[k].start_line1, dups[k].end_line1->0, dups[k].length, target);
        }
        if paths[k].1 is Some && paths[k].1->0@ == target_path {
            lemma_overlap_is_intersection(dups[k].start_line2, dups[k].end_line2->0, dups[k].length, target);
        }
    }
    assert("No duplicate found at "@ + file_range_text(target) + ".\nRun 'polydup scan "@ + target.file@
        + "' to see all duplicates."@ =~= "No duplicate found at "@ + target.file@ + ":"@ + decimal(
        target.start_line as nat,
    ) + "-"@ + decimal(target.end_line as nat) + ".\nRun 'polydup scan "@ + target.file@
        + "' to see all duplicates."@);
}

fn overlaps_exec(start: usize, end: Option<usize>, length: usize, target: &FileRange) -> (r: bool)
    ensures
        r == overlaps(start, end, length, *target),
{
    let resolved_end = match end {
        Some(e) => e,
        None => start.saturating_add(if length >= 1 { length - 1 } else { 0 }),
    };
    start <= target.end_line && resolved_end >= target.start_line
}

fn same_path(p: &Option<String>, target_path: &str) -> (r: bool)
    ensures
        r == (p is Some && p->0@ == target_path@),
{
    match p {
        Some(t) => crate::text::str_eq(t.as_str(), target_path),
        None => false,
    }
}

/// The position of the first text of `s` that is not a file range.
pub open spec fn is_first_bad_range(s: Seq<Seq<char>>, i: int) -> bool {
    0 <= i < s.len() && parse_range(s[i]) is None && forall|k: int| 0 <= k < i ==> parse_range(#[trigger] s[k]) is Some
}

/// Parse file range strings: every range in order, or the error for the
/// first one that is not `path:start-end`.
pub fn parse_file_ranges(files: &Vec<String>) -> (r: Result<Vec<FileRange>, String>)
    ensures
        match r {
            Ok(v) => v.len() == files.len() && forall|i: int|
                0 <= i < files.len() ==> parse_range(#[trigger] files@[i]@) == Some(
                    (v@[i].file@, v@[i].start_line, v@[i].end_line),
                ),
            Err(e) => exists|i: int|
                is_first_bad_range(files.deep_view(), i) && e@ == "Invalid file range format: Invalid file range '"@
                    + files@[i]@ + "': expected path:start-end"@,
        },
{
    let mut ranges: Vec<FileRange> = Vec::new();
    let mut i: usize = 0;
    while i < files.len()
        invariant
            i <= files.len(),
            ranges.len() == i,
            forall|k: int|
                0 <= k < i ==> parse_range(#[trigger] files@[k]@) == Some(
                    (ranges@[k].file@, ranges@[k].start_line, ranges@[k].end_line),
                ),
        decreases files.len() - i,
    {
        match parse_file_range(files[i].as_str()) {
            Ok(fr) => {
                ranges.push(fr);
            },
            Err(e) => {
                let mut m = owned("Invalid file range format: ");
                append_str(&mut m, e.as_str());
                proof {
                    assert forall|k: int| 0 <= k < i implies parse_range(#[trigger] files.deep_view()[k]) is Some by {
                        assert(files.deep_view()[k] == files@[k]@);
                    }
                    assert(files.deep_view()[i as int] == files@[i as int]@);
                    assert(is_first_bad_range(files.deep_view(), i as int));
                    assert(m@ =~= "Invalid file range format: Invalid file range '"@ + files@[i as int]@
                        + "': expected path:start-end"@) by {
                        reveal_strlit("Invalid file range format: ");
                        reveal_strlit("Invalid file range format: Invalid file range '");
                        reveal_strlit("Invalid file range '");
                    }
                }
                return Err(m);
            },
        }
        i = i + 1;
    }
    Ok(ranges)
}

/// Find a duplicate that matches the specified file range. `paths` holds,
/// for each duplicate, the resolved paths of its two files (when they
/// resolve); `target_path` is the resolved path of the target's file.
pub fn find_matching_duplicate(
    duplicates: &Vec<DuplicateMatch>,
    paths: &Vec<(Option<String>, Option<String>)>,
    target_range: &FileRange,
    target_path: &str,
) -> (r: Result<String, String>)
    requires
        paths.len() == duplicates.len(),
    ensures
        match matching_duplicate(duplicates@, paths@, *target_range, target_path@) {
            Ok(id) => r is Ok && r->Ok_0@ == id,
            Err(e) => r is Err && r->Err_0@ == e,
        },
{
    let mut i: usize = 0;
    while i < duplicates.len()
        invariant
            i <= duplicates.len(),
            paths.len() == duplicates.len(),
            forall|k: int| 0 <= k < i ==> !at_target(#[trigger] duplicates@[k], paths@[k], *target_range, target_path@),
        decreases duplicates.len() - i,
    {
        let d = &duplicates[i];
        let p = &paths[i];
        let hit = (same_path(&p.0, target_path) && overlaps_exec(d.start_line1, d.end_line1, d.length, target_range))
            || (same_path(&p.1, target_path) && overlaps_exec(d.start_line2, d.end_line2, d.length, target_range));
        assert(hit == at_target(*d, *p, *target_range, target_path@));
        if hit {
            proof {
                let j = choose|j: int|
                    0 <= j < duplicates@.len() && at_target(#[trigger] duplicates@[j], paths@[j], *target_range, target_path@)
                        && forall|k: int| 0 <= k < j ==> !at_target(#[trigger] duplicates@[k], paths@[k], *target_range, target_path@);
                if j < i {
                    assert(!at_target(duplicates@[j], paths@[j], *target_range, target_path@));
                }
                if j > i {
                    assert(!at_target(duplicates@[i as int], paths@[i as int], *target_range, target_path@));
                }
                assert(j == i);
            }
            return match &d.duplicate_id {
                Some(id) => Ok(id.clone()),
                None => {
                    let mut m = owned("Found duplicate at lines ");
                    push_decimal(&mut m, d.start_line1 as u64);
                    append_str(&mut m, " in ");
                    append_str(&mut m, d.file1.as_str());
                    append_str(
                        &mut m,
                        " but ID was not computed.\nTry using 'polydup ignore add <id>' with the full ID instead.",
                    );
                    Err(m)
                },
            };
        }
        i = i + 1;
    }
    let shown = target_range.to_text();
    let mut m = owned("No duplicate found at ");
    append_str(&mut m, shown.as_str());
    append_str(&mut m, ".\nRun 'polydup scan ");
    append_str(&mut m, target_range.file.as_str());
    append_str(&mut m, "' to see all duplicates.");
    Err(m)
}

// ---------------------------------------------------------------------------
// Adding, listing and removing entries
// ---------------------------------------------------------------------------

/// Where the ID of a new entry comes from.
pub enum IdSource {
    /// The ID given on the command line
    Given(String),
    /// Scan and take the ID of the duplicate at the first file range
    ByLocation,
}

/// Resolve duplicate ID - either use provided ID or find by scanning
pub fn resolve_duplicate_id(id: Option<String>, files: &Vec<String>) -> (r: Result<IdSource, String>)
    ensures
        match id {
            Some(i) => r == Ok::<IdSource, String>(IdSource::Given(i)),
            None => if files.len() == 0 {
                r is Err && r->Err_0@ == "Either provide an ID or use --files to generate one"@
            } else {
                r == Ok::<IdSource, String>(IdSource::ByLocation)
            },
        },
{
    match id {
        Some(i) => Ok(IdSource::Given(i)),
        None => {
            if files.len() == 0 {
                Err(owned("Either provide an ID or use --files to generate one"))
            } else {
                Ok(IdSource::ByLocation)
            }
        },
    }
}

/// The reason recorded for an entry: the given reason, or a placeholder
/// when it is empty.
pub fn get_reason(reason: String) -> (r: String)
    ensures
        r@ == if reason@.len() == 0 {
            "No reason provided"@
        } else {
            reason@
        },
{
    if chars_of(reason.as_str()).len() == 0 {
        owned("No reason provided")
    } else {
        reason
    }
}

/// The pieces of `s` between commas.
pub open spec fn comma_pieces(s: Seq<char>, cur: Seq<char>) -> Seq<Seq<char>>
    decreases s.len(),
{
    if s.len() == 0 {
        seq![cur]
    } else if s[0] == ',' {
        seq![cur] + comma_pieces(s.drop_first(), Seq::empty())
    } else {
        comma_pieces(s.drop_first(), cur.push(s[0]))
    }
}

/// The non-blank pieces, trimmed.
pub open spec fn trimmed_nonblank(p: Seq<Seq<char>>) -> Seq<Seq<char>>
    decreases p.len(),
{
    if p.len() == 0 {
        Seq::empty()
    } else {
        let rest = trimmed_nonblank(p.drop_last());
        if trim_seq(p.last()).len() == 0 {
            rest
        } else {
            rest.push(trim_seq(p.last()))
        }
    }
}

/// The file ranges typed at the prompt: the comma-separated pieces,
/// trimmed, without empty ones.
pub fn split_file_list(input: &str) -> (r: Vec<String>)
    ensures
        r.deep_view() == trimmed_nonblank(comma_pieces(input@, Seq::empty())),
{
    let v = chars_of(input);
    let mut pieces: Vec<String> = Vec::new();
    let mut cur: Vec<char> = Vec::new();
    let mut i: usize = 0;
    assert(input@.skip(0) =~= input@);
    while i < v.len()
        invariant
            i <= v.len(),
            v@ == input@,
            pieces.deep_view() + comma_pieces(input@.skip(i as int), cur@) == comma_pieces(input@, Seq::empty()),
        decreases v.len() - i,
    {
        assert(input@.skip(i as int).drop_first() =~= input@.skip(i + 1));
        if v[i] == ',' {
            let ghost before = pieces.deep_view();
            pieces.push(string_of(&cur));
            assert(pieces.deep_view() =~= before.push(cur@));
            assert(before + (seq![cur@] + comma_pieces(input@.skip(i + 1), Seq::empty())) =~= before.push(cur@)
                + comma_pieces(input@.skip(i + 1), Seq::empty()));
            cur = Vec::new();
            assert(cur@ =~= Seq::<char>::empty());
        } else {
            cur.push(v[i]);
        }
        i = i + 1;
    }
    assert(input@.skip(v.len() as int) =~= Seq::<char>::empty());
    let ghost before = pieces.deep_view();
    pieces.push(string_of(&cur));
    assert(pieces.deep_view() =~= before + seq![cur@]);
    let ghost all = pieces.deep_view();
    let mut r: Vec<String> = Vec::new();
    let mut k: usize = 0;
    while k < pieces.len()
        invariant
            k <= pieces.len(),
            all == pieces.deep_view(),
            r.deep_view() == trimmed_nonblank(all.take(k as int)),
        decreases pieces.len() - k,
    {
        assert(all.take(k + 1).drop_last() =~= all.take(k as int));
        assert(all.take(k + 1).last() == pieces[k as int]@);
        let t = trim_text(pieces[k].as_str());
        if chars_of(t.as_str()).len() != 0 {
            let ghost b = r.deep_view();
            r.push(t);
            assert(r.deep_view() =~= b.push(trim_seq(pieces[k as int]@)));
        }
        k = k + 1;
    }
    assert(all.take(pieces.len() as int) =~= all);
    r
}

/// Resolve scan parameters for rescan, honoring config file overrides:
/// block size and similarity (merged as for scans), Type-3 detection on,
/// with the default tolerance.
pub fn resolve_scan_parameters(
    cli_min_block_size: usize,
    cli_similarity: i64,
    config: Option<&Config>,
) -> (r: (usize, i64, bool, i64))
    ensures
        r.0 == match config {
            Some(c) => merged_min_block_size(cli_min_block_size, c.scan.min_block_size),
            None => cli_min_block_size,
        },
        r.1 == match config {
            Some(c) => merged_similarity(cli_similarity, c.scan.similarity_threshold),
            None => cli_similarity,
        },
        r.2,
        r.3 == TYPE3_TOLERANCE,
{
    let mut min_block_size = cli_min_block_size;
    let mut similarity = cli_similarity;
    if let Some(cfg) = config {
        if crate::defaults::is_default_min_block_size(min_block_size) {
            min_block_size = cfg.scan.min_block_size;
        }
        if crate::defaults::is_default_similarity(similarity) {
            similarity = cfg.scan.similarity_threshold;
        }
    }
    (min_block_size, similarity, true, TYPE3_TOLERANCE)
}

/// A failure to load the ignore file only means "no ignore file" when its
/// message says the file is missing.
pub open spec fn is_missing_file_message(m: Seq<char>) -> bool {
    contains_seq(m, "No such file"@) || contains_seq(m, "cannot find"@)
}

/// Whether an error loading the ignore file only means it is missing.
pub fn is_missing_ignore_file(message: &str) -> (r: bool)
    ensures
        r == is_missing_file_message(message@),
{
    str_contains(message, "No such file") || str_contains(message, "cannot find")
}

/// An entry of the ignore file, as listed.
pub struct IgnoreEntry {
    pub id: String,
    pub reason: String,
    pub added_by: String,
    /// When the entry was added, formatted
    pub added_at: String,
    /// The file ranges, formatted
    pub files: Vec<String>,
}

/// The file lines of an entry in verbose mode.
pub open spec fn entry_file_lines(f: Seq<Seq<char>>) -> Seq<char>
    decreases f.len(),
{
    if f.len() == 0 {
        Seq::empty()
    } else {
        entry_file_lines(f.drop_last()) + "     • "@ + f.last() + "\n"@
    }
}

/// The listing of the `idx`-th entry (counting from one).
pub open spec fn entry_text(e: IgnoreEntry, idx: nat, verbose: bool) -> Seq<char> {
    decimal(idx) + ". "@ + e.id@ + "\n"@ + "   Reason: "@ + e.reason@ + "\n"@ + "   Added by: "@
        + e.added_by@ + "\n"@ + "   Added at: "@ + e.added_at@ + "\n"@ + (if verbose {
        "   Files:\n"@ + entry_file_lines(e.files.deep_view())
    } else if e.files@.len() > 0 {
        "   Files: "@ + decimal(e.files@.len()) + " file(s)\n"@
    } else {
        Seq::empty()
    }) + "\n"@
}

/// The listings of the first `n` entries.
pub open spec fn entries_text(s: Seq<IgnoreEntry>, n: int, verbose: bool) -> Seq<char>
    decreases n,
{
    if n <= 0 {
        Seq::empty()
    } else {
        entries_text(s, n - 1, verbose) + entry_text(s[n - 1], n as nat, verbose)
    }
}

/// What `polydup ignore list` prints in text form: a hint when there are
/// no entries, otherwise every entry.
pub open spec fn ignore_list_text(s: Seq<IgnoreEntry>, verbose: bool) -> Seq<char> {
    if s.len() == 0 {
        "No ignored duplicates configured.\n"@ + "\n"@
            + "To ignore specific duplicates, run a scan and use:\n"@
            + "  polydup ignore add <duplicate-id>\n"@ + "\n"@
            + "Alternatively, use the --files flag to specify locations:\n"@
            + "  polydup ignore add --files path/to/file.ts:10-25\n"@
    } else {
        "Ignored Duplicates ("@ + decimal(s.len()) + ")\n"@ + "\n"@ + entries_text(
            s,
            s.len() as int,
            verbose,
        )
    }
}

fn entry_text_of(e: &IgnoreEntry, idx: usize, verbose: bool) -> (r: String)
    ensures
        r@ == entry_text(*e, idx as nat, verbose),
{
    let mut t = crate::text::decimal_string(idx as u64);
    append_str(&mut t, ". ");
    append_str(&mut t, e.id.as_str());
    append_str(&mut t, "\n");
    append_str(&mut t, "   Reason: ");
    append_str(&mut t, e.reason.as_str());
    append_str(&mut t, "\n");
    append_str(&mut t, "   Added by: ");
    append_str(&mut t, e.added_by.as_str());
    append_str(&mut t, "\n");
    append_str(&mut t, "   Added at: ");
    append_str(&mut t, e.added_at.as_str());
    append_str(&mut t, "\n");
    let mut files = String::new();
    if verbose {
        files = owned("   Files:\n");
        let ghost head = files@;
        let ghost fv = e.files.deep_view();
        let mut i: usize = 0;
        while i < e.files.len()
            invariant
                i <= e.files.len(),
                fv == e.files.deep_view(),
                files@ == head + entry_file_lines(fv.take(i as int)),
            decreases e.files.len() - i,
        {
            assert(fv.take(i + 1).drop_last() =~= fv.take(i as int));
            let mut line = owned("     • ");
            append_str(&mut line, e.files[i].as_str());
            append_str(&mut line, "\n");
            append_str(&mut files, line.as_str());
            assert(files@ =~= head + entry_file_lines(fv.take(i + 1)));
            i = i + 1;
        }
        assert(fv.take(e.files.len() as int) =~= fv);
    } else if e.files.len() > 0 {
        files = owned("   Files: ");
        push_decimal(&mut files, e.files.len() as u64);
        append_str(&mut files, " file(s)\n");
    }
    append_str(&mut t, files.as_str());
    append_str(&mut t, "\n");
    t
}

/// Handle the 'list' subcommand in text form.
pub fn handle_list_command(entries: &Vec<IgnoreEntry>, verbose: bool) -> (r: String)
    ensures
        r@ == ignore_list_text(entries@, verbose),
{
    if entries.len() == 0 {
        let mut t = owned("No ignored duplicates configured.\n");
        append_str(&mut t, "\n");
        append_str(&mut t, "To ignore specific duplicates, run a scan and use:\n");
        append_str(&mut t, "  polydup ignore add <duplicate-id>\n");
        append_str(&mut t, "\n");
        append_str(&mut t, "Alternatively, use the --files flag to specify locations:\n");
        append_str(&mut t, "  polydup ignore add --files path/to/file.ts:10-25\n");
        return t;
    }
    let mut t = owned("Ignored Duplicates (");
    push_decimal(&mut t, entries.len() as u64);
    append_str(&mut t, ")\n");
    append_str(&mut t, "\n");
    let ghost head = t@;
    let mut i: usize = 0;
    while i < entries.len()
        invariant
            i <= entries.len(),
            t@ == head + entries_text(entries@, i as int, verbose),
        decreases entries.len() - i,
    {
        let e = entry_text_of(&entries[i], i + 1, verbose);
        append_str(&mut t, e.as_str());
        assert(t@ =~= head + entries_text(entries@, i + 1, verbose));
        i = i + 1;
    }
    t
}

/// What is printed after adding an entry.
pub fn added_message(id: &str) -> (r: String)
    ensures
        r@ == "✓ Duplicate added to ignore list\n  ID: "@ + id@,
{
    let mut t = owned("✓ Duplicate added to ignore list\n  ID: ");
    append_str(&mut t, id);
    t
}

/// What `polydup ignore remove` prints, and its exit code, given whether
/// the entry was found and removed.
pub fn handle_remove_command(id: &str, removed: bool) -> (r: (String, i32))
    ensures
        r.0@ == if removed {
            "✓ Duplicate removed from ignore list"@
        } else {
            "✗ Duplicate ID not found: "@ + id@
        },
        r.1 == if removed { 0i32 } else { 1i32 },
{
    if removed {
        (owned("✓ Duplicate removed from ignore list"), 0)
    } else {
        let mut t = owned("✗ Duplicate ID not found: ");
        append_str(&mut t, id);
        (t, 1)
    }
}

} // verus!
