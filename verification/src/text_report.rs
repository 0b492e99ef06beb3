//! The human-readable text report: the summary tables, then the clone
//! groups, then the remaining clone pairs with optional IDs, hashes, code
//! previews and refactoring suggestions.

use vstd::prelude::*;
use crate::dashboard::{
    boxed_rows, boxed_table, breakdown_rows, breakdown_rows_of, counts_fit, dashboard_rows,
    dashboard_rows_of, find_top_offenders, names_fit, offender_rows, offender_rows_of, tally_views,
    top_offenders,
};
use crate::encoding::{
    byte_prefix, is_byte_boundary, is_byte_boundary_at, prefix_chars, utf8_len, utf8_len_exceeds,
};
use crate::fixed::{percent_tenths_text, percent_text, push_percent, push_percent_tenths};
use crate::groups::{
    find_multi_way_groups, group_views, loc_views, multi_way_groups, opt_text, GroupV, Loc,
    MultiWayGroup,
};
use crate::reporting::{
    append_refactoring_suggestion, is_ascii_text, line_range_text, push_line_range,
    refactoring_suggestion, truncate_id, truncated_id,
};
use crate::report::{DuplicateMatch, Report, SkippedFile};
use crate::text::{
    append_str, chars_of, decimal, hexadecimal, lines_of, owned, push_char, push_decimal,
    push_hex, split_lines, str_eq,
};

verus! {

broadcast use vstd::string::group_string_axioms;

// ---------------------------------------------------------------------------
// Shared pieces
// ---------------------------------------------------------------------------

/// The ID line shown with `--show-ids`: the ID shortened to `id_length`.
pub open spec fn id_line(id: Option<Seq<char>>, show_ids: bool, id_length: nat) -> Seq<char> {
    if show_ids && id is Some {
        "   ID: "@ + truncated_id(id->0, id_length) + "\n"@
    } else {
        Seq::empty()
    }
}

/// Appends the ID line.
fn push_id_line(out: &mut String, id: &Option<String>, show_ids: bool, id_length: usize)
    requires
        show_ids && id is Some ==> is_ascii_text(id->0@),
    ensures
        final(out)@ == old(out)@ + id_line(opt_text(*id), show_ids, id_length as nat),
{
    if show_ids {
        match id {
            Some(text) => {
                append_str(out, "   ID: ");
                let shown = truncate_id(text.as_str(), id_length);
                append_str(out, shown.as_str());
                append_str(out, "\n");
            },
            None => {},
        }
    }
}

/// Lines each indented by three spaces.
pub open spec fn indent_lines(lines: Seq<Seq<char>>) -> Seq<char>
    decreases lines.len(),
{
    if lines.len() == 0 {
        Seq::empty()
    } else {
        indent_lines(lines.drop_last()) + "   "@ + lines.last() + "\n"@
    }
}

/// Appends the lines of `text`, each indented by three spaces.
fn push_indented(out: &mut String, text: &str)
    ensures
        final(out)@ == old(out)@ + indent_lines(lines_of(text@)),
{
    let lines = split_lines(text);
    let ghost start = out@;
    let mut i: usize = 0;
    while i < lines.len()
        invariant
            i <= lines.len(),
            lines.deep_view() == lines_of(text@),
            out@ == start + indent_lines(lines.deep_view().take(i as int)),
        decreases lines.len() - i,
    {
        let ghost before = out@;
        append_str(out, "   ");
        append_str(out, lines[i].as_str());
        append_str(out, "\n");
        assert(lines.deep_view().take(i + 1).drop_last() =~= lines.deep_view().take(i as int));
        assert(out@ =~= start + indent_lines(lines.deep_view().take(i + 1)));
        i = i + 1;
    }
    assert(lines.deep_view().take(lines.len() as int) =~= lines.deep_view());
}

// ---------------------------------------------------------------------------
// Clone groups
// ---------------------------------------------------------------------------

/// One line of a group's instance list; the last one is drawn as a corner.
pub open spec fn instance_line(l: Loc, last: bool) -> Seq<char> {
    "   "@ + (if last {
        "└─"@
    } else {
        "├─"@
    }) + " "@ + l.0 + ":"@ + line_range_text(l.1, l.2) + "\n"@
}

/// The first `n` instance lines of a group.
pub open spec fn instance_lines(locs: Seq<Loc>, n: int) -> Seq<char>
    decreases n,
{
    if n <= 0 {
        Seq::empty()
    } else {
        instance_lines(locs, n - 1) + instance_line(locs[n - 1], n - 1 == locs.len() - 1)
    }
}

/// The title line of the `idx`-th clone group.
pub open spec fn group_title(g: GroupV, idx: nat) -> Seq<char> {
    "\n"@ + decimal(idx) + ". "@ + g.1.spec_label() + " | "@ + decimal(g.2 as nat) + " tokens | "@
        + decimal(g.3.len()) + " instances\n"@
}

/// The savings estimate line of a clone group.
pub open spec fn savings_line(g: GroupV) -> Seq<char> {
    let n = g.3.len();
    "   ★ Estimated savings: ~"@ + decimal(((n - 1) * g.2) as nat) + " tokens ("@ + decimal(
        (n - 1) as nat,
    ) + " of "@ + decimal(n) + " can be refactored)\n"@
}

/// The hash and, when IDs are not shown already, the full ID of a clone
/// group in verbose mode.
pub open spec fn group_details(g: GroupV, verbose: bool, show_ids: bool) -> Seq<char> {
    if verbose {
        "      Hash: 0x"@ + hexadecimal(g.0 as nat) + "\n"@ + (if !show_ids && g.4 is Some {
            "      ID: "@ + g.4->0 + "\n"@
        } else {
            Seq::empty()
        })
    } else {
        Seq::empty()
    }
}

/// The block of the `idx`-th clone group (counting from one).
#[verifier::opaque]
pub open spec fn group_block(g: GroupV, idx: nat, verbose: bool, show_ids: bool, id_length: nat) -> Seq<char> {
    group_title(g, idx) + instance_lines(g.3, g.3.len() as int) + savings_line(g) + id_line(
        g.4,
        show_ids,
        id_length,
    ) + group_details(g, verbose, show_ids)
}

/// The blocks of the first `n` groups.
pub open spec fn group_blocks(gs: Seq<GroupV>, n: int, verbose: bool, show_ids: bool, id_length: nat) -> Seq<char>
    decreases n,
{
    if n <= 0 {
        Seq::empty()
    } else {
        group_blocks(gs, n - 1, verbose, show_ids, id_length) + group_block(
            gs[n - 1],
            n as nat,
            verbose,
            show_ids,
            id_length,
        )
    }
}

/// The clone groups section: nothing when there are no groups.
pub open spec fn groups_section(gs: Seq<GroupV>, verbose: bool, show_ids: bool, id_length: nat) -> Seq<char> {
    if gs.len() == 0 {
        Seq::empty()
    } else {
        "\n── Clone Groups ("@ + decimal(gs.len()) + " groups, 3+ instances each) ──\n"@
            + "Highest refactoring value: consolidating each group eliminates multiple duplicates.\n"@
            + group_blocks(gs, gs.len() as int, verbose, show_ids, id_length)
    }
}

/// Every group has at least one instance, its savings estimate fits in a
/// machine word, and its ID is ASCII when IDs are shown.
pub open spec fn groups_printable(gs: Seq<GroupV>, show_ids: bool) -> bool {
    forall|i: int|
        0 <= i < gs.len() ==> {
            &&& (#[trigger] gs[i]).3.len() >= 1
            &&& (gs[i].3.len() - 1) * gs[i].2 <= u64::MAX
            &&& (show_ids && gs[i].4 is Some ==> is_ascii_text(gs[i].4->0))
        }
}

fn group_title_of(g: &MultiWayGroup, idx: usize) -> (r: String)
    ensures
        r@ == group_title(g@, idx as nat),
{
    let mut e = owned("\n");
    push_decimal(&mut e, idx as u64);
    append_str(&mut e, ". ");
    append_str(&mut e, g.clone_type.label());
    append_str(&mut e, " | ");
    push_decimal(&mut e, g.length as u64);
    append_str(&mut e, " tokens | ");
    push_decimal(&mut e, g.instances.len() as u64);
    append_str(&mut e, " instances\n");
    e
}

fn instance_lines_of(g: &MultiWayGroup) -> (r: String)
    ensures
        r@ == instance_lines(g@.3, g@.3.len() as int),
{
    let n = g.instances.len();
    let ghost gv = g@;
    let mut e = String::new();
    let mut i: usize = 0;
    while i < n
        invariant
            i <= n,
            n == g.instances.len(),
            gv == g@,
            e@ == instance_lines(gv.3, i as int),
        decreases n - i,
    {
        let inst = &g.instances[i];
        let mut line = owned("   ");
        append_str(&mut line, if i == n - 1 { "└─" } else { "├─" });
        append_str(&mut line, " ");
        append_str(&mut line, inst.file.as_str());
        append_str(&mut line, ":");
        push_line_range(&mut line, inst.start_line, inst.end_line);
        append_str(&mut line, "\n");
        assert(gv.3[i as int] == inst@);
        assert(line@ == instance_line(gv.3[i as int], i == gv.3.len() - 1));
        append_str(&mut e, line.as_str());
        i = i + 1;
    }
    e
}

fn savings_line_of(g: &MultiWayGroup) -> (r: String)
    requires
        g.instances.len() >= 1,
        (g.instances.len() - 1) * g.length <= u64::MAX,
    ensures
        r@ == savings_line(g@),
{
    let n = g.instances.len();
    let mut e = owned("   ★ Estimated savings: ~");
    push_decimal(&mut e, ((n - 1) as u64) * (g.length as u64));
    append_str(&mut e, " tokens (");
    push_decimal(&mut e, (n - 1) as u64);
    append_str(&mut e, " of ");
    push_decimal(&mut e, n as u64);
    append_str(&mut e, " can be refactored)\n");
    e
}

fn group_details_of(g: &MultiWayGroup, verbose: bool, show_ids: bool) -> (r: String)
    ensures
        r@ == group_details(g@, verbose, show_ids),
{
    if !verbose {
        return String::new();
    }
    let mut e = owned("      Hash: 0x");
    push_hex(&mut e, g.hash);
    append_str(&mut e, "\n");
    let ghost head = e@;
    let mut tail = String::new();
    if !show_ids {
        match &g.duplicate_id {
            Some(id) => {
                tail = owned("      ID: ");
                append_str(&mut tail, id.as_str());
                append_str(&mut tail, "\n");
            },
            None => {},
        }
    }
    append_str(&mut e, tail.as_str());
    assert(e@ =~= group_details(g@, verbose, show_ids));
    e
}

fn push_group_block(
    out: &mut String,
    g: &MultiWayGroup,
    idx: usize,
    verbose: bool,
    show_ids: bool,
    id_length: usize,
)
    requires
        g.instances.len() >= 1,
        (g.instances.len() - 1) * g.length <= u64::MAX,
        show_ids && g.duplicate_id is Some ==> is_ascii_text(g.duplicate_id->0@),
    ensures
        final(out)@ == old(out)@ + group_block(g@, idx as nat, verbose, show_ids, id_length as nat),
{
    let a = group_title_of(g, idx);
    let b = instance_lines_of(g);
    let c = savings_line_of(g);
    let d = id_part(&g.duplicate_id, show_ids, id_length);
    let f = group_details_of(g, verbose, show_ids);
    let mut e = owned(a.as_str());
    append_str(&mut e, b.as_str());
    append_str(&mut e, c.as_str());
    append_str(&mut e, d.as_str());
    append_str(&mut e, f.as_str());
    append_str(out, e.as_str());
    reveal(group_block);
}

/// Append multi-way clone groups to the report
pub fn append_multi_way_groups(
    output: &mut String,
    groups: &Vec<MultiWayGroup>,
    verbose: bool,
    show_ids: bool,
    id_length: usize,
)
    requires
        groups_printable(group_views(groups@), show_ids),
    ensures
        final(output)@ == old(output)@ + groups_section(
            group_views(groups@),
            verbose,
            show_ids,
            id_length as nat,
        ),
{
    let ghost gs = group_views(groups@);
    if groups.len() == 0 {
        assert(old(output)@ + groups_section(gs, verbose, show_ids, id_length as nat) =~= output@);
        return;
    }
    let mut e = owned("\n── Clone Groups (");
    push_decimal(&mut e, groups.len() as u64);
    append_str(&mut e, " groups, 3+ instances each) ──\n");
    append_str(
        &mut e,
        "Highest refactoring value: consolidating each group eliminates multiple duplicates.\n",
    );
    let ghost head = e@;
    let mut i: usize = 0;
    while i < groups.len()
        invariant
            i <= groups.len(),
            gs == group_views(groups@),
            groups_printable(gs, show_ids),
            e@ == head + group_blocks(gs, i as int, verbose, show_ids, id_length as nat),
        decreases groups.len() - i,
    {
        assert(gs[i as int] == groups@[i as int]@);
        let ghost before = e@;
        push_group_block(&mut e, &groups[i], i + 1, verbose, show_ids, id_length);
        assert(e@ =~= before + group_block(gs[i as int], (i + 1) as nat, verbose, show_ids, id_length as nat));
        i = i + 1;
    }
    assert(e@ =~= groups_section(gs, verbose, show_ids, id_length as nat));
    append_str(output, e.as_str());
}

// ---------------------------------------------------------------------------
// Code previews
// ---------------------------------------------------------------------------

/// The text that `tabled` draws for a two-column grid in the single-line
/// style of code previews, from its left and right cells row by row.
pub uninterp spec fn grid_rows(left: Seq<Seq<char>>, right: Seq<Seq<char>>) -> Seq<char>;

/// Draws a two-column grid with `tabled`'s `Builder` and `Style::empty()`
/// with the `─ │ ┌ ┐ └ ┘ ├ ┤ ┬ ┴ ┼` characters and blank outer sides. The
/// contract only names the drawing: it depends on the cells alone.
#[verifier::external_body]
pub(crate) fn code_grid(left: &Vec<String>, right: &Vec<String>) -> (r: String)
    requires
        left.len() == right.len(),
    ensures
        r@ == grid_rows(left.deep_view(), right.deep_view()),
{
    let mut builder = tabled::builder::Builder::default();
    for i in 0..left.len() {
        builder.push_record([left[i].clone(), right[i].clone()]);
    }
    let style = tabled::settings::Style::empty().top('─').bottom('─').left(' ').right(' ')
        .horizontal('─').vertical('│').corner_top_left('┌').corner_top_right('┐')
        .corner_bottom_left('└').corner_bottom_right('┘').intersection_left('├')
        .intersection_right('┤').intersection_top('┬').intersection_bottom('┴').intersection('┼');
    builder.build().with(style).to_string()
}

/// The code preview of a duplicate: its file could not be read, the
/// requested lines are not there, or the drawn table of the lines.
pub enum CodePreview {
    Unavailable,
    Nothing,
    Table(String),
}

/// A code preview as values.
pub enum PreviewV {
    Unavailable,
    Nothing,
    Table(Seq<char>),
}

/// The value of a code preview.
pub open spec fn preview_view(p: CodePreview) -> PreviewV {
    match p {
        CodePreview::Unavailable => PreviewV::Unavailable,
        CodePreview::Nothing => PreviewV::Nothing,
        CodePreview::Table(t) => PreviewV::Table(t@),
    }
}

/// The values of a sequence of code previews.
pub open spec fn preview_views(s: Seq<CodePreview>) -> Seq<PreviewV> {
    Seq::new(s.len(), |i: int| preview_view(s[i]))
}

/// The text of a code preview in a listing.
pub open spec fn preview_text(p: PreviewV) -> Seq<char> {
    match p {
        PreviewV::Unavailable => "   Code Preview: (file not accessible)\n"@,
        PreviewV::Nothing => Seq::empty(),
        PreviewV::Table(t) => "\n"@ + "   Code Preview:\n"@ + indent_lines(lines_of(t)),
    }
}

/// `a - b`, or zero when `b` is larger.
pub open spec fn sat_sub(a: int, b: int) -> int {
    if a >= b {
        a - b
    } else {
        0
    }
}

/// The lines from `start` (counting from one) through `end`, as far as the
/// file has them.
pub open spec fn preview_window(lines: Seq<Seq<char>>, start: int, end: int) -> Seq<Seq<char>> {
    let skip = sat_sub(start, 1);
    let rest = if skip >= lines.len() {
        Seq::empty()
    } else {
        lines.skip(skip)
    };
    let take = sat_sub(end, skip);
    if take >= rest.len() {
        rest
    } else {
        rest.take(take)
    }
}

/// A code line as shown in a preview: cut to its first 57 bytes followed
/// by `...` when longer than 60 bytes.
pub open spec fn preview_cell(line: Seq<char>) -> Seq<char> {
    if utf8_len(line) > 60 {
        byte_prefix(line, 57) + "..."@
    } else {
        line
    }
}

/// A code line can be cut for a preview: when longer than 60 bytes, its
/// 57th byte ends a character.
pub open spec fn cell_fits(line: Seq<char>) -> bool {
    utf8_len(line) > 60 ==> is_byte_boundary(line, 57)
}

/// The number of lines shown out of `n` when at most `max` are.
pub open spec fn shown(n: int, max: int) -> int {
    if n < max {
        n
    } else {
        max
    }
}

/// The left column of a preview: line numbers.
pub open spec fn preview_left(w: Seq<Seq<char>>, start: int, max: int) -> Seq<Seq<char>> {
    seq!["Line"@] + Seq::new(shown(w.len() as int, max) as nat, |i: int| decimal((start + i) as nat))
        + (if w.len() > max {
        seq!["..."@]
    } else {
        Seq::empty()
    })
}

/// The right column of a preview: the code.
pub open spec fn preview_right(w: Seq<Seq<char>>, max: int) -> Seq<Seq<char>> {
    seq!["Code"@] + Seq::new(shown(w.len() as int, max) as nat, |i: int| preview_cell(w[i])) + (
    if w.len() > max {
        seq!["("@ + decimal((w.len() - max) as nat) + " more lines)"@]
    } else {
        Seq::empty()
    })
}

/// The last line previewed for a duplicate: its end line, or
/// `preview_lines` lines after its start.
pub open spec fn preview_end(d: DuplicateMatch, preview_lines: nat) -> int {
    match d.end_line1 {
        Some(e) => e as int,
        None => d.start_line1 + preview_lines,
    }
}

/// The code preview of a duplicate from the lines of its first file.
pub open spec fn code_preview(source: Option<Seq<Seq<char>>>, d: DuplicateMatch, preview_lines: nat) -> PreviewV {
    match source {
        None => PreviewV::Unavailable,
        Some(lines) => {
            let w = preview_window(lines, d.start_line1 as int, preview_end(d, preview_lines));
            if w.len() == 0 {
                PreviewV::Nothing
            } else {
                PreviewV::Table(
                    grid_rows(
                        preview_left(w, d.start_line1 as int, preview_lines as int),
                        preview_right(w, preview_lines as int),
                    ),
                )
            }
        },
    }
}

/// A code line as shown in a preview.
fn preview_cell_of(line: &str) -> (r: String)
    requires
        cell_fits(line@),
    ensures
        r@ == preview_cell(line@),
{
    let v = chars_of(line);
    if utf8_len_exceeds(&v, 60) {
        let k = prefix_chars(&v, 57);
        let mut r = String::new();
        let mut i: usize = 0;
        while i < k
            invariant
                i <= k <= v.len(),
                v@ == line@,
                r@ == line@.take(i as int),
            decreases k - i,
        {
            push_char(&mut r, v[i]);
            assert(line@.take(i + 1) =~= line@.take(i as int).push(line@[i as int]));
            i = i + 1;
        }
        append_str(&mut r, "...");
        r
    } else {
        owned(line)
    }
}

/// Every line that the preview of `d` shows can be cut.
pub open spec fn preview_fits(source: Option<Seq<Seq<char>>>, d: DuplicateMatch, preview_lines: nat) -> bool {
    match source {
        None => true,
        Some(lines) => window_fits(
            preview_window(lines, d.start_line1 as int, preview_end(d, preview_lines)),
            preview_lines as int,
        ),
    }
}

/// Every line of the window that a preview of at most `max` lines shows can
/// be cut.
pub open spec fn window_fits(w: Seq<Seq<char>>, max: int) -> bool {
    forall|k: int| 0 <= k < shown(w.len() as int, max) ==> cell_fits(#[trigger] w[k])
}

/// Whether a code line can be cut for a preview.
fn cell_fits_of(line: &str) -> (r: bool)
    ensures
        r == cell_fits(line@),
{
    let v = chars_of(line);
    !utf8_len_exceeds(&v, 60) || is_byte_boundary_at(&v, 57)
}

/// Whether every line that the preview of `d` shows can be cut.
pub fn preview_fits_of(source: &Option<Vec<String>>, d: &DuplicateMatch, preview_lines: usize) -> (r: bool)
    requires
        d.end_line1 is None ==> d.start_line1 + preview_lines <= usize::MAX,
    ensures
        r == preview_fits(
            match source {
                Some(v) => Some(v.deep_view()),
                None => None,
            },
            *d,
            preview_lines as nat,
        ),
{
    let ghost src_view = match source {
        Some(v) => Some(v.deep_view()),
        None => None,
    };
    let lines = match source {
        None => {
            return true;
        },
        Some(v) => v,
    };
    let start = d.start_line1;
    let end = match d.end_line1 {
        Some(e) => e,
        None => start + preview_lines,
    };
    let skip = if start >= 1 { start - 1 } else { 0 };
    let take = if end >= skip { end - skip } else { 0 };
    let ghost all = lines.deep_view();
    assert(src_view == Some(all));
    let ghost w = preview_window(all, start as int, end as int);
    let stop = if skip >= lines.len() {
        skip
    } else if take >= lines.len() - skip {
        lines.len()
    } else {
        skip + take
    };
    assert(w =~= if skip >= lines.len() { Seq::empty() } else { all.subrange(skip as int, stop as int) });
    let count = if stop > skip { stop - skip } else { 0 };
    assert(w.len() == count);
    let n_shown = if count < preview_lines { count } else { preview_lines };
    let mut i: usize = 0;
    while i < n_shown
        invariant
            i <= n_shown,
            n_shown <= count,
            n_shown == shown(w.len() as int, preview_lines as int),
            count > 0 ==> skip < stop <= lines.len(),
            count == 0 ==> w.len() == 0,
            count > 0 ==> count == stop - skip && w == all.subrange(skip as int, stop as int),
            all == lines.deep_view(),
            end == preview_end(*d, preview_lines as nat),
            start == d.start_line1,
            w == preview_window(all, start as int, end as int),
            src_view == Some(all),
            src_view == match source {
                Some(v) => Some(v.deep_view()),
                None => None,
            },
            forall|k: int| 0 <= k < i ==> cell_fits(#[trigger] w[k]),
        decreases n_shown - i,
    {
        assert(w[i as int] == all[skip + i]);
        assert(all[skip + i] == lines@[skip + i]@);
        if !cell_fits_of(lines[skip + i].as_str()) {
            assert(!cell_fits(w[i as int]));
            assert(preview_window(all, d.start_line1 as int, preview_end(*d, preview_lines as nat)) == w);
            assert(!window_fits(w, preview_lines as int));
            return false;
        }
        i = i + 1;
    }
    true
}

/// Whether every line that the previews of the duplicates show can be cut.
pub fn previews_fit_of(dups: &Vec<DuplicateMatch>, sources: &Vec<Option<Vec<String>>>, preview_lines: usize) -> (r: bool)
    requires
        sources.len() == dups.len(),
        forall|i: int|
            0 <= i < dups.len() && (#[trigger] dups@[i]).end_line1 is None ==> dups@[i].start_line1
                + preview_lines <= usize::MAX,
    ensures
        r == previews_fit(dups@, source_views(sources@), preview_lines as nat),
{
    let mut i: usize = 0;
    while i < dups.len()
        invariant
            i <= dups.len(),
            sources.len() == dups.len(),
            forall|j: int|
                0 <= j < dups.len() && (#[trigger] dups@[j]).end_line1 is None ==> dups@[j].start_line1
                    + preview_lines <= usize::MAX,
            forall|j: int|
                0 <= j < i ==> preview_fits(source_views(sources@)[j], #[trigger] dups@[j], preview_lines as nat),
        decreases dups.len() - i,
    {
        assert(source_views(sources@)[i as int] == match sources@[i as int] {
            Some(v) => Some(v.deep_view()),
            None => None,
        });
        if !preview_fits_of(&sources[i], &dups[i], preview_lines) {
            return false;
        }
        i = i + 1;
    }
    true
}

/// The code preview of a duplicate from the lines of its first file, when
/// they could be read.
pub fn make_code_preview(source: &Option<Vec<String>>, d: &DuplicateMatch, preview_lines: usize) -> (r: CodePreview)
    requires
        d.end_line1 is None ==> d.start_line1 + preview_lines <= usize::MAX,
        preview_fits(
            match source {
                Some(v) => Some(v.deep_view()),
                None => None,
            },
            *d,
            preview_lines as nat,
        ),
    ensures
        preview_view(r) == code_preview(
            match source {
                Some(v) => Some(v.deep_view()),
                None => None,
            },
            *d,
            preview_lines as nat,
        ),
{
    let lines = match source {
        None => {
            return CodePreview::Unavailable;
        },
        Some(v) => v,
    };
    let start = d.start_line1;
    let end = match d.end_line1 {
        Some(e) => e,
        None => start + preview_lines,
    };
    let skip = if start >= 1 { start - 1 } else { 0 };
    let take = if end >= skip { end - skip } else { 0 };
    let ghost all = lines.deep_view();
    let ghost w = preview_window(all, start as int, end as int);
    // The window: lines skip .. skip + take, as far as they exist.
    let stop = if skip >= lines.len() {
        skip
    } else if take >= lines.len() - skip {
        lines.len()
    } else {
        skip + take
    };
    assert(w =~= if skip >= lines.len() { Seq::empty() } else { all.subrange(skip as int, stop as int) });
    let count = if stop > skip { stop - skip } else { 0 };
    assert(w.len() == count);
    if count == 0 {
        return CodePreview::Nothing;
    }
    let n_shown = if count < preview_lines { count } else { preview_lines };
    let mut left: Vec<String> = Vec::new();
    let mut right: Vec<String> = Vec::new();
    left.push(owned("Line"));
    right.push(owned("Code"));
    let mut i: usize = 0;
    while i < n_shown
        invariant
            i <= n_shown,
            n_shown <= count,
            count == stop - skip,
            skip < stop <= lines.len(),
            all == lines.deep_view(),
            w == all.subrange(skip as int, stop as int),
            end == preview_end(*d, preview_lines as nat),
            start == d.start_line1,
            start <= skip + 1,
            skip + take == end || (take == 0 && end < skip),
            stop <= skip + take,
            left.deep_view() == seq!["Line"@] + Seq::new(i as nat, |k: int| decimal((start + k) as nat)),
            right.deep_view() == seq!["Code"@] + Seq::new(i as nat, |k: int| preview_cell(w[k])),
            n_shown == shown(w.len() as int, preview_lines as int),
            forall|k: int| 0 <= k < n_shown ==> cell_fits(#[trigger] w[k]),
        decreases n_shown - i,
    {
        let ghost lb = left.deep_view();
        let ghost rb = right.deep_view();
        let num = crate::text::decimal_string((start + i) as u64);
        assert(w[i as int] == all[skip + i]);
        assert(all[skip + i] == lines@[skip + i]@);
        assert(cell_fits(w[i as int]));
        let cell = preview_cell_of(lines[skip + i].as_str());
        left.push(num);
        right.push(cell);
        assert(left.deep_view() =~= lb.push(num@));
        assert(right.deep_view() =~= rb.push(cell@));
        assert(left.deep_view() =~= seq!["Line"@] + Seq::new((i + 1) as nat, |k: int| decimal((start + k) as nat)));
        assert(w[i as int] == all[skip + i]);
        assert(right.deep_view() =~= seq!["Code"@] + Seq::new((i + 1) as nat, |k: int| preview_cell(w[k])));
        i = i + 1;
    }
    if count > preview_lines {
        let ghost lb = left.deep_view();
        let ghost rb = right.deep_view();
        left.push(owned("..."));
        let mut more = owned("(");
        push_decimal(&mut more, (count - preview_lines) as u64);
        append_str(&mut more, " more lines)");
        right.push(more);
        assert(left.deep_view() =~= lb + seq!["..."@]);
        assert(right.deep_view() =~= rb + seq!["("@ + decimal((w.len() - preview_lines) as nat) + " more lines)"@]);
    } else {
        assert(left.deep_view() =~= left.deep_view() + Seq::<Seq<char>>::empty());
        assert(right.deep_view() =~= right.deep_view() + Seq::<Seq<char>>::empty());
    }
    assert(left.deep_view() =~= preview_left(w, start as int, preview_lines as int));
    assert(right.deep_view() =~= preview_right(w, preview_lines as int));
    CodePreview::Table(code_grid(&left, &right))
}

// ---------------------------------------------------------------------------
// Clone pairs
// ---------------------------------------------------------------------------

/// The heading under which a duplicate is listed when grouping by
/// `criterion`.
pub open spec fn group_heading(d: DuplicateMatch, criterion: Seq<char>) -> Seq<char> {
    if criterion == "file"@ {
        d.file1@
    } else if criterion == "similarity"@ {
        percent_text(d.similarity as int) + "%"@
    } else if criterion == "type"@ {
        d.clone_type.spec_label()
    } else if criterion == "size"@ {
        decimal(d.length as nat) + " tokens"@
    } else {
        Seq::empty()
    }
}

/// The heading under which a duplicate is listed.
fn group_heading_of(d: &DuplicateMatch, criterion: &str) -> (r: String)
    ensures
        r@ == group_heading(*d, criterion@),
{
    if str_eq(criterion, "file") {
        d.file1.clone()
    } else if str_eq(criterion, "similarity") {
        let mut r = String::new();
        push_percent(&mut r, d.similarity);
        append_str(&mut r, "%");
        assert(r@ =~= percent_text(d.similarity as int) + "%"@);
        r
    } else if str_eq(criterion, "type") {
        owned(d.clone_type.label())
    } else if str_eq(criterion, "size") {
        let mut r = crate::text::decimal_string(d.length as u64);
        append_str(&mut r, " tokens");
        r
    } else {
        String::new()
    }
}

/// The listing of one duplicate, numbered `idx`, with a heading when a new
/// group starts.
/// The heading line that starts a new group of listed pairs.
pub open spec fn heading_text(heading: Option<Seq<char>>) -> Seq<char> {
    match heading {
        Some(h) => "\n─── "@ + h + " ───\n"@,
        None => Seq::empty(),
    }
}

/// The title line of a listed pair: number, clone type, suppression mark,
/// similarity and length.
pub open spec fn title_line(d: DuplicateMatch, idx: nat) -> Seq<char> {
    "\n"@ + decimal(idx) + ". "@ + d.clone_type.spec_label() + (if d.suppressed_by_directive
        == Some(true) {
        " [SUPPRESSED]"@
    } else {
        Seq::empty()
    }) + " | Similarity: "@ + percent_tenths_text(d.similarity as int) + "% | Length: "@ + decimal(
        d.length as nat,
    ) + " tokens\n"@
}

/// The two location lines of a listed pair.
pub open spec fn location_lines(d: DuplicateMatch) -> Seq<char> {
    "   ├─ "@ + d.file1@ + ":"@ + line_range_text(d.start_line1, d.end_line1) + "\n"@ + "   └─ "@
        + d.file2@ + ":"@ + line_range_text(d.start_line2, d.end_line2) + "\n"@
}

/// The hash line shown in verbose mode.
pub open spec fn hash_line(h: u64, verbose: bool) -> Seq<char> {
    if verbose {
        "      Hash: 0x"@ + hexadecimal(h as nat) + "\n"@
    } else {
        Seq::empty()
    }
}

/// The listing of one duplicate, numbered `idx`, with a heading when a new
/// group starts.
#[verifier::opaque]
pub open spec fn listing_entry(
    d: DuplicateMatch,
    idx: nat,
    heading: Option<Seq<char>>,
    verbose: bool,
    show_code: bool,
    preview: PreviewV,
    suggest_refactoring: bool,
    show_ids: bool,
    id_length: nat,
) -> Seq<char> {
    heading_text(heading) + title_line(d, idx) + id_line(opt_text(d.duplicate_id), show_ids, id_length)
        + location_lines(d) + hash_line(d.hash, verbose) + (if show_code {
        preview_text(preview)
    } else {
        Seq::empty()
    }) + (if suggest_refactoring {
        refactoring_suggestion(d)
    } else {
        Seq::empty()
    })
}

/// Some group has hash `h`.
pub open spec fn in_groups(gs: Seq<GroupV>, h: u64) -> bool {
    exists|k: int| 0 <= k < gs.len() && (#[trigger] gs[k]).0 == h
}

/// The positions, below `n`, of the duplicates that belong to no group.
pub open spec fn pair_positions(dups: Seq<DuplicateMatch>, gs: Seq<GroupV>, n: int) -> Seq<int>
    decreases n,
{
    if n <= 0 {
        Seq::empty()
    } else {
        let p = pair_positions(dups, gs, n - 1);
        if in_groups(gs, dups[n - 1].hash) {
            p
        } else {
            p.push(n - 1)
        }
    }
}

/// The heading shown before the `k`-th listed pair: with a grouping
/// criterion, when the pair's heading differs from the previous pair's.
pub open spec fn heading_at(
    dups: Seq<DuplicateMatch>,
    pos: Seq<int>,
    k: int,
    group_by: Option<Seq<char>>,
) -> Option<Seq<char>> {
    match group_by {
        Some(c) => if k == 0 || group_heading(dups[pos[k - 1]], c) != group_heading(dups[pos[k]], c) {
            Some(group_heading(dups[pos[k]], c))
        } else {
            None
        },
        None => None,
    }
}

/// The listings of the first `n` pairs.
pub open spec fn listing_entries(
    dups: Seq<DuplicateMatch>,
    previews: Seq<PreviewV>,
    pos: Seq<int>,
    n: int,
    group_by: Option<Seq<char>>,
    verbose: bool,
    show_code: bool,
    suggest_refactoring: bool,
    show_ids: bool,
    id_length: nat,
) -> Seq<char>
    decreases n,
{
    if n <= 0 {
        Seq::empty()
    } else {
        listing_entries(
            dups,
            previews,
            pos,
            n - 1,
            group_by,
            verbose,
            show_code,
            suggest_refactoring,
            show_ids,
            id_length,
        ) + listing_entry(
            dups[pos[n - 1]],
            n as nat,
            heading_at(dups, pos, n - 1, group_by),
            verbose,
            show_code,
            previews[pos[n - 1]],
            suggest_refactoring,
            show_ids,
            id_length,
        )
    }
}

/// The clone pairs section: the duplicates that belong to no clone group.
pub open spec fn pairs_section(
    dups: Seq<DuplicateMatch>,
    previews: Seq<PreviewV>,
    gs: Seq<GroupV>,
    group_by: Option<Seq<char>>,
    verbose: bool,
    show_code: bool,
    suggest_refactoring: bool,
    show_ids: bool,
    id_length: nat,
) -> Seq<char> {
    let pos = pair_positions(dups, gs, dups.len() as int);
    if pos.len() == 0 {
        Seq::empty()
    } else {
        "\n── Clone Pairs ("@ + decimal(pos.len()) + " pairs) ──\n"@
            + "Duplicates appearing in 2 files. Lower refactoring ROI than clone groups.\n"@
            + listing_entries(
            dups,
            previews,
            pos,
            pos.len() as int,
            group_by,
            verbose,
            show_code,
            suggest_refactoring,
            show_ids,
            id_length,
        )
    }
}

/// Every duplicate ID is ASCII.
pub open spec fn ids_ascii(dups: Seq<DuplicateMatch>) -> bool {
    forall|i: int|
        0 <= i < dups.len() && (#[trigger] dups[i]).duplicate_id is Some ==> is_ascii_text(
            dups[i].duplicate_id->0@,
        )
}

fn heading_text_of(heading: &Option<String>) -> (r: String)
    ensures
        r@ == heading_text(opt_text(*heading)),
{
    match heading {
        Some(h) => {
            let mut e = owned("\n─── ");
            append_str(&mut e, h.as_str());
            append_str(&mut e, " ───\n");
            e
        },
        None => String::new(),
    }
}

fn title_line_of(d: &DuplicateMatch, idx: usize) -> (r: String)
    ensures
        r@ == title_line(*d, idx as nat),
{
    let mut e = owned("\n");
    push_decimal(&mut e, idx as u64);
    append_str(&mut e, ". ");
    append_str(&mut e, d.clone_type.label());
    let ghost before = e@;
    if d.suppressed_by_directive == Some(true) {
        append_str(&mut e, " [SUPPRESSED]");
    } else {
        assert(e@ =~= before + Seq::<char>::empty());
    }
    append_str(&mut e, " | Similarity: ");
    push_percent_tenths(&mut e, d.similarity);
    append_str(&mut e, "% | Length: ");
    push_decimal(&mut e, d.length as u64);
    append_str(&mut e, " tokens\n");
    e
}

fn location_lines_of(d: &DuplicateMatch) -> (r: String)
    ensures
        r@ == location_lines(*d),
{
    let mut e = owned("   ├─ ");
    append_str(&mut e, d.file1.as_str());
    append_str(&mut e, ":");
    push_line_range(&mut e, d.start_line1, d.end_line1);
    append_str(&mut e, "\n");
    append_str(&mut e, "   └─ ");
    append_str(&mut e, d.file2.as_str());
    append_str(&mut e, ":");
    push_line_range(&mut e, d.start_line2, d.end_line2);
    append_str(&mut e, "\n");
    e
}

fn hash_line_of(h: u64, verbose: bool) -> (r: String)
    ensures
        r@ == hash_line(h, verbose),
{
    if verbose {
        let mut e = owned("      Hash: 0x");
        push_hex(&mut e, h);
        append_str(&mut e, "\n");
        e
    } else {
        String::new()
    }
}

fn preview_part(show_code: bool, preview: &CodePreview) -> (r: String)
    ensures
        r@ == (if show_code {
            preview_text(preview_view(*preview))
        } else {
            Seq::empty()
        }),
{
    if !show_code {
        return String::new();
    }
    match preview {
        CodePreview::Unavailable => owned("   Code Preview: (file not accessible)\n"),
        CodePreview::Nothing => String::new(),
        CodePreview::Table(t) => {
            let mut e = owned("\n");
            append_str(&mut e, "   Code Preview:\n");
            push_indented(&mut e, t.as_str());
            e
        },
    }
}

fn suggestion_part(suggest_refactoring: bool, d: &DuplicateMatch) -> (r: String)
    ensures
        r@ == (if suggest_refactoring {
            refactoring_suggestion(*d)
        } else {
            Seq::empty()
        }),
{
    let mut e = String::new();
    if suggest_refactoring {
        append_refactoring_suggestion(&mut e, d);
        assert(e@ =~= refactoring_suggestion(*d));
    }
    e
}

fn id_part(id: &Option<String>, show_ids: bool, id_length: usize) -> (r: String)
    requires
        show_ids && id is Some ==> is_ascii_text(id->0@),
    ensures
        r@ == id_line(opt_text(*id), show_ids, id_length as nat),
{
    let mut e = String::new();
    push_id_line(&mut e, id, show_ids, id_length);
    assert(e@ =~= id_line(opt_text(*id), show_ids, id_length as nat));
    e
}

fn push_listing_entry(
    out: &mut String,
    d: &DuplicateMatch,
    idx: usize,
    heading: &Option<String>,
    verbose: bool,
    show_code: bool,
    preview: &CodePreview,
    suggest_refactoring: bool,
    show_ids: bool,
    id_length: usize,
)
    requires
        show_ids && d.duplicate_id is Some ==> is_ascii_text(d.duplicate_id->0@),
    ensures
        final(out)@ == old(out)@ + listing_entry(
            *d,
            idx as nat,
            opt_text(*heading),
            verbose,
            show_code,
            preview_view(*preview),
            suggest_refactoring,
            show_ids,
            id_length as nat,
        ),
{
    let a = heading_text_of(heading);
    let b = title_line_of(d, idx);
    let c = id_part(&d.duplicate_id, show_ids, id_length);
    let l = location_lines_of(d);
    let h = hash_line_of(d.hash, verbose);
    let p = preview_part(show_code, preview);
    let g = suggestion_part(suggest_refactoring, d);
    let mut e = owned(a.as_str());
    append_str(&mut e, b.as_str());
    append_str(&mut e, c.as_str());
    append_str(&mut e, l.as_str());
    append_str(&mut e, h.as_str());
    append_str(&mut e, p.as_str());
    append_str(&mut e, g.as_str());
    append_str(out, e.as_str());
    reveal(listing_entry);
}

/// Whether a duplicate with hash `h` belongs to a clone group.
fn grouped(groups: &Vec<MultiWayGroup>, h: u64) -> (r: bool)
    ensures
        r == in_groups(group_views(groups@), h),
{
    let mut k: usize = 0;
    while k < groups.len()
        invariant
            k <= groups.len(),
            forall|m: int| 0 <= m < k ==> groups@[m].hash != h,
        decreases groups.len() - k,
    {
        if groups[k].hash == h {
            assert(group_views(groups@)[k as int].0 == h);
            return true;
        }
        k = k + 1;
    }
    assert forall|m: int| 0 <= m < group_views(groups@).len() implies (#[trigger] group_views(groups@)[m]).0 != h by {
        assert(group_views(groups@)[m].0 == groups@[m].hash);
    }
    false
}

/// The headings shown before each listed pair.
fn compute_headings(
    dups: &Vec<DuplicateMatch>,
    pos: &Vec<usize>,
    group_by: Option<&str>,
    Ghost(p): Ghost<Seq<int>>,
) -> (r: Vec<Option<String>>)
    requires
        forall|m: int| 0 <= m < pos.len() ==> (#[trigger] pos@[m]) < dups.len(),
        p == Seq::new(pos.len() as nat, |m: int| pos@[m] as int),
    ensures
        r.len() == pos.len(),
        forall|m: int|
            0 <= m < pos.len() ==> opt_text(#[trigger] r@[m]) == heading_at(
                dups@,
                p,
                m,
                match group_by {
                    Some(c) => Some(c@),
                    None => None,
                },
            ),
{
    let ghost gb: Option<Seq<char>> = match group_by {
        Some(c) => Some(c@),
        None => None,
    };
    let mut r: Vec<Option<String>> = Vec::new();
    let mut current: Option<String> = None;
    let mut k: usize = 0;
    while k < pos.len()
        invariant
            k <= pos.len(),
            r.len() == k,
            forall|m: int| 0 <= m < pos.len() ==> (#[trigger] pos@[m]) < dups.len(),
            p == Seq::new(pos.len() as nat, |m: int| pos@[m] as int),
            gb == (match group_by {
                Some(c) => Some(c@),
                None => None,
            }),
            forall|m: int| 0 <= m < k ==> opt_text(#[trigger] r@[m]) == heading_at(dups@, p, m, gb),
            k == 0 ==> current is None,
            k > 0 && group_by is Some ==> current is Some && current->0@ == group_heading(
                dups@[p[k - 1]],
                group_by->0@,
            ),
        decreases pos.len() - k,
    {
        let d = &dups[pos[k]];
        assert(p[k as int] == pos@[k as int]);
        assert(dups@[p[k as int]] == *d);
        let heading: Option<String> = match group_by {
            Some(c) => {
                let h = group_heading_of(d, c);
                let differs = match &current {
                    Some(prev) => !str_eq(prev.as_str(), h.as_str()),
                    None => true,
                };
                if differs {
                    current = Some(h.clone());
                    Some(h)
                } else {
                    current = Some(h);
                    None
                }
            },
            None => None,
        };
        assert(opt_text(heading) == heading_at(dups@, p, k as int, gb));
        r.push(heading);
        k = k + 1;
    }
    r
}

/// Append individual duplicate listings to the report: the duplicates that
/// belong to no clone group, under the clone pairs heading.
pub fn append_duplicate_listings(
    output: &mut String,
    dups: &Vec<DuplicateMatch>,
    previews: &Vec<CodePreview>,
    groups: &Vec<MultiWayGroup>,
    group_by: Option<&str>,
    verbose: bool,
    show_code: bool,
    suggest_refactoring: bool,
    show_ids: bool,
    id_length: usize,
)
    requires
        previews.len() == dups.len(),
        show_ids ==> ids_ascii(dups@),
        dups.len() < usize::MAX,
    ensures
        final(output)@ == old(output)@ + pairs_section(
            dups@,
            preview_views(previews@),
            group_views(groups@),
            match group_by {
                Some(c) => Some(c@),
                None => None,
            },
            verbose,
            show_code,
            suggest_refactoring,
            show_ids,
            id_length as nat,
        ),
{
    let ghost gs = group_views(groups@);
    let ghost pv = preview_views(previews@);
    let ghost gb: Option<Seq<char>> = match group_by {
        Some(c) => Some(c@),
        None => None,
    };
    // Positions of the pairs.
    let mut pos: Vec<usize> = Vec::new();
    let mut i: usize = 0;
    while i < dups.len()
        invariant
            i <= dups.len(),
            gs == group_views(groups@),
            pos.len() <= i,
            forall|k: int| 0 <= k < pos.len() ==> (#[trigger] pos@[k]) < i,
            Seq::new(pos.len() as nat, |k: int| pos@[k] as int) == pair_positions(dups@, gs, i as int),
        decreases dups.len() - i,
    {
        let ghost before = pos@;
        if !grouped(groups, dups[i].hash) {
            pos.push(i);
        }
        assert(Seq::new(pos.len() as nat, |k: int| pos@[k] as int) =~= pair_positions(dups@, gs, i + 1));
        i = i + 1;
    }
    let ghost p = pair_positions(dups@, gs, dups.len() as int);
    if pos.len() == 0 {
        assert(old(output)@ + pairs_section(dups@, pv, gs, gb, verbose, show_code, suggest_refactoring, show_ids, id_length as nat) =~= output@);
        return;
    }
    let mut e = owned("\n── Clone Pairs (");
    push_decimal(&mut e, pos.len() as u64);
    append_str(&mut e, " pairs) ──\n");
    append_str(&mut e, "Duplicates appearing in 2 files. Lower refactoring ROI than clone groups.\n");
    let ghost head = e@;
    let headings = compute_headings(dups, &pos, group_by, Ghost(p));
    let mut k: usize = 0;
    while k < pos.len()
        invariant
            k <= pos.len(),
            pos.len() <= dups.len(),
            dups.len() < usize::MAX,
            previews.len() == dups.len(),
            headings.len() == pos.len(),
            show_ids ==> ids_ascii(dups@),
            forall|m: int| 0 <= m < pos.len() ==> (#[trigger] pos@[m]) < dups.len(),
            p == Seq::new(pos.len() as nat, |m: int| pos@[m] as int),
            pv == preview_views(previews@),
            forall|m: int| 0 <= m < pos.len() ==> opt_text(#[trigger] headings@[m]) == heading_at(dups@, p, m, gb),
            e@ == head + listing_entries(dups@, pv, p, k as int, gb, verbose, show_code, suggest_refactoring, show_ids, id_length as nat),
        decreases pos.len() - k,
    {
        let j = pos[k];
        assert(p[k as int] == j);
        assert(pv[j as int] == preview_view(previews@[j as int]));
        let ghost before = e@;
        push_listing_entry(&mut e, &dups[j], k + 1, &headings[k], verbose, show_code, &previews[j], suggest_refactoring, show_ids, id_length);
        assert(e@ =~= head + listing_entries(dups@, pv, p, k + 1, gb, verbose, show_code, suggest_refactoring, show_ids, id_length as nat));
        k = k + 1;
    }
    assert(e@ =~= pairs_section(dups@, pv, gs, gb, verbose, show_code, suggest_refactoring, show_ids, id_length as nat));
    append_str(output, e.as_str());
}

// ---------------------------------------------------------------------------
// The whole report
// ---------------------------------------------------------------------------

/// The performance lines shown in verbose mode.
pub open spec fn performance_section(r: Report) -> Seq<char> {
    "\n"@ + "Performance:\n"@ + "  Duration:       "@ + decimal(r.stats.duration_ms as nat) + "ms\n"@
        + "  Total tokens:   "@ + decimal(r.stats.total_tokens as nat) + "\n"@
        + "  Unique hashes:  "@ + decimal(r.stats.unique_hashes as nat) + "\n"@
}

/// The lines of the first `n` skipped files.
pub open spec fn skipped_lines(s: Seq<SkippedFile>, n: int) -> Seq<char>
    decreases n,
{
    if n <= 0 {
        Seq::empty()
    } else {
        skipped_lines(s, n - 1) + "  - "@ + s[n - 1].path@ + ": "@ + s[n - 1].reason@ + "\n"@
    }
}

/// The skipped files section shown in verbose mode.
pub open spec fn skipped_section(r: Report) -> Seq<char> {
    "\n"@ + "Skipped files ("@ + decimal(r.skipped_files@.len()) + "):\n"@ + skipped_lines(
        r.skipped_files@,
        r.skipped_files@.len() as int,
    )
}

/// The closing lines of a report without duplicates, with a hint about
/// Type-3 detection when it is off.
pub open spec fn no_duplicates_text(type3_enabled: bool) -> Seq<char> {
    "\n"@ + "✓ No duplicates found!\n"@ + (if !type3_enabled {
        "\n"@ + "Tip: Enable Type-3 detection to find similar code with structural differences:\n"@
            + "  polydup scan . --enable-type3\n"@
    } else {
        Seq::empty()
    })
}

/// The text report, given the drawn dashboard, breakdown and offenders
/// tables and the code previews of the duplicates.
#[verifier::opaque]
pub open spec fn text_report(
    r: Report,
    verbose: bool,
    group_by: Option<Seq<char>>,
    show_code: bool,
    suggest_refactoring: bool,
    show_ids: bool,
    type3_enabled: bool,
    id_length: nat,
    dashboard: Seq<char>,
    breakdown: Seq<char>,
    offenders: Seq<char>,
    previews: Seq<PreviewV>,
) -> Seq<char> {
    let dups = r.duplicates@;
    dashboard + "\n"@ + (if dups.len() > 0 {
        breakdown + "\n"@ + offenders + "\n"@
    } else {
        Seq::empty()
    }) + (if verbose {
        performance_section(r)
    } else {
        Seq::empty()
    }) + (if verbose && r.skipped_files@.len() > 0 {
        skipped_section(r)
    } else {
        Seq::empty()
    }) + (if dups.len() == 0 {
        no_duplicates_text(type3_enabled)
    } else {
        "\n"@ + groups_section(multi_way_groups(dups), verbose, show_ids, id_length) + pairs_section(
            dups,
            previews,
            multi_way_groups(dups),
            group_by,
            verbose,
            show_code,
            suggest_refactoring,
            show_ids,
            id_length,
        ) + "\n"@ + "Tip: Use --format json for machine-readable output\n"@
    })
}

fn performance_section_of(r: &Report) -> (t: String)
    ensures
        t@ == performance_section(*r),
{
    let mut e = owned("\n");
    append_str(&mut e, "Performance:\n");
    append_str(&mut e, "  Duration:       ");
    push_decimal(&mut e, r.stats.duration_ms);
    append_str(&mut e, "ms\n");
    append_str(&mut e, "  Total tokens:   ");
    push_decimal(&mut e, r.stats.total_tokens as u64);
    append_str(&mut e, "\n");
    append_str(&mut e, "  Unique hashes:  ");
    push_decimal(&mut e, r.stats.unique_hashes as u64);
    append_str(&mut e, "\n");
    e
}

fn skipped_section_of(r: &Report) -> (t: String)
    ensures
        t@ == skipped_section(*r),
{
    let mut e = owned("\n");
    append_str(&mut e, "Skipped files (");
    push_decimal(&mut e, r.skipped_files.len() as u64);
    append_str(&mut e, "):\n");
    let ghost head = e@;
    let mut i: usize = 0;
    while i < r.skipped_files.len()
        invariant
            i <= r.skipped_files.len(),
            e@ == head + skipped_lines(r.skipped_files@, i as int),
        decreases r.skipped_files.len() - i,
    {
        let f = &r.skipped_files[i];
        let mut line = owned("  - ");
        append_str(&mut line, f.path.as_str());
        append_str(&mut line, ": ");
        append_str(&mut line, f.reason.as_str());
        append_str(&mut line, "\n");
        let ghost before = e@;
        append_str(&mut e, line.as_str());
        assert(e@ =~= head + skipped_lines(r.skipped_files@, i + 1));
        i = i + 1;
    }
    e
}

fn no_duplicates_text_of(type3_enabled: bool) -> (t: String)
    ensures
        t@ == no_duplicates_text(type3_enabled),
{
    let mut e = owned("\n");
    append_str(&mut e, "✓ No duplicates found!\n");
    if !type3_enabled {
        let mut tip = owned("\n");
        append_str(&mut tip, "Tip: Enable Type-3 detection to find similar code with structural differences:\n");
        append_str(&mut tip, "  polydup scan . --enable-type3\n");
        append_str(&mut e, tip.as_str());
    } else {
        assert(e@ =~= e@ + Seq::<char>::empty());
    }
    e
}

/// The text report from the drawn summary tables and the code previews of
/// the duplicates.
pub fn render_text_report(
    report: &Report,
    verbose: bool,
    group_by: Option<&str>,
    show_code: bool,
    suggest_refactoring: bool,
    show_ids: bool,
    type3_enabled: bool,
    id_length: usize,
    dashboard: &str,
    breakdown: &str,
    offenders: &str,
    previews: &Vec<CodePreview>,
) -> (r: String)
    requires
        previews.len() == report.duplicates.len(),
        show_ids ==> ids_ascii(report.duplicates@),
        groups_printable(multi_way_groups(report.duplicates@), show_ids),
        report.duplicates.len() < usize::MAX,
    ensures
        r@ == text_report(
            *report,
            verbose,
            match group_by {
                Some(c) => Some(c@),
                None => None,
            },
            show_code,
            suggest_refactoring,
            show_ids,
            type3_enabled,
            id_length as nat,
            dashboard@,
            breakdown@,
            offenders@,
            preview_views(previews@),
        ),
{
    let summary = if report.duplicates.len() > 0 {
        let mut t = owned(breakdown);
        append_str(&mut t, "\n");
        append_str(&mut t, offenders);
        append_str(&mut t, "\n");
        t
    } else {
        String::new()
    };
    let perf = if verbose {
        performance_section_of(report)
    } else {
        String::new()
    };
    let skipped = if verbose && report.skipped_files.len() > 0 {
        skipped_section_of(report)
    } else {
        String::new()
    };
    let body = if report.duplicates.len() == 0 {
        no_duplicates_text_of(type3_enabled)
    } else {
        let groups = find_multi_way_groups(&report.duplicates);
        let mut b = owned("\n");
        let ghost b0 = b@;
        append_multi_way_groups(&mut b, &groups, verbose, show_ids, id_length);
        append_duplicate_listings(
            &mut b,
            &report.duplicates,
            previews,
            &groups,
            group_by,
            verbose,
            show_code,
            suggest_refactoring,
            show_ids,
            id_length,
        );
        append_str(&mut b, "\n");
        append_str(&mut b, "Tip: Use --format json for machine-readable output\n");
        b
    };
    let mut out = owned(dashboard);
    append_str(&mut out, "\n");
    append_str(&mut out, summary.as_str());
    append_str(&mut out, perf.as_str());
    append_str(&mut out, skipped.as_str());
    append_str(&mut out, body.as_str());
    reveal(text_report);
    out
}

/// Every duplicate is short enough for the savings estimates of the clone
/// groups (at most twice as many copies as duplicates) to fit in a machine
/// word.
pub open spec fn savings_fit(dups: Seq<DuplicateMatch>) -> bool {
    forall|i: int| 0 <= i < dups.len() ==> 2 * dups.len() * (#[trigger] dups[i]).length <= u64::MAX
}

/// The code previews of the duplicates: when shown, from the lines of each
/// duplicate's first file; otherwise none.
pub open spec fn code_previews(
    dups: Seq<DuplicateMatch>,
    sources: Seq<Option<Seq<Seq<char>>>>,
    show_code: bool,
    preview_lines: nat,
) -> Seq<PreviewV> {
    Seq::new(
        dups.len(),
        |i: int|
            if show_code {
                code_preview(sources[i], dups[i], preview_lines)
            } else {
                PreviewV::Nothing
            },
    )
}

/// Every line that the previews show can be cut.
pub open spec fn previews_fit(dups: Seq<DuplicateMatch>, sources: Seq<Option<Seq<Seq<char>>>>, preview_lines: nat) -> bool {
    forall|i: int| 0 <= i < dups.len() ==> preview_fits(sources[i], #[trigger] dups[i], preview_lines)
}

/// The lines of the sources, where readable.
pub open spec fn source_views(sources: Seq<Option<Vec<String>>>) -> Seq<Option<Seq<Seq<char>>>> {
    Seq::new(
        sources.len(),
        |i: int|
            match sources[i] {
                Some(v) => Some(v.deep_view()),
                None => None,
            },
    )
}

/// Format human-readable text report as a string. `sources` holds, for
/// each duplicate, the lines of its first file when it could be read; it
/// is consulted only when code previews are shown.
pub fn format_text_report(
    report: &Report,
    verbose: bool,
    group_by: Option<&str>,
    show_code: bool,
    preview_lines: usize,
    suggest_refactoring: bool,
    show_ids: bool,
    type3_enabled: bool,
    id_length: usize,
    sources: &Vec<Option<Vec<String>>>,
) -> (r: String)
    requires
        counts_fit(*report),
        savings_fit(report.duplicates@),
        show_ids ==> ids_ascii(report.duplicates@),
        show_code ==> sources.len() == report.duplicates.len(),
        show_code ==> forall|i: int|
            0 <= i < report.duplicates.len() && (#[trigger] report.duplicates@[i]).end_line1 is None
                ==> report.duplicates@[i].start_line1 + preview_lines <= usize::MAX,
        show_code ==> previews_fit(report.duplicates@, source_views(sources@), preview_lines as nat),
        names_fit(top_offenders(report.duplicates@)),
    ensures
        r@ == text_report(
            *report,
            verbose,
            match group_by {
                Some(c) => Some(c@),
                None => None,
            },
            show_code,
            suggest_refactoring,
            show_ids,
            type3_enabled,
            id_length as nat,
            boxed_rows(dashboard_rows(*report)),
            boxed_rows(breakdown_rows(report.duplicates@)),
            boxed_rows(offender_rows(top_offenders(report.duplicates@))),
            code_previews(report.duplicates@, source_views(sources@), show_code, preview_lines as nat),
        ),
{
    let dashboard = boxed_table(&dashboard_rows_of(report));
    let ghost dups = report.duplicates@;
    let (breakdown, offenders) = if report.duplicates.len() > 0 {
        let b = boxed_table(&breakdown_rows_of(&report.duplicates));
        let top = find_top_offenders(&report.duplicates);
        proof {
            assert(tally_views(top@).len() <= 5);
        }
        let o = boxed_table(&offender_rows_of(&top));
        (b, o)
    } else {
        (String::new(), String::new())
    };
    let mut previews: Vec<CodePreview> = Vec::new();
    let mut i: usize = 0;
    while i < report.duplicates.len()
        invariant
            i <= report.duplicates.len(),
            previews.len() == i,
            show_code ==> sources.len() == report.duplicates.len(),
            show_code ==> forall|j: int|
                0 <= j < report.duplicates.len() && (#[trigger] report.duplicates@[j]).end_line1 is None
                    ==> report.duplicates@[j].start_line1 + preview_lines <= usize::MAX,
            show_code ==> previews_fit(report.duplicates@, source_views(sources@), preview_lines as nat),
            forall|j: int|
                0 <= j < i ==> preview_view(#[trigger] previews@[j]) == code_previews(
                    report.duplicates@,
                    source_views(sources@),
                    show_code,
                    preview_lines as nat,
                )[j],
        decreases report.duplicates.len() - i,
    {
        let p = if show_code {
            assert(source_views(sources@)[i as int] == match sources@[i as int] {
                Some(v) => Some(v.deep_view()),
                None => None,
            });
            make_code_preview(&sources[i], &report.duplicates[i], preview_lines)
        } else {
            CodePreview::Nothing
        };
        previews.push(p);
        i = i + 1;
    }
    assert(preview_views(previews@) =~= code_previews(
        report.duplicates@,
        source_views(sources@),
        show_code,
        preview_lines as nat,
    ));
    proof {
        crate::groups::lemma_multi_way_groups_from(dups);
        let gs = multi_way_groups(dups);
        assert forall|k: int| 0 <= k < gs.len() implies {
            &&& (#[trigger] gs[k]).3.len() >= 1
            &&& (gs[k].3.len() - 1) * gs[k].2 <= u64::MAX
            &&& (show_ids && gs[k].4 is Some ==> is_ascii_text(gs[k].4->0))
        } by {
            assert(crate::groups::group_from(gs[k], dups));
            let j = choose|j: int|
                0 <= j < dups.len() && gs[k].2 == (#[trigger] dups[j]).length && gs[k].4 == opt_text(
                    dups[j].duplicate_id,
                );
            assert(2 * dups.len() * dups[j].length <= u64::MAX);
            assert((gs[k].3.len() - 1) * gs[k].2 <= 2 * dups.len() * gs[k].2) by (nonlinear_arith)
                requires
                    gs[k].3.len() <= 2 * dups.len(),
                    gs[k].3.len() >= 1,
                    gs[k].2 >= 0,
            ;
        }
    }
    let r = render_text_report(
        report,
        verbose,
        group_by,
        show_code,
        suggest_refactoring,
        show_ids,
        type3_enabled,
        id_length,
        dashboard.as_str(),
        breakdown.as_str(),
        offenders.as_str(),
        &previews,
    );
    proof {
        reveal(text_report);
    }
    r
}

} // verus!
