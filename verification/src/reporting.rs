//! Machine-oriented renderings of a report: the VS Code problem matcher
//! format, the compiler-style format and the SARIF results, together with
//! the small pieces that the text report shares with them.

use vstd::prelude::*;
use crate::fixed::{percent_text, push_percent};
use crate::report::{CloneType, DuplicateMatch, Report};
use crate::text::{append_str, decimal, owned, push_decimal};

verus! {

broadcast use vstd::string::group_string_axioms;

/// The last line of a duplicate's location: its end line, or its start line
/// when the end is unknown.
pub open spec fn end_or_start(start: usize, end: Option<usize>) -> nat {
    match end {
        Some(e) => e as nat,
        None => start as nat,
    }
}

/// A line range as shown in listings: `start-end`, or just `start` when the
/// end is unknown or equal to the start.
pub open spec fn line_range_text(start: usize, end: Option<usize>) -> Seq<char> {
    match end {
        Some(e) => if e != start {
            decimal(start as nat) + "-"@ + decimal(e as nat)
        } else {
            decimal(start as nat)
        },
        None => decimal(start as nat),
    }
}

/// Appends a line range as shown in listings.
pub fn push_line_range(out: &mut String, start: usize, end: Option<usize>)
    ensures
        final(out)@ == old(out)@ + line_range_text(start, end),
{
    push_decimal(out, start as u64);
    match end {
        Some(e) => {
            if e != start {
                append_str(out, "-");
                push_decimal(out, e as u64);
            }
        },
        None => {},
    }
}

/// The severity used for a clone type: a warning for exact and renamed
/// copies, a note for modified ones.
pub open spec fn spec_severity(clone_type: CloneType) -> Seq<char> {
    match clone_type {
        CloneType::Type1 => "warning"@,
        CloneType::Type2 => "warning"@,
        CloneType::Type3 => "note"@,
    }
}

/// Map clone type to severity string
pub fn map_clone_to_severity(clone_type: &CloneType) -> (r: &'static str)
    ensures
        r@ == spec_severity(*clone_type),
{
    match clone_type {
        CloneType::Type1 => "warning",
        CloneType::Type2 => "warning",
        CloneType::Type3 => "note",
    }
}

/// Map clone type to SARIF level and kind
pub fn map_clone_to_sarif(dup: &DuplicateMatch) -> (r: (&'static str, &'static str))
    ensures
        r.0@ == spec_severity(dup.clone_type),
        r.1@ == dup.clone_type.spec_tag(),
{
    match dup.clone_type {
        CloneType::Type1 => ("warning", "type-1"),
        CloneType::Type2 => ("warning", "type-2"),
        CloneType::Type3 => ("note", "type-3"),
    }
}

// ---------------------------------------------------------------------------
// VS Code problem matcher format
// ---------------------------------------------------------------------------

/// The two problem lines of one duplicate: one at each location.
pub open spec fn vscode_entry(d: DuplicateMatch) -> Seq<char> {
    let severity = spec_severity(d.clone_type);
    d.file1@ + ":"@ + decimal(d.start_line1 as nat) + ":1: "@ + severity + ": "@
        + d.clone_type.spec_label() + " duplicate found - matches "@ + d.file2@ + ":"@ + decimal(
        d.start_line2 as nat,
    ) + "-"@ + decimal(end_or_start(d.start_line2, d.end_line2)) + " ("@ + percent_text(
        d.similarity as int,
    ) + "% similar, "@ + decimal(d.length as nat) + " tokens)\n"@ + d.file2@ + ":"@ + decimal(
        d.start_line2 as nat,
    ) + ":1: "@ + severity + ": duplicate of "@ + d.file1@ + ":"@ + decimal(
        d.start_line1 as nat,
    ) + "-"@ + decimal(end_or_start(d.start_line1, d.end_line1)) + "\n"@
}

/// The problem lines of all duplicates, in order.
pub open spec fn vscode_entries(dups: Seq<DuplicateMatch>) -> Seq<char>
    decreases dups.len(),
{
    if dups.len() == 0 {
        Seq::empty()
    } else {
        vscode_entries(dups.drop_last()) + vscode_entry(dups.last())
    }
}

/// The VS Code problem matcher output of a report.
pub open spec fn vscode_report(dups: Seq<DuplicateMatch>) -> Seq<char> {
    if dups.len() == 0 {
        "No duplicates found.\n"@
    } else {
        vscode_entries(dups)
    }
}

fn push_vscode_entry(out: &mut String, d: &DuplicateMatch)
    ensures
        final(out)@ == old(out)@ + vscode_entry(*d),
{
    let severity = map_clone_to_severity(&d.clone_type);
    let mut e = owned(d.file1.as_str());
    append_str(&mut e, ":");
    push_decimal(&mut e, d.start_line1 as u64);
    append_str(&mut e, ":1: ");
    append_str(&mut e, severity);
    append_str(&mut e, ": ");
    append_str(&mut e, d.clone_type.label());
    append_str(&mut e, " duplicate found - matches ");
    append_str(&mut e, d.file2.as_str());
    append_str(&mut e, ":");
    push_decimal(&mut e, d.start_line2 as u64);
    append_str(&mut e, "-");
    push_decimal(&mut e, match d.end_line2 { Some(e) => e as u64, None => d.start_line2 as u64 });
    append_str(&mut e, " (");
    push_percent(&mut e, d.similarity);
    append_str(&mut e, "% similar, ");
    push_decimal(&mut e, d.length as u64);
    append_str(&mut e, " tokens)\n");
    append_str(&mut e, d.file2.as_str());
    append_str(&mut e, ":");
    push_decimal(&mut e, d.start_line2 as u64);
    append_str(&mut e, ":1: ");
    append_str(&mut e, severity);
    append_str(&mut e, ": duplicate of ");
    append_str(&mut e, d.file1.as_str());
    append_str(&mut e, ":");
    push_decimal(&mut e, d.start_line1 as u64);
    append_str(&mut e, "-");
    push_decimal(&mut e, match d.end_line1 { Some(e) => e as u64, None => d.start_line1 as u64 });
    append_str(&mut e, "\n");
    assert(e@ == vscode_entry(*d));
    append_str(out, e.as_str());
}

/// Format VS Code problem matcher output
/// Format: file:line:column: severity: message
pub fn format_vscode_report(report: &Report) -> (r: String)
    ensures
        r@ == vscode_report(report.duplicates@),
{
    let mut output = String::new();
    let mut i: usize = 0;
    while i < report.duplicates.len()
        invariant
            i <= report.duplicates.len(),
            output@ == vscode_entries(report.duplicates@.take(i as int)),
        decreases report.duplicates.len() - i,
    {
        push_vscode_entry(&mut output, &report.duplicates[i]);
        assert(report.duplicates@.take(i + 1).drop_last() =~= report.duplicates@.take(i as int));
        i = i + 1;
    }
    assert(report.duplicates@.take(report.duplicates.len() as int) =~= report.duplicates@);
    if report.duplicates.len() == 0 {
        append_str(&mut output, "No duplicates found.\n");
        assert(output@ =~= "No duplicates found.\n"@);
    }
    output
}

// ---------------------------------------------------------------------------
// Compiler-style format
// ---------------------------------------------------------------------------

/// The compiler-style diagnostic of one duplicate.
pub open spec fn compiler_entry(d: DuplicateMatch) -> Seq<char> {
    spec_severity(d.clone_type) + "[polydup]: "@ + d.clone_type.spec_label()
        + " duplicate detected\n"@ + "  --> "@ + d.file1@ + ":"@ + decimal(d.start_line1 as nat)
        + "-"@ + decimal(end_or_start(d.start_line1, d.end_line1)) + "\n"@
        + "   = note: duplicates "@ + d.file2@ + ":"@ + decimal(d.start_line2 as nat) + "-"@
        + decimal(end_or_start(d.start_line2, d.end_line2)) + "\n"@ + "   = info: "@
        + percent_text(d.similarity as int) + "% similar, "@ + decimal(d.length as nat)
        + " tokens\n\n"@
}

/// The diagnostics of all duplicates, in order.
pub open spec fn compiler_entries(dups: Seq<DuplicateMatch>) -> Seq<char>
    decreases dups.len(),
{
    if dups.len() == 0 {
        Seq::empty()
    } else {
        compiler_entries(dups.drop_last()) + compiler_entry(dups.last())
    }
}

/// The compiler-style output of a report: every diagnostic, then the total.
pub open spec fn compiler_report(dups: Seq<DuplicateMatch>) -> Seq<char> {
    if dups.len() == 0 {
        "No duplicates found.\n"@
    } else {
        compiler_entries(dups) + "Total: "@ + decimal(dups.len()) + " duplicate(s) found\n"@
    }
}

/// A copy named by its file, its first line and its last line (the first
/// line again when the last is unknown): `file:first-last`.
pub open spec fn copy_mention(file: Seq<char>, start: usize, end: Option<usize>) -> Seq<char> {
    file + ":"@ + decimal(start as nat) + "-"@ + decimal(
        match end {
            Some(e) => e as nat,
            None => start as nat,
        },
    )
}

/// The diagnostic of a duplicate points, on a line of its own, at its first
/// copy, and carries on the next line a note naming its second copy.
pub proof fn lemma_compiler_entry_names_both_copies(d: DuplicateMatch)
    ensures
        exists|head: Seq<char>, tail: Seq<char>|
            compiler_entry(d) == #[trigger] (head + "  --> "@ + copy_mention(d.file1@, d.start_line1, d.end_line1)
                + "\n"@ + "   = note: duplicates "@ + copy_mention(d.file2@, d.start_line2, d.end_line2) + "\n"@
                + tail) && (head.len() == 0 || head.last() == '\n'),
{
    let head = spec_severity(d.clone_type) + "[polydup]: "@ + d.clone_type.spec_label()
        + " duplicate detected\n"@;
    let tail = "   = info: "@ + percent_text(d.similarity as int) + "% similar, "@ + decimal(d.length as nat)
        + " tokens\n\n"@;
    reveal_strlit(" duplicate detected\n");
    assert(head.last() == '\n');
    assert(compiler_entry(d) =~= head + "  --> "@ + copy_mention(d.file1@, d.start_line1, d.end_line1) + "\n"@
        + "   = note: duplicates "@ + copy_mention(d.file2@, d.start_line2, d.end_line2) + "\n"@ + tail);
}

/// The compiler-style output of a report holds, for every duplicate, a note
/// line naming its second copy.
pub proof fn lemma_compiler_report_notes(dups: Seq<DuplicateMatch>, i: int)
    requires
        0 <= i < dups.len(),
    ensures
        exists|head: Seq<char>, tail: Seq<char>|
            compiler_report(dups) == #[trigger] (head + "   = note: duplicates "@ + copy_mention(
                dups[i].file2@,
                dups[i].start_line2,
                dups[i].end_line2,
            ) + "\n"@ + tail),
{
    let d = dups[i];
    let note = note_line(d);
    lemma_entries_hold_note(dups, i);
    let (h, t) = choose|h: Seq<char>, t: Seq<char>| compiler_entries(dups) == #[trigger] (h + note_line(d) + t);
    let rest = "Total: "@ + decimal(dups.len()) + " duplicate(s) found\n"@;
    assert(compiler_report(dups) == compiler_entries(dups) + rest);
    assert(compiler_report(dups) =~= h + note + (t + rest));
    assert(h + note + (t + rest) =~= h + "   = note: duplicates "@ + copy_mention(d.file2@, d.start_line2, d.end_line2)
        + "\n"@ + (t + rest));
}

/// The note line of a duplicate's diagnostic.
spec fn note_line(d: DuplicateMatch) -> Seq<char> {
    "   = note: duplicates "@ + copy_mention(d.file2@, d.start_line2, d.end_line2) + "\n"@
}

/// What comes before the note line in a duplicate's diagnostic.
spec fn entry_head(d: DuplicateMatch) -> Seq<char> {
    spec_severity(d.clone_type) + "[polydup]: "@ + d.clone_type.spec_label() + " duplicate detected\n"@
        + "  --> "@ + copy_mention(d.file1@, d.start_line1, d.end_line1) + "\n"@
}

/// What comes after the note line in a duplicate's diagnostic.
spec fn entry_tail(d: DuplicateMatch) -> Seq<char> {
    "   = info: "@ + percent_text(d.similarity as int) + "% similar, "@ + decimal(d.length as nat)
        + " tokens\n\n"@
}

proof fn lemma_entry_parts(d: DuplicateMatch)
    ensures
        compiler_entry(d) == entry_head(d) + note_line(d) + entry_tail(d),
{
    assert(compiler_entry(d) =~= entry_head(d) + note_line(d) + entry_tail(d));
}

/// The diagnostics of the duplicates hold the note of each.
proof fn lemma_entries_hold_note(dups: Seq<DuplicateMatch>, i: int)
    requires
        0 <= i < dups.len(),
    ensures
        exists|head: Seq<char>, tail: Seq<char>|
            compiler_entries(dups) == #[trigger] (head + note_line(dups[i]) + tail),
    decreases dups.len(),
{
    let d = dups[i];
    let init = dups.drop_last();
    assert(compiler_entries(dups) == compiler_entries(init) + compiler_entry(dups.last()));
    if i == dups.len() - 1 {
        lemma_entry_parts(d);
        assert(compiler_entries(dups) =~= (compiler_entries(init) + entry_head(d)) + note_line(d) + entry_tail(d));
    } else {
        assert(init[i] == d);
        lemma_entries_hold_note(init, i);
        let (h, t) = choose|h: Seq<char>, t: Seq<char>| compiler_entries(init) == #[trigger] (h + note_line(d) + t);
        assert(compiler_entries(dups) =~= h + note_line(d) + (t + compiler_entry(dups.last())));
    }
}

fn push_compiler_entry(out: &mut String, d: &DuplicateMatch)
    ensures
        final(out)@ == old(out)@ + compiler_entry(*d),
{
    let mut e = owned(map_clone_to_severity(&d.clone_type));
    append_str(&mut e, "[polydup]: ");
    append_str(&mut e, d.clone_type.label());
    append_str(&mut e, " duplicate detected\n");
    append_str(&mut e, "  --> ");
    append_str(&mut e, d.file1.as_str());
    append_str(&mut e, ":");
    push_decimal(&mut e, d.start_line1 as u64);
    append_str(&mut e, "-");
    push_decimal(&mut e, match d.end_line1 { Some(e) => e as u64, None => d.start_line1 as u64 });
    append_str(&mut e, "\n");
    append_str(&mut e, "   = note: duplicates ");
    append_str(&mut e, d.file2.as_str());
    append_str(&mut e, ":");
    push_decimal(&mut e, d.start_line2 as u64);
    append_str(&mut e, "-");
    push_decimal(&mut e, match d.end_line2 { Some(e) => e as u64, None => d.start_line2 as u64 });
    append_str(&mut e, "\n");
    append_str(&mut e, "   = info: ");
    push_percent(&mut e, d.similarity);
    append_str(&mut e, "% similar, ");
    push_decimal(&mut e, d.length as u64);
    append_str(&mut e, " tokens\n\n");
    assert(e@ == compiler_entry(*d));
    append_str(out, e.as_str());
}

/// Format compiler-style output (like rustc/gcc warnings)
pub fn format_compiler_report(report: &Report) -> (r: String)
    ensures
        r@ == compiler_report(report.duplicates@),
{
    let mut output = String::new();
    let mut i: usize = 0;
    while i < report.duplicates.len()
        invariant
            i <= report.duplicates.len(),
            output@ == compiler_entries(report.duplicates@.take(i as int)),
        decreases report.duplicates.len() - i,
    {
        push_compiler_entry(&mut output, &report.duplicates[i]);
        assert(report.duplicates@.take(i + 1).drop_last() =~= report.duplicates@.take(i as int));
        i = i + 1;
    }
    assert(report.duplicates@.take(report.duplicates.len() as int) =~= report.duplicates@);
    if report.duplicates.len() == 0 {
        append_str(&mut output, "No duplicates found.\n");
        assert(output@ =~= "No duplicates found.\n"@);
    } else {
        let ghost entries = output@;
        append_str(&mut output, "Total: ");
        push_decimal(&mut output, report.duplicates.len() as u64);
        append_str(&mut output, " duplicate(s) found\n");
        assert(output@ =~= entries + "Total: "@ + decimal(report.duplicates@.len())
            + " duplicate(s) found\n"@);
    }
    output
}

// ---------------------------------------------------------------------------
// SARIF
// ---------------------------------------------------------------------------

/// One SARIF result: the rule, the level, the message, the location of the
/// first copy and the related location of the second.
pub struct SarifResult {
    pub rule_id: String,
    pub level: String,
    pub message: String,
    pub uri: String,
    pub start_line: usize,
    pub end_line: usize,
    pub related_uri: String,
    pub related_start_line: usize,
    pub related_end_line: usize,
}

/// The SARIF message of a duplicate.
pub open spec fn sarif_message(d: DuplicateMatch) -> Seq<char> {
    d.clone_type.spec_tag() + " duplicate with "@ + d.file2@ + " ("@ + percent_text(
        d.similarity as int,
    ) + "% similar, "@ + decimal(d.length as nat) + " tokens)"@
}

/// `r` is the SARIF result of duplicate `d`.
pub open spec fn is_sarif_result_of(r: SarifResult, d: DuplicateMatch) -> bool {
    &&& r.rule_id@ == "polydup/"@ + d.clone_type.spec_tag()
    &&& r.level@ == spec_severity(d.clone_type)
    &&& r.message@ == sarif_message(d)
    &&& r.uri@ == d.file1@
    &&& r.start_line == d.start_line1
    &&& r.end_line == end_or_start(d.start_line1, d.end_line1)
    &&& r.related_uri@ == d.file2@
    &&& r.related_start_line == d.start_line2
    &&& r.related_end_line == end_or_start(d.start_line2, d.end_line2)
}

/// The SARIF result of one duplicate.
pub fn sarif_result(d: &DuplicateMatch) -> (r: SarifResult)
    ensures
        is_sarif_result_of(r, *d),
{
    let (level, kind) = map_clone_to_sarif(d);
    let mut rule_id = owned("polydup/");
    append_str(&mut rule_id, kind);
    let mut message = owned(kind);
    append_str(&mut message, " duplicate with ");
    append_str(&mut message, d.file2.as_str());
    append_str(&mut message, " (");
    push_percent(&mut message, d.similarity);
    append_str(&mut message, "% similar, ");
    push_decimal(&mut message, d.length as u64);
    append_str(&mut message, " tokens)");
    assert(message@ =~= sarif_message(*d));
    SarifResult {
        rule_id,
        level: owned(level),
        message,
        uri: d.file1.clone(),
        start_line: d.start_line1,
        end_line: match d.end_line1 {
            Some(e) => e,
            None => d.start_line1,
        },
        related_uri: d.file2.clone(),
        related_start_line: d.start_line2,
        related_end_line: match d.end_line2 {
            Some(e) => e,
            None => d.start_line2,
        },
    }
}

/// The SARIF results of a report, one per duplicate, in order.
pub fn sarif_results(report: &Report) -> (r: Vec<SarifResult>)
    ensures
        r.len() == report.duplicates.len(),
        forall|i: int|
            0 <= i < r.len() ==> is_sarif_result_of(#[trigger] r@[i], report.duplicates@[i]),
{
    let mut results: Vec<SarifResult> = Vec::new();
    let mut i: usize = 0;
    while i < report.duplicates.len()
        invariant
            i <= report.duplicates.len(),
            results.len() == i,
            forall|j: int|
                0 <= j < i ==> is_sarif_result_of(#[trigger] results@[j], report.duplicates@[j]),
        decreases report.duplicates.len() - i,
    {
        results.push(sarif_result(&report.duplicates[i]));
        i = i + 1;
    }
    results
}

/// The SARIF schema the log follows.
pub const SARIF_SCHEMA: &'static str = "https://raw.githubusercontent.com/oasis-tcs/sarif-spec/master/Schemata/sarif-schema-2.1.0.json";

/// The SARIF version of the log.
pub const SARIF_VERSION: &'static str = "2.1.0";

/// The tool's name in the log.
pub const TOOL_NAME: &'static str = "polydup";

/// Where the tool is documented.
pub const TOOL_URI: &'static str = "https://github.com/wiesnerbernard/polydup";

/// A rule of the SARIF log: one per clone type.
pub struct SarifRule {
    pub id: String,
    pub name: String,
    pub short_description: String,
    pub full_description: String,
    pub level: String,
}

/// A SARIF log with one run of polydup: the schema, the version, the tool
/// (name, documentation, version and rules) and the results.
pub struct SarifLog {
    pub schema: String,
    pub version: String,
    pub tool_name: String,
    pub information_uri: String,
    pub tool_version: String,
    pub rules: Vec<SarifRule>,
    pub results: Vec<SarifResult>,
}

/// A rule as texts: id, name, short and full description, level.
pub open spec fn rule_view(r: SarifRule) -> (Seq<char>, Seq<char>, Seq<char>, Seq<char>, Seq<char>) {
    (r.id@, r.name@, r.short_description@, r.full_description@, r.level@)
}

/// The rules of the log, for exact, renamed and modified copies.
pub open spec fn spec_sarif_rules() -> Seq<(Seq<char>, Seq<char>, Seq<char>, Seq<char>, Seq<char>)> {
    seq![
        (
            "polydup/type-1"@,
            "ExactDuplicate"@,
            "Exact code duplicate"@,
            "Identical code blocks, differing only in whitespace and comments"@,
            "warning"@,
        ),
        (
            "polydup/type-2"@,
            "RenamedDuplicate"@,
            "Renamed code duplicate"@,
            "Structurally identical code with renamed identifiers or literals"@,
            "warning"@,
        ),
        (
            "polydup/type-3"@,
            "ModifiedDuplicate"@,
            "Modified code duplicate"@,
            "Similar code with small additions, deletions, or modifications"@,
            "note"@,
        ),
    ]
}

fn sarif_rule(id: &str, name: &str, short: &str, full: &str, level: &str) -> (r: SarifRule)
    ensures
        rule_view(r) == (id@, name@, short@, full@, level@),
{
    SarifRule {
        id: owned(id),
        name: owned(name),
        short_description: owned(short),
        full_description: owned(full),
        level: owned(level),
    }
}

/// The SARIF log of a report, for the tool's version: the fixed schema,
/// version, tool and rules, and one result per duplicate, in order.
pub fn format_sarif_report(report: &Report, tool_version: &str) -> (r: SarifLog)
    ensures
        r.schema@ == SARIF_SCHEMA@,
        r.version@ == SARIF_VERSION@,
        r.tool_name@ == TOOL_NAME@,
        r.information_uri@ == TOOL_URI@,
        r.tool_version@ == tool_version@,
        Seq::new(r.rules.len() as nat, |i: int| rule_view(r.rules@[i])) == spec_sarif_rules(),
        r.results.len() == report.duplicates.len(),
        forall|i: int|
            0 <= i < r.results.len() ==> is_sarif_result_of(#[trigger] r.results@[i], report.duplicates@[i]),
{
    let rules = vec![
        sarif_rule(
            "polydup/type-1",
            "ExactDuplicate",
            "Exact code duplicate",
            "Identical code blocks, differing only in whitespace and comments",
            "warning",
        ),
        sarif_rule(
            "polydup/type-2",
            "RenamedDuplicate",
            "Renamed code duplicate",
            "Structurally identical code with renamed identifiers or literals",
            "warning",
        ),
        sarif_rule(
            "polydup/type-3",
            "ModifiedDuplicate",
            "Modified code duplicate",
            "Similar code with small additions, deletions, or modifications",
            "note",
        ),
    ];
    assert(Seq::new(rules.len() as nat, |i: int| rule_view(rules@[i])) =~= spec_sarif_rules());
    SarifLog {
        schema: owned(SARIF_SCHEMA),
        version: owned(SARIF_VERSION),
        tool_name: owned(TOOL_NAME),
        information_uri: owned(TOOL_URI),
        tool_version: owned(tool_version),
        rules,
        results: sarif_results(report),
    }
}

// ---------------------------------------------------------------------------
// Pieces shared with the text report
// ---------------------------------------------------------------------------

/// All characters are ASCII, so that characters and bytes count alike.
pub open spec fn is_ascii_text(s: Seq<char>) -> bool {
    forall|i: int| 0 <= i < s.len() ==> (#[trigger] s[i]) as u32 <= 127
}

/// A duplicate ID shortened to `length` characters followed by `...`, or
/// whole when it is not longer than that.
pub open spec fn truncated_id(id: Seq<char>, length: nat) -> Seq<char> {
    if length >= id.len() {
        id
    } else {
        id.take(length as int) + "..."@
    }
}

/// Truncate a duplicate ID to the specified length
///
/// IDs are 64-character SHA256 hashes. This function truncates them
/// to a shorter form (default: 8 characters) for display purposes.
pub fn truncate_id(id: &str, length: usize) -> (r: String)
    requires
        is_ascii_text(id@),
    ensures
        r@ == truncated_id(id@, length as nat),
{
    let chars = crate::text::chars_of(id);
    if length >= chars.len() {
        owned(id)
    } else {
        let mut r = String::new();
        let mut i: usize = 0;
        while i < length
            invariant
                i <= length,
                length < chars.len(),
                chars@ == id@,
                r@ == id@.take(i as int),
            decreases length - i,
        {
            crate::text::push_char(&mut r, chars[i]);
            assert(id@.take(i + 1) =~= id@.take(i as int).push(id@[i as int]));
            i = i + 1;
        }
        append_str(&mut r, "...");
        r
    }
}

/// The refactoring advice for a duplicate: what to do, the effort and the
/// risk.
pub open spec fn refactoring_advice(d: DuplicateMatch) -> (Seq<char>, Seq<char>, Seq<char>) {
    match d.clone_type {
        CloneType::Type1 => ("Extract to shared function"@, "Low"@, "Low"@),
        CloneType::Type2 => if d.similarity >= 950_000 {
            ("Extract to generic function with type parameters"@, "Medium"@, "Low"@)
        } else {
            ("Consider Strategy pattern or parameterized function"@, "Medium"@, "Medium"@)
        },
        CloneType::Type3 => ("Extract common logic, parameterize differences"@, "High"@, "High"@),
    }
}

/// The refactoring suggestion lines of a duplicate; the savings estimate
/// counts seven tokens per line.
pub open spec fn refactoring_suggestion(d: DuplicateMatch) -> Seq<char> {
    let (suggestion, effort, risk) = refactoring_advice(d);
    "   Suggestion: "@ + suggestion + "\n"@ + "               Effort: "@ + effort + " | Risk: "@
        + risk + " | Est. savings: ~"@ + decimal(d.length as nat / 7) + " lines\n"@
}

/// Generate refactoring suggestion based on duplicate characteristics
pub fn append_refactoring_suggestion(output: &mut String, dup: &DuplicateMatch)
    ensures
        final(output)@ == old(output)@ + refactoring_suggestion(*dup),
{
    let (suggestion, effort, risk) = match dup.clone_type {
        CloneType::Type1 => ("Extract to shared function", "Low", "Low"),
        CloneType::Type2 => {
            if dup.similarity >= 950_000 {
                ("Extract to generic function with type parameters", "Medium", "Low")
            } else {
                ("Consider Strategy pattern or parameterized function", "Medium", "Medium")
            }
        },
        CloneType::Type3 => ("Extract common logic, parameterize differences", "High", "High"),
    };
    append_str(output, "   Suggestion: ");
    append_str(output, suggestion);
    append_str(output, "\n");
    append_str(output, "               Effort: ");
    append_str(output, effort);
    append_str(output, " | Risk: ");
    append_str(output, risk);
    append_str(output, " | Est. savings: ~");
    push_decimal(output, (dup.length / 7) as u64);
    append_str(output, " lines\n");
    assert(final(output)@ =~= old(output)@ + refactoring_suggestion(*dup));
}

} // verus!
