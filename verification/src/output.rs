//! What a scan hands out: the rendering chosen by the output format, where
//! the result goes, and the messages for failures to write it or to save
//! and load a baseline. Writing files and serialising JSON are the caller's
//! task.

use vstd::prelude::*;
use crate::cli::OutputFormat;
use crate::dashboard::{
    boxed_rows, breakdown_rows, counts_fit, dashboard_rows, names_fit, offender_rows, top_offenders,
};
use crate::filters::{
    apply_clone_type_filters, apply_grouping, filter_changed, filter_duplicates_by_changed_files,
    filter_types, group_keys, is_group_criterion, lemma_filter_changed_members,
    lemma_filter_types_members, touches_changed, type_kept,
};
use crate::order::{is_permutation, is_stable_sort_of, reorder, stably_sorted};
use crate::report::{DuplicateMatch, Report};
use crate::reporting::{
    compiler_report, format_compiler_report, format_sarif_report, format_vscode_report,
    is_sarif_result_of, rule_view, spec_sarif_rules, vscode_report, SarifLog, SARIF_SCHEMA,
    SARIF_VERSION, TOOL_NAME, TOOL_URI,
};
use crate::scan::ScanConfig;
use crate::text::{append_str, owned};
use crate::text_report::{
    code_previews, format_text_report, ids_ascii, previews_fit, savings_fit, source_views, text_report,
};

verus! {

broadcast use vstd::string::group_string_axioms;

/// A rendered report.
pub enum Rendered {
    /// The report is to be serialised as JSON as it stands
    Json,
    /// The SARIF log, to be serialised
    Sarif(SarifLog),
    /// Finished text
    Text(String),
}

/// The grouping criterion of a scan, as text.
pub open spec fn group_view(g: Option<String>) -> Option<Seq<char>> {
    match g {
        Some(c) => Some(c@),
        None => None,
    }
}

/// What the text renderer needs of a report and of the sources it previews.
pub open spec fn text_ready(report: Report, c: ScanConfig, sources: Seq<Option<Vec<String>>>) -> bool {
    &&& counts_fit(report)
    &&& savings_fit(report.duplicates@)
    &&& c.show_ids ==> ids_ascii(report.duplicates@)
    &&& c.show_code ==> sources.len() == report.duplicates.len()
    &&& c.show_code ==> forall|i: int|
        0 <= i < report.duplicates.len() && (#[trigger] report.duplicates@[i]).end_line1 is None
            ==> report.duplicates@[i].start_line1 + c.preview_lines <= usize::MAX
    &&& c.show_code ==> previews_fit(report.duplicates@, source_views(sources), c.preview_lines as nat)
    &&& names_fit(top_offenders(report.duplicates@))
}

/// The text report for a scan's options, with the source lines of each
/// duplicate's first file.
pub open spec fn text_output(report: Report, c: ScanConfig, sources: Seq<Option<Vec<String>>>) -> Seq<char> {
    text_report(
        report,
        c.verbose,
        group_view(c.group_by),
        c.show_code,
        c.suggest_refactoring,
        c.show_ids,
        c.enable_type3,
        (if c.full_ids {
            64
        } else {
            c.id_length
        }) as nat,
        boxed_rows(dashboard_rows(report)),
        boxed_rows(breakdown_rows(report.duplicates@)),
        boxed_rows(offender_rows(top_offenders(report.duplicates@))),
        code_previews(report.duplicates@, source_views(sources), c.show_code, c.preview_lines as nat),
    )
}

/// Render a report in the scan's output format. `sources` holds, when code
/// previews are shown, the lines of each duplicate's first file (`None` where
/// it could not be read); `tool_version` goes into SARIF logs.
pub fn generate_output(
    report: &Report,
    config: &ScanConfig,
    sources: &Vec<Option<Vec<String>>>,
    tool_version: &str,
) -> (r: Rendered)
    requires
        config.format is Text ==> text_ready(*report, *config, sources@),
    ensures
        match config.format {
            OutputFormat::Json => r is Json,
            OutputFormat::Text => r matches Rendered::Text(t) && t@ == text_output(
                *report,
                *config,
                sources@,
            ),
            OutputFormat::Sarif => r matches Rendered::Sarif(log) && log.schema@ == SARIF_SCHEMA@
                && log.version@ == SARIF_VERSION@ && log.tool_name@ == TOOL_NAME@
                && log.information_uri@ == TOOL_URI@ && log.tool_version@ == tool_version@
                && Seq::new(log.rules.len() as nat, |i: int| rule_view(log.rules@[i]))
                == spec_sarif_rules() && log.results.len() == report.duplicates.len()
                && forall|i: int|
                0 <= i < log.results.len() ==> is_sarif_result_of(
                    #[trigger] log.results@[i],
                    report.duplicates@[i],
                ),
            OutputFormat::Vscode => r matches Rendered::Text(t) && t@ == vscode_report(
                report.duplicates@,
            ),
            OutputFormat::Compiler => r matches Rendered::Text(t) && t@ == compiler_report(
                report.duplicates@,
            ),
        },
{
    match config.format {
        OutputFormat::Json => Rendered::Json,
        OutputFormat::Text => {
            let group_by = match &config.group_by {
                Some(g) => Some(g.as_str()),
                None => None,
            };
            let t = format_text_report(
                report,
                config.verbose,
                group_by,
                config.show_code,
                config.preview_lines,
                config.suggest_refactoring,
                config.show_ids,
                config.enable_type3,
                config.effective_id_length(),
                sources,
            );
            Rendered::Text(t)
        },
        OutputFormat::Sarif => Rendered::Sarif(format_sarif_report(report, tool_version)),
        OutputFormat::Vscode => Rendered::Text(format_vscode_report(report)),
        OutputFormat::Compiler => Rendered::Text(format_compiler_report(report)),
    }
}

/// Where the rendered output goes.
#[derive(Clone, Debug)]
pub enum Destination {
    /// Written to the file at this path
    File(String),
    /// Printed on standard output
    Stdout,
    /// Dropped (quiet mode without an output file)
    Nowhere,
}

/// Where the output goes: the output file when one was given, else
/// standard output unless quiet.
pub fn output_destination(output: &Option<String>, quiet: bool) -> (r: Destination)
    ensures
        match *output {
            Some(p) => r matches Destination::File(q) && q@ == p@,
            None => if quiet {
                r is Nowhere
            } else {
                r is Stdout
            },
        },
{
    match output {
        Some(p) => Destination::File(p.clone()),
        None => if quiet {
            Destination::Nowhere
        } else {
            Destination::Stdout
        },
    }
}

/// The notice printed once the output file was written: only when verbose
/// and not quiet.
pub fn written_notice(path: &str, verbose: bool, quiet: bool) -> (r: Option<String>)
    ensures
        match r {
            Some(t) => verbose && !quiet && t@ == "Output written to: "@ + path@,
            None => !(verbose && !quiet),
        },
{
    if verbose && !quiet {
        let mut s = owned("Output written to: ");
        append_str(&mut s, path);
        Some(s)
    } else {
        None
    }
}

/// The kinds of failure to write the output file that get their own advice.
#[derive(PartialEq, Eq, Structural, Clone, Copy, Debug)]
pub enum WriteFailure {
    PermissionDenied,
    NotFound,
    AlreadyExists,
    Other,
}

/// The advice for a failure to write the output file; `parent` is the
/// displayed parent directory of the path (empty when it has none).
pub open spec fn write_advice(kind: WriteFailure, parent: Seq<char>) -> Seq<char> {
    match kind {
        WriteFailure::PermissionDenied => "Suggestion: Check write permissions for the target directory\n           Ensure you have permission to create/modify files in this location.\n"@,
        WriteFailure::NotFound => "Suggestion: The parent directory may not exist\n           Try creating the directory first: mkdir -p "@
            + parent + "\n"@,
        WriteFailure::AlreadyExists => "Suggestion: A directory exists with this name\n           Choose a different filename or specify a file within the directory.\n"@,
        WriteFailure::Other => "Suggestion: Verify the path is valid and accessible\n           Try using an absolute path or checking disk space.\n"@,
    }
}

/// The error for a failure to write the output file at `path`, with the
/// error's text, its kind and the path's parent directory.
pub fn write_error_message(path: &str, error: &str, kind: WriteFailure, parent: &str) -> (r: String)
    ensures
        r@ == "Failed to write output to "@ + path@ + ": "@ + error@ + "\n\n"@ + write_advice(
            kind,
            parent@,
        ),
{
    let mut s = owned("Failed to write output to ");
    append_str(&mut s, path);
    append_str(&mut s, ": ");
    append_str(&mut s, error);
    append_str(&mut s, "\n\n");
    let advice = match kind {
        WriteFailure::PermissionDenied => owned(
            "Suggestion: Check write permissions for the target directory\n           Ensure you have permission to create/modify files in this location.\n",
        ),
        WriteFailure::NotFound => {
            let mut a = owned(
                "Suggestion: The parent directory may not exist\n           Try creating the directory first: mkdir -p ",
            );
            append_str(&mut a, parent);
            append_str(&mut a, "\n");
            a
        },
        WriteFailure::AlreadyExists => owned(
            "Suggestion: A directory exists with this name\n           Choose a different filename or specify a file within the directory.\n",
        ),
        WriteFailure::Other => owned(
            "Suggestion: Verify the path is valid and accessible\n           Try using an absolute path or checking disk space.\n",
        ),
    };
    append_str(&mut s, advice.as_str());
    s
}

/// The debug details of a baseline failure, shown with `--debug`.
pub open spec fn baseline_debug(path: Seq<char>, error_debug: Seq<char>, debug: bool) -> Seq<char> {
    if debug {
        "\nDebug Info:\n  Baseline path: "@ + path + "\n  Full error: "@ + error_debug
    } else {
        Seq::empty()
    }
}

fn baseline_debug_text(path: &str, error_debug: &str, debug: bool) -> (r: String)
    ensures
        r@ == baseline_debug(path@, error_debug@, debug),
{
    if debug {
        let mut s = owned("\nDebug Info:\n  Baseline path: ");
        append_str(&mut s, path);
        append_str(&mut s, "\n  Full error: ");
        append_str(&mut s, error_debug);
        s
    } else {
        String::new()
    }
}

/// The error for a failure to save the baseline at `path`, with the error's
/// text and debug form.
pub fn baseline_save_error(path: &str, error: &str, error_debug: &str, debug: bool) -> (r: String)
    ensures
        r@ == "Failed to save baseline to "@ + path@ + ": "@ + error@
            + "\n\nSuggestion: Check write permissions and ensure parent directory exists\n"@
            + baseline_debug(path@, error_debug@, debug),
{
    let mut s = owned("Failed to save baseline to ");
    append_str(&mut s, path);
    append_str(&mut s, ": ");
    append_str(&mut s, error);
    append_str(&mut s, "\n\nSuggestion: Check write permissions and ensure parent directory exists\n");
    let d = baseline_debug_text(path, error_debug, debug);
    append_str(&mut s, d.as_str());
    s
}

/// The error for a failure to load the baseline at `path`, with the error's
/// text and debug form.
pub fn baseline_load_error(path: &str, error: &str, error_debug: &str, debug: bool) -> (r: String)
    ensures
        r@ == "Failed to load baseline from "@ + path@ + ": "@ + error@
            + "\n\nSuggestion: Ensure the baseline file exists and is valid JSON\n           Create a baseline first: polydup scan ./src --save-baseline "@
            + path@ + "\n"@ + baseline_debug(path@, error_debug@, debug),
{
    let mut s = owned("Failed to load baseline from ");
    append_str(&mut s, path);
    append_str(&mut s, ": ");
    append_str(&mut s, error);
    append_str(
        &mut s,
        "\n\nSuggestion: Ensure the baseline file exists and is valid JSON\n           Create a baseline first: polydup scan ./src --save-baseline ",
    );
    append_str(&mut s, path);
    append_str(&mut s, "\n");
    let d = baseline_debug_text(path, error_debug, debug);
    append_str(&mut s, d.as_str());
    s
}

/// `result` is `dups` ordered by the grouping criterion, when there is a
/// known one, and `dups` unchanged otherwise.
pub open spec fn grouped(result: Seq<DuplicateMatch>, dups: Seq<DuplicateMatch>, group_by: Option<Seq<char>>) -> bool {
    match group_by {
        Some(c) => if is_group_criterion(c) {
            is_stable_sort_of(result, dups, group_keys(dups, c))
        } else {
            result == dups
        },
        None => result == dups,
    }
}

/// The duplicates a scan keeps before grouping: in git-diff mode only those
/// touching a changed file, then only those of the selected clone types.
pub open spec fn kept_duplicates(
    dups: Seq<DuplicateMatch>,
    changed: Option<Seq<Seq<char>>>,
    repo_root: Seq<char>,
    c: ScanConfig,
) -> Seq<DuplicateMatch> {
    let scoped = match changed {
        Some(files) => filter_changed(dups, files, repo_root),
        None => dups,
    };
    filter_types(scoped, c.only_type.deep_view(), c.exclude_type.deep_view())
}

/// Narrow and order the duplicates of a finished scan: in git-diff mode
/// (`changed` holds the changed files, relative to `repo_root`) keep only
/// those touching a changed file, then apply the clone type filters, then
/// the grouping. The other parts of the report are left as they are.
pub fn refine_report(report: &mut Report, config: &ScanConfig, changed: Option<&Vec<String>>, repo_root: &str)
    requires
        old(report).wf(),
    ensures
        grouped(
            final(report).duplicates@,
            kept_duplicates(
                old(report).duplicates@,
                match changed {
                    Some(v) => Some(v.deep_view()),
                    None => None,
                },
                repo_root@,
                *config,
            ),
            group_view(config.group_by),
        ),
        final(report).files_scanned == old(report).files_scanned,
        final(report).functions_analyzed == old(report).functions_analyzed,
        final(report).skipped_files == old(report).skipped_files,
        final(report).stats == old(report).stats,
{
    let ghost original = report.duplicates@;
    if let Some(files) = changed {
        filter_duplicates_by_changed_files(report, files, repo_root);
        proof {
            lemma_filter_changed_members(original, files.deep_view(), repo_root@);
            assert forall|i: int| 0 <= i < report.duplicates@.len() implies (#[trigger] report.duplicates@[i]).wf() by {
                let j = choose|j: int| 0 <= j < original.len() && original[j] == report.duplicates@[i];
                assert(original[j].wf());
            }
        }
    }
    let ghost scoped = report.duplicates@;
    apply_clone_type_filters(report, &config.only_type, &config.exclude_type);
    proof {
        lemma_filter_types_members(scoped, config.only_type.deep_view(), config.exclude_type.deep_view());
        assert forall|i: int| 0 <= i < report.duplicates@.len() implies (#[trigger] report.duplicates@[i]).wf() by {
            let j = choose|j: int| 0 <= j < scoped.len() && scoped[j] == report.duplicates@[i];
            assert(scoped[j].wf());
        }
    }
    let group_by = match &config.group_by {
        Some(g) => Some(g.as_str()),
        None => None,
    };
    apply_grouping(report, group_by);
}

/// In git-diff mode, every duplicate that refinement leaves involves a
/// changed file and is of a selected clone type, whatever the grouping.
pub proof fn lemma_refined_in_scope(
    result: Seq<DuplicateMatch>,
    dups: Seq<DuplicateMatch>,
    changed: Seq<Seq<char>>,
    repo_root: Seq<char>,
    c: ScanConfig,
    group_by: Option<Seq<char>>,
)
    requires
        grouped(result, kept_duplicates(dups, Some(changed), repo_root, c), group_by),
    ensures
        forall|i: int|
            0 <= i < result.len() ==> touches_changed(#[trigger] result[i], changed, repo_root)
                && type_kept(result[i].clone_type, c.only_type.deep_view(), c.exclude_type.deep_view()),
{
    let scoped = filter_changed(dups, changed, repo_root);
    let only = c.only_type.deep_view();
    let exclude = c.exclude_type.deep_view();
    let kept = filter_types(scoped, only, exclude);
    lemma_filter_changed_members(dups, changed, repo_root);
    lemma_filter_types_members(scoped, only, exclude);
    assert forall|i: int| 0 <= i < result.len() implies touches_changed(#[trigger] result[i], changed, repo_root)
        && type_kept(result[i].clone_type, only, exclude) by {
        let j: int = if group_by is Some && is_group_criterion(group_by->0) {
            let perm = choose|perm: Seq<int>|
                #[trigger] is_permutation(perm, kept.len() as int) && stably_sorted(
                    group_keys(kept, group_by->0),
                    perm,
                ) && result == reorder(kept, perm);
            assert(0 <= perm[i] < kept.len());
            perm[i]
        } else {
            i
        };
        assert(result[i] == kept[j]);
        assert(type_kept(kept[j].clone_type, only, exclude));
        assert(scoped.contains(kept[j]));
        let k = choose|k: int| 0 <= k < scoped.len() && scoped[k] == kept[j];
        assert(touches_changed(scoped[k], changed, repo_root));
    }
}

} // verus!
