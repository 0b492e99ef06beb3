//! The `languages` command: which supported languages are listed, how many
//! have full support, and the text listing. The language table itself comes
//! from the detection engine; printing and JSON are the caller's task.

use vstd::prelude::*;
use crate::cli::OutputFormat;
use crate::scan::{join_strings, join_texts};
use crate::text::{append_str, decimal, owned, push_char, push_decimal};

verus! {

broadcast use vstd::string::group_string_axioms;

/// How far a language is supported.
#[derive(PartialEq, Eq, Structural, Clone, Copy, Debug)]
pub enum LanguageStatus {
    /// Complete Tree-sitter parsing support
    Full,
    /// Uses another language's parser
    Partial,
    /// Not yet implemented
    Planned,
}

impl LanguageStatus {
    /// The name of the status in JSON output.
    pub open spec fn spec_name(self) -> Seq<char> {
        match self {
            LanguageStatus::Full => "full"@,
            LanguageStatus::Partial => "partial"@,
            LanguageStatus::Planned => "planned"@,
        }
    }

    /// The name of the status in JSON output.
    pub fn name(&self) -> (r: &'static str)
        ensures
            r@ == self.spec_name(),
    {
        match self {
            LanguageStatus::Full => "full",
            LanguageStatus::Partial => "partial",
            LanguageStatus::Planned => "planned",
        }
    }
}

/// A supported language as the detection engine describes it.
pub struct Language {
    pub name: String,
    pub extensions: Vec<String>,
    pub parser: String,
    pub type3_support: bool,
    pub status: LanguageStatus,
}

/// Configuration for the languages command
pub struct LanguagesConfig {
    pub format: OutputFormat,
    pub full_only: bool,
}

/// Whether a language is listed.
pub open spec fn listed(l: Language, full_only: bool) -> bool {
    !full_only || l.status == LanguageStatus::Full
}

/// The languages listed, in their order.
pub open spec fn listed_languages(s: Seq<Language>, full_only: bool) -> Seq<Language>
    decreases s.len(),
{
    if s.len() == 0 {
        Seq::empty()
    } else {
        let rest = listed_languages(s.drop_last(), full_only);
        if listed(s.last(), full_only) {
            rest.push(s.last())
        } else {
            rest
        }
    }
}

/// The number of languages with full support in `s`.
pub open spec fn full_count(s: Seq<Language>) -> nat
    decreases s.len(),
{
    if s.len() == 0 {
        0
    } else {
        full_count(s.drop_last()) + if s.last().status == LanguageStatus::Full {
            1nat
        } else {
            0nat
        }
    }
}

proof fn lemma_full_count_le(s: Seq<Language>)
    ensures
        full_count(s) <= s.len(),
    decreases s.len(),
{
    if s.len() > 0 {
        lemma_full_count_le(s.drop_last());
    }
}

proof fn lemma_listed_len_le(s: Seq<Language>, full_only: bool)
    ensures
        listed_languages(s, full_only).len() <= s.len(),
    decreases s.len(),
{
    if s.len() > 0 {
        lemma_listed_len_le(s.drop_last(), full_only);
    }
}

/// The positions of the listed languages, in increasing order.
pub fn listed_positions(languages: &Vec<Language>, full_only: bool) -> (r: Vec<usize>)
    ensures
        r.len() == listed_languages(languages@, full_only).len(),
        forall|k: int|
            #![trigger r@[k]]
            0 <= k < r.len() ==> r@[k] < languages.len() && languages@[r@[k] as int]
                == listed_languages(languages@, full_only)[k],
        forall|k: int, m: int| 0 <= k < m < r.len() ==> r@[k] < r@[m],
{
    let mut r: Vec<usize> = Vec::new();
    let mut i: usize = 0;
    while i < languages.len()
        invariant
            i <= languages.len(),
            r.len() == listed_languages(languages@.take(i as int), full_only).len(),
            forall|k: int|
                #![trigger r@[k]]
                0 <= k < r.len() ==> r@[k] < i && languages@[r@[k] as int] == listed_languages(
                    languages@.take(i as int),
                    full_only,
                )[k],
            forall|k: int, m: int| 0 <= k < m < r.len() ==> r@[k] < r@[m],
        decreases languages.len() - i,
    {
        assert(languages@.take(i + 1).drop_last() =~= languages@.take(i as int));
        assert(languages@.take(i + 1).last() == languages@[i as int]);
        let ghost prev = listed_languages(languages@.take(i as int), full_only);
        let ghost next = listed_languages(languages@.take(i + 1), full_only);
        let ghost old_r = r@;
        if !full_only || languages[i].status == LanguageStatus::Full {
            r.push(i);
            assert(next == prev.push(languages@[i as int]));
            assert(r@ == old_r.push(i));
            assert forall|k: int| #![trigger r@[k]] 0 <= k < r.len() implies r@[k] < i + 1 && languages@[r@[k] as int]
                == next[k] by {
                if k < r.len() - 1 {
                    assert(next[k] == prev[k]);
                    assert(r@[k] == old_r[k]);
                }
            }
            assert forall|k: int, m: int| 0 <= k < m < r.len() implies r@[k] < r@[m] by {
                if m < r.len() - 1 {
                    assert(r@[k] == old_r[k]);
                    assert(r@[m] == old_r[m]);
                } else {
                    assert(r@[k] == old_r[k]);
                    assert(languages@[old_r[k] as int] == prev[k]);
                }
            }
        } else {
            assert(next == prev);
            assert forall|k: int| #![trigger r@[k]] 0 <= k < r.len() implies r@[k] < i + 1 && languages@[r@[k] as int]
                == next[k] by {
                assert(languages@[old_r[k] as int] == prev[k]);
            }
        }
        i = i + 1;
    }
    assert(languages@.take(languages.len() as int) =~= languages@);
    assert forall|k: int| #![trigger r@[k]] 0 <= k < r.len() implies r@[k] < languages.len() && languages@[r@[k] as int]
        == listed_languages(languages@, full_only)[k] by {
        assert(languages@[r@[k] as int] == listed_languages(languages@.take(languages.len() as int), full_only)[k]);
    }
    r
}

/// The number of listed languages with full support.
pub fn full_support_count(languages: &Vec<Language>, full_only: bool) -> (r: usize)
    ensures
        r == full_count(listed_languages(languages@, full_only)),
{
    let mut n: usize = 0;
    let mut i: usize = 0;
    while i < languages.len()
        invariant
            i <= languages.len(),
            n == full_count(listed_languages(languages@.take(i as int), full_only)),
            n <= i,
        decreases languages.len() - i,
    {
        assert(languages@.take(i + 1).drop_last() =~= languages@.take(i as int));
        assert(languages@.take(i + 1).last() == languages@[i as int]);
        let ghost prev = listed_languages(languages@.take(i as int), full_only);
        if languages[i].status == LanguageStatus::Full {
            n = n + 1;
        }
        proof {
            if listed(languages@[i as int], full_only) {
                assert(prev.push(languages@[i as int]).drop_last() =~= prev);
            }
            lemma_full_count_le(listed_languages(languages@.take(i as int), full_only));
            lemma_listed_len_le(languages@.take(i as int), full_only);
        }
        i = i + 1;
    }
    assert(languages@.take(languages.len() as int) =~= languages@);
    n
}

/// Whether the format lists languages as JSON (SARIF falls back to JSON);
/// the others fall back to text.
pub fn lists_as_json(format: OutputFormat) -> (r: bool)
    ensures
        r == (format is Json || format is Sarif),
{
    match format {
        OutputFormat::Json => true,
        OutputFormat::Sarif => true,
        _ => false,
    }
}

/// `s` padded with spaces on the right to at least `width` characters.
pub open spec fn pad_right(s: Seq<char>, width: nat) -> Seq<char> {
    if s.len() < width {
        s + Seq::new((width - s.len()) as nat, |i: int| ' ')
    } else {
        s
    }
}

/// The extensions, each after a dot, joined by commas.
pub open spec fn extension_list(exts: Seq<Seq<char>>) -> Seq<char> {
    join_texts(exts.map_values(|e: Seq<char>| seq!['.'] + e), ", "@)
}

/// The status icon of the text listing.
pub open spec fn status_icon(s: LanguageStatus) -> Seq<char> {
    match s {
        LanguageStatus::Full => "✓"@,
        LanguageStatus::Partial => "◐"@,
        LanguageStatus::Planned => "○"@,
    }
}

/// The status note after the extensions.
pub open spec fn status_note(s: LanguageStatus) -> Seq<char> {
    match s {
        LanguageStatus::Full => Seq::empty(),
        LanguageStatus::Partial => " (partial)"@,
        LanguageStatus::Planned => " (planned)"@,
    }
}

/// The line of one language.
pub open spec fn language_line(l: Language) -> Seq<char> {
    "  "@ + status_icon(l.status) + " "@ + pad_right(l.name@, 20) + " "@ + extension_list(
        l.extensions.deep_view(),
    ) + status_note(l.status) + "\n"@
}

/// The lines of the first `n` languages of `s`.
pub open spec fn language_lines(s: Seq<Language>, n: int) -> Seq<char>
    decreases n,
{
    if n <= 0 {
        Seq::empty()
    } else {
        language_lines(s, n - 1) + language_line(s[n - 1])
    }
}

/// The legend closing the text listing.
pub const LEGEND: &'static str = "Legend:
  ✓ Full      - Complete Tree-sitter parsing support
  ◐ Partial   - Uses another language's parser (e.g., Vue uses JavaScript)
  ○ Planned   - Not yet implemented
";

/// The text listing of the languages.
pub open spec fn languages_listing(s: Seq<Language>, full_only: bool) -> Seq<char> {
    let shown = listed_languages(s, full_only);
    "Supported Languages:\n\n"@ + language_lines(shown, shown.len() as int) + "\nTotal: "@
        + decimal(shown.len()) + " languages ("@ + decimal(full_count(shown))
        + " with full support)\n\n"@ + LEGEND@
}

fn push_padded(s: &mut String, t: &str, width: usize)
    ensures
        final(s)@ == old(s)@ + pad_right(t@, width as nat),
{
    append_str(s, t);
    let n = t.unicode_len();
    if n < width {
        let ghost base = s@;
        let mut k: usize = n;
        while k < width
            invariant
                n <= k <= width,
                s@ == base + Seq::new((k - n) as nat, |i: int| ' '),
            decreases width - k,
        {
            push_char(s, ' ');
            assert(s@ =~= base + Seq::new((k + 1 - n) as nat, |i: int| ' '));
            k = k + 1;
        }
    }
}

fn language_line_text(l: &Language) -> (r: String)
    ensures
        r@ == language_line(*l),
{
    let mut s = owned("  ");
    match l.status {
        LanguageStatus::Full => append_str(&mut s, "✓"),
        LanguageStatus::Partial => append_str(&mut s, "◐"),
        LanguageStatus::Planned => append_str(&mut s, "○"),
    }
    append_str(&mut s, " ");
    push_padded(&mut s, l.name.as_str(), 20);
    append_str(&mut s, " ");
    let mut dotted: Vec<String> = Vec::new();
    let mut i: usize = 0;
    while i < l.extensions.len()
        invariant
            i <= l.extensions.len(),
            dotted.deep_view() == l.extensions.deep_view().take(i as int).map_values(
                |e: Seq<char>| seq!['.'] + e,
            ),
        decreases l.extensions.len() - i,
    {
        let mut d = String::new();
        push_char(&mut d, '.');
        append_str(&mut d, l.extensions[i].as_str());
        let ghost before = dotted.deep_view();
        assert(l.extensions.deep_view()[i as int] == l.extensions@[i as int]@);
        assert(d@ == seq!['.'] + l.extensions.deep_view()[i as int]);
        dotted.push(d);
        assert(dotted.deep_view() =~= before.push(d@));
        assert(l.extensions.deep_view().take(i + 1) =~= l.extensions.deep_view().take(i as int).push(
            l.extensions.deep_view()[i as int],
        ));
        assert(dotted.deep_view() =~= l.extensions.deep_view().take(i + 1).map_values(
            |e: Seq<char>| seq!['.'] + e,
        ));
        i = i + 1;
    }
    assert(l.extensions.deep_view().take(l.extensions.len() as int) =~= l.extensions.deep_view());
    let joined = join_strings(&dotted, ", ");
    append_str(&mut s, joined.as_str());
    match l.status {
        LanguageStatus::Full => {},
        LanguageStatus::Partial => append_str(&mut s, " (partial)"),
        LanguageStatus::Planned => append_str(&mut s, " (planned)"),
    }
    append_str(&mut s, "\n");
    s
}

/// The text listing of the languages, all of them or only those with full
/// support.
pub fn languages_text(languages: &Vec<Language>, full_only: bool) -> (r: String)
    ensures
        r@ == languages_listing(languages@, full_only),
{
    let mut s = owned("Supported Languages:\n\n");
    let ghost head = s@;
    let mut shown: usize = 0;
    let mut i: usize = 0;
    while i < languages.len()
        invariant
            i <= languages.len(),
            shown == listed_languages(languages@.take(i as int), full_only).len(),
            shown <= i,
            s@ == head + language_lines(
                listed_languages(languages@.take(i as int), full_only),
                shown as int,
            ),
        decreases languages.len() - i,
    {
        assert(languages@.take(i + 1).drop_last() =~= languages@.take(i as int));
        assert(languages@.take(i + 1).last() == languages@[i as int]);
        let ghost prev = listed_languages(languages@.take(i as int), full_only);
        if !full_only || languages[i].status == LanguageStatus::Full {
            let line = language_line_text(&languages[i]);
            append_str(&mut s, line.as_str());
            proof {
                let next = listed_languages(languages@.take(i + 1), full_only);
                assert(next == prev.push(languages@[i as int]));
                assert forall|n: int| 0 <= n <= prev.len() implies language_lines(next, n)
                    == language_lines(prev, n) by {
                    lemma_language_lines_prefix(prev, next, n);
                }
            }
            shown = shown + 1;
        }
        i = i + 1;
    }
    assert(languages@.take(languages.len() as int) =~= languages@);
    let full = full_support_count(languages, full_only);
    append_str(&mut s, "\nTotal: ");
    push_decimal(&mut s, shown as u64);
    append_str(&mut s, " languages (");
    push_decimal(&mut s, full as u64);
    append_str(&mut s, " with full support)\n\n");
    append_str(&mut s, LEGEND);
    s
}

proof fn lemma_language_lines_prefix(a: Seq<Language>, b: Seq<Language>, n: int)
    requires
        0 <= n <= a.len(),
        a.len() <= b.len(),
        forall|k: int| 0 <= k < a.len() ==> a[k] == b[k],
    ensures
        language_lines(b, n) == language_lines(a, n),
    decreases n,
{
    if n > 0 {
        lemma_language_lines_prefix(a, b, n - 1);
    }
}

/// With `--full-only`, every listed language has full support: the total
/// and the full-support count agree.
pub proof fn lemma_full_only_counts_agree(s: Seq<Language>)
    ensures
        full_count(listed_languages(s, true)) == listed_languages(s, true).len(),
    decreases s.len(),
{
    if s.len() > 0 {
        lemma_full_only_counts_agree(s.drop_last());
        let rest = listed_languages(s.drop_last(), true);
        if listed(s.last(), true) {
            assert(rest.push(s.last()).drop_last() =~= rest);
        }
    }
}

} // verus!
