//! From findings to a report: findings are resolved, expressed in
//! paragraph-relative offsets, filtered, and put in reading order.

use vstd::prelude::*;
use crate::dictionary::Dictionary;
use crate::document::{tokens_of, Document};
use crate::lines::{
    containing, containing_is_listed, find_containing, paragraph_keys_rise, paragraph_views,
    paragraphs_in, split_lines, Paragraph, ParagraphView,
};
use crate::lint::{lint_views, suggestion_text, Lint, LintKind, LintView, SuggestionView};
use crate::linting::Linter;
use crate::reading_order::{
    entries_disjoint, entries_overlap, in_reading_order, reading_order_is_ordered,
    reading_order_keeps_disjoint, reading_ordered, sort_in_reading_order,
};
use crate::resolve::{pairwise_disjoint, resolve_conflicts, resolved, resolved_is_disjoint};
use crate::text::{
    chars_eq, chars_of, decimal, decimal_is_injective, decimal_of, string_of, texts,
};

verus! {

/// The replacements proposed for one finding, as lines of text.
#[derive(Debug, Clone, PartialEq, Eq)]
pub struct Suggestions {
    pub recommendation: Vec<String>,
}

/// One finding of a report, in offsets relative to its paragraph.
#[derive(Debug, Clone, PartialEq, Eq)]
pub struct FormattedLintOutput {
    pub start: usize,
    pub length: usize,
    pub end: usize,
    pub paragraph_key: String,
    pub paragraph: String,
    pub string: String,
    pub kind: String,
    pub suggestions: Suggestions,
}

/// What a report entry is: its offsets and texts.
pub struct FormattedLintOutputView {
    pub start: usize,
    pub length: usize,
    pub end: usize,
    pub paragraph_key: Seq<char>,
    pub paragraph: Seq<char>,
    pub string: Seq<char>,
    pub kind: Seq<char>,
    pub suggestions: Seq<Seq<char>>,
}

impl View for FormattedLintOutput {
    type V = FormattedLintOutputView;

    open spec fn view(&self) -> FormattedLintOutputView {
        FormattedLintOutputView {
            start: self.start,
            length: self.length,
            end: self.end,
            paragraph_key: self.paragraph_key@,
            paragraph: self.paragraph@,
            string: self.string@,
            kind: self.kind@,
            suggestions: texts(self.suggestions.recommendation@),
        }
    }
}

/// The views of a list of report entries.
pub open spec fn output_views(outputs: Seq<FormattedLintOutput>) -> Seq<FormattedLintOutputView> {
    outputs.map_values(|o: FormattedLintOutput| o@)
}

/// The view of a report entry that may be absent.
pub open spec fn optional_output_view(entry: Option<FormattedLintOutput>) -> Option<
    FormattedLintOutputView,
> {
    match entry {
        Some(found) => Some(found@),
        None => None,
    }
}

/// A request for a report: the text, and the flagged texts to leave out.
#[derive(Debug, Clone, PartialEq, Eq)]
pub struct LintRequest {
    pub text: String,
    pub ignore: Vec<String>,
}

/// The lower-case form of a text, as `str::to_lowercase` of the standard
/// library gives it.
pub uninterp spec fn lowercase_of(text: Seq<char>) -> Seq<char>;

/// Lower-cases a text by calling `str::to_lowercase`.  The result is
/// known only by its name, [`lowercase_of`].
#[verifier::external_body]
fn to_lowercase(text: &str) -> (out: String)
    ensures
        out@ == lowercase_of(text@),
{
    text.to_lowercase()
}

/// The lower-case forms of a list of terms.
pub open spec fn lowercased(terms: Seq<Seq<char>>) -> Seq<Seq<char>> {
    terms.map_values(|t: Seq<char>| lowercase_of(t))
}

/// Whether `text` equals one of the terms to ignore, letter case aside.
pub open spec fn ignored(ignore: Seq<Seq<char>>, text: Seq<char>) -> bool {
    lowercased(ignore).contains(lowercase_of(text))
}

/// The texts of a list of suggestions, as lines of a report.
pub open spec fn suggestion_texts(suggestions: Seq<SuggestionView>) -> Seq<Seq<char>> {
    suggestions.map_values(|s: SuggestionView| suggestion_text(s))
}

/// Whether a finding is left out of every report: its text is to be
/// ignored, or it is the lone "s" flagged as misspelt.
pub open spec fn suppressed(lint: LintView, text: Seq<char>, ignore: Seq<Seq<char>>) -> bool {
    ignored(ignore, text) || (lint.lint_kind == LintKind::Spelling && text == seq!['s'])
}

/// The report entry for a finding, given whether its text is to be
/// ignored; none where the finding lies outside the source, is to be
/// ignored, is the lone "s" flagged as misspelt, or lies in no single
/// paragraph.
pub open spec fn entry_for(
    lint: LintView,
    source: Seq<char>,
    paragraphs: Seq<ParagraphView>,
    is_ignored: bool,
) -> Option<FormattedLintOutputView> {
    if !lint.span.within(source.len()) {
        None
    } else if is_ignored || (lint.lint_kind == LintKind::Spelling && lint.span.content(source)
        == seq!['s']) {
        None
    } else {
        match containing(paragraphs, lint.span, 0) {
            Some(paragraph) => Some(
                FormattedLintOutputView {
                    start: (lint.span.start - paragraph.start_offset) as usize,
                    length: (lint.span.end - lint.span.start) as usize,
                    end: (lint.span.end - paragraph.start_offset) as usize,
                    paragraph_key: decimal(paragraph.key),
                    paragraph: paragraph.text,
                    string: lint.span.content(source),
                    kind: lint.lint_kind.name(),
                    suggestions: suggestion_texts(lint.suggestions),
                },
            ),
            None => None,
        }
    }
}

/// The report entry for a finding; none where the finding lies outside
/// the source, is suppressed, or lies in no single paragraph.
pub open spec fn formatted(
    lint: LintView,
    source: Seq<char>,
    paragraphs: Seq<ParagraphView>,
    ignore: Seq<Seq<char>>,
) -> Option<FormattedLintOutputView> {
    entry_for(lint, source, paragraphs, ignored(ignore, lint.span.content(source)))
}

/// The report entries of the findings that have one, in the order of the
/// findings.
pub open spec fn formatted_all(
    lints: Seq<LintView>,
    source: Seq<char>,
    paragraphs: Seq<ParagraphView>,
    ignore: Seq<Seq<char>>,
) -> Seq<FormattedLintOutputView>
    decreases lints.len(),
{
    if lints.len() == 0 {
        Seq::empty()
    } else {
        let before = formatted_all(lints.drop_last(), source, paragraphs, ignore);
        match formatted(lints.last(), source, paragraphs, ignore) {
            Some(entry) => before.push(entry),
            None => before,
        }
    }
}

/// The report for the findings of a source.
pub open spec fn report(findings: Seq<LintView>, source: Seq<char>, ignore: Seq<Seq<char>>) -> Seq<
    FormattedLintOutputView,
> {
    in_reading_order(formatted_all(resolved(findings), source, paragraphs_in(source), ignore))
}

/// The terms to ignore, lower-cased.
fn lowercase_all(terms: &Vec<String>) -> (lowered: Vec<String>)
    ensures
        texts(lowered@) == lowercased(texts(terms@)),
{
    let mut lowered: Vec<String> = Vec::new();
    let mut i: usize = 0;
    while i < terms.len()
        invariant
            i <= terms.len(),
            lowered@.len() == i,
            forall|k: int| 0 <= k < i ==> (#[trigger] lowered@[k])@ == lowercase_of(terms@[k]@),
        decreases terms.len() - i,
    {
        lowered.push(to_lowercase(terms[i].as_str()));
        i += 1;
    }
    assert(texts(lowered@) =~= lowercased(texts(terms@)));
    lowered
}

/// Whether `text` is one of `terms`, exactly as written.
pub fn is_listed(terms: &Vec<String>, text: &str) -> (b: bool)
    ensures
        b == texts(terms@).contains(text@),
{
    let sought = chars_of(text);
    let mut i: usize = 0;
    while i < terms.len()
        invariant
            i <= terms.len(),
            sought@ == text@,
            forall|k: int| 0 <= k < i ==> texts(terms@)[k] != text@,
        decreases terms.len() - i,
    {
        if chars_eq(chars_of(terms[i].as_str()).as_slice(), sought.as_slice()) {
            assert(texts(terms@)[i as int] == text@);
            return true;
        }
        i += 1;
    }
    false
}

fn recommendations(lint: &Lint) -> (out: Vec<String>)
    ensures
        texts(out@) == suggestion_texts(lint@.suggestions),
{
    let mut out: Vec<String> = Vec::new();
    let mut i: usize = 0;
    while i < lint.suggestions.len()
        invariant
            i <= lint.suggestions.len(),
            out@.len() == i,
            forall|k: int| 0 <= k < i ==> (#[trigger] out@[k])@ == suggestion_text(lint.suggestions@[k]@),
        decreases lint.suggestions.len() - i,
    {
        out.push(lint.suggestions[i].to_string());
        i += 1;
    }
    assert(texts(out@) =~= suggestion_texts(lint@.suggestions));
    out
}

/// The report entry for a finding, given whether its text is to be
/// ignored.
pub fn format_entry(
    lint: &Lint,
    source: &[char],
    paragraphs: &Vec<Paragraph>,
    is_ignored: bool,
) -> (entry: Option<FormattedLintOutput>)
    ensures
        optional_output_view(entry) == entry_for(
            lint@,
            source@,
            paragraph_views(paragraphs@),
            is_ignored,
        ),
{
    let content = match lint.span.try_get_content(source) {
        Some(content) => content,
        None => {
            return None;
        },
    };
    if is_ignored {
        return None;
    }
    if lint.lint_kind == LintKind::Spelling && content.len() == 1 && content[0] == 's' {
        assert(content@ =~= seq!['s']);
        return None;
    }
    let paragraph = match find_containing(paragraphs, lint.span) {
        Some(paragraph) => paragraph,
        None => {
            return None;
        },
    };
    let relative_start = lint.span.start - paragraph.start_offset;
    let relative_end = lint.span.end - paragraph.start_offset;
    let key = decimal_of(paragraph.key);
    Some(
        FormattedLintOutput {
            start: relative_start,
            length: relative_end - relative_start,
            end: relative_end,
            paragraph_key: string_of(key.as_slice()),
            paragraph: string_of(paragraph.text),
            string: string_of(content),
            kind: lint.lint_kind.to_string(),
            suggestions: Suggestions { recommendation: recommendations(lint) },
        },
    )
}

fn format_lint(lint: &Lint, source: &[char], paragraphs: &Vec<Paragraph>, lowered: &Vec<String>) -> (entry:
    Option<FormattedLintOutput>)
    ensures
        optional_output_view(entry) == entry_for(
            lint@,
            source@,
            paragraph_views(paragraphs@),
            texts(lowered@).contains(lowercase_of(lint@.span.content(source@))),
        ),
{
    let is_ignored = match lint.span.try_get_content(source) {
        Some(content) => {
            let linted_string = string_of(content);
            let lower = to_lowercase(linted_string.as_str());
            is_listed(lowered, lower.as_str())
        },
        None => false,
    };
    format_entry(lint, source, paragraphs, is_ignored)
}

/// The report entries of the findings that have one: each finding is put
/// in offsets relative to the line that holds it, and findings to be left
/// out are left out.  The entries keep the order of the findings.
pub fn format_all(lints: &Vec<Lint>, source: &[char], ignore: &Vec<String>) -> (entries: Vec<
    FormattedLintOutput,
>)
    ensures
        output_views(entries@) == formatted_all(
            lint_views(lints@),
            source@,
            paragraphs_in(source@),
            texts(ignore@),
        ),
{
    let paragraphs = split_lines(source);
    let lowered = lowercase_all(ignore);
    let ghost terms = texts(ignore@);
    let ghost views = lint_views(lints@);
    let ghost lines = paragraph_views(paragraphs@);
    let mut entries: Vec<FormattedLintOutput> = Vec::new();
    let mut i: usize = 0;
    assert(output_views(entries@) =~= Seq::<FormattedLintOutputView>::empty());
    while i < lints.len()
        invariant
            i <= lints.len(),
            views == lint_views(lints@),
            lines == paragraph_views(paragraphs@),
            terms == texts(ignore@),
            texts(lowered@) == lowercased(terms),
            output_views(entries@) == formatted_all(views.take(i as int), source@, lines, terms),
        decreases lints.len() - i,
    {
        proof {
            assert(views.take(i + 1).drop_last() == views.take(i as int));
            assert(views.take(i + 1).last() == lints@[i as int]@);
        }
        match format_lint(&lints[i], source, &paragraphs, &lowered) {
            Some(entry) => {
                let ghost before = entries@;
                entries.push(entry);
                assert(output_views(entries@) =~= output_views(before).push(entry@));
            },
            None => {},
        }
        i += 1;
    }
    assert(views.take(i as int) == views);
    entries
}

/// Turn findings into a report: overlaps are resolved, each surviving
/// finding is put in offsets relative to the line that holds it, findings
/// to be ignored are left out, and what remains is put in reading order.
pub fn lint_report(lints: Vec<Lint>, source: &[char], ignore: &Vec<String>) -> (lint_outputs: Vec<
    FormattedLintOutput,
>)
    ensures
        output_views(lint_outputs@) == report(lint_views(lints@), source@, texts(ignore@)),
        reading_ordered(output_views(lint_outputs@)),
        entries_disjoint(output_views(lint_outputs@)),
{
    proof {
        report_entries_do_not_overlap(lint_views(lints@), source@, texts(ignore@));
    }
    let final_lints = resolve_conflicts(lints);
    let entries = format_all(&final_lints, source, ignore);
    sort_in_reading_order(entries)
}

/// Lint a text: tokenize it against the dictionary, run the rule over it,
/// and report what it finds.
pub fn lint_text<D: Dictionary, L: Linter>(
    request: &LintRequest,
    dictionary: &D,
    linter: &mut L,
) -> (lint_outputs: Vec<FormattedLintOutput>)
    ensures
        output_views(lint_outputs@) == report(
            old(linter).findings(tokens_of(request.text@, dictionary), request.text@),
            request.text@,
            texts(request.ignore@),
        ),
        reading_ordered(output_views(lint_outputs@)),
        entries_disjoint(output_views(lint_outputs@)),
        *final(linter) == *old(linter),
{
    let document = Document::new(request.text.as_str(), dictionary);
    let lints = linter.lint(&document);
    lint_report(lints, document.get_source(), &request.ignore)
}

/// Every report entry stems from a finding that has this entry.
pub proof fn formatted_all_stems(
    lints: Seq<LintView>,
    source: Seq<char>,
    paragraphs: Seq<ParagraphView>,
    ignore: Seq<Seq<char>>,
    entry: FormattedLintOutputView,
)
    ensures
        formatted_all(lints, source, paragraphs, ignore).contains(entry) == exists|k: int|
            0 <= k < lints.len() && formatted(#[trigger] lints[k], source, paragraphs, ignore)
                == Some(entry),
    decreases lints.len(),
{
    let all = formatted_all(lints, source, paragraphs, ignore);
    if lints.len() > 0 {
        let rest = lints.drop_last();
        let before = formatted_all(rest, source, paragraphs, ignore);
        formatted_all_stems(rest, source, paragraphs, ignore, entry);
        if all.contains(entry) {
            let i = choose|i: int| 0 <= i < all.len() && all[i] == entry;
            if i < before.len() {
                assert(before[i] == entry);
                assert(before.contains(entry));
                let k = choose|k: int|
                    0 <= k < rest.len() && formatted(#[trigger] rest[k], source, paragraphs, ignore)
                        == Some(entry);
                assert(lints[k] == rest[k]);
            } else {
                assert(formatted(lints[lints.len() - 1], source, paragraphs, ignore) == Some(entry));
            }
        }
        if exists|k: int|
            0 <= k < lints.len() && formatted(#[trigger] lints[k], source, paragraphs, ignore)
                == Some(entry) {
            let k = choose|k: int|
                0 <= k < lints.len() && formatted(#[trigger] lints[k], source, paragraphs, ignore)
                    == Some(entry);
            if k < rest.len() {
                assert(rest[k] == lints[k]);
                assert(before.contains(entry));
                let i = choose|i: int| 0 <= i < before.len() && before[i] == entry;
                assert(all[i] == entry);
            } else {
                assert(all[all.len() - 1] == entry);
            }
        }
    }
}

/// Findings that do not overlap have entries that do not overlap.
pub proof fn disjoint_findings_have_disjoint_entries(
    first: LintView,
    second: LintView,
    source: Seq<char>,
    ignore: Seq<Seq<char>>,
)
    requires
        !first.span.spec_overlaps(second.span),
        formatted(first, source, paragraphs_in(source), ignore) is Some,
        formatted(second, source, paragraphs_in(source), ignore) is Some,
    ensures
        !entries_overlap(
            formatted(first, source, paragraphs_in(source), ignore)->Some_0,
            formatted(second, source, paragraphs_in(source), ignore)->Some_0,
        ),
{
    let lines = paragraphs_in(source);
    let a = formatted(first, source, lines, ignore)->Some_0;
    let b = formatted(second, source, lines, ignore)->Some_0;
    let p = containing(lines, first.span, 0)->Some_0;
    let q = containing(lines, second.span, 0)->Some_0;
    containing_is_listed(lines, first.span, 0);
    containing_is_listed(lines, second.span, 0);
    if a.paragraph_key == b.paragraph_key {
        decimal_is_injective(p.key, q.key);
        paragraph_keys_rise(source, 0, 1);
        let i = choose|i: int| 0 <= i < lines.len() && lines[i] == p;
        let j = choose|j: int| 0 <= j < lines.len() && lines[j] == q;
        if i < j {
            assert(lines[i].key < lines[j].key);
        } else if j < i {
            assert(lines[j].key < lines[i].key);
        }
        assert(p == q);
    }
}

/// Findings of which no two overlap have entries of which no two overlap.
pub proof fn formatted_all_is_disjoint(
    lints: Seq<LintView>,
    source: Seq<char>,
    ignore: Seq<Seq<char>>,
)
    requires
        pairwise_disjoint(lints),
    ensures
        entries_disjoint(formatted_all(lints, source, paragraphs_in(source), ignore)),
    decreases lints.len(),
{
    let lines = paragraphs_in(source);
    if lints.len() > 0 {
        let rest = lints.drop_last();
        assert(pairwise_disjoint(rest)) by {
            assert forall|i: int, j: int|
                0 <= i < rest.len() && 0 <= j < rest.len() && i != j implies !(#[trigger] rest[i]).span.spec_overlaps(
                (#[trigger] rest[j]).span,
            ) by {
                assert(rest[i] == lints[i] && rest[j] == lints[j]);
            }
        }
        formatted_all_is_disjoint(rest, source, ignore);
        let before = formatted_all(rest, source, lines, ignore);
        let all = formatted_all(lints, source, lines, ignore);
        match formatted(lints.last(), source, lines, ignore) {
            Some(entry) => {
                assert forall|i: int| 0 <= i < before.len() implies !entries_overlap(
                    #[trigger] before[i],
                    entry,
                ) && !entries_overlap(entry, before[i]) by {
                    formatted_all_stems(rest, source, lines, ignore, before[i]);
                    assert(before.contains(before[i]));
                    let k = choose|k: int|
                        0 <= k < rest.len() && formatted(#[trigger] rest[k], source, lines, ignore)
                            == Some(before[i]);
                    assert(rest[k] == lints[k]);
                    assert(!lints[k].span.spec_overlaps(lints[lints.len() - 1].span));
                    assert(!lints[lints.len() - 1].span.spec_overlaps(lints[k].span));
                    disjoint_findings_have_disjoint_entries(lints[k], lints.last(), source, ignore);
                    disjoint_findings_have_disjoint_entries(lints.last(), lints[k], source, ignore);
                }
                assert forall|i: int, j: int|
                    0 <= i < all.len() && 0 <= j < all.len() && i != j implies !entries_overlap(
                    #[trigger] all[i],
                    #[trigger] all[j],
                ) by {
                    if i < before.len() && j < before.len() {
                        assert(all[i] == before[i] && all[j] == before[j]);
                    } else if i < before.len() {
                        assert(all[i] == before[i]);
                    } else {
                        assert(all[j] == before[j]);
                    }
                }
            },
            None => {},
        }
    }
}

/// No two entries of a report overlap: two entries of one paragraph share
/// no character.
pub proof fn report_entries_do_not_overlap(
    findings: Seq<LintView>,
    source: Seq<char>,
    ignore: Seq<Seq<char>>,
)
    ensures
        entries_disjoint(report(findings, source, ignore)),
{
    resolved_is_disjoint(findings);
    formatted_all_is_disjoint(resolved(findings), source, ignore);
    reading_order_keeps_disjoint(
        formatted_all(resolved(findings), source, paragraphs_in(source), ignore),
    );
}

/// No entry of a report flags a text that was to be ignored, and none is
/// the lone "s" flagged as misspelt.
pub proof fn ignored_text_is_left_out(
    findings: Seq<LintView>,
    source: Seq<char>,
    ignore: Seq<Seq<char>>,
    entry: FormattedLintOutputView,
)
    requires
        report(findings, source, ignore).contains(entry),
    ensures
        !ignored(ignore, entry.string),
        !(entry.kind == LintKind::Spelling.name() && entry.string == seq!['s']),
{
    let kept = resolved(findings);
    let all = formatted_all(kept, source, paragraphs_in(source), ignore);
    reading_order_is_ordered(all);
    assert(in_reading_order(all).contains(entry) == all.contains(entry));
    formatted_all_stems(kept, source, paragraphs_in(source), ignore, entry);
    let k = choose|k: int|
        0 <= k < kept.len() && formatted(#[trigger] kept[k], source, paragraphs_in(source), ignore)
            == Some(entry);
    if entry.kind == LintKind::Spelling.name() {
        crate::lint::spelling_name_is_unique(kept[k].lint_kind);
    }
}

/// A finding that survives the resolution of overlaps, lies in one
/// paragraph and is not suppressed has its entry in the report: findings
/// with a text that is not to be ignored are kept.
pub proof fn unignored_finding_is_reported(
    findings: Seq<LintView>,
    source: Seq<char>,
    ignore: Seq<Seq<char>>,
    k: int,
)
    requires
        0 <= k < resolved(findings).len(),
        resolved(findings)[k].span.within(source.len()),
        !suppressed(resolved(findings)[k], resolved(findings)[k].span.content(source), ignore),
        containing(paragraphs_in(source), resolved(findings)[k].span, 0) is Some,
    ensures
        formatted(resolved(findings)[k], source, paragraphs_in(source), ignore) is Some,
        report(findings, source, ignore).contains(
            formatted(resolved(findings)[k], source, paragraphs_in(source), ignore)->Some_0,
        ),
        formatted(resolved(findings)[k], source, paragraphs_in(source), ignore)->Some_0.string
            == resolved(findings)[k].span.content(source),
{
    let kept = resolved(findings);
    let lines = paragraphs_in(source);
    let all = formatted_all(kept, source, lines, ignore);
    let entry = formatted(kept[k], source, lines, ignore)->Some_0;
    formatted_all_stems(kept, source, lines, ignore, entry);
    reading_order_is_ordered(all);
    assert(in_reading_order(all).contains(entry) == all.contains(entry));
}

/// Two reports on the same findings, source and terms to ignore are the
/// same report, entry for entry.
pub proof fn report_is_repeatable<D: Dictionary, L: Linter>(
    first: Seq<FormattedLintOutputView>,
    second: Seq<FormattedLintOutputView>,
    linter: &L,
    dictionary: &D,
    text: Seq<char>,
    ignore: Seq<Seq<char>>,
)
    requires
        first == report(linter.findings(tokens_of(text, dictionary), text), text, ignore),
        second == report(linter.findings(tokens_of(text, dictionary), text), text, ignore),
    ensures
        first == second,
{
}

} // verus!
