//! Findings: a flagged span with its category, message and suggestions.

use vstd::prelude::*;
use crate::span::Span;
use crate::text::{
    ascii_lower, ascii_upper, is_ascii_upper, push_chars, to_ascii_lower, to_ascii_upper,
};

verus! {

/// The category of a finding.
#[derive(Clone, Copy, Debug, PartialEq, Eq, Structural)]
pub enum LintKind {
    Spelling,
    Capitalization,
    Style,
    Formatting,
    Repetition,
    Enhancement,
    Readability,
    WordChoice,
    Miscellaneous,
}

impl LintKind {
    /// The name of the category.
    pub open spec fn name(&self) -> Seq<char> {
        match self {
            LintKind::Spelling => "Spelling"@,
            LintKind::Capitalization => "Capitalization"@,
            LintKind::Style => "Style"@,
            LintKind::Formatting => "Formatting"@,
            LintKind::Repetition => "Repetition"@,
            LintKind::Enhancement => "Enhancement"@,
            LintKind::Readability => "Readability"@,
            LintKind::WordChoice => "Word Choice"@,
            LintKind::Miscellaneous => "Miscellaneous"@,
        }
    }

    /// The name of the category.
    pub fn as_str(&self) -> (out: &'static str)
        ensures
            out@ == self.name(),
    {
        match self {
            LintKind::Spelling => "Spelling",
            LintKind::Capitalization => "Capitalization",
            LintKind::Style => "Style",
            LintKind::Formatting => "Formatting",
            LintKind::Repetition => "Repetition",
            LintKind::Enhancement => "Enhancement",
            LintKind::Readability => "Readability",
            LintKind::WordChoice => "Word Choice",
            LintKind::Miscellaneous => "Miscellaneous",
        }
    }

    /// The name of the category, as an owned string.
    pub fn to_string(&self) -> (out: String)
        ensures
            out@ == self.name(),
    {
        String::from_str(self.as_str())
    }
}

/// No other category is named like `Spelling`.
pub proof fn spelling_name_is_unique(kind: LintKind)
    requires
        kind.name() == LintKind::Spelling.name(),
    ensures
        kind == LintKind::Spelling,
{
    reveal_strlit("Spelling");
    reveal_strlit("Capitalization");
    reveal_strlit("Style");
    reveal_strlit("Formatting");
    reveal_strlit("Repetition");
    reveal_strlit("Enhancement");
    reveal_strlit("Readability");
    reveal_strlit("Word Choice");
    reveal_strlit("Miscellaneous");
    assert(kind.name().len() == 8);
}

/// A proposed edit of the flagged span.
#[derive(Clone, Debug, PartialEq, Eq)]
pub enum Suggestion {
    /// Put these characters in place of the span.
    ReplaceWith(Vec<char>),
    /// Put these characters behind the span.
    InsertAfter(Vec<char>),
    /// Take the span out.
    Remove,
}

/// What a suggestion is: the edit, with its characters.
pub enum SuggestionView {
    ReplaceWith(Seq<char>),
    InsertAfter(Seq<char>),
    Remove,
}

impl View for Suggestion {
    type V = SuggestionView;

    open spec fn view(&self) -> SuggestionView {
        match self {
            Suggestion::ReplaceWith(chars) => SuggestionView::ReplaceWith(chars@),
            Suggestion::InsertAfter(chars) => SuggestionView::InsertAfter(chars@),
            Suggestion::Remove => SuggestionView::Remove,
        }
    }
}

/// `value` with the letter case of `template`, position by position: where
/// the template has an ASCII capital the character is upper-cased, elsewhere
/// under the template it is lower-cased, and past the template it is kept.
pub open spec fn matched_case(value: Seq<char>, template: Seq<char>) -> Seq<char> {
    Seq::new(
        value.len(),
        |i: int|
            if i < template.len() {
                if is_ascii_upper(template[i]) {
                    ascii_upper(value[i])
                } else {
                    ascii_lower(value[i])
                }
            } else {
                value[i]
            },
    )
}

/// The source after an edit of `span`.
pub open spec fn applied(suggestion: SuggestionView, span: Span, source: Seq<char>) -> Seq<char> {
    let head = source.subrange(0, span.start as int);
    let covered = source.subrange(span.start as int, span.end as int);
    let tail = source.subrange(span.end as int, source.len() as int);
    match suggestion {
        SuggestionView::ReplaceWith(chars) => head + chars + tail,
        SuggestionView::InsertAfter(chars) => head + covered + chars + tail,
        SuggestionView::Remove => head + tail,
    }
}

/// What a suggestion reads like in a report.
pub open spec fn suggestion_text(suggestion: SuggestionView) -> Seq<char> {
    match suggestion {
        SuggestionView::ReplaceWith(chars) => "Replace with: \u{201c}"@ + chars + "\u{201d}"@,
        SuggestionView::InsertAfter(chars) => "Insert \u{201c}"@ + chars + "\u{201d}"@,
        SuggestionView::Remove => "Remove error"@,
    }
}

impl Suggestion {
    /// A replacement that takes the letter case of the text it replaces.
    pub fn replace_with_match_case(value: Vec<char>, template: &[char]) -> (out: Suggestion)
        ensures
            out@ == SuggestionView::ReplaceWith(matched_case(value@, template@)),
    {
        let mut value = value;
        let ghost given = value@;
        let mut i: usize = 0;
        while i < value.len() && i < template.len()
            invariant
                i <= value.len(),
                value@.len() == given.len(),
                forall|k: int| 0 <= k < i ==> value@[k] == matched_case(given, template@)[k],
                forall|k: int| i <= k < value.len() ==> value@[k] == given[k],
            decreases value.len() - i,
        {
            let t = template[i];
            let v = value[i];
            if 'A' <= t && t <= 'Z' {
                value.set(i, to_ascii_upper(v));
            } else {
                value.set(i, to_ascii_lower(v));
            }
            i += 1;
        }
        assert(value@ =~= matched_case(given, template@));
        Suggestion::ReplaceWith(value)
    }

    /// Edit `source` as the suggestion says.
    pub fn apply(&self, span: Span, source: &mut Vec<char>)
        requires
            span.within(old(source)@.len()),
        ensures
            final(source)@ == applied(self@, span, old(source)@),
    {
        let mut out: Vec<char> = Vec::new();
        let mut i: usize = 0;
        while i < span.start
            invariant
                i <= span.start <= source@.len(),
                out@ == source@.subrange(0, i as int),
            decreases span.start - i,
        {
            out.push(source[i]);
            assert(source@.subrange(0, i + 1) == source@.subrange(0, i as int).push(source@[i as int]));
            i += 1;
        }
        match self {
            Suggestion::ReplaceWith(chars) => {
                extend_chars(&mut out, chars.as_slice());
            },
            Suggestion::InsertAfter(chars) => {
                while i < span.end
                    invariant
                        span.start <= i <= span.end <= source@.len(),
                        out@ == source@.subrange(0, i as int),
                    decreases span.end - i,
                {
                    out.push(source[i]);
                    assert(source@.subrange(0, i + 1) == source@.subrange(0, i as int).push(
                        source@[i as int],
                    ));
                    i += 1;
                }
                assert(out@ =~= source@.subrange(0, span.start as int) + source@.subrange(
                    span.start as int,
                    span.end as int,
                ));
                extend_chars(&mut out, chars.as_slice());
            },
            Suggestion::Remove => {},
        }
        let ghost lead = out@;
        let mut k: usize = span.end;
        while k < source.len()
            invariant
                span.end <= k <= source@.len(),
                out@ == lead + source@.subrange(span.end as int, k as int),
            decreases source.len() - k,
        {
            out.push(source[k]);
            assert(source@.subrange(span.end as int, k + 1) == source@.subrange(
                span.end as int,
                k as int,
            ).push(source@[k as int]));
            k += 1;
        }
        *source = out;
    }

    /// The suggestion as a line of a report.
    pub fn to_string(&self) -> (out: String)
        ensures
            out@ == suggestion_text(self@),
    {
        match self {
            Suggestion::ReplaceWith(chars) => {
                let mut out = String::from_str("Replace with: \u{201c}");
                push_chars(&mut out, chars.as_slice());
                out.append("\u{201d}");
                out
            },
            Suggestion::InsertAfter(chars) => {
                let mut out = String::from_str("Insert \u{201c}");
                push_chars(&mut out, chars.as_slice());
                out.append("\u{201d}");
                out
            },
            Suggestion::Remove => String::from_str("Remove error"),
        }
    }
}

/// Append a run of characters to a buffer.
pub fn extend_chars(target: &mut Vec<char>, chars: &[char])
    ensures
        final(target)@ == old(target)@ + chars@,
{
    let mut i: usize = 0;
    while i < chars.len()
        invariant
            i <= chars.len(),
            target@ == old(target)@ + chars@.take(i as int),
        decreases chars.len() - i,
    {
        target.push(chars[i]);
        assert(chars@.take(i + 1) == chars@.take(i as int).push(chars@[i as int]));
        i += 1;
    }
    assert(chars@.take(i as int) == chars@);
}

/// A finding: a span of the source, why it was flagged, and what to do.
#[derive(Clone, Debug, PartialEq, Eq)]
pub struct Lint {
    pub span: Span,
    pub lint_kind: LintKind,
    pub suggestions: Vec<Suggestion>,
    pub message: String,
    /// A weight the rule gives its findings; lower is more urgent.
    pub priority: u8,
}

/// What a finding is: its span, category, weight and texts.
pub struct LintView {
    pub span: Span,
    pub lint_kind: LintKind,
    pub suggestions: Seq<SuggestionView>,
    pub message: Seq<char>,
    pub priority: u8,
}

/// The views of a list of suggestions.
pub open spec fn suggestion_views(suggestions: Seq<Suggestion>) -> Seq<SuggestionView> {
    suggestions.map_values(|s: Suggestion| s@)
}

impl View for Lint {
    type V = LintView;

    open spec fn view(&self) -> LintView {
        LintView {
            span: self.span,
            lint_kind: self.lint_kind,
            suggestions: suggestion_views(self.suggestions@),
            message: self.message@,
            priority: self.priority,
        }
    }
}

/// The views of a list of findings.
pub open spec fn lint_views(lints: Seq<Lint>) -> Seq<LintView> {
    lints.map_values(|l: Lint| l@)
}

/// The view of a finding that may be absent.
pub open spec fn optional_lint_view(lint: Option<Lint>) -> Option<LintView> {
    match lint {
        Some(found) => Some(found@),
        None => None,
    }
}

/// Pushing a finding adds its view.
pub proof fn lint_views_push(lints: Seq<Lint>, lint: Lint)
    ensures
        lint_views(lints.push(lint)) == lint_views(lints).push(lint@),
{
    assert(lint_views(lints.push(lint)) =~= lint_views(lints).push(lint@));
}

impl Lint {
    /// A copy of the finding.
    pub fn duplicate(&self) -> (out: Lint)
        ensures
            out@ == self@,
    {
        let mut suggestions: Vec<Suggestion> = Vec::new();
        let mut i: usize = 0;
        while i < self.suggestions.len()
            invariant
                i <= self.suggestions.len(),
                suggestions@.len() == i,
                forall|k: int| 0 <= k < i ==> suggestions@[k]@ == self.suggestions@[k]@,
            decreases self.suggestions.len() - i,
        {
            let copy = match &self.suggestions[i] {
                Suggestion::ReplaceWith(chars) => Suggestion::ReplaceWith(
                    vstd::slice::slice_to_vec(chars.as_slice()),
                ),
                Suggestion::InsertAfter(chars) => Suggestion::InsertAfter(
                    vstd::slice::slice_to_vec(chars.as_slice()),
                ),
                Suggestion::Remove => Suggestion::Remove,
            };
            suggestions.push(copy);
            i += 1;
        }
        assert(suggestion_views(suggestions@) =~= suggestion_views(self.suggestions@));
        Lint {
            span: self.span,
            lint_kind: self.lint_kind,
            suggestions,
            message: self.message.clone(),
            priority: self.priority,
        }
    }
}

} // verus!
