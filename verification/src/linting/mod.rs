//! Rules that flag spans of a document, and the engine that runs a
//! pattern over every position of it.

use vstd::prelude::*;
use crate::document::Document;
use crate::lint::{lint_views, lint_views_push, optional_lint_view, Lint, LintView};
use crate::patterns::Pattern;
use crate::token::{contiguous, contiguous_subrange, Token};
use vstd::slice::slice_subrange;

pub mod boring_words;
pub mod lint_group;
pub mod pronoun_contraction;
pub mod that_which;
pub mod unclosed_quotes;

verus! {

/// A rule: it reads a document and reports findings.  Running a rule does
/// not change it.
pub trait Linter: Sized {
    /// The findings of the rule on the given tokens and source, in the
    /// order in which it reports them.
    spec fn findings(&self, tokens: Seq<Token>, source: Seq<char>) -> Seq<LintView>;

    fn lint(&mut self, document: &Document) -> (lints: Vec<Lint>)
        ensures
            lint_views(lints@) == old(self).findings(document@.tokens, document@.source),
            *final(self) == *old(self),
    ;

    /// The text of the description.
    spec fn description_text(&self) -> Seq<char>;

    /// What the rule looks for, for a reader.
    fn description(&self) -> (text: &'static str)
        ensures
            text@ == self.description_text(),
    ;
}

/// A rule given by a pattern and by what to report for a match of it.
pub trait PatternLinter: Sized {
    /// The pattern that the rule looks for.
    spec fn pattern_view(&self) -> Pattern;

    fn pattern(&self) -> (pattern: &Pattern)
        ensures
            *pattern == self.pattern_view(),
    ;

    /// What the rule reports for the matched tokens.
    spec fn lint_for(&self, matched: Seq<Token>, source: Seq<char>) -> Option<LintView>;

    fn match_to_lint(&self, matched_tokens: &[Token], source: &[char]) -> (lint: Option<Lint>)
        requires
            matched_tokens@.len() > 0,
            contiguous(matched_tokens@, source@.len()),
        ensures
            optional_lint_view(lint) == self.lint_for(matched_tokens@, source@),
    ;

    /// The text of the description.
    spec fn pattern_description_text(&self) -> Seq<char>;

    /// What the rule looks for, for a reader.
    fn description(&self) -> (text: &'static str)
        ensures
            text@ == self.pattern_description_text(),
    ;
}

/// A finding as a list of none or one.
pub open spec fn zero_or_one(lint: Option<LintView>) -> Seq<LintView> {
    match lint {
        Some(found) => seq![found],
        None => Seq::empty(),
    }
}

/// The findings of a pattern rule from token `at` on: the pattern is tried
/// at `at`; after a match the scan goes on behind the matched tokens, after
/// a failure at the next token.
pub open spec fn pattern_findings<L: PatternLinter>(
    linter: &L,
    tokens: Seq<Token>,
    source: Seq<char>,
    at: int,
) -> Seq<LintView>
    decreases tokens.len() - at,
{
    if at < 0 || at >= tokens.len() {
        Seq::empty()
    } else {
        match linter.pattern_view().matches_at(tokens, source, at) {
            Some(n) => if 1 <= n && at + n <= tokens.len() {
                zero_or_one(linter.lint_for(tokens.subrange(at, at + n), source))
                    + pattern_findings(linter, tokens, source, at + n)
            } else {
                pattern_findings(linter, tokens, source, at + 1)
            },
            None => pattern_findings(linter, tokens, source, at + 1),
        }
    }
}

/// Run a pattern rule over a document.
pub fn lint_with_pattern<L: PatternLinter>(linter: &L, document: &Document) -> (lints: Vec<Lint>)
    ensures
        lint_views(lints@) == pattern_findings(linter, document@.tokens, document@.source, 0),
{
    let tokens = document.tokens();
    let source = document.get_source();
    let mut lints: Vec<Lint> = Vec::new();
    let mut cursor: usize = 0;
    assert(lint_views(lints@) =~= Seq::<LintView>::empty());
    while cursor < tokens.len()
        invariant
            cursor <= tokens@.len(),
            contiguous(tokens@, source@.len()),
            lint_views(lints@) + pattern_findings(linter, tokens@, source@, cursor as int)
                == pattern_findings(linter, tokens@, source@, 0),
        decreases tokens.len() - cursor,
    {
        match linter.pattern().matches(tokens, source, cursor) {
            Some(n) => {
                let matched = slice_subrange(tokens, cursor, cursor + n);
                proof {
                    contiguous_subrange(tokens@, source@.len(), cursor as int, cursor + n);
                }
                let ghost before = lint_views(lints@);
                let ghost given = lints@;
                match linter.match_to_lint(matched, source) {
                    Some(lint) => {
                        lints.push(lint);
                        proof {
                            lint_views_push(given, lint);
                            assert(before + (seq![lint@] + pattern_findings(
                                linter,
                                tokens@,
                                source@,
                                cursor + n,
                            )) =~= lint_views(lints@) + pattern_findings(
                                linter,
                                tokens@,
                                source@,
                                cursor + n,
                            ));
                        }
                    },
                    None => {
                        assert(Seq::<LintView>::empty() + pattern_findings(
                            linter,
                            tokens@,
                            source@,
                            cursor + n,
                        ) =~= pattern_findings(linter, tokens@, source@, cursor + n));
                    },
                }
                cursor += n;
            },
            None => {
                cursor += 1;
            },
        }
    }
    assert(lint_views(lints@) + Seq::<LintView>::empty() =~= lint_views(lints@));
    lints
}

} // verus!
