//! The rule against "you're" where "your" is meant.

use vstd::prelude::*;
use crate::document::Document;
use crate::lint::{
    lint_views, matched_case, optional_lint_view, suggestion_views, Lint, LintKind, LintView,
    Suggestion, SuggestionView,
};
use crate::linting::{lint_with_pattern, pattern_findings, Linter, PatternLinter};
use crate::patterns::{one_if, sequence_of_three, word_at, Pattern, SequencePattern, TokenTest};
use crate::text::{chars_of, eq_ignore_ascii_case};
use crate::token::Token;

verus! {

/// Flags "you're" in front of a word that can only name a thing, and
/// proposes "your".
#[derive(Debug)]
pub struct AvoidContraction {
    pattern: Pattern,
}

impl AvoidContraction {
    /// Where the rule fires: at "you're" in any capitalization, followed
    /// by whitespace and by a word that is nominal and no likely homograph.
    pub open spec fn fires_at(tokens: Seq<Token>, source: Seq<char>, at: int) -> bool {
        &&& word_at(tokens, source, at) matches Some(text) && eq_ignore_ascii_case(text, "you're"@)
        &&& 0 <= at + 1 < tokens.len() && tokens[at + 1].kind.spec_is_whitespace()
        &&& 0 <= at + 2 < tokens.len() && tokens[at + 2].kind.spec_is_nominal() && !tokens[at
            + 2].kind.spec_is_likely_homograph()
    }

    /// The rule looks for what [`Self::fires_at`] describes, and for
    /// nothing else.
    pub open spec fn is_standard(&self) -> bool {
        forall|tokens: Seq<Token>, source: Seq<char>, at: int|
            #[trigger] self.pattern_view().matches_at(tokens, source, at) == Self::consumed_at(
                tokens,
                source,
                at,
            )
    }

    /// What the rule consumes at `at`: the three tokens where it fires.
    pub open spec fn consumed_at(tokens: Seq<Token>, source: Seq<char>, at: int) -> Option<nat> {
        if Self::fires_at(tokens, source, at) {
            Some(3nat)
        } else {
            None
        }
    }

    /// The finding for a match: the first token, with "your" in its letter
    /// case as the replacement.
    pub open spec fn finding(matched: Seq<Token>, source: Seq<char>) -> Option<LintView> {
        Some(
            LintView {
                span: matched[0].span,
                lint_kind: LintKind::WordChoice,
                suggestions: seq![
                    SuggestionView::ReplaceWith(
                        matched_case("your"@, matched[0].span.content(source)),
                    ),
                ],
                message: "It appears you intended to use the possessive version of this word"@,
                priority: 63,
            },
        )
    }
}

impl Default for AvoidContraction {
    fn default() -> (out: Self)
        ensures
            out.is_standard(),
    {
        let chain = SequencePattern::aco("you're").then_whitespace().then_test(
            TokenTest::UnambiguousNominal,
        );
        let ghost steps = chain.token_patterns@;
        let pattern = chain.into_pattern();
        proof {
            assert(steps.len() == 3);
            assert(steps[0].is_any_capitalization_of("you're"@));
            assert(steps[1] == Pattern::Whitespace);
            assert(steps[2] == Pattern::Test(TokenTest::UnambiguousNominal));
        }
        let out = AvoidContraction { pattern };
        assert forall|tokens: Seq<Token>, source: Seq<char>, at: int|
            #[trigger] out.pattern_view().matches_at(tokens, source, at)
                == AvoidContraction::consumed_at(tokens, source, at) by {
            sequence_of_three(out.pattern, tokens, source, at);
            assert(steps[0].matches_at(tokens, source, at) == one_if(
                word_at(tokens, source, at) matches Some(text) && eq_ignore_ascii_case(
                    text,
                    "you're"@,
                ),
            ));
            assert(steps[1].matches_at(tokens, source, at + 1) == one_if(
                0 <= at + 1 < tokens.len() && tokens[at + 1].kind.spec_is_whitespace(),
            ));
            assert(steps[2].matches_at(tokens, source, at + 2) == one_if(
                0 <= at + 2 < tokens.len() && TokenTest::UnambiguousNominal.holds(tokens[at + 2]),
            ));
        }
        out
    }
}

impl PatternLinter for AvoidContraction {
    closed spec fn pattern_view(&self) -> Pattern {
        self.pattern
    }

    fn pattern(&self) -> (pattern: &Pattern)
        ensures
            *pattern == self.pattern_view(),
    {
        &self.pattern
    }

    open spec fn lint_for(&self, matched: Seq<Token>, source: Seq<char>) -> Option<LintView> {
        AvoidContraction::finding(matched, source)
    }

    fn match_to_lint(&self, matched_tokens: &[Token], source: &[char]) -> (lint: Option<Lint>)
        ensures
            optional_lint_view(lint) == AvoidContraction::finding(matched_tokens@, source@),
    {
        let word = matched_tokens[0].span.get_content(source);
        let suggestions = vec![Suggestion::replace_with_match_case(chars_of("your"), word)];
        assert(suggestion_views(suggestions@) =~= seq![
            SuggestionView::ReplaceWith(matched_case("your"@, word@)),
        ]);
        Some(
            Lint {
                span: matched_tokens[0].span,
                lint_kind: LintKind::WordChoice,
                suggestions,
                message: String::from_str(
                    "It appears you intended to use the possessive version of this word",
                ),
                priority: 63,
            },
        )
    }

    open spec fn pattern_description_text(&self) -> Seq<char> {
        "This rule looks for situations where a contraction was used where it shouldn't have been."@
    }

    fn description(&self) -> (text: &'static str) {
        "This rule looks for situations where a contraction was used where it shouldn't have been."
    }
}

impl Linter for AvoidContraction {
    open spec fn findings(&self, tokens: Seq<Token>, source: Seq<char>) -> Seq<LintView> {
        pattern_findings(self, tokens, source, 0)
    }

    fn lint(&mut self, document: &Document) -> (lints: Vec<Lint>)
        ensures
            lint_views(lints@) == old(self).findings(document@.tokens, document@.source),
    {
        lint_with_pattern(&*self, document)
    }

    open spec fn description_text(&self) -> Seq<char> {
        "This rule looks for situations where a contraction was used where it shouldn't have been."@
    }

    fn description(&self) -> (text: &'static str) {
        "This rule looks for situations where a contraction was used where it shouldn't have been."
    }
}

} // verus!
