//! The rule against a doubled "that".

use vstd::prelude::*;
use vstd::slice::slice_to_vec;
use crate::document::Document;
use crate::lint::{
    extend_chars, lint_views, optional_lint_view, suggestion_views, Lint, LintKind, LintView,
    Suggestion, SuggestionView,
};
use crate::linting::{lint_with_pattern, pattern_findings, Linter, PatternLinter};
use crate::patterns::{
    group_matches, sequence_matches, word_at, Pattern, SequencePattern, WordPatternGroup,
};
use crate::text::{ascii_lower_seq, chars_of, eq_ignore_ascii_case};
use crate::token::{covering_span, span_of, Token};

verus! {

/// Flags "that that" and proposes "that which".
#[derive(Debug)]
pub struct ThatWhich {
    pattern: Pattern,
}

/// The message of the rule.
pub open spec fn that_which_message() -> Seq<char> {
    "\u{201c}that that\u{201d} sometimes means \u{201c}that which\u{201d}, which is clearer."@
}

/// The chain "that", whitespace, "that", each word in any capitalization.
pub open spec fn is_that_that(pattern: Pattern) -> bool {
    pattern matches Pattern::Sequence(steps) && steps@.len() == 3
        && steps@[0].is_any_capitalization_of("that"@) && steps@[1] == Pattern::Whitespace
        && steps@[2].is_any_capitalization_of("that"@)
}

/// The group that files the chain under "that" and under "That".
pub open spec fn is_that_which_pattern(pattern: Pattern) -> bool {
    pattern matches Pattern::WordGroup(rules) && rules@.len() == 2 && rules@[0].0@ == "that"@
        && is_that_that(rules@[0].1) && rules@[1].0@ == "That"@ && is_that_that(rules@[1].1)
}

fn that_that() -> (pattern: Pattern)
    ensures
        is_that_that(pattern),
{
    let chain = SequencePattern::new()
        .then_any_capitalization_of("that")
        .then_whitespace()
        .then_any_capitalization_of("that");
    let ghost steps = chain.token_patterns@;
    proof {
        let two = steps.drop_last();
        assert(two.len() == 2);
        let one = two.drop_last();
        assert(two == one.push(Pattern::Whitespace));
        assert(steps[0] == two[0]);
        assert(two[0] == one[0]);
        assert(one[0] == one.last());
        assert(steps[1] == two[1]);
    }
    chain.into_pattern()
}

impl ThatWhich {
    /// Where the rule fires: at a word written "that" or "That" that is
    /// followed by whitespace and by "that" in any capitalization.
    pub open spec fn fires_at(tokens: Seq<Token>, source: Seq<char>, at: int) -> bool {
        &&& (word_at(tokens, source, at) == Some("that"@) || word_at(tokens, source, at) == Some(
            "That"@,
        ))
        &&& 0 <= at + 1 < tokens.len() && tokens[at + 1].kind.spec_is_whitespace()
        &&& word_at(tokens, source, at + 2) matches Some(text) && eq_ignore_ascii_case(
            text,
            "that"@,
        )
    }

    /// The rule looks for what [`Self::fires_at`] describes, and for
    /// nothing else.
    pub open spec fn is_standard(&self) -> bool {
        forall|tokens: Seq<Token>, source: Seq<char>, at: int|
            #[trigger] self.pattern_view().matches_at(tokens, source, at) == Self::consumed_at(
                tokens,
                source,
                at,
            )
    }

    /// What the rule consumes at `at`: the three tokens where it fires.
    pub open spec fn consumed_at(tokens: Seq<Token>, source: Seq<char>, at: int) -> Option<nat> {
        if Self::fires_at(tokens, source, at) {
            Some(3nat)
        } else {
            None
        }
    }

    /// The finding for a match: the span of the matched tokens, and the
    /// first word followed by " which" as the replacement.
    pub open spec fn finding(matched: Seq<Token>, source: Seq<char>) -> Option<LintView> {
        match covering_span(matched) {
            Some(span) => Some(
                LintView {
                    span,
                    lint_kind: LintKind::Repetition,
                    suggestions: seq![
                        SuggestionView::ReplaceWith(matched[0].span.content(source) + " which"@),
                    ],
                    message: that_which_message(),
                    priority: 126,
                },
            ),
            None => None,
        }
    }
}

/// Whether the token at `at` is the word "that" in any capitalization.
pub open spec fn is_that_at(tokens: Seq<Token>, source: Seq<char>, at: int) -> bool {
    word_at(tokens, source, at) matches Some(text) && eq_ignore_ascii_case(text, "that"@)
}

/// The chain matches "that", whitespace, "that", and consumes all three.
pub proof fn that_that_matches(pattern: Pattern, tokens: Seq<Token>, source: Seq<char>, at: int)
    requires
        is_that_that(pattern),
    ensures
        pattern.matches_at(tokens, source, at) == if is_that_at(tokens, source, at) && 0 <= at
            + 1 < tokens.len() && tokens[at + 1].kind.spec_is_whitespace() && is_that_at(
            tokens,
            source,
            at + 2,
        ) {
            Some(3nat)
        } else {
            None
        },
{
    let steps = pattern->Sequence_0@;
    reveal_with_fuel(sequence_matches, 4);
    assert(steps[0].matches_at(tokens, source, at) == crate::patterns::one_if(
        is_that_at(tokens, source, at),
    ));
    assert(steps[1].matches_at(tokens, source, at + 1) == crate::patterns::one_if(
        0 <= at + 1 < tokens.len() && tokens[at + 1].kind.spec_is_whitespace(),
    ));
    assert(steps[2].matches_at(tokens, source, at + 2) == crate::patterns::one_if(
        is_that_at(tokens, source, at + 2),
    ));
    assert(pattern.matches_at(tokens, source, at) == sequence_matches(
        steps,
        tokens,
        source,
        at,
        0,
    ));
}

/// The pattern of the rule matches exactly where the rule fires.
pub proof fn that_which_pattern_fires(
    pattern: Pattern,
    tokens: Seq<Token>,
    source: Seq<char>,
    at: int,
)
    requires
        is_that_which_pattern(pattern),
    ensures
        pattern.matches_at(tokens, source, at) == ThatWhich::consumed_at(tokens, source, at),
{
    reveal_strlit("that");
    reveal_strlit("That");
    assert(ascii_lower_seq("That"@) =~= ascii_lower_seq("that"@));
    assert("That"@ != "that"@) by {
        assert("That"@[0] != "that"@[0]);
    }
    let rules = pattern->WordGroup_0@;
    reveal_with_fuel(group_matches, 3);
    that_that_matches(rules[0].1, tokens, source, at);
    that_that_matches(rules[1].1, tokens, source, at);
    match word_at(tokens, source, at) {
        Some(text) => {
            assert(pattern.matches_at(tokens, source, at) == group_matches(
                rules,
                tokens,
                source,
                at,
                text,
                0,
            ));
        },
        None => {},
    }
}

impl Default for ThatWhich {
    fn default() -> (out: Self)
        ensures
            out.is_standard(),
    {
        let mut group = WordPatternGroup::new();
        group.add("that", that_that());
        group.add("That", that_that());
        proof {
            let rules = group.patterns@;
            assert(rules[0] == rules.drop_last()[0]);
            assert(rules.drop_last()[0] == rules.drop_last().last());
        }
        let out = ThatWhich { pattern: group.into_pattern() };
        assert forall|tokens: Seq<Token>, source: Seq<char>, at: int|
            #[trigger] out.pattern_view().matches_at(tokens, source, at) == ThatWhich::consumed_at(
                tokens,
                source,
                at,
            ) by {
            that_which_pattern_fires(out.pattern, tokens, source, at);
        }
        out
    }
}

impl PatternLinter for ThatWhich {
    closed spec fn pattern_view(&self) -> Pattern {
        self.pattern
    }

    fn pattern(&self) -> (pattern: &Pattern)
        ensures
            *pattern == self.pattern_view(),
    {
        &self.pattern
    }

    open spec fn lint_for(&self, matched: Seq<Token>, source: Seq<char>) -> Option<LintView> {
        ThatWhich::finding(matched, source)
    }

    fn match_to_lint(&self, matched_tokens: &[Token], source: &[char]) -> (lint: Option<Lint>)
        ensures
            optional_lint_view(lint) == ThatWhich::finding(matched_tokens@, source@),
    {
        let first = matched_tokens[0].span.get_content(source);
        let mut suggestion = slice_to_vec(first);
        let tail = chars_of(" which");
        extend_chars(&mut suggestion, tail.as_slice());
        match span_of(matched_tokens) {
            Some(span) => {
                let suggestions = vec![Suggestion::ReplaceWith(suggestion)];
                assert(suggestion_views(suggestions@) =~= seq![
                    SuggestionView::ReplaceWith(first@ + " which"@),
                ]);
                Some(
                    Lint {
                        span,
                        lint_kind: LintKind::Repetition,
                        suggestions,
                        message: String::from_str(
                            "\u{201c}that that\u{201d} sometimes means \u{201c}that which\u{201d}, which is clearer.",
                        ),
                        priority: 126,
                    },
                )
            },
            None => None,
        }
    }

    open spec fn pattern_description_text(&self) -> Seq<char> {
        "Repeating the word \"that\" is often redundant. The phrase `that which` is easier to read."@
    }

    fn description(&self) -> (text: &'static str) {
        "Repeating the word \"that\" is often redundant. The phrase `that which` is easier to read."
    }
}

impl Linter for ThatWhich {
    open spec fn findings(&self, tokens: Seq<Token>, source: Seq<char>) -> Seq<LintView> {
        pattern_findings(self, tokens, source, 0)
    }

    fn lint(&mut self, document: &Document) -> (lints: Vec<Lint>)
        ensures
            lint_views(lints@) == old(self).findings(document@.tokens, document@.source),
    {
        lint_with_pattern(&*self, document)
    }

    open spec fn description_text(&self) -> Seq<char> {
        "Repeating the word \"that\" is often redundant. The phrase `that which` is easier to read."@
    }

    fn description(&self) -> (text: &'static str) {
        "Repeating the word \"that\" is often redundant. The phrase `that which` is easier to read."
    }
}

} // verus!
