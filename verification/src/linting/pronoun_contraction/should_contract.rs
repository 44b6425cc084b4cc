//! The rule against "your" and "were" where "you're" and "we're" are meant.

use vstd::prelude::*;
use crate::document::Document;
use crate::lint::{
    lint_views, matched_case, optional_lint_view, suggestion_views, Lint, LintKind, LintView,
    Suggestion, SuggestionView,
};
use crate::linting::{lint_with_pattern, pattern_findings, Linter, PatternLinter};
use crate::patterns::{
    in_word_set, one_if, sequence_of_three, word_at, word_texts, Pattern, SequencePattern,
};
use crate::text::{ascii_lower_seq, ascii_lowercase, chars_eq, chars_of, eq_ignore_ascii_case};
use crate::token::Token;

verus! {

/// Flags "your" and "were" in front of "the", and proposes the
/// contraction and the two words written out.
#[derive(Debug)]
pub struct ShouldContract {
    pattern: Pattern,
}

/// The two replacements for a mistaken word, in its letter case.
pub open spec fn corrections(
    contracted: Seq<char>,
    separate: Seq<char>,
    mistake: Seq<char>,
) -> Seq<SuggestionView> {
    seq![
        SuggestionView::ReplaceWith(matched_case(contracted, mistake)),
        SuggestionView::ReplaceWith(matched_case(separate, mistake)),
    ]
}

impl ShouldContract {
    /// Where the rule fires: at "your" or "were" in any capitalization,
    /// followed by whitespace and by "the" in any capitalization.
    pub open spec fn fires_at(tokens: Seq<Token>, source: Seq<char>, at: int) -> bool {
        &&& word_at(tokens, source, at) matches Some(text) && (eq_ignore_ascii_case(text, "your"@)
            || eq_ignore_ascii_case(text, "were"@))
        &&& 0 <= at + 1 < tokens.len() && tokens[at + 1].kind.spec_is_whitespace()
        &&& word_at(tokens, source, at + 2) matches Some(text) && eq_ignore_ascii_case(
            text,
            "the"@,
        )
    }

    /// The rule looks for what [`Self::fires_at`] describes, and for
    /// nothing else.
    pub open spec fn is_standard(&self) -> bool {
        forall|tokens: Seq<Token>, source: Seq<char>, at: int|
            #[trigger] self.pattern_view().matches_at(tokens, source, at) == Self::consumed_at(
                tokens,
                source,
                at,
            )
    }

    /// What the rule consumes at `at`: the three tokens where it fires.
    pub open spec fn consumed_at(tokens: Seq<Token>, source: Seq<char>, at: int) -> Option<nat> {
        if Self::fires_at(tokens, source, at) {
            Some(3nat)
        } else {
            None
        }
    }

    /// The replacements for a mistaken word; none for any word but "your"
    /// and "were".
    pub open spec fn replacements(mistake: Seq<char>) -> Option<Seq<SuggestionView>> {
        if ascii_lower_seq(mistake) == "your"@ {
            Some(corrections("you're"@, "you are"@, mistake))
        } else if ascii_lower_seq(mistake) == "were"@ {
            Some(corrections("we're"@, "we are"@, mistake))
        } else {
            None
        }
    }

    /// The finding for a match: the first token, with its replacements.
    pub open spec fn finding(matched: Seq<Token>, source: Seq<char>) -> Option<LintView> {
        match Self::replacements(matched[0].span.content(source)) {
            Some(suggestions) => Some(
                LintView {
                    span: matched[0].span,
                    lint_kind: LintKind::WordChoice,
                    suggestions,
                    message: "Use the contraction or separate the words instead."@,
                    priority: 31,
                },
            ),
            None => None,
        }
    }

    fn mistake_to_correct(mistake: &[char]) -> (out: Option<Vec<Suggestion>>)
        ensures
            out is Some == Self::replacements(mistake@) is Some,
            out matches Some(suggestions) ==> Self::replacements(mistake@) == Some(
                suggestion_views(suggestions@),
            ),
    {
        let lower = ascii_lowercase(mistake);
        if chars_eq(lower.as_slice(), chars_of("your").as_slice()) {
            let suggestions = vec![
                Suggestion::replace_with_match_case(chars_of("you're"), mistake),
                Suggestion::replace_with_match_case(chars_of("you are"), mistake),
            ];
            assert(suggestion_views(suggestions@) =~= corrections(
                "you're"@,
                "you are"@,
                mistake@,
            ));
            Some(suggestions)
        } else if chars_eq(lower.as_slice(), chars_of("were").as_slice()) {
            let suggestions = vec![
                Suggestion::replace_with_match_case(chars_of("we're"), mistake),
                Suggestion::replace_with_match_case(chars_of("we are"), mistake),
            ];
            assert(suggestion_views(suggestions@) =~= corrections(
                "we're"@,
                "we are"@,
                mistake@,
            ));
            Some(suggestions)
        } else {
            None
        }
    }
}

impl Default for ShouldContract {
    fn default() -> (out: Self)
        ensures
            out.is_standard(),
    {
        let words = ["your", "were"];
        let chain = SequencePattern::new().then_pattern(
            Pattern::word_set(words.as_slice()),
        ).then_whitespace().then_any_capitalization_of("the");
        let ghost steps = chain.token_patterns@;
        let pattern = chain.into_pattern();
        proof {
            let two = steps.drop_last();
            assert(steps.len() == 3);
            assert(steps[0] == two[0]);
            assert(steps[1] == two[1]);
            assert(steps[1] == Pattern::Whitespace);
            assert(steps[0].is_word_set(seq!["your"@, "were"@])) by {
                assert(words@.map_values(|w: &str| w@) =~= seq!["your"@, "were"@]);
            }
            assert(steps[2].is_any_capitalization_of("the"@));
        }
        let out = ShouldContract { pattern };
        assert forall|tokens: Seq<Token>, source: Seq<char>, at: int|
            #[trigger] out.pattern_view().matches_at(tokens, source, at)
                == ShouldContract::consumed_at(tokens, source, at) by {
            sequence_of_three(out.pattern, tokens, source, at);
            let set = steps[0]->WordSet_0@;
            assert(word_texts(set) == seq!["your"@, "were"@]);
            assert(word_texts(set).len() == set.len());
            assert(seq!["your"@, "were"@].len() == 2);
            assert(set.len() == 2);
            assert(set[0]@ == word_texts(set)[0]);
            assert(set[1]@ == word_texts(set)[1]);
            assert forall|text: Seq<char>|
                in_word_set(set, text) == (eq_ignore_ascii_case(text, "your"@)
                    || eq_ignore_ascii_case(text, "were"@)) by {
                if eq_ignore_ascii_case(text, "your"@) {
                    assert(eq_ignore_ascii_case(text, set[0]@));
                }
                if eq_ignore_ascii_case(text, "were"@) {
                    assert(eq_ignore_ascii_case(text, set[1]@));
                }
            }
            assert(steps[0].matches_at(tokens, source, at) == one_if(
                word_at(tokens, source, at) matches Some(text) && in_word_set(set, text),
            ));
            assert(steps[1].matches_at(tokens, source, at + 1) == one_if(
                0 <= at + 1 < tokens.len() && tokens[at + 1].kind.spec_is_whitespace(),
            ));
            assert(steps[2].matches_at(tokens, source, at + 2) == one_if(
                word_at(tokens, source, at + 2) matches Some(text) && eq_ignore_ascii_case(
                    text,
                    "the"@,
                ),
            ));
        }
        out
    }
}

impl PatternLinter for ShouldContract {
    closed spec fn pattern_view(&self) -> Pattern {
        self.pattern
    }

    fn pattern(&self) -> (pattern: &Pattern)
        ensures
            *pattern == self.pattern_view(),
    {
        &self.pattern
    }

    open spec fn lint_for(&self, matched: Seq<Token>, source: Seq<char>) -> Option<LintView> {
        ShouldContract::finding(matched, source)
    }

    fn match_to_lint(&self, matched_tokens: &[Token], source: &[char]) -> (lint: Option<Lint>)
        ensures
            optional_lint_view(lint) == ShouldContract::finding(matched_tokens@, source@),
    {
        let mistake = matched_tokens[0].span.get_content(source);
        match ShouldContract::mistake_to_correct(mistake) {
            Some(suggestions) => Some(
                Lint {
                    span: matched_tokens[0].span,
                    lint_kind: LintKind::WordChoice,
                    suggestions,
                    message: String::from_str("Use the contraction or separate the words instead."),
                    priority: 31,
                },
            ),
            None => None,
        }
    }

    open spec fn pattern_description_text(&self) -> Seq<char> {
        "Neglecting the apostrophe when contracting pronouns with \"are\" (like \"your\" and \"you are\") is a fatal, but extremely common mistake to make."@
    }

    fn description(&self) -> (text: &'static str) {
        "Neglecting the apostrophe when contracting pronouns with \"are\" (like \"your\" and \"you are\") is a fatal, but extremely common mistake to make."
    }
}

impl Linter for ShouldContract {
    open spec fn findings(&self, tokens: Seq<Token>, source: Seq<char>) -> Seq<LintView> {
        pattern_findings(self, tokens, source, 0)
    }

    fn lint(&mut self, document: &Document) -> (lints: Vec<Lint>)
        ensures
            lint_views(lints@) == old(self).findings(document@.tokens, document@.source),
    {
        lint_with_pattern(&*self, document)
    }

    open spec fn description_text(&self) -> Seq<char> {
        "Neglecting the apostrophe when contracting pronouns with \"are\" (like \"your\" and \"you are\") is a fatal, but extremely common mistake to make."@
    }

    fn description(&self) -> (text: &'static str) {
        "Neglecting the apostrophe when contracting pronouns with \"are\" (like \"your\" and \"you are\") is a fatal, but extremely common mistake to make."
    }
}

} // verus!
