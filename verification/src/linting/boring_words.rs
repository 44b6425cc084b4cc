//! The rule against overused words.

use vstd::prelude::*;
use crate::document::Document;
use crate::lint::{
    lint_views, optional_lint_view, suggestion_views, Lint, LintKind, LintView, Suggestion,
    SuggestionView,
};
use crate::linting::{lint_with_pattern, pattern_findings, Linter, PatternLinter};
use crate::patterns::{
    exact_word_group_matches, files_exact_words, files_exact_words_grows, listed_from, one_if,
    word_at, Pattern, WordPatternGroup,
};
use crate::text::push_chars;
use crate::token::{contiguous_ordered, covering_span, span_of, Token};

verus! {

/// Flags a fixed list of overused words.
#[derive(Debug)]
pub struct BoringWords {
    pattern: Pattern,
}

/// The words that the rule flags, as they must be written.
pub open spec fn boring_words() -> Seq<Seq<char>> {
    seq!["very"@, "interesting"@, "several"@, "most"@, "many"@]
}

/// The message for a flagged word.
pub open spec fn boring_word_message(word: Seq<char>) -> Seq<char> {
    "\u{201c}"@ + word + "\u{201d} is a boring word. Try something a little more exotic."@
}

impl BoringWords {
    /// Where the rule fires: at a word written like one of the list.
    pub open spec fn fires_at(tokens: Seq<Token>, source: Seq<char>, at: int) -> bool {
        word_at(tokens, source, at) matches Some(text) && listed_from(boring_words(), text, 0)
    }

    /// The rule looks for what [`Self::fires_at`] describes, and for
    /// nothing else.
    pub open spec fn is_standard(&self) -> bool {
        forall|tokens: Seq<Token>, source: Seq<char>, at: int|
            #[trigger] self.pattern_view().matches_at(tokens, source, at) == Self::consumed_at(
                tokens,
                source,
                at,
            )
    }

    /// What the rule consumes at `at`: the one token where it fires.
    pub open spec fn consumed_at(tokens: Seq<Token>, source: Seq<char>, at: int) -> Option<nat> {
        one_if(Self::fires_at(tokens, source, at))
    }

    /// The finding for a match: the span of the matched tokens, with their
    /// text in the message.
    pub open spec fn finding(matched: Seq<Token>, source: Seq<char>) -> Option<LintView> {
        match covering_span(matched) {
            Some(span) => Some(
                LintView {
                    span,
                    lint_kind: LintKind::Enhancement,
                    suggestions: Seq::empty(),
                    message: boring_word_message(span.content(source)),
                    priority: 127,
                },
            ),
            None => None,
        }
    }
}

impl Default for BoringWords {
    fn default() -> (out: Self)
        ensures
            out.is_standard(),
    {
        let mut group = WordPatternGroup::new();
        let ghost empty = group.patterns@;
        assert(files_exact_words(empty, Seq::empty()));
        group.add_word("very");
        let ghost one = group.patterns@;
        group.add_word("interesting");
        let ghost two = group.patterns@;
        group.add_word("several");
        let ghost three = group.patterns@;
        group.add_word("most");
        let ghost four = group.patterns@;
        group.add_word("many");
        let ghost rules = group.patterns@;
        proof {
            let none = Seq::<Seq<char>>::empty();
            files_exact_words_grows(empty, one, none, "very"@);
            files_exact_words_grows(one, two, none.push("very"@), "interesting"@);
            files_exact_words_grows(
                two,
                three,
                none.push("very"@).push("interesting"@),
                "several"@,
            );
            files_exact_words_grows(
                three,
                four,
                none.push("very"@).push("interesting"@).push("several"@),
                "most"@,
            );
            files_exact_words_grows(
                four,
                rules,
                none.push("very"@).push("interesting"@).push("several"@).push("most"@),
                "many"@,
            );
            assert(none.push("very"@).push("interesting"@).push("several"@).push("most"@).push(
                "many"@,
            ) =~= boring_words());
        }
        let out = BoringWords { pattern: group.into_pattern() };
        assert forall|tokens: Seq<Token>, source: Seq<char>, at: int|
            #[trigger] out.pattern_view().matches_at(tokens, source, at)
                == BoringWords::consumed_at(tokens, source, at) by {
            match word_at(tokens, source, at) {
                Some(text) => {
                    exact_word_group_matches(rules, boring_words(), tokens, source, at, text, 0);
                },
                None => {},
            }
        }
        out
    }
}

impl PatternLinter for BoringWords {
    closed spec fn pattern_view(&self) -> Pattern {
        self.pattern
    }

    fn pattern(&self) -> (pattern: &Pattern)
        ensures
            *pattern == self.pattern_view(),
    {
        &self.pattern
    }

    open spec fn lint_for(&self, matched: Seq<Token>, source: Seq<char>) -> Option<LintView> {
        BoringWords::finding(matched, source)
    }

    fn match_to_lint(&self, matched_tokens: &[Token], source: &[char]) -> (lint: Option<Lint>)
        ensures
            optional_lint_view(lint) == BoringWords::finding(matched_tokens@, source@),
    {
        match span_of(matched_tokens) {
            Some(span) => {
                proof {
                    if matched_tokens@.len() > 1 {
                        contiguous_ordered(
                            matched_tokens@,
                            source@.len(),
                            0,
                            matched_tokens@.len() - 1,
                        );
                    }
                }
                let matched_word = span.get_content(source);
                let mut message = String::from_str("\u{201c}");
                push_chars(&mut message, matched_word);
                message.append("\u{201d} is a boring word. Try something a little more exotic.");
                let suggestions: Vec<Suggestion> = Vec::new();
                assert(suggestion_views(suggestions@) =~= Seq::<SuggestionView>::empty());
                Some(
                    Lint {
                        span,
                        lint_kind: LintKind::Enhancement,
                        suggestions,
                        message,
                        priority: 127,
                    },
                )
            },
            None => None,
        }
    }

    open spec fn pattern_description_text(&self) -> Seq<char> {
        "This rule looks for particularly boring or overused words. Using varied language is an easy way to keep a reader's attention."@
    }

    fn description(&self) -> (text: &'static str) {
        "This rule looks for particularly boring or overused words. Using varied language is an easy way to keep a reader's attention."
    }
}

impl Linter for BoringWords {
    open spec fn findings(&self, tokens: Seq<Token>, source: Seq<char>) -> Seq<LintView> {
        pattern_findings(self, tokens, source, 0)
    }

    fn lint(&mut self, document: &Document) -> (lints: Vec<Lint>)
        ensures
            lint_views(lints@) == old(self).findings(document@.tokens, document@.source),
    {
        lint_with_pattern(&*self, document)
    }

    open spec fn description_text(&self) -> Seq<char> {
        "This rule looks for particularly boring or overused words. Using varied language is an easy way to keep a reader's attention."@
    }

    fn description(&self) -> (text: &'static str) {
        "This rule looks for particularly boring or overused words. Using varied language is an easy way to keep a reader's attention."
    }
}

} // verus!
