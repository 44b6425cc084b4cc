use harper_api::dictionary::WordList;
use harper_api::document::Document;
use harper_api::lint::{Lint, LintKind, Suggestion};
use harper_api::linting::boring_words::BoringWords;
use harper_api::linting::lint_group::{LintGroup, Rule};
use harper_api::linting::pronoun_contraction::avoid_contraction::AvoidContraction;
use harper_api::linting::pronoun_contraction::should_contract::ShouldContract;
use harper_api::linting::pronoun_contraction::PronounContraction;
use harper_api::linting::that_which::ThatWhich;
use harper_api::linting::unclosed_quotes::UnclosedQuotes;
use harper_api::linting::{lint_with_pattern, Linter, PatternLinter};
use harper_api::patterns::{Pattern, SequencePattern, TokenTest, WordPatternGroup};
use harper_api::span::Span;
use harper_api::token::WordMetadata;

fn chars(text: &str) -> Vec<char> {
    text.chars().collect()
}

fn words() -> WordList {
    let mut words = WordList::new();
    words.add_word("car", WordMetadata { noun: true, ..WordMetadata::none() });
    words.add_word("the", WordMetadata { determiner: true, ..WordMetadata::none() });
    words.add_word("still", WordMetadata { noun: true, adverb: true, ..WordMetadata::none() });
    words
}

fn replacement(text: &str) -> Suggestion {
    Suggestion::ReplaceWith(chars(text))
}

#[test]
fn boring_words_are_flagged_with_their_text() {
    let document = Document::new("A very good and most interesting day, Very nice.", &words());
    let lints = BoringWords::default().lint(&document);
    let spans: Vec<Span> = lints.iter().map(|l| l.span).collect();
    assert_eq!(spans, vec![Span::new(2, 6), Span::new(16, 20), Span::new(21, 32)]);
    assert_eq!(lints[0].message, "\u{201c}very\u{201d} is a boring word. Try something a little more exotic.");
    assert_eq!(lints[2].message, "\u{201c}interesting\u{201d} is a boring word. Try something a little more exotic.");
    for lint in &lints {
        assert_eq!(lint.lint_kind, LintKind::Enhancement);
        assert_eq!(lint.priority, 127);
        assert!(lint.suggestions.is_empty());
    }
}

#[test]
fn unclosed_quote_is_flagged() {
    let document = Document::new("He said \"hi\" and \"bye.", &words());
    let lints = UnclosedQuotes::default().lint(&document);
    assert_eq!(lints.len(), 1);
    assert_eq!(lints[0].span, Span::new(17, 18));
    assert_eq!(lints[0].lint_kind, LintKind::Formatting);
    assert_eq!(lints[0].priority, 255);
    assert_eq!(lints[0].message, "This quote has no termination.");
    assert!(lints[0].suggestions.is_empty());
    assert!(UnclosedQuotes.lint(&Document::new("\"a\" \u{201c}b\u{201d}", &words())).is_empty());
}

#[test]
fn misplaced_contraction_is_flagged_on_the_contraction() {
    let document = Document::new("YOU'RE car and you're still here", &words());
    let lints = AvoidContraction::default().lint(&document);
    assert_eq!(lints.len(), 1);
    assert_eq!(lints[0].span, Span::new(0, 6));
    assert_eq!(lints[0].lint_kind, LintKind::WordChoice);
    assert_eq!(lints[0].priority, 63);
    assert_eq!(lints[0].suggestions, vec![replacement("YOUr")]);
    assert_eq!(lints[0].message, "It appears you intended to use the possessive version of this word");
}

#[test]
fn missing_contraction_gets_both_corrections() {
    let document = Document::new("WERE the best, your The worst, were a few", &words());
    let lints = ShouldContract::default().lint(&document);
    assert_eq!(lints.len(), 2);
    assert_eq!(lints[0].span, Span::new(0, 4));
    assert_eq!(lints[0].suggestions, vec![replacement("WE'Re"), replacement("WE Are")]);
    assert_eq!(lints[1].span, Span::new(15, 19));
    assert_eq!(lints[1].suggestions, vec![replacement("you're"), replacement("you are")]);
    assert_eq!(lints[1].lint_kind, LintKind::WordChoice);
    assert_eq!(lints[1].priority, 31);
    assert_eq!(lints[1].message, "Use the contraction or separate the words instead.");
}

#[test]
fn merged_rule_reports_in_order_of_its_rules() {
    let document = Document::new("You're car, your the man", &words());
    let lints = PronounContraction::default().lint(&document);
    let spans: Vec<Span> = lints.iter().map(|l| l.span).collect();
    assert_eq!(spans, vec![Span::new(12, 16), Span::new(0, 6)]);
}

#[test]
fn scan_goes_on_behind_a_match() {
    let document = Document::new("that that that that that", &words());
    let lints = ThatWhich::default().lint(&document);
    let spans: Vec<Span> = lints.iter().map(|l| l.span).collect();
    assert_eq!(spans, vec![Span::new(0, 9), Span::new(10, 19)]);
    assert_eq!(lints[0].suggestions, vec![replacement("that which")]);
}

#[test]
fn case_of_the_replaced_text_is_kept() {
    assert_eq!(Suggestion::replace_with_match_case(chars("your"), &chars("You're")), replacement("Your"));
    assert_eq!(Suggestion::replace_with_match_case(chars("you are"), &chars("YOUR")), replacement("YOU are"));
    assert_eq!(Suggestion::replace_with_match_case(chars("YoUr"), &chars("ab")), replacement("yoUr"));
    assert_eq!(Suggestion::replace_with_match_case(chars("we"), &chars("")), replacement("we"));
}

#[test]
fn suggestions_edit_the_source() {
    let mut source = chars("You're car is black.");
    replacement("Your").apply(Span::new(0, 6), &mut source);
    assert_eq!(source, chars("Your car is black."));
    Suggestion::InsertAfter(chars(" red")).apply(Span::new(5, 8), &mut source);
    assert_eq!(source, chars("Your car red is black."));
    Suggestion::Remove.apply(Span::new(8, 12), &mut source);
    assert_eq!(source, chars("Your car is black."));
    replacement("").apply(Span::new(0, 5), &mut source);
    assert_eq!(source, chars("car is black."));
    replacement("!").apply(Span::new(12, 13), &mut source);
    assert_eq!(source, chars("car is black!"));
}

#[test]
fn suggestions_and_categories_have_a_text() {
    assert_eq!(replacement("Your").to_string(), "Replace with: \u{201c}Your\u{201d}");
    assert_eq!(Suggestion::InsertAfter(chars(",")).to_string(), "Insert \u{201c},\u{201d}");
    assert_eq!(Suggestion::Remove.to_string(), "Remove error");
    assert_eq!(LintKind::WordChoice.to_string(), "Word Choice");
    assert_eq!(LintKind::Spelling.as_str(), "Spelling");
    assert_eq!(LintKind::Miscellaneous.to_string(), "Miscellaneous");
}

#[test]
fn findings_can_be_copied() {
    let lint = Lint {
        span: Span::new(1, 4),
        lint_kind: LintKind::Style,
        suggestions: vec![replacement("a"), Suggestion::Remove, Suggestion::InsertAfter(chars("b"))],
        message: "m".to_string(),
        priority: 9,
    };
    assert_eq!(lint.duplicate(), lint);
}

#[test]
fn patterns_consume_tokens() {
    let document = Document::new("Little Car  still", &words());
    let tokens = document.tokens();
    let source = document.get_source();
    assert_eq!(Pattern::any_capitalization_of("LITTLE").matches(tokens, source, 0), Some(1));
    assert_eq!(Pattern::exact_word("little").matches(tokens, source, 0), None);
    assert_eq!(Pattern::exact_word("Little").matches(tokens, source, 0), Some(1));
    assert_eq!(Pattern::word_set(&["big", "little"]).matches(tokens, source, 0), Some(1));
    assert_eq!(Pattern::word_set(&["big", "small"]).matches(tokens, source, 0), None);
    assert_eq!(Pattern::Whitespace.matches(tokens, source, 1), Some(1));
    assert_eq!(Pattern::Whitespace.matches(tokens, source, 0), None);
    assert_eq!(Pattern::Test(TokenTest::Word).matches(tokens, source, 2), Some(1));
    assert_eq!(Pattern::Test(TokenTest::Nominal).matches(tokens, source, 2), Some(1));
    assert_eq!(Pattern::Test(TokenTest::UnambiguousNominal).matches(tokens, source, 2), Some(1));
    assert_eq!(Pattern::Test(TokenTest::UnambiguousNominal).matches(tokens, source, 4), None);
    assert_eq!(Pattern::Test(TokenTest::LikelyHomograph).matches(tokens, source, 4), Some(1));
    assert_eq!(Pattern::Test(TokenTest::Nominal).matches(tokens, source, 0), None);
    assert_eq!(Pattern::Whitespace.matches(tokens, source, 5), None);
    assert_eq!(Pattern::Whitespace.matches(tokens, source, 99), None);
}

#[test]
fn chains_and_groups_compose() {
    let document = Document::new("Little Car  still", &words());
    let tokens = document.tokens();
    let source = document.get_source();
    let chain = SequencePattern::aco("little")
        .then_whitespace()
        .then_test(TokenTest::Nominal)
        .then_whitespace()
        .then_exact_word("still")
        .into_pattern();
    assert_eq!(chain.matches(tokens, source, 0), Some(5));
    assert_eq!(chain.matches(tokens, source, 2), None);
    let short = SequencePattern::new().then_any_capitalization_of("car").then_whitespace().into_pattern();
    assert_eq!(short.matches(tokens, source, 2), Some(2));
    assert_eq!(short.matches(tokens, source, 4), None);
    assert_eq!(SequencePattern::new().into_pattern().matches(tokens, source, 0), None);
    let nested = SequencePattern::new()
        .then_pattern(Pattern::exact_word("Little"))
        .then_pattern(Pattern::Whitespace)
        .then_pattern(short)
        .into_pattern();
    assert_eq!(nested.matches(tokens, source, 0), Some(4));
    let mut group = WordPatternGroup::new();
    group.add("Car", SequencePattern::aco("car").then_whitespace().into_pattern());
    group.add("Car", Pattern::exact_word("Car"));
    group.add_word("still");
    let group = group.into_pattern();
    assert_eq!(group.matches(tokens, source, 2), Some(2));
    assert_eq!(group.matches(tokens, source, 4), Some(1));
    assert_eq!(group.matches(tokens, source, 0), None);
    assert_eq!(group.matches(tokens, source, 1), None);
}

#[test]
fn registry_runs_its_rules_in_registration_order() {
    let document = Document::new("You're car is very \"nice, that that", &words());
    let mut group = LintGroup::new("Two rules.");
    group.add("quotes", Rule::UnclosedQuotes(UnclosedQuotes));
    group.add("that", Rule::ThatWhich(ThatWhich::default()));
    assert_eq!(group.len(), 2);
    assert_eq!(group.name_of(0), Some("quotes"));
    assert_eq!(group.name_of(1), Some("that"));
    assert_eq!(group.name_of(2), None);
    assert_eq!(group.description_of(1), Some(Linter::description(&ThatWhich::default())));
    assert_eq!(group.description_of(2), None);
    assert_eq!(Linter::description(&group), "Two rules.");
    let spans: Vec<Span> = group.lint(&document).iter().map(|l| l.span).collect();
    assert_eq!(spans, vec![Span::new(19, 20), Span::new(26, 35)]);
    let by_rule = group.lint_by_rule(&document);
    assert_eq!(by_rule.len(), 2);
    assert_eq!(by_rule[0].len(), 1);
    assert_eq!(by_rule[1].len(), 1);

    let mut curated = LintGroup::new_curated();
    assert_eq!(curated.len(), 4);
    assert_eq!(curated.name_of(0), Some("PronounContraction"));
    let kinds: Vec<LintKind> = curated.lint(&document).iter().map(|l| l.lint_kind).collect();
    assert_eq!(kinds, vec![
        LintKind::WordChoice,
        LintKind::Repetition,
        LintKind::Enhancement,
        LintKind::Formatting,
    ]);
}

#[test]
fn rules_describe_themselves() {
    assert_eq!(
        Linter::description(&UnclosedQuotes),
        "Quotation marks should always be closed. Unpaired quotation marks are a hallmark of sloppy work."
    );
    assert_eq!(
        PatternLinter::description(&ThatWhich::default()),
        "Repeating the word \"that\" is often redundant. The phrase `that which` is easier to read."
    );
    assert_eq!(
        PatternLinter::description(&BoringWords::default()),
        "This rule looks for particularly boring or overused words. Using varied language is an easy way to keep a reader's attention."
    );
    assert_eq!(
        PatternLinter::description(&AvoidContraction::default()),
        "This rule looks for situations where a contraction was used where it shouldn't have been."
    );
    assert_eq!(
        Linter::description(&PronounContraction::default()),
        "Choosing when to contract pronouns is a challenging art. This rule looks for faults."
    );
    assert_eq!(Rule::BoringWords(BoringWords::default()).describe(), Linter::description(&BoringWords::default()));
}

#[test]
fn pattern_rule_runs_through_the_engine() {
    let document = Document::new("that that", &words());
    let rule = ThatWhich::default();
    assert_eq!(rule.pattern().matches(document.tokens(), document.get_source(), 0), Some(3));
    let lints = lint_with_pattern(&rule, &document);
    assert_eq!(lints.len(), 1);
    assert_eq!(rule.match_to_lint(document.tokens(), document.get_source()), Some(lints[0].duplicate()));
}
