use harper_api::distance::find_best_window;
use harper_api::lexer::{classify, lex, next_token, CharClass};
use harper_api::lint::extend_chars;
use harper_api::paragraphs::{find_break, split_paragraph_chars};
use harper_api::prompt::{find_first, find_last};
use harper_api::lines::{find_containing, split_lines};
use harper_api::report::{format_entry, is_listed};
use harper_api::text::{push_chars, push_decimal};
use harper_api::{
    run_linters, tokenize, Lint, LintGroup, LintKind, Rule, Span, ThatWhich, TokenKind,
    UnclosedQuotes, WordList, WordMetadata,
};

fn chars(text: &str) -> Vec<char> {
    text.chars().collect()
}

#[test]
fn characters_fall_into_classes() {
    assert_eq!(classify('a'), CharClass::Letter);
    assert_eq!(classify('Z'), CharClass::Letter);
    assert_eq!(classify('\u{e9}'), CharClass::Letter);
    assert_eq!(classify('7'), CharClass::Digit);
    assert_eq!(classify('\''), CharClass::Apostrophe);
    assert_eq!(classify('\u{2019}'), CharClass::Apostrophe);
    assert_eq!(classify(' '), CharClass::Blank);
    assert_eq!(classify('\t'), CharClass::Blank);
    assert_eq!(classify('\r'), CharClass::Blank);
    assert_eq!(classify('\u{a0}'), CharClass::Blank);
    assert_eq!(classify('\n'), CharClass::LineFeed);
    assert_eq!(classify('"'), CharClass::QuoteMark);
    assert_eq!(classify('\u{201c}'), CharClass::QuoteMark);
    assert_eq!(classify('\u{201d}'), CharClass::QuoteMark);
    assert_eq!(classify('.'), CharClass::Symbol);
    assert_eq!(classify('_'), CharClass::Symbol);
    assert_eq!(classify('\u{2014}'), CharClass::Symbol);
    assert_eq!(classify('\u{2026}'), CharClass::Symbol);
    assert_eq!(classify('\u{0}'), CharClass::Symbol);
}

#[test]
fn tokens_are_read_one_by_one() {
    let source = chars("don't  stop");
    let words = WordList::new();
    let first = next_token(&source, &words, 0);
    assert_eq!((first.kind, first.span), (TokenKind::Word(None), Span::new(0, 5)));
    let second = next_token(&source, &words, 5);
    assert_eq!((second.kind, second.span), (TokenKind::Space(2), Span::new(5, 7)));
    let inside = next_token(&source, &words, 3);
    assert_eq!(inside.span, Span::new(3, 4));
    let all = lex(&source, &words);
    assert_eq!(all.len(), 3);
    assert_eq!(all[2].span, Span::new(7, 11));
}

#[test]
fn tokenizing_is_the_making_of_a_document() {
    let mut words = WordList::new();
    words.add_word("stop", WordMetadata::from_letters("nv"));
    let document = tokenize("\"Stop\"", &words);
    let kinds: Vec<TokenKind> = document.tokens().iter().map(|t| t.kind).collect();
    assert_eq!(kinds.len(), 3);
    assert_eq!(kinds[0].twin(), Some(2));
    assert_eq!(kinds[2].twin(), Some(0));
    assert_eq!(
        kinds[1],
        TokenKind::Word(Some(WordMetadata { noun: true, verb: true, ..WordMetadata::none() }))
    );
    assert!(kinds[1].is_likely_homograph());
}

#[test]
fn letters_name_the_parts_of_speech() {
    assert_eq!(WordMetadata::from_letters(""), WordMetadata::none());
    assert_eq!(
        WordMetadata::from_letters("npvjrcdi"),
        WordMetadata {
            noun: true,
            pronoun: true,
            verb: true,
            adjective: true,
            adverb: true,
            conjunction: true,
            determiner: true,
            preposition: true,
        }
    );
    assert_eq!(
        WordMetadata::from_letters("xd?d"),
        WordMetadata { determiner: true, ..WordMetadata::none() }
    );
    assert!(WordMetadata::from_letters("p").is_nominal());
    assert!(!WordMetadata::from_letters("p").is_likely_homograph());
    assert!(WordMetadata::from_letters("rj").is_likely_homograph());
    assert!(!WordMetadata::from_letters("rj").is_nominal());
}

#[test]
fn registry_is_run_over_a_document() {
    let document = tokenize("that that \"", &WordList::new());
    let mut registry = LintGroup::new("Both.");
    registry.add("that", Rule::ThatWhich(ThatWhich::default()));
    registry.add("quotes", Rule::UnclosedQuotes(UnclosedQuotes));
    let lints = run_linters(&document, &registry);
    let kinds: Vec<LintKind> = lints.iter().map(|l| l.lint_kind).collect();
    assert_eq!(kinds, vec![LintKind::Repetition, LintKind::Formatting]);
    assert_eq!(Rule::UnclosedQuotes(UnclosedQuotes).run(&document).len(), 1);
}

#[test]
fn blank_line_breaks_are_found() {
    let text = chars("ab\n\ncd\nef\n\n");
    assert_eq!(find_break(&text, 0), 2);
    assert_eq!(find_break(&text, 2), 2);
    assert_eq!(find_break(&text, 3), 9);
    assert_eq!(find_break(&text, 10), 11);
    assert_eq!(find_break(&text, 11), 11);
    let parts: Vec<String> =
        split_paragraph_chars(&text).iter().map(|p| p.iter().collect()).collect();
    assert_eq!(parts, vec!["ab".to_string(), "cd\nef".to_string()]);
}

#[test]
fn first_and_last_occurrence_are_found() {
    let text = chars("a{b}{c}d");
    assert_eq!(find_first(&text, '{'), Some(1));
    assert_eq!(find_last(&text, '}'), Some(6));
    assert_eq!(find_last(&text, '{'), Some(4));
    assert_eq!(find_first(&text, 'x'), None);
    assert_eq!(find_last(&text, 'x'), None);
    assert_eq!(find_first(&[], 'x'), None);
}

#[test]
fn closest_window_and_its_distance() {
    assert_eq!(find_best_window("the quick brown fox", "quick"), (4, 0));
    assert_eq!(find_best_window("the quick brown fox", "quack"), (4, 1));
    assert_eq!(find_best_window("abcabd", "abd"), (3, 0));
    assert_eq!(find_best_window("abcabc", "abd"), (0, 1));
    assert_eq!(find_best_window("xyz", "abc"), (0, 3));
    assert_eq!(find_best_window("abc", ""), (0, 0));
    assert_eq!(find_best_window("flaw lawn", "lawn"), (5, 0));
    assert_eq!(find_best_window("sitting", "kitten"), (0, 2));
}

#[test]
fn buffers_grow_by_what_is_pushed() {
    let mut text = String::from("n = ");
    push_chars(&mut text, &chars("4\u{b2}"));
    assert_eq!(text, "n = 4\u{b2}");
    let mut buffer = chars("(");
    push_decimal(&mut buffer, 120);
    extend_chars(&mut buffer, &chars(") "));
    push_decimal(&mut buffer, 0);
    assert_eq!(buffer, chars("(120) 0"));
}

#[test]
fn terms_are_listed_exactly() {
    let terms = vec!["very".to_string(), "".to_string(), "\u{e9}t\u{e9}".to_string()];
    assert!(is_listed(&terms, "very"));
    assert!(is_listed(&terms, ""));
    assert!(is_listed(&terms, "\u{e9}t\u{e9}"));
    assert!(!is_listed(&terms, "Very"));
    assert!(!is_listed(&terms, "ver"));
    assert!(!is_listed(&vec![], "very"));
}

#[test]
fn entry_is_made_unless_the_finding_is_to_be_left_out() {
    let source = chars(" a s\nb");
    let paragraphs = split_lines(&source);
    let lint = |kind, start, end| Lint {
        span: Span::new(start, end),
        lint_kind: kind,
        suggestions: vec![],
        message: String::new(),
        priority: 0,
    };
    let entry = format_entry(&lint(LintKind::Style, 3, 4), &source, &paragraphs, false).unwrap();
    assert_eq!((entry.start, entry.length, entry.end), (2, 1, 3));
    assert_eq!(entry.paragraph_key, "1");
    assert_eq!(entry.paragraph, "a s");
    assert_eq!(entry.string, "s");
    assert_eq!(entry.kind, "Style");
    assert!(entry.suggestions.recommendation.is_empty());
    assert_eq!(format_entry(&lint(LintKind::Style, 3, 4), &source, &paragraphs, true), None);
    assert_eq!(format_entry(&lint(LintKind::Spelling, 3, 4), &source, &paragraphs, false), None);
    assert_eq!(format_entry(&lint(LintKind::Style, 0, 2), &source, &paragraphs, false), None);
    assert_eq!(format_entry(&lint(LintKind::Style, 3, 6), &source, &paragraphs, false), None);
    assert_eq!(format_entry(&lint(LintKind::Style, 5, 7), &source, &paragraphs, false), None);
    let second = format_entry(&lint(LintKind::Spelling, 5, 6), &source, &paragraphs, false).unwrap();
    assert_eq!((second.paragraph_key.as_str(), second.start, second.end), ("2", 0, 1));
    let empty = format_entry(&lint(LintKind::Spelling, 2, 2), &source, &paragraphs, false).unwrap();
    assert_eq!((empty.start, empty.length, empty.end, empty.string.as_str()), (1, 0, 1, ""));
}

#[test]
fn first_paragraph_that_holds_the_span_is_found() {
    let source = chars("ab cd\n\n  ef");
    let paragraphs = split_lines(&source);
    assert_eq!(find_containing(&paragraphs, Span::new(3, 5)).map(|p| p.key), Some(1));
    assert_eq!(find_containing(&paragraphs, Span::new(9, 11)).map(|p| (p.key, p.start_offset)), Some((3, 9)));
    assert_eq!(find_containing(&paragraphs, Span::new(8, 10)).map(|p| p.key), None);
    assert_eq!(find_containing(&paragraphs, Span::new(4, 6)).map(|p| p.key), None);
    assert_eq!(find_containing(&paragraphs, Span::new(5, 5)).map(|p| p.key), Some(1));
    assert_eq!(find_containing(&vec![], Span::new(0, 0)).map(|p| p.key), None);
}
