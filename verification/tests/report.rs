use harper_api::comb::{CombinedAnalysisRequest, CombinedAnalysisResponse};
use harper_api::dictionary::WordList;
use harper_api::lint::{Lint, LintKind, Suggestion};
use harper_api::linting::lint_group::LintGroup;
use harper_api::lines::split_lines;
use harper_api::reading_order::{reading_key, sort_in_reading_order};
use harper_api::report::{
    format_all, lint_report, lint_text, FormattedLintOutput, LintRequest, Suggestions,
};
use harper_api::span::Span;
use harper_api::token::WordMetadata;

fn chars(text: &str) -> Vec<char> {
    text.chars().collect()
}

fn lint(kind: LintKind, start: usize, end: usize) -> Lint {
    Lint {
        span: Span::new(start, end),
        lint_kind: kind,
        suggestions: vec![Suggestion::ReplaceWith(chars("x")), Suggestion::Remove],
        message: String::new(),
        priority: 0,
    }
}

fn words() -> WordList {
    let mut words = WordList::new();
    words.add_word("car", WordMetadata { noun: true, ..WordMetadata::none() });
    words
}

fn request(text: &str, ignore: &[&str]) -> LintRequest {
    LintRequest { text: text.to_string(), ignore: ignore.iter().map(|s| s.to_string()).collect() }
}

fn places(outputs: &[FormattedLintOutput]) -> Vec<(&str, usize, usize, &str)> {
    outputs.iter().map(|o| (o.paragraph_key.as_str(), o.start, o.end, o.string.as_str())).collect()
}

#[test]
fn lines_that_are_not_blank_are_paragraphs() {
    let source = chars("  First line \n\n\tSecond\n   \nlast");
    let paragraphs = split_lines(&source);
    let found: Vec<(usize, String, usize)> =
        paragraphs.iter().map(|p| (p.key, p.text.iter().collect(), p.start_offset)).collect();
    assert_eq!(found, vec![
        (1, "First line".to_string(), 2),
        (3, "Second".to_string(), 16),
        (5, "last".to_string(), 27),
    ]);
    assert!(split_lines(&chars("")).is_empty());
    assert!(split_lines(&chars("\n \n")).is_empty());
}

#[test]
fn findings_are_reported_relative_to_their_line() {
    let source = chars("  A very long day.\nSo that that it is.");
    let outputs = lint_report(
        vec![lint(LintKind::Repetition, 22, 31), lint(LintKind::Enhancement, 4, 8)],
        &source,
        &vec![],
    );
    assert_eq!(outputs.len(), 2);
    assert_eq!(outputs[0], FormattedLintOutput {
        start: 2,
        length: 4,
        end: 6,
        paragraph_key: "1".to_string(),
        paragraph: "A very long day.".to_string(),
        string: "very".to_string(),
        kind: "Enhancement".to_string(),
        suggestions: Suggestions {
            recommendation: vec!["Replace with: \u{201c}x\u{201d}".to_string(), "Remove error".to_string()],
        },
    });
    assert_eq!(places(&outputs)[1], ("2", 3, 12, "that that"));
    assert_eq!(outputs[1].kind, "Repetition");
    assert_eq!(outputs[1].paragraph, "So that that it is.");
}

#[test]
fn report_is_in_reading_order() {
    let mut text = String::new();
    for _ in 0..12 {
        text.push_str("it is very very many\n");
    }
    let outputs = lint_text(&request(&text, &[]), &words(), &mut LintGroup::new_curated());
    assert_eq!(outputs.len(), 36);
    let keys: Vec<(usize, usize)> = outputs.iter().map(reading_key).collect();
    for pair in keys.windows(2) {
        assert!(pair[0] <= pair[1]);
    }
    assert_eq!(keys[0], (1, 6));
    assert_eq!(keys[35], (12, 16));
    assert_eq!(outputs[27].paragraph_key, "10");
    assert_eq!(outputs[5].paragraph_key, "2");
}

#[test]
fn heavier_finding_of_a_later_line_is_not_moved_forward() {
    let source = chars("very nice\nthat that\nYou're car");
    let outputs = lint_report(
        vec![
            lint(LintKind::WordChoice, 20, 26),
            lint(LintKind::Enhancement, 0, 4),
            lint(LintKind::Repetition, 10, 19),
        ],
        &source,
        &vec![],
    );
    assert_eq!(places(&outputs), vec![("1", 0, 4, "very"), ("2", 0, 9, "that that"), ("3", 0, 6, "You're")]);
}

#[test]
fn ignored_text_is_left_out_whatever_its_case() {
    let text = "A Very good car and many more.";
    let all = lint_text(&request(text, &[]), &words(), &mut LintGroup::new_curated());
    assert_eq!(places(&all), vec![("1", 20, 24, "many")]);
    let text = "A very good car and many more.";
    let all = lint_text(&request(text, &[]), &words(), &mut LintGroup::new_curated());
    assert_eq!(places(&all), vec![("1", 2, 6, "very"), ("1", 20, 24, "many")]);
    let some = lint_text(&request(text, &["VERY", "more"]), &words(), &mut LintGroup::new_curated());
    assert_eq!(places(&some), vec![("1", 20, 24, "many")]);
    let none = lint_text(&request(text, &["Many", "very"]), &words(), &mut LintGroup::new_curated());
    assert!(none.is_empty());
    let accented = lint_report(vec![lint(LintKind::Style, 0, 4)], &chars("\u{c9}T\u{c9}S"), &vec!["\u{e9}t\u{e9}s".to_string()]);
    assert!(accented.is_empty());
}

#[test]
fn ignored_finding_still_beats_what_it_overlaps() {
    let source = chars("some words");
    let outputs = lint_report(
        vec![lint(LintKind::Spelling, 3, 7), lint(LintKind::WordChoice, 0, 4)],
        &source,
        &vec!["some".to_string()],
    );
    assert!(outputs.is_empty());
}

#[test]
fn lone_s_flagged_as_misspelt_is_left_out() {
    let source = chars("it s fine s");
    let outputs = lint_report(
        vec![lint(LintKind::Spelling, 3, 4), lint(LintKind::Style, 10, 11), lint(LintKind::Spelling, 0, 2)],
        &source,
        &vec![],
    );
    assert_eq!(places(&outputs), vec![("1", 0, 2, "it"), ("1", 10, 11, "s")]);
}

#[test]
fn finding_outside_every_line_is_left_out() {
    let source = chars("ab \ncd");
    let outputs = lint_report(
        vec![
            lint(LintKind::Style, 1, 5),
            lint(LintKind::Spelling, 5, 9),
            lint(LintKind::Repetition, 2, 3),
            lint(LintKind::WordChoice, 0, 2),
        ],
        &source,
        &vec![],
    );
    assert_eq!(places(&outputs), vec![("1", 0, 2, "ab")]);
}

#[test]
fn linting_twice_gives_the_same_report() {
    let text = "You're car is very \"nice.\nSo that that is many.\n\nWere the best.";
    let mut rules = LintGroup::new_curated();
    let first = lint_text(&request(text, &["nice"]), &words(), &mut rules);
    let second = lint_text(&request(text, &["nice"]), &words(), &mut rules);
    assert_eq!(first, second);
    assert_eq!(places(&first), vec![
        ("1", 0, 6, "You're"),
        ("1", 14, 18, "very"),
        ("1", 19, 20, "\""),
        ("2", 3, 12, "that that"),
        ("2", 16, 20, "many"),
        ("4", 0, 4, "Were"),
    ]);
}

#[test]
fn overlapping_findings_of_rules_are_resolved_in_the_report() {
    let source = chars("You're car");
    let outputs = lint_report(
        vec![lint(LintKind::Spelling, 0, 6), lint(LintKind::WordChoice, 0, 6)],
        &source,
        &vec![],
    );
    assert_eq!(outputs.len(), 1);
    assert_eq!(outputs[0].kind, "Word Choice");
}

#[test]
fn combined_request_asks_both_analyses_for_the_same_text() {
    let request = CombinedAnalysisRequest { text: "Some text.".to_string() };
    let lint_request = request.lint_request();
    assert_eq!(lint_request.text, "Some text.");
    assert!(lint_request.ignore.is_empty());
    assert_eq!(request.analyze_request().text, "Some text.");
}

#[test]
fn failed_analysis_contributes_nothing() {
    let source = chars("very");
    let lints = lint_report(vec![lint(LintKind::Enhancement, 0, 4)], &source, &vec![]);
    let response = CombinedAnalysisResponse::new(Some(lints.clone()), None);
    assert_eq!(response.lint_results(), &lints);
    assert!(response.ai_results().is_empty());
    let response = CombinedAnalysisResponse::new(None, None);
    assert!(response.lint_results().is_empty());
    let (lint_results, ai_results) = CombinedAnalysisResponse::new(Some(lints.clone()), Some(vec![])).into_parts();
    assert_eq!(lint_results, lints);
    assert!(ai_results.is_empty());
}

fn entry(key: &str, start: usize, string: &str) -> FormattedLintOutput {
    FormattedLintOutput {
        start,
        length: 1,
        end: start + 1,
        paragraph_key: key.to_string(),
        paragraph: String::new(),
        string: string.to_string(),
        kind: "Style".to_string(),
        suggestions: Suggestions { recommendation: vec![] },
    }
}

#[test]
fn sorting_is_by_paragraph_number_then_start_and_keeps_ties() {
    let sorted = sort_in_reading_order(vec![
        entry("10", 0, "a"),
        entry("2", 5, "b"),
        entry("2", 1, "c"),
        entry("x", 9, "d"),
        entry("2", 5, "e"),
        entry("1", 7, "f"),
        entry("", 3, "g"),
        entry("2", 1, "h"),
        entry("+2", 0, "i"),
        entry("002", 6, "j"),
    ]);
    let order: Vec<&str> = sorted.iter().map(|e| e.string.as_str()).collect();
    assert_eq!(order, vec!["g", "d", "f", "i", "c", "h", "b", "e", "j", "a"]);
    assert_eq!(reading_key(&sorted[0]), (0, 3));
    assert_eq!(reading_key(&sorted[9]), (10, 0));
    assert!(sort_in_reading_order(vec![]).is_empty());
}

#[test]
fn entries_are_made_in_the_order_of_the_findings() {
    let source = chars("that that\nvery nice");
    let entries = format_all(
        &vec![lint(LintKind::Enhancement, 10, 14), lint(LintKind::Repetition, 0, 9), lint(LintKind::Style, 8, 12)],
        &source,
        &vec!["THAT THAT".to_string()],
    );
    assert_eq!(places(&entries), vec![("2", 0, 4, "very")]);
    let entries = format_all(
        &vec![lint(LintKind::Enhancement, 10, 14), lint(LintKind::Repetition, 0, 9)],
        &source,
        &vec![],
    );
    assert_eq!(places(&entries), vec![("2", 0, 4, "very"), ("1", 0, 9, "that that")]);
}
