use harper_api::dictionary::WordList;
use harper_api::document::Document;
use harper_api::lint::{LintKind, Suggestion};
use harper_api::linting::that_which::ThatWhich;
use harper_api::linting::Linter;
use harper_api::span::Span;

fn count_lints(text: &str, mut linter: impl Linter) -> usize {
    let document = Document::new(text, &WordList::new());
    linter.lint(&document).len()
}

#[test]
fn catches_lowercase() {
    assert_eq!(
        count_lints("To reiterate, that that is cool is not uncool.", ThatWhich::default()),
        1
    );
}

#[test]
fn catches_different_cases() {
    assert_eq!(count_lints("That that is cool is not uncool.", ThatWhich::default()), 1);
}

#[test]
fn likes_correction() {
    assert_eq!(
        count_lints("To reiterate, that which is cool is not uncool.", ThatWhich::default()),
        0
    );
}

#[test]
fn doubled_that_is_one_repetition_with_its_replacement() {
    let document = Document::new("That that is cool is not uncool.", &WordList::new());
    let lints = ThatWhich::default().lint(&document);
    assert_eq!(lints.len(), 1);
    assert_eq!(lints[0].span, Span { start: 0, end: 9 });
    assert_eq!(lints[0].lint_kind, LintKind::Repetition);
    assert_eq!(lints[0].priority, 126);
    assert_eq!(
        lints[0].suggestions,
        vec![Suggestion::ReplaceWith("That which".chars().collect())]
    );
}

#[test]
fn shouted_that_is_not_filed() {
    assert_eq!(count_lints("THAT that is cool.", ThatWhich::default()), 0);
    assert_eq!(count_lints("that THAT is cool.", ThatWhich::default()), 1);
}
