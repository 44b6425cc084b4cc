use harper_api::lint::{Lint, LintKind};
use harper_api::resolve::{
    accept_in_order, get_priority, resolve_conflicts, sort_by_rank, LintKindPriority,
};
use harper_api::span::Span;

fn lint(kind: LintKind, start: usize, end: usize, message: &str) -> Lint {
    Lint {
        span: Span::new(start, end),
        lint_kind: kind,
        suggestions: vec![],
        message: message.to_string(),
        priority: 0,
    }
}

fn messages(lints: &[Lint]) -> Vec<&str> {
    lints.iter().map(|l| l.message.as_str()).collect()
}

#[test]
fn word_choice_wins_over_spelling_on_the_same_span() {
    let out = resolve_conflicts(vec![
        lint(LintKind::Spelling, 4, 9, "spelling"),
        lint(LintKind::WordChoice, 4, 9, "word choice"),
    ]);
    assert_eq!(out.len(), 1);
    assert_eq!(out[0].lint_kind, LintKind::WordChoice);
    assert_eq!(out[0].span, Span::new(4, 9));
    assert_eq!(out[0].message, "word choice");
}

#[test]
fn categories_are_weighted_in_a_fixed_order() {
    assert_eq!(get_priority(&LintKind::WordChoice), LintKindPriority::WordChoice);
    assert_eq!(get_priority(&LintKind::Repetition), LintKindPriority::Repetition);
    assert_eq!(get_priority(&LintKind::Style), LintKindPriority::Style);
    assert_eq!(get_priority(&LintKind::Spelling), LintKindPriority::Spelling);
    assert_eq!(get_priority(&LintKind::Capitalization), LintKindPriority::Capitalization);
    assert_eq!(get_priority(&LintKind::Formatting), LintKindPriority::Miscellaneous);
    assert_eq!(get_priority(&LintKind::Enhancement), LintKindPriority::Miscellaneous);
    assert_eq!(get_priority(&LintKind::Readability), LintKindPriority::Miscellaneous);
    assert_eq!(get_priority(&LintKind::Miscellaneous), LintKindPriority::Miscellaneous);
    let ranks: Vec<u8> = [
        LintKindPriority::Miscellaneous,
        LintKindPriority::Capitalization,
        LintKindPriority::Spelling,
        LintKindPriority::Style,
        LintKindPriority::Repetition,
        LintKindPriority::WordChoice,
    ]
    .iter()
    .map(|p| p.to_rank())
    .collect();
    assert_eq!(ranks, vec![0, 1, 2, 3, 4, 5]);
    assert!(LintKindPriority::WordChoice > LintKindPriority::Repetition);
    assert!(LintKindPriority::Repetition > LintKindPriority::Style);
    assert!(LintKindPriority::Style > LintKindPriority::Spelling);
    assert!(LintKindPriority::Spelling > LintKindPriority::Capitalization);
    assert!(LintKindPriority::Capitalization > LintKindPriority::Miscellaneous);
}

#[test]
fn heavier_categories_come_first_and_equals_keep_their_order() {
    let sorted = sort_by_rank(&vec![
        lint(LintKind::Formatting, 0, 1, "a"),
        lint(LintKind::Spelling, 0, 1, "b"),
        lint(LintKind::WordChoice, 0, 1, "c"),
        lint(LintKind::Enhancement, 0, 1, "d"),
        lint(LintKind::Spelling, 0, 1, "e"),
        lint(LintKind::Repetition, 0, 1, "f"),
        lint(LintKind::Capitalization, 0, 1, "g"),
        lint(LintKind::Style, 0, 1, "h"),
        lint(LintKind::WordChoice, 0, 1, "i"),
    ]);
    assert_eq!(messages(&sorted), vec!["c", "i", "f", "h", "b", "e", "g", "a", "d"]);
}

#[test]
fn first_reported_wins_among_equals() {
    let out = resolve_conflicts(vec![
        lint(LintKind::Style, 0, 5, "first"),
        lint(LintKind::Style, 3, 8, "second"),
        lint(LintKind::Style, 5, 9, "third"),
    ]);
    assert_eq!(messages(&out), vec!["first", "third"]);
}

#[test]
fn touching_spans_do_not_overlap() {
    let out = resolve_conflicts(vec![
        lint(LintKind::Style, 0, 5, "a"),
        lint(LintKind::Style, 5, 8, "b"),
        lint(LintKind::Style, 8, 8, "c"),
        lint(LintKind::Style, 4, 5, "d"),
    ]);
    assert_eq!(messages(&out), vec!["a", "b", "c"]);
}

#[test]
fn lighter_finding_reported_first_loses() {
    let out = resolve_conflicts(vec![
        lint(LintKind::Formatting, 0, 12, "spacing"),
        lint(LintKind::Capitalization, 20, 24, "capital"),
        lint(LintKind::WordChoice, 10, 14, "choice"),
        lint(LintKind::Spelling, 13, 22, "spelling"),
    ]);
    assert_eq!(messages(&out), vec!["choice", "capital"]);
}

#[test]
fn survivors_never_overlap() {
    let kinds = [
        LintKind::Spelling,
        LintKind::Formatting,
        LintKind::WordChoice,
        LintKind::Style,
        LintKind::Repetition,
    ];
    let mut given = Vec::new();
    for i in 0..40usize {
        let start = (i * 7) % 23;
        given.push(lint(kinds[i % kinds.len()], start, start + 1 + (i % 6), "x"));
    }
    let out = resolve_conflicts(given);
    assert!(!out.is_empty());
    for (i, a) in out.iter().enumerate() {
        for (j, b) in out.iter().enumerate() {
            if i != j {
                assert!(!(a.span.start < b.span.end && a.span.end > b.span.start));
            }
        }
    }
}

#[test]
fn nothing_given_nothing_kept() {
    assert!(resolve_conflicts(vec![]).is_empty());
    assert!(accept_in_order(&vec![]).is_empty());
}

#[test]
fn acceptance_goes_by_the_given_order() {
    let out = accept_in_order(&vec![
        lint(LintKind::Formatting, 0, 4, "a"),
        lint(LintKind::WordChoice, 2, 6, "b"),
        lint(LintKind::WordChoice, 4, 6, "c"),
    ]);
    assert_eq!(messages(&out), vec!["a", "c"]);
}

#[test]
fn resolving_again_changes_nothing() {
    let given = vec![
        lint(LintKind::Formatting, 0, 12, "spacing"),
        lint(LintKind::Capitalization, 20, 24, "capital"),
        lint(LintKind::WordChoice, 10, 14, "choice"),
        lint(LintKind::Spelling, 13, 22, "spelling"),
        lint(LintKind::Style, 30, 31, "style"),
        lint(LintKind::WordChoice, 40, 41, "late choice"),
    ];
    let once = resolve_conflicts(given);
    let twice = resolve_conflicts(once.clone());
    assert_eq!(messages(&once), vec!["choice", "late choice", "style", "capital"]);
    assert_eq!(once, twice);
}
