use harper_api::dictionary::WordList;
use harper_api::document::Document;
use harper_api::linting::pronoun_contraction::PronounContraction;
use harper_api::linting::Linter;
use harper_api::token::WordMetadata;

fn noun() -> WordMetadata {
    WordMetadata { noun: true, ..WordMetadata::none() }
}

fn dictionary() -> WordList {
    let mut words = WordList::new();
    words.add_word("the", WordMetadata { determiner: true, ..WordMetadata::none() });
    words.add_word("man", noun());
    words.add_word("team", noun());
    words.add_word("car", noun());
    words.add_word("PR", noun());
    words.add_word("best", WordMetadata { adjective: true, ..WordMetadata::none() });
    words.add_word("black", WordMetadata { adjective: true, noun: true, ..WordMetadata::none() });
    words.add_word(
        "still",
        WordMetadata { noun: true, verb: true, adjective: true, adverb: true, ..WordMetadata::none() },
    );
    words.add_word("not", WordMetadata { adverb: true, ..WordMetadata::none() });
    words.add_word("happy", WordMetadata { adjective: true, ..WordMetadata::none() });
    words.add_word("fluent", WordMetadata { adjective: true, ..WordMetadata::none() });
    words.add_word("you", WordMetadata { pronoun: true, ..WordMetadata::none() });
    words.add_word("it", WordMetadata { pronoun: true, ..WordMetadata::none() });
    words.add_word("is", WordMetadata { verb: true, ..WordMetadata::none() });
    words.add_word("was", WordMetadata { verb: true, ..WordMetadata::none() });
    words
}

fn assert_lint_count(text: &str, mut linter: impl Linter, count: usize) {
    let document = Document::new(text, &dictionary());
    let lints = linter.lint(&document);
    assert_eq!(lints.len(), count);
}

/// Applies the first suggestion of the first finding until nothing is
/// found any more, and compares what is left with the expected text.
fn assert_suggestion_result(text: &str, mut linter: impl Linter, expected_result: &str) {
    let mut text_chars: Vec<char> = text.chars().collect();
    let mut rounds = 0;
    loop {
        let document = Document::new_from_vec(text_chars.clone(), &dictionary());
        let lints = linter.lint(&document);
        match lints.first() {
            Some(lint) => {
                if let Some(suggestion) = lint.suggestions.first() {
                    assert!(lint.span.end <= text_chars.len());
                    suggestion.apply(lint.span, &mut text_chars);
                }
            }
            None => break,
        }
        rounds += 1;
        if rounds == 100 {
            break;
        }
    }
    let transformed: String = text_chars.iter().collect();
    assert_eq!(transformed.as_str(), expected_result);
}

#[test]
fn issue_225() {
    assert_suggestion_result("Your the man", PronounContraction::default(), "You're the man");
}

#[test]
fn were_team() {
    assert_suggestion_result(
        "Were the best team.",
        PronounContraction::default(),
        "We're the best team.",
    );
}

#[test]
fn issue_139() {
    assert_suggestion_result(
        "it would be great if you're PR was merged into tower-lsp",
        PronounContraction::default(),
        "it would be great if your PR was merged into tower-lsp",
    );
}

#[test]
fn car() {
    assert_suggestion_result(
        "You're car is black.",
        PronounContraction::default(),
        "Your car is black.",
    );
}

#[test]
fn allows_you_are_still() {
    assert_lint_count("In case you're still not convinced.", PronounContraction::default(), 0);
}

#[test]
fn issue_576() {
    assert_lint_count("If you're not happy you try again.", PronounContraction::default(), 0);
    assert_lint_count("No you're not.", PronounContraction::default(), 0);
    assert_lint_count(
        "Even if you're not fluent in arm assembly, you surely noticed this.",
        PronounContraction::default(),
        0,
    );
}
