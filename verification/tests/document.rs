use harper_api::dictionary::{Dictionary, WordList};
use harper_api::document::Document;
use harper_api::span::Span;
use harper_api::token::{Punctuation, Quote, Token, TokenKind, WordMetadata};

fn chars(text: &str) -> Vec<char> {
    text.chars().collect()
}

fn kinds(text: &str) -> Vec<TokenKind> {
    Document::new(text, &WordList::new()).tokens().iter().map(|t| t.kind).collect()
}

fn texts(text: &str) -> Vec<String> {
    let document = Document::new(text, &WordList::new());
    document
        .tokens()
        .iter()
        .map(|t| t.span.get_content(document.get_source()).iter().collect())
        .collect()
}

fn twins(text: &str) -> Vec<(usize, Option<usize>)> {
    Document::new(text, &WordList::new())
        .tokens()
        .iter()
        .enumerate()
        .filter(|(_, t)| t.kind.is_quote())
        .map(|(i, t)| (i, t.kind.twin()))
        .collect()
}

#[test]
fn tokens_cover_the_source_without_gaps() {
    let text = "You're right:  it's 42 \u{2014} \"so\" what?\n\nEnd";
    let document = Document::new(text, &WordList::new());
    let tokens = document.tokens();
    assert_eq!(document.get_source(), &chars(text)[..]);
    assert_eq!(tokens[0].span.start, 0);
    assert_eq!(tokens[tokens.len() - 1].span.end, chars(text).len());
    for pair in tokens.windows(2) {
        assert_eq!(pair[0].span.end, pair[1].span.start);
    }
    for token in tokens {
        assert!(token.span.start < token.span.end);
    }
    assert_eq!(document.token_count(), tokens.len());
}

#[test]
fn words_keep_their_inner_apostrophes() {
    assert_eq!(texts("You're car's 'x' it's'"), vec![
        "You're", " ", "car's", " ", "'", "x", "'", " ", "it's", "'"
    ]);
}

#[test]
fn runs_of_blanks_digits_and_line_feeds_are_one_token() {
    assert_eq!(kinds("a  \tb\n\n\n12 c3"), vec![
        TokenKind::Word(None),
        TokenKind::Space(3),
        TokenKind::Word(None),
        TokenKind::Newline(3),
        TokenKind::Number,
        TokenKind::Space(1),
        TokenKind::Word(None),
    ]);
    assert_eq!(texts("tower-lsp, 12ab"), vec!["tower", "-", "lsp", ",", " ", "12", "ab"]);
}

#[test]
fn marks_are_single_tokens() {
    assert_eq!(kinds(".,?!:;-'#"), vec![
        TokenKind::Punctuation(Punctuation::Period),
        TokenKind::Punctuation(Punctuation::Comma),
        TokenKind::Punctuation(Punctuation::Question),
        TokenKind::Punctuation(Punctuation::Bang),
        TokenKind::Punctuation(Punctuation::Colon),
        TokenKind::Punctuation(Punctuation::Semicolon),
        TokenKind::Punctuation(Punctuation::Hyphen),
        TokenKind::Punctuation(Punctuation::Apostrophe),
        TokenKind::Punctuation(Punctuation::Other('#')),
    ]);
}

#[test]
fn empty_source_has_no_tokens() {
    assert!(kinds("").is_empty());
}

#[test]
fn words_carry_what_the_dictionary_knows() {
    let mut words = WordList::new();
    let noun = WordMetadata { noun: true, ..WordMetadata::none() };
    let both = WordMetadata { noun: true, verb: true, ..WordMetadata::none() };
    words.add_word("car", noun);
    words.add_word("run", both);
    words.add_word("Run", noun);
    let document = Document::new("Car run Run RUN bus", &words);
    let found: Vec<TokenKind> =
        document.tokens().iter().filter(|t| t.kind.is_word()).map(|t| t.kind).collect();
    assert_eq!(found, vec![
        TokenKind::Word(Some(noun)),
        TokenKind::Word(Some(both)),
        TokenKind::Word(Some(noun)),
        TokenKind::Word(Some(both)),
        TokenKind::Word(None),
    ]);
    assert!(found[0].is_nominal() && !found[0].is_likely_homograph());
    assert!(found[1].is_nominal() && found[1].is_likely_homograph());
    assert!(!found[4].is_nominal() && !found[4].is_likely_homograph());
    assert!(words.contains_word(&chars("CAR")));
    assert!(!words.contains_word(&chars("bus")));
    assert_eq!(words.get_word_metadata(&chars("run")), Some(both));
    assert_eq!(words.len(), 3);
}

#[test]
fn straight_quotes_pair_in_turn() {
    assert_eq!(twins("\"a\" \"b\""), vec![(0, Some(2)), (2, Some(0)), (4, Some(6)), (6, Some(4))]);
}

#[test]
fn odd_quote_stays_alone() {
    assert_eq!(twins("\"a\" \"b"), vec![(0, Some(2)), (2, Some(0)), (4, None)]);
    assert_eq!(twins("\""), vec![(0, None)]);
}

#[test]
fn curly_quotes_nest() {
    assert_eq!(
        twins("\u{201c}a \u{201c}b\u{201d} c\u{201d}"),
        vec![(0, Some(8)), (3, Some(5)), (5, Some(3)), (8, Some(0))]
    );
}

#[test]
fn closing_quote_without_an_opening_one_stays_alone() {
    assert_eq!(twins("a\u{201d} \u{201c}b"), vec![(1, None), (3, None)]);
    assert_eq!(twins("\u{201d}a\""), vec![(0, None), (2, None)]);
}

#[test]
fn tokens_are_plain_values() {
    let token = Token::new(TokenKind::Punctuation(Punctuation::Quote(Quote { twin_loc: None })), Span::new(1, 2));
    assert_eq!(token.span, Span { start: 1, end: 2 });
    assert!(token.kind.is_quote());
    assert!(!token.kind.is_word());
    assert!(TokenKind::Space(2).is_whitespace() && TokenKind::Newline(1).is_whitespace());
    assert_eq!(token.kind.twin(), None);
}
