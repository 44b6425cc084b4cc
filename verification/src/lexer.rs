//! Cutting a source into tokens.

use vstd::prelude::*;
use vstd::slice::slice_subrange;
use crate::dictionary::Dictionary;
use crate::span::Span;
use crate::text::{is_ascii_digit, is_ascii_letter, is_whitespace, is_whitespace_char};
use crate::token::{contiguous, tiles, Punctuation, Quote, Token, TokenKind};

verus! {

/// The classes of characters that decide where tokens begin and end.
#[derive(Clone, Copy, Debug, PartialEq, Eq, Structural)]
pub enum CharClass {
    Letter,
    Digit,
    Apostrophe,
    Blank,
    LineFeed,
    QuoteMark,
    Symbol,
}

/// The straight and the typographic apostrophe.
pub open spec fn is_apostrophe(c: char) -> bool {
    c == '\'' || c == '\u{2019}'
}

/// The straight double quote and the two typographic ones.
pub open spec fn is_quote_mark(c: char) -> bool {
    c == '"' || c == '\u{201c}' || c == '\u{201d}'
}

/// ASCII characters that are no letters, and the dashes and the ellipsis.
pub open spec fn is_symbol(c: char) -> bool {
    (c <= '\u{7f}' && !is_ascii_letter(c)) || c == '\u{2013}' || c == '\u{2014}' || c
        == '\u{2026}'
}

/// The class of a character.  Whatever is none of the others is a letter.
pub open spec fn class_of(c: char) -> CharClass {
    if c == '\n' {
        CharClass::LineFeed
    } else if is_whitespace_char(c) {
        CharClass::Blank
    } else if is_ascii_digit(c) {
        CharClass::Digit
    } else if is_apostrophe(c) {
        CharClass::Apostrophe
    } else if is_quote_mark(c) {
        CharClass::QuoteMark
    } else if is_symbol(c) {
        CharClass::Symbol
    } else {
        CharClass::Letter
    }
}

/// Find the class of a character.
pub fn classify(c: char) -> (class: CharClass)
    ensures
        class == class_of(c),
{
    if c == '\n' {
        CharClass::LineFeed
    } else if is_whitespace(c) {
        CharClass::Blank
    } else if '0' <= c && c <= '9' {
        CharClass::Digit
    } else if c == '\'' || c == '\u{2019}' {
        CharClass::Apostrophe
    } else if c == '"' || c == '\u{201c}' || c == '\u{201d}' {
        CharClass::QuoteMark
    } else if (c <= '\u{7f}' && !(('A' <= c && c <= 'Z') || ('a' <= c && c <= 'z'))) || c
        == '\u{2013}' || c == '\u{2014}' || c == '\u{2026}' {
        CharClass::Symbol
    } else {
        CharClass::Letter
    }
}

/// End of the longest run of `class` characters that begins at `at`.
pub open spec fn run_end(s: Seq<char>, class: CharClass, at: int) -> int
    decreases s.len() - at,
{
    if 0 <= at < s.len() && class_of(s[at]) == class {
        run_end(s, class, at + 1)
    } else {
        at
    }
}

/// Whether the character at `at` carries a word on: a letter, a digit, or
/// an apostrophe with a letter behind it.
pub open spec fn continues_word(s: Seq<char>, at: int) -> bool {
    0 <= at < s.len() && (class_of(s[at]) == CharClass::Letter || class_of(s[at])
        == CharClass::Digit || (class_of(s[at]) == CharClass::Apostrophe && at + 1 < s.len()
        && class_of(s[at + 1]) == CharClass::Letter))
}

/// End of the word whose characters reach `at`.
pub open spec fn word_end(s: Seq<char>, at: int) -> int
    decreases s.len() - at,
{
    if continues_word(s, at) {
        word_end(s, at + 1)
    } else {
        at
    }
}

/// End of the token that begins at `at`: a word, a run of digits, blanks
/// or line feeds, or a single mark.
pub open spec fn token_end(s: Seq<char>, at: int) -> int {
    match class_of(s[at]) {
        CharClass::Letter => word_end(s, at + 1),
        CharClass::Digit => run_end(s, CharClass::Digit, at + 1),
        CharClass::Blank => run_end(s, CharClass::Blank, at + 1),
        CharClass::LineFeed => run_end(s, CharClass::LineFeed, at + 1),
        _ => at + 1,
    }
}

/// The punctuation that a symbol stands for.
pub open spec fn punctuation_of(c: char) -> Punctuation {
    if c == '.' {
        Punctuation::Period
    } else if c == ',' {
        Punctuation::Comma
    } else if c == '?' {
        Punctuation::Question
    } else if c == '!' {
        Punctuation::Bang
    } else if c == ':' {
        Punctuation::Colon
    } else if c == ';' {
        Punctuation::Semicolon
    } else if c == '-' {
        Punctuation::Hyphen
    } else {
        Punctuation::Other(c)
    }
}

/// The kind of the token at `[at, end)`.  Quotation marks start unpaired.
pub open spec fn token_kind<D: Dictionary>(s: Seq<char>, dict: &D, at: int, end: int) -> TokenKind {
    match class_of(s[at]) {
        CharClass::Letter => TokenKind::Word(dict.metadata_of(s.subrange(at, end))),
        CharClass::Digit => TokenKind::Number,
        CharClass::Blank => TokenKind::Space((end - at) as usize),
        CharClass::LineFeed => TokenKind::Newline((end - at) as usize),
        CharClass::Apostrophe => TokenKind::Punctuation(Punctuation::Apostrophe),
        CharClass::QuoteMark => TokenKind::Punctuation(
            Punctuation::Quote(Quote { twin_loc: None }),
        ),
        CharClass::Symbol => TokenKind::Punctuation(punctuation_of(s[at])),
    }
}

/// A run ends at or after its start, inside the source.
pub proof fn run_end_bounds(s: Seq<char>, class: CharClass, at: int)
    requires
        0 <= at <= s.len(),
    ensures
        at <= run_end(s, class, at) <= s.len(),
    decreases s.len() - at,
{
    if at < s.len() && class_of(s[at]) == class {
        run_end_bounds(s, class, at + 1);
    }
}

/// A word ends at or after the position it has reached, inside the source.
pub proof fn word_end_bounds(s: Seq<char>, at: int)
    requires
        0 <= at <= s.len(),
    ensures
        at <= word_end(s, at) <= s.len(),
    decreases s.len() - at,
{
    if continues_word(s, at) {
        word_end_bounds(s, at + 1);
    }
}

/// A token is never empty and ends inside the source.
pub proof fn token_end_bounds(s: Seq<char>, at: int)
    requires
        0 <= at < s.len(),
    ensures
        at < token_end(s, at) <= s.len(),
{
    word_end_bounds(s, at + 1);
    run_end_bounds(s, CharClass::Digit, at + 1);
    run_end_bounds(s, CharClass::Blank, at + 1);
    run_end_bounds(s, CharClass::LineFeed, at + 1);
}

/// The token that begins at `at`.
pub open spec fn token_at<D: Dictionary>(s: Seq<char>, dict: &D, at: int) -> Token {
    Token {
        kind: token_kind(s, dict, at, token_end(s, at)),
        span: Span { start: at as usize, end: token_end(s, at) as usize },
    }
}

/// The tokens of `s[at..]`, each taken as long as it can be.
pub open spec fn lexed_from<D: Dictionary>(s: Seq<char>, dict: &D, at: int) -> Seq<Token>
    decreases s.len() - at,
{
    if at < 0 || at >= s.len() {
        Seq::empty()
    } else {
        proof {
            token_end_bounds(s, at);
        }
        seq![token_at(s, dict, at)] + lexed_from(s, dict, token_end(s, at))
    }
}

fn scan_run(source: &[char], class: CharClass, from: usize) -> (end: usize)
    requires
        from <= source@.len(),
    ensures
        end == run_end(source@, class, from as int),
        from <= end <= source@.len(),
{
    let mut i: usize = from;
    while i < source.len() && classify(source[i]) == class
        invariant
            from <= i <= source@.len(),
            run_end(source@, class, i as int) == run_end(source@, class, from as int),
        decreases source.len() - i,
    {
        i += 1;
    }
    i
}

fn carries_word(source: &[char], at: usize) -> (b: bool)
    ensures
        b == continues_word(source@, at as int),
{
    if at >= source.len() {
        return false;
    }
    match classify(source[at]) {
        CharClass::Letter => true,
        CharClass::Digit => true,
        CharClass::Apostrophe => at + 1 < source.len() && classify(source[at + 1])
            == CharClass::Letter,
        _ => false,
    }
}

fn scan_word(source: &[char], from: usize) -> (end: usize)
    requires
        from <= source@.len(),
    ensures
        end == word_end(source@, from as int),
        from <= end <= source@.len(),
{
    let mut i: usize = from;
    while carries_word(source, i)
        invariant
            from <= i <= source@.len(),
            word_end(source@, i as int) == word_end(source@, from as int),
        decreases source.len() - i,
    {
        i += 1;
    }
    i
}

fn punctuation_for(c: char) -> (p: Punctuation)
    ensures
        p == punctuation_of(c),
{
    if c == '.' {
        Punctuation::Period
    } else if c == ',' {
        Punctuation::Comma
    } else if c == '?' {
        Punctuation::Question
    } else if c == '!' {
        Punctuation::Bang
    } else if c == ':' {
        Punctuation::Colon
    } else if c == ';' {
        Punctuation::Semicolon
    } else if c == '-' {
        Punctuation::Hyphen
    } else {
        Punctuation::Other(c)
    }
}

/// Read the token that begins at `at`.
pub fn next_token<D: Dictionary>(source: &[char], dict: &D, at: usize) -> (token: Token)
    requires
        at < source@.len(),
    ensures
        token == token_at(source@, dict, at as int),
        token.span.start == at,
        at < token.span.end <= source@.len(),
{
    proof {
        token_end_bounds(source@, at as int);
    }
    let c = source[at];
    match classify(c) {
        CharClass::Letter => {
            let end = scan_word(source, at + 1);
            let metadata = dict.get_word_metadata(slice_subrange(source, at, end));
            Token { kind: TokenKind::Word(metadata), span: Span { start: at, end } }
        },
        CharClass::Digit => {
            let end = scan_run(source, CharClass::Digit, at + 1);
            Token { kind: TokenKind::Number, span: Span { start: at, end } }
        },
        CharClass::Blank => {
            let end = scan_run(source, CharClass::Blank, at + 1);
            Token { kind: TokenKind::Space(end - at), span: Span { start: at, end } }
        },
        CharClass::LineFeed => {
            let end = scan_run(source, CharClass::LineFeed, at + 1);
            Token { kind: TokenKind::Newline(end - at), span: Span { start: at, end } }
        },
        CharClass::Apostrophe => Token {
            kind: TokenKind::Punctuation(Punctuation::Apostrophe),
            span: Span { start: at, end: at + 1 },
        },
        CharClass::QuoteMark => Token {
            kind: TokenKind::Punctuation(Punctuation::Quote(Quote { twin_loc: None })),
            span: Span { start: at, end: at + 1 },
        },
        CharClass::Symbol => Token {
            kind: TokenKind::Punctuation(punctuation_for(c)),
            span: Span { start: at, end: at + 1 },
        },
    }
}

/// Cut `source` into tokens.  The tokens cover the source from end to end.
pub fn lex<D: Dictionary>(source: &[char], dict: &D) -> (tokens: Vec<Token>)
    ensures
        tokens@ == lexed_from(source@, dict, 0),
        tiles(tokens@, source@.len()),
{
    let mut tokens: Vec<Token> = Vec::new();
    let mut at: usize = 0;
    while at < source.len()
        invariant
            at <= source@.len(),
            tokens@ + lexed_from(source@, dict, at as int) == lexed_from(source@, dict, 0),
            contiguous(tokens@, source@.len()),
            tokens@.len() == 0 ==> at == 0,
            tokens@.len() > 0 ==> tokens@[0].span.start == 0 && tokens@.last().span.end == at,
        decreases source.len() - at,
    {
        let token = next_token(source, dict, at);
        let ghost before = tokens@;
        tokens.push(token);
        proof {
            token_end_bounds(source@, at as int);
            assert(token.span.end as int == token_end(source@, at as int));
            assert(lexed_from(source@, dict, at as int) == seq![token] + lexed_from(
                source@,
                dict,
                token.span.end as int,
            ));
            assert(before + lexed_from(source@, dict, at as int) =~= tokens@ + lexed_from(
                source@,
                dict,
                token.span.end as int,
            ));
            assert forall|i: int| 0 <= i && i + 1 < tokens@.len() implies (
            #[trigger] tokens@[i]).span.end == tokens@[i + 1].span.start by {
                if i + 1 < before.len() {
                    assert(tokens@[i] == before[i]);
                    assert(tokens@[i + 1] == before[i + 1]);
                } else {
                    assert(tokens@[i] == before.last());
                }
            }
        }
        at = token.span.end;
    }
    assert(tokens@ + lexed_from(source@, dict, at as int) =~= tokens@);
    tokens
}

} // verus!
