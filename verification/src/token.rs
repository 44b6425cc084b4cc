//! Tokens: typed spans of a document's source.

use vstd::prelude::*;
use crate::span::Span;

verus! {

/// What a dictionary knows about a word: the parts of speech it can be.
#[derive(Clone, Copy, Debug, PartialEq, Eq, Structural)]
pub struct WordMetadata {
    pub noun: bool,
    pub pronoun: bool,
    pub verb: bool,
    pub adjective: bool,
    pub adverb: bool,
    pub conjunction: bool,
    pub determiner: bool,
    pub preposition: bool,
}

/// One for `true`, zero for `false`.
pub open spec fn flag(b: bool) -> nat {
    if b {
        1
    } else {
        0
    }
}

impl WordMetadata {
    /// How many parts of speech the word can be.
    pub open spec fn roles(&self) -> nat {
        flag(self.noun) + flag(self.pronoun) + flag(self.verb) + flag(self.adjective) + flag(
            self.adverb,
        ) + flag(self.conjunction) + flag(self.determiner) + flag(self.preposition)
    }

    /// Whether the word can stand for a thing: a noun or a pronoun.
    pub open spec fn spec_is_nominal(&self) -> bool {
        self.noun || self.pronoun
    }

    /// Whether the word can be more than one part of speech.
    pub open spec fn spec_is_likely_homograph(&self) -> bool {
        self.roles() > 1
    }

    /// Metadata of a word that is no part of speech.
    pub fn none() -> (out: WordMetadata)
        ensures
            out.roles() == 0,
            !out.noun && !out.pronoun && !out.verb && !out.adjective && !out.adverb
                && !out.conjunction && !out.determiner && !out.preposition,
    {
        WordMetadata {
            noun: false,
            pronoun: false,
            verb: false,
            adjective: false,
            adverb: false,
            conjunction: false,
            determiner: false,
            preposition: false,
        }
    }

    /// Metadata from part-of-speech letters: `n` noun, `p` pronoun, `v`
    /// verb, `j` adjective, `r` adverb, `c` conjunction, `d` determiner,
    /// `i` preposition.  Other characters say nothing.
    pub fn from_letters(letters: &str) -> (out: WordMetadata)
        ensures
            out == (WordMetadata {
                noun: letters@.contains('n'),
                pronoun: letters@.contains('p'),
                verb: letters@.contains('v'),
                adjective: letters@.contains('j'),
                adverb: letters@.contains('r'),
                conjunction: letters@.contains('c'),
                determiner: letters@.contains('d'),
                preposition: letters@.contains('i'),
            }),
    {
        let chars = crate::text::chars_of(letters);
        let mut out = WordMetadata::none();
        let mut k: usize = 0;
        while k < chars.len()
            invariant
                k <= chars.len(),
                out == (WordMetadata {
                    noun: chars@.take(k as int).contains('n'),
                    pronoun: chars@.take(k as int).contains('p'),
                    verb: chars@.take(k as int).contains('v'),
                    adjective: chars@.take(k as int).contains('j'),
                    adverb: chars@.take(k as int).contains('r'),
                    conjunction: chars@.take(k as int).contains('c'),
                    determiner: chars@.take(k as int).contains('d'),
                    preposition: chars@.take(k as int).contains('i'),
                }),
            decreases chars.len() - k,
        {
            let c = chars[k];
            proof {
                let before = chars@.take(k as int);
                let now = chars@.take(k + 1);
                assert(now == before.push(c));
                assert forall|x: char| now.contains(x) == (before.contains(x) || x == c) by {
                    if before.contains(x) {
                        let i = choose|i: int| 0 <= i < before.len() && before[i] == x;
                        assert(now[i] == x);
                    }
                    if x == c {
                        assert(now[k as int] == x);
                    }
                    if now.contains(x) {
                        let i = choose|i: int| 0 <= i < now.len() && now[i] == x;
                        if i < k {
                            assert(before[i] == x);
                        }
                    }
                }
            }
            if c == 'n' {
                out.noun = true;
            } else if c == 'p' {
                out.pronoun = true;
            } else if c == 'v' {
                out.verb = true;
            } else if c == 'j' {
                out.adjective = true;
            } else if c == 'r' {
                out.adverb = true;
            } else if c == 'c' {
                out.conjunction = true;
            } else if c == 'd' {
                out.determiner = true;
            } else if c == 'i' {
                out.preposition = true;
            }
            k += 1;
        }
        assert(chars@.take(k as int) == chars@);
        out
    }

    /// Whether the word can stand for a thing: a noun or a pronoun.
    #[verifier::when_used_as_spec(spec_is_nominal)]
    pub fn is_nominal(&self) -> (b: bool)
        ensures
            b == self.spec_is_nominal(),
    {
        self.noun || self.pronoun
    }

    /// Whether the word can be more than one part of speech.
    #[verifier::when_used_as_spec(spec_is_likely_homograph)]
    pub fn is_likely_homograph(&self) -> (b: bool)
        ensures
            b == self.spec_is_likely_homograph(),
    {
        let mut count: u8 = 0;
        if self.noun {
            count += 1;
        }
        if self.pronoun {
            count += 1;
        }
        if self.verb {
            count += 1;
        }
        if self.adjective {
            count += 1;
        }
        if self.adverb {
            count += 1;
        }
        if self.conjunction {
            count += 1;
        }
        if self.determiner {
            count += 1;
        }
        if self.preposition {
            count += 1;
        }
        count > 1
    }
}

/// A quotation mark and the index of the token that closes or opens the
/// quotation with it, if there is one.
#[derive(Clone, Copy, Debug, PartialEq, Eq)]
pub struct Quote {
    pub twin_loc: Option<usize>,
}

/// The punctuation marks that are told apart.
#[derive(Clone, Copy, Debug, PartialEq, Eq)]
pub enum Punctuation {
    Period,
    Comma,
    Question,
    Bang,
    Colon,
    Semicolon,
    Hyphen,
    Apostrophe,
    Quote(Quote),
    Other(char),
}

/// What a token is.
#[derive(Clone, Copy, Debug, PartialEq, Eq)]
pub enum TokenKind {
    /// A word, with what the dictionary knows of it.
    Word(Option<WordMetadata>),
    Punctuation(Punctuation),
    /// A run of blanks, with its length.
    Space(usize),
    /// A run of line feeds, with its length.
    Newline(usize),
    /// A run of decimal digits.
    Number,
}

impl TokenKind {
    /// Whether the token is a word.
    pub open spec fn spec_is_word(&self) -> bool {
        self is Word
    }

    /// Whether the token is a run of blanks or of line feeds.
    pub open spec fn spec_is_whitespace(&self) -> bool {
        self is Space || self is Newline
    }

    /// Whether the token is a quotation mark.
    pub open spec fn spec_is_quote(&self) -> bool {
        self matches TokenKind::Punctuation(Punctuation::Quote(_))
    }

    /// The twin of a quotation mark; `None` for every other token and for
    /// a mark without a partner.
    pub open spec fn spec_twin(&self) -> Option<usize> {
        match self {
            TokenKind::Punctuation(Punctuation::Quote(quote)) => quote.twin_loc,
            _ => None,
        }
    }

    /// Whether the token is a known word that can stand for a thing.
    pub open spec fn spec_is_nominal(&self) -> bool {
        match self {
            TokenKind::Word(Some(metadata)) => metadata.spec_is_nominal(),
            _ => false,
        }
    }

    /// Whether the token is a known word with more than one part of speech.
    pub open spec fn spec_is_likely_homograph(&self) -> bool {
        match self {
            TokenKind::Word(Some(metadata)) => metadata.spec_is_likely_homograph(),
            _ => false,
        }
    }

    /// Whether the token is a word.
    #[verifier::when_used_as_spec(spec_is_word)]
    pub fn is_word(&self) -> (b: bool)
        ensures
            b == self.spec_is_word(),
    {
        match self {
            TokenKind::Word(_) => true,
            _ => false,
        }
    }

    /// Whether the token is a run of blanks or of line feeds.
    #[verifier::when_used_as_spec(spec_is_whitespace)]
    pub fn is_whitespace(&self) -> (b: bool)
        ensures
            b == self.spec_is_whitespace(),
    {
        match self {
            TokenKind::Space(_) => true,
            TokenKind::Newline(_) => true,
            _ => false,
        }
    }

    /// Whether the token is a quotation mark.
    #[verifier::when_used_as_spec(spec_is_quote)]
    pub fn is_quote(&self) -> (b: bool)
        ensures
            b == self.spec_is_quote(),
    {
        match self {
            TokenKind::Punctuation(Punctuation::Quote(_)) => true,
            _ => false,
        }
    }

    /// The twin of a quotation mark, if it has one.
    #[verifier::when_used_as_spec(spec_twin)]
    pub fn twin(&self) -> (out: Option<usize>)
        ensures
            out == self.spec_twin(),
    {
        match self {
            TokenKind::Punctuation(Punctuation::Quote(quote)) => quote.twin_loc,
            _ => None,
        }
    }

    /// Whether the token is a known word that can stand for a thing.
    #[verifier::when_used_as_spec(spec_is_nominal)]
    pub fn is_nominal(&self) -> (b: bool)
        ensures
            b == self.spec_is_nominal(),
    {
        match self {
            TokenKind::Word(Some(metadata)) => metadata.is_nominal(),
            _ => false,
        }
    }

    /// Whether the token is a known word with more than one part of speech.
    #[verifier::when_used_as_spec(spec_is_likely_homograph)]
    pub fn is_likely_homograph(&self) -> (b: bool)
        ensures
            b == self.spec_is_likely_homograph(),
    {
        match self {
            TokenKind::Word(Some(metadata)) => metadata.is_likely_homograph(),
            _ => false,
        }
    }
}

/// A typed span of the source.
#[derive(Clone, Copy, Debug, PartialEq, Eq)]
pub struct Token {
    pub kind: TokenKind,
    pub span: Span,
}

impl Token {
    /// The token of the given kind over the given span.
    pub fn new(kind: TokenKind, span: Span) -> (token: Token)
        ensures
            token.kind == kind,
            token.span == span,
    {
        Token { kind, span }
    }

    /// The characters of `source` that the token covers, when it fits.
    pub open spec fn text(&self, source: Seq<char>) -> Option<Seq<char>> {
        if self.span.within(source.len()) {
            Some(self.span.content(source))
        } else {
            None
        }
    }
}

/// Every token is non-empty and lies inside a source of `len` characters,
/// and each begins where the one before it ends.
pub open spec fn contiguous(tokens: Seq<Token>, len: nat) -> bool {
    &&& forall|i: int|
        0 <= i < tokens.len() ==> (#[trigger] tokens[i]).span.start < tokens[i].span.end
            && tokens[i].span.end <= len
    &&& forall|i: int|
        0 <= i && i + 1 < tokens.len() ==> (#[trigger] tokens[i]).span.end == tokens[i
            + 1].span.start
}

/// The tokens cover a source of `len` characters from its first character
/// to its last, without gap or overlap.
pub open spec fn tiles(tokens: Seq<Token>, len: nat) -> bool {
    &&& contiguous(tokens, len)
    &&& tokens.len() == 0 ==> len == 0
    &&& tokens.len() > 0 ==> tokens[0].span.start == 0 && tokens.last().span.end == len
}

/// A run cut out of contiguous tokens is contiguous.
pub proof fn contiguous_subrange(tokens: Seq<Token>, len: nat, from: int, to: int)
    requires
        contiguous(tokens, len),
        0 <= from <= to <= tokens.len(),
    ensures
        contiguous(tokens.subrange(from, to), len),
{
    let run = tokens.subrange(from, to);
    assert forall|i: int| 0 <= i < run.len() implies (#[trigger] run[i]).span.start
        < run[i].span.end && run[i].span.end <= len by {
        assert(run[i] == tokens[from + i]);
    }
    assert forall|i: int| 0 <= i && i + 1 < run.len() implies (#[trigger] run[i]).span.end
        == run[i + 1].span.start by {
        assert(run[i] == tokens[from + i]);
        assert(run[i + 1] == tokens[from + i + 1]);
    }
}

/// In contiguous tokens, an earlier token ends no later than a later one
/// begins.
pub proof fn contiguous_ordered(tokens: Seq<Token>, len: nat, i: int, j: int)
    requires
        contiguous(tokens, len),
        0 <= i < j < tokens.len(),
    ensures
        tokens[i].span.end <= tokens[j].span.start,
    decreases j - i,
{
    if i + 1 < j {
        contiguous_ordered(tokens, len, i, j - 1);
        assert(tokens[j - 1].span.end == tokens[j].span.start);
        assert(tokens[j - 1].span.start < tokens[j - 1].span.end);
    } else {
        assert(tokens[i].span.end == tokens[i + 1].span.start);
    }
}

/// The texts of the first `n` tokens, one behind the other.
pub open spec fn joined_text(tokens: Seq<Token>, source: Seq<char>, n: int) -> Seq<char>
    decreases n,
{
    if n <= 0 {
        Seq::empty()
    } else {
        joined_text(tokens, source, n - 1) + tokens[n - 1].span.content(source)
    }
}

/// Tokens that cover a source spell it: their texts, one behind the other,
/// are the source.
pub proof fn tokens_spell_the_source(tokens: Seq<Token>, source: Seq<char>)
    requires
        tiles(tokens, source.len()),
    ensures
        joined_text(tokens, source, tokens.len() as int) == source,
{
    if tokens.len() > 0 {
        joined_text_reaches(tokens, source, tokens.len() as int);
        assert(source.subrange(0, source.len() as int) =~= source);
    } else {
        assert(joined_text(tokens, source, 0) =~= source);
    }
}

/// The texts of the first `n` tokens are the source up to the end of the
/// last of them.
pub proof fn joined_text_reaches(tokens: Seq<Token>, source: Seq<char>, n: int)
    requires
        tiles(tokens, source.len()),
        1 <= n <= tokens.len(),
    ensures
        joined_text(tokens, source, n) == source.subrange(0, tokens[n - 1].span.end as int),
    decreases n,
{
    if n > 1 {
        joined_text_reaches(tokens, source, n - 1);
        assert(tokens[n - 2].span.end == tokens[n - 1].span.start);
        assert(joined_text(tokens, source, n) =~= source.subrange(
            0,
            tokens[n - 1].span.end as int,
        ));
    } else {
        assert(joined_text(tokens, source, 0) =~= Seq::<char>::empty());
        assert(joined_text(tokens, source, 1) =~= source.subrange(
            0,
            tokens[0].span.end as int,
        ));
    }
}

/// The span from the start of the first token to the end of the last.
pub open spec fn covering_span(tokens: Seq<Token>) -> Option<Span> {
    if tokens.len() == 0 {
        None
    } else {
        Some(Span { start: tokens[0].span.start, end: tokens.last().span.end })
    }
}

/// The span that a run of tokens covers; `None` for an empty run.
pub fn span_of(tokens: &[Token]) -> (out: Option<Span>)
    ensures
        out == covering_span(tokens@),
{
    if tokens.len() == 0 {
        None
    } else {
        Some(Span { start: tokens[0].span.start, end: tokens[tokens.len() - 1].span.end })
    }
}

} // verus!
