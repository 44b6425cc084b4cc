//! A source and its tokens, with quotation marks paired.

use vstd::prelude::*;
use crate::dictionary::Dictionary;
use crate::lexer::{lex, lexed_from};
use crate::text::chars_of;
use crate::token::{contiguous, tiles, Punctuation, Quote, Token, TokenKind};

verus! {

/// The mark that only ever opens a quotation.
pub open spec fn is_opening_mark(c: char) -> bool {
    c == '\u{201c}'
}

/// The mark that only ever closes a quotation.
pub open spec fn is_closing_mark(c: char) -> bool {
    c == '\u{201d}'
}

/// Progress of the pairing pass: the twin found for each token so far and
/// the stack of quotation marks that are still open.
pub struct Pairing {
    pub twins: Seq<Option<usize>>,
    pub open: Seq<usize>,
}

/// Link the mark at `i` with the innermost open mark.
pub open spec fn closed_by(before: Pairing, i: int) -> Pairing {
    let j = before.open.last();
    Pairing {
        twins: before.twins.update(j as int, Some(i as usize)).update(i, Some(j)),
        open: before.open.drop_last(),
    }
}

/// Leave the mark at `i` open.
pub open spec fn opened_by(before: Pairing, i: int) -> Pairing {
    Pairing { twins: before.twins, open: before.open.push(i as usize) }
}

/// The pairing after the first `n` tokens.  An opening mark is pushed; any
/// other mark closes the innermost open one, if there is one; failing
/// that, a straight mark is pushed and a closing mark stays alone.
pub open spec fn pairing(tokens: Seq<Token>, source: Seq<char>, n: int) -> Pairing
    decreases n,
{
    if n <= 0 {
        Pairing { twins: Seq::new(tokens.len(), |i: int| None::<usize>), open: Seq::empty() }
    } else {
        let before = pairing(tokens, source, n - 1);
        let i = n - 1;
        if i >= tokens.len() || !tokens[i].kind.is_quote() {
            before
        } else {
            let mark = source[tokens[i].span.start as int];
            if is_opening_mark(mark) {
                opened_by(before, i)
            } else if before.open.len() > 0 {
                closed_by(before, i)
            } else if is_closing_mark(mark) {
                before
            } else {
                opened_by(before, i)
            }
        }
    }
}

/// The token with its twin set, if it is a quotation mark.
pub open spec fn with_twin(token: Token, twin: Option<usize>) -> Token {
    if token.kind.is_quote() {
        Token {
            kind: TokenKind::Punctuation(Punctuation::Quote(Quote { twin_loc: twin })),
            span: token.span,
        }
    } else {
        token
    }
}

/// The tokens with their quotation marks paired.
pub open spec fn paired(tokens: Seq<Token>, source: Seq<char>) -> Seq<Token> {
    Seq::new(
        tokens.len(),
        |i: int| with_twin(tokens[i], pairing(tokens, source, tokens.len() as int).twins[i]),
    )
}

/// The tokens of a source: cut as long as they can be, quotation marks
/// paired.
pub open spec fn tokens_of<D: Dictionary>(source: Seq<char>, dict: &D) -> Seq<Token> {
    paired(lexed_from(source, dict, 0), source)
}

/// Twins point at each other: the twin of a token is another token of the
/// sequence whose twin is the first.
pub open spec fn twins_linked(tokens: Seq<Token>) -> bool {
    forall|i: int|
        0 <= i < tokens.len() ==> match (#[trigger] tokens[i]).kind.spec_twin() {
            Some(j) => j < tokens.len() && j != i && tokens[j as int].kind.spec_twin() == Some(
                i as usize,
            ),
            None => true,
        }
}

/// What holds of the pairing after `n` tokens: only marks seen so far are
/// linked or open, links go both ways, and the open marks are unlinked and
/// stacked in the order in which they came.
pub open spec fn pairing_sound(tokens: Seq<Token>, state: Pairing, n: int) -> bool {
    &&& state.twins.len() == tokens.len()
    &&& forall|k: int|
        0 <= k < state.open.len() ==> (#[trigger] state.open[k]) < n && tokens[state.open[k] as int].kind.is_quote()
            && state.twins[state.open[k] as int] is None
    &&& forall|k: int, l: int|
        0 <= k < l < state.open.len() ==> (#[trigger] state.open[k]) < (#[trigger] state.open[l])
    &&& forall|i: int|
        0 <= i < tokens.len() ==> match #[trigger] state.twins[i] {
            Some(j) => i < n && j < n && j != i && tokens[i].kind.is_quote()
                && state.twins[j as int] == Some(i as usize),
            None => true,
        }
}

/// The pairing pass keeps [`pairing_sound`] at every step.
pub proof fn pairing_is_sound(tokens: Seq<Token>, source: Seq<char>, n: int)
    requires
        0 <= n <= tokens.len(),
        tokens.len() <= usize::MAX,
    ensures
        pairing_sound(tokens, pairing(tokens, source, n), n),
    decreases n,
{
    if n > 0 {
        pairing_is_sound(tokens, source, n - 1);
        let before = pairing(tokens, source, n - 1);
        let after = pairing(tokens, source, n);
        let i = n - 1;
        if tokens[i].kind.is_quote() {
            let mark = source[tokens[i].span.start as int];
            if !is_opening_mark(mark) && before.open.len() > 0 {
                let j = before.open.last();
                assert(after == closed_by(before, i));
                assert(j < i);
                assert(before.twins[j as int] is None);
                assert(before.twins[i] is None);
                assert forall|k: int| 0 <= k < after.open.len() implies (
                #[trigger] after.open[k]) < n && tokens[after.open[k] as int].kind.is_quote()
                    && after.twins[after.open[k] as int] is None by {
                    assert(after.open[k] == before.open[k]);
                    assert(before.open[k] < before.open[before.open.len() - 1]);
                }
                assert forall|x: int| 0 <= x < tokens.len() implies match #[trigger] after.twins[x] {
                    Some(y) => x < n && y < n && y != x && tokens[x].kind.is_quote()
                        && after.twins[y as int] == Some(x as usize),
                    None => true,
                } by {
                    if x != i && x != j {
                        assert(after.twins[x] == before.twins[x]);
                        match before.twins[x] {
                            Some(y) => {
                                assert(before.twins[y as int] == Some(x as usize));
                                assert(y != j);
                                assert(y != i);
                            },
                            None => {},
                        }
                    }
                }
            } else if is_opening_mark(mark) || !is_closing_mark(mark) {
                assert(after == opened_by(before, i));
                assert forall|k: int| 0 <= k < after.open.len() implies (
                #[trigger] after.open[k]) < n && tokens[after.open[k] as int].kind.is_quote()
                    && after.twins[after.open[k] as int] is None by {
                    if k < before.open.len() {
                        assert(after.open[k] == before.open[k]);
                    }
                }
                assert forall|k: int, l: int| 0 <= k < l < after.open.len() implies (
                #[trigger] after.open[k]) < (#[trigger] after.open[l]) by {
                    assert(after.open[k] == before.open[k]);
                    if l < before.open.len() {
                        assert(after.open[l] == before.open[l]);
                    }
                }
            }
        }
    }
}

/// Pairing leaves twins that point at each other.
pub proof fn paired_is_linked(tokens: Seq<Token>, source: Seq<char>)
    requires
        tokens.len() <= usize::MAX,
    ensures
        twins_linked(paired(tokens, source)),
        paired(tokens, source).len() == tokens.len(),
        forall|i: int|
            0 <= i < tokens.len() ==> (#[trigger] paired(tokens, source)[i]).span
                == tokens[i].span,
{
    let n = tokens.len() as int;
    pairing_is_sound(tokens, source, n);
    let state = pairing(tokens, source, n);
    let out = paired(tokens, source);
    assert forall|i: int| 0 <= i < out.len() implies match (#[trigger] out[i]).kind.spec_twin() {
        Some(j) => j < out.len() && j != i && out[j as int].kind.spec_twin() == Some(i as usize),
        None => true,
    } by {
        match out[i].kind.spec_twin() {
            Some(j) => {
                assert(tokens[i].kind.is_quote());
                assert(state.twins[i] == Some(j));
                assert(state.twins[j as int] == Some(i as usize));
                assert(tokens[j as int].kind.is_quote());
            },
            None => {},
        }
    }
}

fn pair_quotes(tokens: &Vec<Token>, source: &[char]) -> (out: Vec<Token>)
    requires
        contiguous(tokens@, source@.len()),
    ensures
        out@ == paired(tokens@, source@),
{
    let mut out: Vec<Token> = Vec::new();
    let mut open: Vec<usize> = Vec::new();
    let mut i: usize = 0;
    while i < tokens.len()
        invariant
            i <= tokens.len(),
            contiguous(tokens@, source@.len()),
            out@.len() == i,
            open@ == pairing(tokens@, source@, i as int).open,
            pairing_sound(tokens@, pairing(tokens@, source@, i as int), i as int),
            forall|k: int|
                0 <= k < i ==> out@[k] == with_twin(
                    tokens@[k],
                    pairing(tokens@, source@, i as int).twins[k],
                ),
        decreases tokens.len() - i,
    {
        let token = tokens[i];
        let ghost before = pairing(tokens@, source@, i as int);
        let ghost after = pairing(tokens@, source@, i + 1);
        proof {
            pairing_is_sound(tokens@, source@, i + 1);
        }
        if token.kind.is_quote() {
            let mark = source[token.span.start];
            if mark != '\u{201c}' && open.len() > 0 {
                let j = open.pop().unwrap();
                proof {
                    assert(after == closed_by(before, i as int));
                    assert(j == before.open.last());
                    assert(j < i);
                }
                let partner = out[j];
                out.set(
                    j,
                    Token {
                        kind: TokenKind::Punctuation(
                            Punctuation::Quote(Quote { twin_loc: Some(i) }),
                        ),
                        span: partner.span,
                    },
                );
                out.push(
                    Token {
                        kind: TokenKind::Punctuation(
                            Punctuation::Quote(Quote { twin_loc: Some(j) }),
                        ),
                        span: token.span,
                    },
                );
            } else if mark == '\u{201d}' {
                out.push(
                    Token {
                        kind: TokenKind::Punctuation(Punctuation::Quote(Quote { twin_loc: None })),
                        span: token.span,
                    },
                );
            } else {
                open.push(i);
                out.push(
                    Token {
                        kind: TokenKind::Punctuation(Punctuation::Quote(Quote { twin_loc: None })),
                        span: token.span,
                    },
                );
            }
        } else {
            out.push(token);
        }
        i += 1;
    }
    assert(out@ =~= paired(tokens@, source@));
    out
}

/// What a document is: its source and the tokens cut from it.
pub struct DocumentView {
    pub source: Seq<char>,
    pub tokens: Seq<Token>,
}

/// A source together with its tokens.  Both are fixed when the document is
/// made.
#[derive(Debug)]
pub struct Document {
    source: Vec<char>,
    tokens: Vec<Token>,
}

impl View for Document {
    type V = DocumentView;

    closed spec fn view(&self) -> DocumentView {
        DocumentView { source: self.source@, tokens: self.tokens@ }
    }
}

impl Document {
    #[verifier::type_invariant]
    spec fn holds_together(&self) -> bool {
        &&& tiles(self.tokens@, self.source@.len())
        &&& twins_linked(self.tokens@)
    }

    /// What holds of every document: the tokens cover the source from end
    /// to end, and twins point at each other.
    pub open spec fn well_formed(&self) -> bool {
        &&& tiles(self@.tokens, self@.source.len())
        &&& twins_linked(self@.tokens)
    }

    /// Tokenize a source against a dictionary.
    pub fn new_from_vec<D: Dictionary>(source: Vec<char>, dict: &D) -> (doc: Document)
        ensures
            doc@.source == source@,
            doc@.tokens == tokens_of(source@, dict),
            doc.well_formed(),
    {
        let lexed = lex(source.as_slice(), dict);
        let tokens = pair_quotes(&lexed, source.as_slice());
        proof {
            paired_is_linked(lexed@, source@);
            let out = tokens@;
            assert(contiguous(out, source@.len())) by {
                assert forall|i: int| 0 <= i && i + 1 < out.len() implies (#[trigger] out[i]).span.end
                    == out[i + 1].span.start by {
                    assert(out[i].span == lexed@[i].span);
                    assert(out[i + 1].span == lexed@[i + 1].span);
                }
                assert forall|i: int| 0 <= i < out.len() implies (#[trigger] out[i]).span.start
                    < out[i].span.end && out[i].span.end <= source@.len() by {
                    assert(out[i].span == lexed@[i].span);
                }
            }
            if out.len() > 0 {
                assert(out[0].span == lexed@[0].span);
                assert(out.last().span == lexed@.last().span);
            }
        }
        Document { source, tokens }
    }

    /// Tokenize a text against a dictionary.
    pub fn new<D: Dictionary>(text: &str, dict: &D) -> (doc: Document)
        ensures
            doc@.source == text@,
            doc@.tokens == tokens_of(text@, dict),
            doc.well_formed(),
    {
        Document::new_from_vec(chars_of(text), dict)
    }

    /// The characters of the source.
    pub fn get_source(&self) -> (source: &[char])
        ensures
            source@ == self@.source,
            self.well_formed(),
    {
        proof {
            use_type_invariant(self);
        }
        self.source.as_slice()
    }

    /// The tokens, in source order.
    pub fn tokens(&self) -> (tokens: &[Token])
        ensures
            tokens@ == self@.tokens,
            self.well_formed(),
    {
        proof {
            use_type_invariant(self);
        }
        self.tokens.as_slice()
    }

    /// The number of tokens.
    pub fn token_count(&self) -> (n: usize)
        ensures
            n == self@.tokens.len(),
    {
        self.tokens.len()
    }
}

/// Tokenize a text against a dictionary.  The same text and dictionary
/// always give the same tokens.
pub fn tokenize<D: Dictionary>(text: &str, dict: &D) -> (doc: Document)
    ensures
        doc@.source == text@,
        doc@.tokens == tokens_of(text@, dict),
        doc.well_formed(),
{
    Document::new(text, dict)
}

} // verus!
