//! Composable matchers over token sequences.

use vstd::prelude::*;
use crate::text::{chars_eq, chars_eq_ignore_ascii_case, chars_of, eq_ignore_ascii_case};
use crate::token::Token;

verus! {

/// A test of a single token.
#[derive(Clone, Copy, Debug, PartialEq, Eq, Structural)]
pub enum TokenTest {
    /// Any word.
    Word,
    /// A word that can stand for a thing.
    Nominal,
    /// A word with more than one part of speech.
    LikelyHomograph,
    /// A word that can stand for a thing and is nothing else.
    UnambiguousNominal,
}

impl TokenTest {
    /// Whether the token passes the test.
    pub open spec fn holds(&self, token: Token) -> bool {
        match self {
            TokenTest::Word => token.kind.spec_is_word(),
            TokenTest::Nominal => token.kind.spec_is_nominal(),
            TokenTest::LikelyHomograph => token.kind.spec_is_likely_homograph(),
            TokenTest::UnambiguousNominal => token.kind.spec_is_nominal()
                && !token.kind.spec_is_likely_homograph(),
        }
    }

    /// Apply the test to a token.
    pub fn check(&self, token: &Token) -> (b: bool)
        ensures
            b == self.holds(*token),
    {
        match self {
            TokenTest::Word => token.kind.is_word(),
            TokenTest::Nominal => token.kind.is_nominal(),
            TokenTest::LikelyHomograph => token.kind.is_likely_homograph(),
            TokenTest::UnambiguousNominal => token.kind.is_nominal()
                && !token.kind.is_likely_homograph(),
        }
    }
}

/// A matcher: tried at a position of a token sequence, it either fails or
/// consumes one or more tokens from there.
#[derive(Debug)]
pub enum Pattern {
    /// The word, in any capitalization.
    AnyCapitalizationOf(Vec<char>),
    /// The word, exactly as written.
    ExactWord(Vec<char>),
    /// Any of the words, in any capitalization.
    WordSet(Vec<Vec<char>>),
    /// A run of blanks or line feeds.
    Whitespace,
    /// A token that passes the test.
    Test(TokenTest),
    /// Each pattern in turn, the next where the one before stopped.
    Sequence(Vec<Pattern>),
    /// The pattern filed under the word at hand, exactly as written; of two
    /// patterns filed under one word the earlier counts.
    WordGroup(Vec<(Vec<char>, Pattern)>),
}

/// The text of the token at `at`, if it is a word inside the source.
pub open spec fn word_at(tokens: Seq<Token>, source: Seq<char>, at: int) -> Option<Seq<char>> {
    if 0 <= at < tokens.len() && tokens[at].kind.spec_is_word() {
        tokens[at].text(source)
    } else {
        None
    }
}

/// Whether `word` is one of `words`, in any capitalization.
pub open spec fn in_word_set(words: Seq<Vec<char>>, word: Seq<char>) -> bool {
    exists|i: int| 0 <= i < words.len() && eq_ignore_ascii_case(word, #[trigger] words[i]@)
}

/// One token, if the condition holds.
pub open spec fn one_if(condition: bool) -> Option<nat> {
    if condition {
        Some(1nat)
    } else {
        None
    }
}

/// `first` tokens and then what `rest` consumed.
pub open spec fn and_then_count(first: nat, rest: Option<nat>) -> Option<nat> {
    match rest {
        Some(n) => Some(first + n),
        None => None,
    }
}

/// What the patterns `patterns[k..]` consume, one after the other, from
/// `at`.
pub open spec fn sequence_matches(
    patterns: Seq<Pattern>,
    tokens: Seq<Token>,
    source: Seq<char>,
    at: int,
    k: int,
) -> Option<nat>
    decreases patterns, patterns.len() - k,
{
    if k < 0 || k >= patterns.len() {
        Some(0nat)
    } else {
        match patterns[k].matches_at(tokens, source, at) {
            Some(n) => and_then_count(n, sequence_matches(patterns, tokens, source, at + n, k + 1)),
            None => None,
        }
    }
}

/// What the first of `rules[k..]` filed under `word` consumes from `at`.
pub open spec fn group_matches(
    rules: Seq<(Vec<char>, Pattern)>,
    tokens: Seq<Token>,
    source: Seq<char>,
    at: int,
    word: Seq<char>,
    k: int,
) -> Option<nat>
    decreases rules, rules.len() - k,
{
    if k < 0 || k >= rules.len() {
        None
    } else if rules[k].0@ == word {
        rules[k].1.matches_at(tokens, source, at)
    } else {
        group_matches(rules, tokens, source, at, word, k + 1)
    }
}

/// An exec count agrees with a spec count.
pub open spec fn same_count(out: Option<usize>, expected: Option<nat>) -> bool {
    match out {
        Some(n) => expected == Some(n as nat),
        None => expected is None,
    }
}

impl Pattern {
    /// The number of tokens the pattern consumes at `at`, or `None` where
    /// it does not match.
    pub open spec fn matches_at(&self, tokens: Seq<Token>, source: Seq<char>, at: int) -> Option<
        nat,
    >
        decreases self,
    {
        match self {
            Pattern::AnyCapitalizationOf(word) => one_if(
                word_at(tokens, source, at) matches Some(text) && eq_ignore_ascii_case(
                    text,
                    word@,
                ),
            ),
            Pattern::ExactWord(word) => one_if(word_at(tokens, source, at) == Some(word@)),
            Pattern::WordSet(words) => one_if(
                word_at(tokens, source, at) matches Some(text) && in_word_set(words@, text),
            ),
            Pattern::Whitespace => one_if(
                0 <= at < tokens.len() && tokens[at].kind.spec_is_whitespace(),
            ),
            Pattern::Test(test) => one_if(0 <= at < tokens.len() && test.holds(tokens[at])),
            Pattern::Sequence(patterns) => if patterns@.len() == 0 {
                None
            } else {
                sequence_matches(patterns@, tokens, source, at, 0)
            },
            Pattern::WordGroup(rules) => match word_at(tokens, source, at) {
                Some(text) => group_matches(rules@, tokens, source, at, text, 0),
                None => None,
            },
        }
    }

    /// Try the pattern at position `at`.  A match consumes at least one
    /// token and stays inside the sequence.
    #[verifier::loop_isolation(false)]
    pub fn matches(&self, tokens: &[Token], source: &[char], at: usize) -> (out: Option<usize>)
        ensures
            same_count(out, self.matches_at(tokens@, source@, at as int)),
            out matches Some(n) ==> 1 <= n && at + n <= tokens@.len(),
        decreases self,
    {
        match self {
            Pattern::AnyCapitalizationOf(word) => {
                match word_text(tokens, source, at) {
                    Some(text) => if chars_eq_ignore_ascii_case(text, word.as_slice()) {
                        Some(1)
                    } else {
                        None
                    },
                    None => None,
                }
            },
            Pattern::ExactWord(word) => {
                match word_text(tokens, source, at) {
                    Some(text) => if chars_eq(text, word.as_slice()) {
                        Some(1)
                    } else {
                        None
                    },
                    None => None,
                }
            },
            Pattern::WordSet(words) => {
                match word_text(tokens, source, at) {
                    Some(text) => {
                        let mut i: usize = 0;
                        while i < words.len()
                            invariant
                                i <= words.len(),
                                forall|j: int|
                                    0 <= j < i ==> !eq_ignore_ascii_case(text@, #[trigger] words@[j]@),
                            decreases words.len() - i,
                        {
                            if chars_eq_ignore_ascii_case(text, words[i].as_slice()) {
                                return Some(1);
                            }
                            i += 1;
                        }
                        None
                    },
                    None => None,
                }
            },
            Pattern::Whitespace => {
                if at < tokens.len() && tokens[at].kind.is_whitespace() {
                    Some(1)
                } else {
                    None
                }
            },
            Pattern::Test(test) => {
                if at < tokens.len() && test.check(&tokens[at]) {
                    Some(1)
                } else {
                    None
                }
            },
            Pattern::Sequence(patterns) => {
                if patterns.len() == 0 || at > tokens.len() {
                    proof {
                        if patterns@.len() > 0 {
                            sequence_needs_room(patterns@, tokens@, source@, at as int, 0);
                        }
                    }
                    return None;
                }
                let mut consumed: usize = 0;
                let mut k: usize = 0;
                while k < patterns.len()
                    invariant
                        k <= patterns.len(),
                        at + consumed <= tokens@.len(),
                        k <= consumed,
                        sequence_matches(patterns@, tokens@, source@, at as int, 0)
                            == and_then_count(
                            consumed as nat,
                            sequence_matches(
                                patterns@,
                                tokens@,
                                source@,
                                at + consumed,
                                k as int,
                            ),
                        ),
                    decreases patterns.len() - k,
                {
                    match patterns[k].matches(tokens, source, at + consumed) {
                        Some(n) => {
                            consumed += n;
                        },
                        None => {
                            return None;
                        },
                    }
                    k += 1;
                }
                Some(consumed)
            },
            Pattern::WordGroup(rules) => {
                match word_text(tokens, source, at) {
                    Some(text) => {
                        let mut k: usize = 0;
                        while k < rules.len()
                            invariant
                                k <= rules.len(),
                                at < tokens@.len(),
                                group_matches(rules@, tokens@, source@, at as int, text@, k as int)
                                    == group_matches(rules@, tokens@, source@, at as int, text@, 0),
                            decreases rules.len() - k,
                        {
                            if chars_eq(rules[k].0.as_slice(), text) {
                                return rules[k].1.matches(tokens, source, at);
                            }
                            k += 1;
                        }
                        None
                    },
                    None => None,
                }
            },
        }
    }
}

/// The texts of a list of words.
pub open spec fn word_texts(words: Seq<Vec<char>>) -> Seq<Seq<char>> {
    words.map_values(|w: Vec<char>| w@)
}

impl Pattern {
    /// The pattern is the one for `word` in any capitalization.
    pub open spec fn is_any_capitalization_of(&self, word: Seq<char>) -> bool {
        self matches Pattern::AnyCapitalizationOf(w) && w@ == word
    }

    /// The pattern is the one for `word` exactly as written.
    pub open spec fn is_exact_word(&self, word: Seq<char>) -> bool {
        self matches Pattern::ExactWord(w) && w@ == word
    }

    /// The pattern is the one for any of `words`, in any capitalization.
    pub open spec fn is_word_set(&self, words: Seq<Seq<char>>) -> bool {
        self matches Pattern::WordSet(ws) && word_texts(ws@) == words
    }

    /// The pattern for `word` in any capitalization.
    pub fn any_capitalization_of(word: &str) -> (pattern: Pattern)
        ensures
            pattern.is_any_capitalization_of(word@),
    {
        Pattern::AnyCapitalizationOf(chars_of(word))
    }

    /// The pattern for `word` exactly as written.
    pub fn exact_word(word: &str) -> (pattern: Pattern)
        ensures
            pattern.is_exact_word(word@),
    {
        Pattern::ExactWord(chars_of(word))
    }

    /// The pattern for any of `words`, in any capitalization.
    pub fn word_set(words: &[&str]) -> (pattern: Pattern)
        ensures
            pattern.is_word_set(words@.map_values(|w: &str| w@)),
    {
        let mut set: Vec<Vec<char>> = Vec::new();
        let mut i: usize = 0;
        while i < words.len()
            invariant
                i <= words.len(),
                set@.len() == i,
                forall|j: int| 0 <= j < i ==> (#[trigger] set@[j])@ == words@[j]@,
            decreases words.len() - i,
        {
            set.push(chars_of(words[i]));
            i += 1;
        }
        assert(word_texts(set@) =~= words@.map_values(|w: &str| w@));
        Pattern::WordSet(set)
    }
}

/// A chain of patterns under construction.
#[derive(Debug)]
pub struct SequencePattern {
    pub token_patterns: Vec<Pattern>,
}

impl SequencePattern {
    /// The empty chain.
    pub fn new() -> (out: SequencePattern)
        ensures
            out.token_patterns@.len() == 0,
    {
        SequencePattern { token_patterns: Vec::new() }
    }

    /// The chain of one pattern: `word` in any capitalization.
    pub fn aco(word: &str) -> (out: SequencePattern)
        ensures
            out.token_patterns@.len() == 1,
            out.token_patterns@[0].is_any_capitalization_of(word@),
    {
        SequencePattern::new().then_any_capitalization_of(word)
    }

    /// The chain with `pattern` behind it.
    pub fn then_pattern(self, pattern: Pattern) -> (out: SequencePattern)
        ensures
            out.token_patterns@ == self.token_patterns@.push(pattern),
    {
        let mut token_patterns = self.token_patterns;
        token_patterns.push(pattern);
        SequencePattern { token_patterns }
    }

    /// The chain with a whitespace pattern behind it.
    pub fn then_whitespace(self) -> (out: SequencePattern)
        ensures
            out.token_patterns@ == self.token_patterns@.push(Pattern::Whitespace),
    {
        self.then_pattern(Pattern::Whitespace)
    }

    /// The chain with a token test behind it.
    pub fn then_test(self, test: TokenTest) -> (out: SequencePattern)
        ensures
            out.token_patterns@ == self.token_patterns@.push(Pattern::Test(test)),
    {
        self.then_pattern(Pattern::Test(test))
    }

    /// The chain with the pattern for `word`, in any capitalization, behind
    /// it.
    pub fn then_any_capitalization_of(self, word: &str) -> (out: SequencePattern)
        ensures
            out.token_patterns@.len() == self.token_patterns@.len() + 1,
            out.token_patterns@.drop_last() == self.token_patterns@,
            out.token_patterns@.last().is_any_capitalization_of(word@),
    {
        let ghost before = self.token_patterns@;
        let out = self.then_pattern(Pattern::any_capitalization_of(word));
        assert(out.token_patterns@.drop_last() =~= before);
        out
    }

    /// The chain with the pattern for `word`, exactly as written, behind it.
    pub fn then_exact_word(self, word: &str) -> (out: SequencePattern)
        ensures
            out.token_patterns@.len() == self.token_patterns@.len() + 1,
            out.token_patterns@.drop_last() == self.token_patterns@,
            out.token_patterns@.last().is_exact_word(word@),
    {
        let ghost before = self.token_patterns@;
        let out = self.then_pattern(Pattern::exact_word(word));
        assert(out.token_patterns@.drop_last() =~= before);
        out
    }

    /// The finished chain as a pattern.
    pub fn into_pattern(self) -> (pattern: Pattern)
        ensures
            pattern == Pattern::Sequence(self.token_patterns),
    {
        Pattern::Sequence(self.token_patterns)
    }
}

/// A set of patterns, each filed under a word, under construction.
#[derive(Debug)]
pub struct WordPatternGroup {
    pub patterns: Vec<(Vec<char>, Pattern)>,
}

impl WordPatternGroup {
    /// The empty group.
    pub fn new() -> (out: WordPatternGroup)
        ensures
            out.patterns@.len() == 0,
    {
        WordPatternGroup { patterns: Vec::new() }
    }

    /// File `pattern` under `word`, behind what is filed already.
    pub fn add(&mut self, word: &str, pattern: Pattern)
        ensures
            final(self).patterns@.len() == old(self).patterns@.len() + 1,
            final(self).patterns@.drop_last() == old(self).patterns@,
            final(self).patterns@.last().0@ == word@,
            final(self).patterns@.last().1 == pattern,
    {
        self.patterns.push((chars_of(word), pattern));
        assert(self.patterns@.drop_last() =~= old(self).patterns@);
    }

    /// File under `word` the pattern that matches just that word.
    pub fn add_word(&mut self, word: &str)
        ensures
            final(self).patterns@.len() == old(self).patterns@.len() + 1,
            final(self).patterns@.drop_last() == old(self).patterns@,
            final(self).patterns@.last().0@ == word@,
            final(self).patterns@.last().1.is_exact_word(word@),
    {
        self.add(word, Pattern::exact_word(word));
    }

    /// The finished group as a pattern.
    pub fn into_pattern(self) -> (pattern: Pattern)
        ensures
            pattern == Pattern::WordGroup(self.patterns),
    {
        Pattern::WordGroup(self.patterns)
    }
}

/// The rules file, under each of `words` in turn, the pattern that matches
/// just that word.
pub open spec fn files_exact_words(rules: Seq<(Vec<char>, Pattern)>, words: Seq<Seq<char>>) -> bool {
    &&& rules.len() == words.len()
    &&& forall|i: int|
        0 <= i < rules.len() ==> (#[trigger] rules[i]).0@ == words[i] && rules[i].1.is_exact_word(
            words[i],
        )
}

/// Filing one more word keeps a group of exact words one.
pub proof fn files_exact_words_grows(
    before: Seq<(Vec<char>, Pattern)>,
    after: Seq<(Vec<char>, Pattern)>,
    words: Seq<Seq<char>>,
    word: Seq<char>,
)
    requires
        files_exact_words(before, words),
        after.len() == before.len() + 1,
        after.drop_last() == before,
        after.last().0@ == word,
        after.last().1.is_exact_word(word),
    ensures
        files_exact_words(after, words.push(word)),
{
    assert forall|i: int| 0 <= i < after.len() implies (#[trigger] after[i]).0@ == words.push(
        word,
    )[i] && after[i].1.is_exact_word(words.push(word)[i]) by {
        if i < before.len() {
            assert(after[i] == after.drop_last()[i]);
        }
    }
}

/// Whether `word` is one of `words[k..]`, exactly as written.
pub open spec fn listed_from(words: Seq<Seq<char>>, word: Seq<char>, k: int) -> bool {
    exists|i: int| k <= i < words.len() && #[trigger] words[i] == word
}

/// A group of exact words matches the words it files, one token each.
pub proof fn exact_word_group_matches(
    rules: Seq<(Vec<char>, Pattern)>,
    words: Seq<Seq<char>>,
    tokens: Seq<Token>,
    source: Seq<char>,
    at: int,
    text: Seq<char>,
    k: int,
)
    requires
        files_exact_words(rules, words),
        0 <= k <= rules.len(),
        word_at(tokens, source, at) == Some(text),
    ensures
        group_matches(rules, tokens, source, at, text, k) == one_if(listed_from(words, text, k)),
    decreases rules.len() - k,
{
    if k < rules.len() {
        exact_word_group_matches(rules, words, tokens, source, at, text, k + 1);
        if rules[k].0@ == text {
            assert(words[k] == text);
            assert(rules[k].1.matches_at(tokens, source, at) == Some(1nat));
        } else {
            if listed_from(words, text, k) {
                let i = choose|i: int| k <= i < words.len() && #[trigger] words[i] == text;
                assert(i != k);
                assert(k + 1 <= i < words.len() && words[i] == text);
            }
        }
    } else {
        assert(!listed_from(words, text, k));
    }
}

/// What a chain of three patterns consumes: what each consumes in turn.
pub proof fn sequence_of_three(pattern: Pattern, tokens: Seq<Token>, source: Seq<char>, at: int)
    requires
        pattern is Sequence,
        pattern->Sequence_0@.len() == 3,
    ensures
        pattern.matches_at(tokens, source, at) == ({
            let steps = pattern->Sequence_0@;
            match steps[0].matches_at(tokens, source, at) {
                Some(a) => match steps[1].matches_at(tokens, source, at + a) {
                    Some(b) => match steps[2].matches_at(tokens, source, at + a + b) {
                        Some(c) => Some(a + b + c),
                        None => None,
                    },
                    None => None,
                },
                None => None,
            }
        }),
{
    let steps = pattern->Sequence_0@;
    assert(pattern.matches_at(tokens, source, at) == sequence_matches(
        steps,
        tokens,
        source,
        at,
        0,
    ));
    match steps[0].matches_at(tokens, source, at) {
        Some(a) => {
            match steps[1].matches_at(tokens, source, at + a) {
                Some(b) => {
                    match steps[2].matches_at(tokens, source, at + a + b) {
                        Some(c) => {
                            assert(sequence_matches(steps, tokens, source, at + a + b + c, 3)
                                == Some(0nat));
                            assert(sequence_matches(steps, tokens, source, at + a + b, 2) == Some(
                                c,
                            ));
                            assert(sequence_matches(steps, tokens, source, at + a, 1) == Some(
                                b + c,
                            ));
                        },
                        None => {
                            assert(sequence_matches(steps, tokens, source, at + a + b, 2) is None);
                            assert(sequence_matches(steps, tokens, source, at + a, 1) is None);
                        },
                    }
                },
                None => {
                    assert(sequence_matches(steps, tokens, source, at + a, 1) is None);
                },
            }
        },
        None => {},
    }
}

/// A sequence of one or more patterns matches nowhere past the tokens.
pub proof fn sequence_needs_room(
    patterns: Seq<Pattern>,
    tokens: Seq<Token>,
    source: Seq<char>,
    at: int,
    k: int,
)
    requires
        0 <= k < patterns.len(),
        at >= tokens.len(),
    ensures
        sequence_matches(patterns, tokens, source, at, k) is None,
{
    pattern_needs_room(patterns[k], tokens, source, at);
}

/// No pattern matches past the tokens.
pub proof fn pattern_needs_room(pattern: Pattern, tokens: Seq<Token>, source: Seq<char>, at: int)
    requires
        at >= tokens.len(),
    ensures
        pattern.matches_at(tokens, source, at) is None,
    decreases pattern,
{
    match pattern {
        Pattern::Sequence(patterns) => {
            if patterns@.len() > 0 {
                pattern_needs_room(patterns@[0], tokens, source, at);
            }
        },
        _ => {},
    }
}

/// Borrow the text of the token at `at`, if it is a word inside the source.
pub fn word_text<'a>(tokens: &[Token], source: &'a [char], at: usize) -> (out: Option<&'a [char]>)
    ensures
        out is Some == word_at(tokens@, source@, at as int) is Some,
        out matches Some(text) ==> word_at(tokens@, source@, at as int) == Some(text@),
        out is Some ==> at < tokens@.len(),
{
    if at < tokens.len() && tokens[at].kind.is_word() {
        tokens[at].span.try_get_content(source)
    } else {
        None
    }
}

} // verus!
