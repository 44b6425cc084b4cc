//! The dictionary a document is tokenized against, and a word list that
//! serves as one.

use vstd::prelude::*;
use crate::text::{ascii_lower_seq, ascii_lowercase, chars_eq, chars_of};
use crate::token::WordMetadata;

verus! {

/// What tokenization asks of a dictionary.  A dictionary is read-only: the
/// same word always gets the same answer.
pub trait Dictionary {
    /// What the dictionary knows of `word`; `None` for an unknown word.
    spec fn metadata_of(&self, word: Seq<char>) -> Option<WordMetadata>;

    fn get_word_metadata(&self, word: &[char]) -> (out: Option<WordMetadata>)
        ensures
            out == self.metadata_of(word@),
    ;

    fn contains_word(&self, word: &[char]) -> (known: bool)
        ensures
            known == self.metadata_of(word@) is Some,
    ;
}

/// One word of a [`WordList`].
#[derive(Clone, Debug)]
pub struct WordEntry {
    pub word: Vec<char>,
    pub metadata: WordMetadata,
}

/// A dictionary held as a list of words.  A word is looked up as written
/// and, failing that, in ASCII lower case; of two entries for one word the
/// earlier counts.
#[derive(Clone, Debug)]
pub struct WordList {
    entries: Vec<WordEntry>,
}

/// The metadata of the first entry of `entries[from..]` spelled `word`.
pub open spec fn first_entry(
    entries: Seq<(Seq<char>, WordMetadata)>,
    word: Seq<char>,
    from: int,
) -> Option<WordMetadata>
    decreases entries.len() - from,
{
    if from < 0 || from >= entries.len() {
        None
    } else if entries[from].0 == word {
        Some(entries[from].1)
    } else {
        first_entry(entries, word, from + 1)
    }
}

/// Lookup as written, then in ASCII lower case.
pub open spec fn looked_up(entries: Seq<(Seq<char>, WordMetadata)>, word: Seq<char>) -> Option<
    WordMetadata,
> {
    match first_entry(entries, word, 0) {
        Some(metadata) => Some(metadata),
        None => first_entry(entries, ascii_lower_seq(word), 0),
    }
}

impl View for WordList {
    type V = Seq<(Seq<char>, WordMetadata)>;

    closed spec fn view(&self) -> Seq<(Seq<char>, WordMetadata)> {
        self.entries@.map_values(|e: WordEntry| (e.word@, e.metadata))
    }
}

impl WordList {
    /// The empty list, in which every word is unknown.
    pub fn new() -> (list: WordList)
        ensures
            list@ == Seq::<(Seq<char>, WordMetadata)>::empty(),
    {
        let list = WordList { entries: Vec::new() };
        assert(list@ =~= Seq::<(Seq<char>, WordMetadata)>::empty());
        list
    }

    /// Add a word after those already listed.
    pub fn add_word(&mut self, word: &str, metadata: WordMetadata)
        ensures
            final(self)@ == old(self)@.push((word@, metadata)),
    {
        self.entries.push(WordEntry { word: chars_of(word), metadata });
        assert(self@ =~= old(self)@.push((word@, metadata)));
    }

    /// The number of entries.
    pub fn len(&self) -> (n: usize)
        ensures
            n == self@.len(),
    {
        self.entries.len()
    }

    fn find(&self, word: &[char]) -> (out: Option<WordMetadata>)
        ensures
            out == first_entry(self@, word@, 0),
    {
        let mut i: usize = 0;
        while i < self.entries.len()
            invariant
                i <= self.entries.len(),
                first_entry(self@, word@, i as int) == first_entry(self@, word@, 0),
            decreases self.entries.len() - i,
        {
            if chars_eq(self.entries[i].word.as_slice(), word) {
                return Some(self.entries[i].metadata);
            }
            i += 1;
        }
        None
    }
}

impl Dictionary for WordList {
    open spec fn metadata_of(&self, word: Seq<char>) -> Option<WordMetadata> {
        looked_up(self@, word)
    }

    fn get_word_metadata(&self, word: &[char]) -> (out: Option<WordMetadata>)
        ensures
            out == looked_up(self@, word@),
    {
        match self.find(word) {
            Some(metadata) => Some(metadata),
            None => {
                let lower = ascii_lowercase(word);
                self.find(lower.as_slice())
            },
        }
    }

    fn contains_word(&self, word: &[char]) -> (known: bool)
        ensures
            known == looked_up(self@, word@) is Some,
    {
        self.get_word_metadata(word).is_some()
    }
}

} // verus!
