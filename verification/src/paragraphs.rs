//! Splitting text into blocks at a separator and into trimmed paragraphs.

use vstd::prelude::*;
use vstd::slice::{slice_subrange, slice_to_vec};
use crate::text::{chars_of, string_of, texts, trim, trim_bounds, trimmed};

verus! {

/// Whether a blank-line separator (two line feeds) begins at `i`.
pub open spec fn break_at(s: Seq<char>, i: int) -> bool {
    0 <= i && i + 1 < s.len() && s[i] == '\n' && s[i + 1] == '\n'
}

/// Where the first blank-line separator at or after `from` begins; the
/// length of `s` when there is none.
pub open spec fn next_break(s: Seq<char>, from: int) -> int
    decreases s.len() - from,
{
    if from < 0 || from + 1 >= s.len() {
        s.len() as int
    } else if break_at(s, from) {
        from
    } else {
        next_break(s, from + 1)
    }
}

/// The next break lies at or after `from`, is a break unless the text ends
/// first, and no break begins before it.
pub proof fn next_break_is_first(s: Seq<char>, from: int)
    requires
        0 <= from <= s.len(),
    ensures
        from <= next_break(s, from) <= s.len(),
        next_break(s, from) < s.len() ==> break_at(s, next_break(s, from)),
        forall|j: int| from <= j < next_break(s, from) ==> !break_at(s, j),
    decreases s.len() - from,
{
    if from + 1 < s.len() && !break_at(s, from) {
        next_break_is_first(s, from + 1);
    }
}

/// The blocks of `s[from..]` that blank-line separators delimit, scanning
/// from the left; a separator is consumed whole before the next block.
pub open spec fn blocks_from(s: Seq<char>, from: int) -> Seq<Seq<char>>
    decreases s.len() - from,
{
    if from < 0 || from > s.len() {
        Seq::empty()
    } else {
        let stop = next_break(s, from);
        if stop >= s.len() {
            seq![s.subrange(from, s.len() as int)]
        } else {
            proof {
                next_break_is_first(s, from);
            }
            seq![s.subrange(from, stop)] + blocks_from(s, stop + 2)
        }
    }
}

/// The blocks that are not blank, trimmed, in order.
pub open spec fn kept_blocks(blocks: Seq<Seq<char>>) -> Seq<Seq<char>>
    decreases blocks.len(),
{
    if blocks.len() == 0 {
        Seq::empty()
    } else {
        let before = kept_blocks(blocks.drop_last());
        if trimmed(blocks.last()).len() > 0 {
            before.push(trimmed(blocks.last()))
        } else {
            before
        }
    }
}

/// The paragraphs of a text: its blocks between blank lines, trimmed,
/// without the blank ones.
pub open spec fn paragraphs_of(raw: Seq<char>) -> Seq<Seq<char>> {
    kept_blocks(blocks_from(trimmed(raw), 0))
}

/// Find the next blank-line separator.
pub fn find_break(s: &[char], from: usize) -> (stop: usize)
    requires
        from <= s@.len(),
    ensures
        stop == next_break(s@, from as int),
        from <= stop <= s@.len(),
{
    let mut i: usize = from;
    proof {
        next_break_is_first(s@, from as int);
    }
    while i < s.len() && i + 1 < s.len() && !(s[i] == '\n' && s[i + 1] == '\n')
        invariant
            from <= i <= s@.len(),
            next_break(s@, i as int) == next_break(s@, from as int),
        decreases s.len() - i,
    {
        i += 1;
    }
    if i < s.len() && i + 1 < s.len() {
        i
    } else {
        s.len()
    }
}

/// Split a character buffer into its paragraphs.
pub fn split_paragraph_chars(raw: &[char]) -> (out: Vec<Vec<char>>)
    ensures
        out@.map_values(|p: Vec<char>| p@) == paragraphs_of(raw@),
{
    let body = trim(raw);
    let mut out: Vec<Vec<char>> = Vec::new();
    let mut from: usize = 0;
    let ghost mut done: Seq<Seq<char>> = Seq::empty();
    loop
        invariant_except_break
            from <= body@.len(),
            blocks_from(body@, 0) == done + blocks_from(body@, from as int),
        invariant
            body@ == trimmed(raw@),
            out@.map_values(|p: Vec<char>| p@) == kept_blocks(done),
        ensures
            done == blocks_from(body@, 0),
        decreases body@.len() - from,
    {
        let stop = find_break(body, from);
        let block = slice_subrange(body, from, stop);
        let (a, b) = trim_bounds(block);
        let ghost before = out@.map_values(|p: Vec<char>| p@);
        let ghost prior = done;
        proof {
            done = done.push(block@);
            assert(done.drop_last() == prior);
        }
        if a < b {
            let kept = slice_to_vec(slice_subrange(block, a, b));
            out.push(kept);
            assert(out@.map_values(|p: Vec<char>| p@) =~= before.push(trimmed(block@)));
        }
        if stop >= body.len() {
            proof {
                assert(prior + blocks_from(body@, from as int) =~= done);
            }
            break;
        }
        proof {
            assert(prior + blocks_from(body@, from as int) =~= done + blocks_from(
                body@,
                stop + 2,
            ));
            next_break_is_first(body@, from as int);
        }
        from = stop + 2;
    }
    out
}

/// Split a text into its paragraphs.
pub fn split_paragraphs(raw_text: &str) -> (out: Vec<String>)
    ensures
        texts(out@) == paragraphs_of(raw_text@),
{
    let chars = chars_of(raw_text);
    let parts = split_paragraph_chars(chars.as_slice());
    let mut out: Vec<String> = Vec::new();
    let mut i: usize = 0;
    while i < parts.len()
        invariant
            i <= parts.len(),
            out@.len() == i,
            forall|j: int| 0 <= j < i ==> (#[trigger] out@[j])@ == parts@[j]@,
        decreases parts.len() - i,
    {
        out.push(string_of(parts[i].as_slice()));
        i += 1;
    }
    assert(texts(out@) =~= parts@.map_values(|p: Vec<char>| p@));
    out
}

} // verus!
