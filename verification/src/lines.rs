//! The lines of a source as paragraphs: where each begins, and which one
//! holds a span.

use vstd::prelude::*;
use vstd::slice::slice_subrange;
use crate::span::Span;
use crate::text::{trim_bounds, trim_start, trimmed};

verus! {

/// A non-blank line of the source: its line number counted from one, its
/// trimmed text, and where that text begins in the source.
#[derive(Debug, Clone, Copy)]
pub struct Paragraph<'a> {
    pub key: usize,
    pub text: &'a [char],
    pub start_offset: usize,
}

/// What a paragraph is: its key, text and place in the source.
pub struct ParagraphView {
    pub key: nat,
    pub text: Seq<char>,
    pub start_offset: nat,
}

impl<'a> View for Paragraph<'a> {
    type V = ParagraphView;

    open spec fn view(&self) -> ParagraphView {
        ParagraphView {
            key: self.key as nat,
            text: self.text@,
            start_offset: self.start_offset as nat,
        }
    }
}

/// The views of a list of paragraphs.
pub open spec fn paragraph_views(paragraphs: Seq<Paragraph>) -> Seq<ParagraphView> {
    paragraphs.map_values(|p: Paragraph| p@)
}

/// Where the line that begins at `from` ends: at the next line feed, or at
/// the end of the source.
pub open spec fn line_end(s: Seq<char>, from: int) -> int
    decreases s.len() - from,
{
    if from < 0 || from >= s.len() {
        s.len() as int
    } else if s[from] == '\n' {
        from
    } else {
        line_end(s, from + 1)
    }
}

/// A line ends at or after its start, inside the source.
pub proof fn line_end_bounds(s: Seq<char>, from: int)
    requires
        0 <= from <= s.len(),
    ensures
        from <= line_end(s, from) <= s.len(),
    decreases s.len() - from,
{
    if from < s.len() && s[from] != '\n' {
        line_end_bounds(s, from + 1);
    }
}

/// The paragraph that the line `s[from..stop]` makes, if it is not blank.
pub open spec fn line_paragraph(s: Seq<char>, from: int, stop: int, number: nat) -> Seq<
    ParagraphView,
> {
    let line = s.subrange(from, stop);
    if trimmed(line).len() > 0 {
        seq![
            ParagraphView {
                key: number,
                text: trimmed(line),
                start_offset: (from + trim_start(line)) as nat,
            },
        ]
    } else {
        Seq::empty()
    }
}

/// The paragraphs of `s[from..]`, whose first line has the number
/// `number`.
pub open spec fn paragraphs_from(s: Seq<char>, from: int, number: nat) -> Seq<ParagraphView>
    decreases s.len() - from,
{
    if from < 0 || from > s.len() {
        Seq::empty()
    } else {
        let stop = line_end(s, from);
        let here = line_paragraph(s, from, stop, number);
        if stop >= s.len() {
            here
        } else {
            proof {
                line_end_bounds(s, from);
            }
            here + paragraphs_from(s, stop + 1, number + 1)
        }
    }
}

/// The paragraphs of a source: its non-blank lines.
pub open spec fn paragraphs_in(s: Seq<char>) -> Seq<ParagraphView> {
    paragraphs_from(s, 0, 1)
}

fn find_line_end(s: &[char], from: usize) -> (stop: usize)
    requires
        from <= s@.len(),
    ensures
        stop == line_end(s@, from as int),
        from <= stop <= s@.len(),
{
    let mut i: usize = from;
    while i < s.len() && s[i] != '\n'
        invariant
            from <= i <= s@.len(),
            line_end(s@, i as int) == line_end(s@, from as int),
        decreases s.len() - i,
    {
        i += 1;
    }
    i
}

/// Split a source into paragraphs: one for each line that is not blank.
pub fn split_lines<'a>(source: &'a [char]) -> (paragraphs: Vec<Paragraph<'a>>)
    ensures
        paragraph_views(paragraphs@) == paragraphs_in(source@),
{
    let mut paragraphs: Vec<Paragraph<'a>> = Vec::new();
    let mut from: usize = 0;
    let mut line: usize = 0;
    assert(paragraph_views(paragraphs@) =~= Seq::<ParagraphView>::empty());
    assert(Seq::<ParagraphView>::empty() + paragraphs_in(source@) =~= paragraphs_in(source@));
    loop
        invariant_except_break
            from <= source@.len(),
            line <= from,
            paragraph_views(paragraphs@) + paragraphs_from(source@, from as int, (line + 1) as nat)
                == paragraphs_in(source@),
        ensures
            paragraph_views(paragraphs@) == paragraphs_in(source@),
        decreases source@.len() - from,
    {
        let stop = find_line_end(source, from);
        let text = slice_subrange(source, from, stop);
        let (a, b) = trim_bounds(text);
        let ghost before = paragraph_views(paragraphs@);
        let ghost here = line_paragraph(source@, from as int, stop as int, (line + 1) as nat);
        if a < b {
            let paragraph = Paragraph {
                key: line + 1,
                text: slice_subrange(text, a, b),
                start_offset: from + a,
            };
            paragraphs.push(paragraph);
            assert(paragraph_views(paragraphs@) =~= before + here);
        } else {
            assert(before + here =~= before);
        }
        if stop >= source.len() {
            break;
        }
        proof {
            assert(before + (here + paragraphs_from(source@, stop + 1, (line + 2) as nat)) =~= (
            before + here) + paragraphs_from(source@, stop + 1, (line + 2) as nat));
        }
        from = stop + 1;
        line += 1;
    }
    paragraphs
}

/// The paragraphs of a source are numbered upwards: each key is greater
/// than the one before it, and none is below the number of the first line.
pub proof fn paragraph_keys_rise(s: Seq<char>, from: int, number: nat)
    requires
        0 <= from <= s.len(),
    ensures
        forall|i: int|
            0 <= i < paragraphs_from(s, from, number).len() ==> (#[trigger] paragraphs_from(
                s,
                from,
                number,
            )[i]).key >= number,
        forall|i: int, j: int|
            0 <= i < j < paragraphs_from(s, from, number).len() ==> (#[trigger] paragraphs_from(
                s,
                from,
                number,
            )[i]).key < (#[trigger] paragraphs_from(s, from, number)[j]).key,
    decreases s.len() - from,
{
    let stop = line_end(s, from);
    line_end_bounds(s, from);
    let here = line_paragraph(s, from, stop, number);
    if stop < s.len() {
        paragraph_keys_rise(s, stop + 1, number + 1);
        let rest = paragraphs_from(s, stop + 1, number + 1);
        let all = paragraphs_from(s, from, number);
        assert(all == here + rest);
        assert forall|i: int| 0 <= i < all.len() implies (#[trigger] all[i]).key >= number by {
            if i >= here.len() {
                assert(all[i] == rest[i - here.len()]);
            }
        }
        assert forall|i: int, j: int| 0 <= i < j < all.len() implies (#[trigger] all[i]).key < (
        #[trigger] all[j]).key by {
            assert(all[j] == rest[j - here.len()]);
            if i >= here.len() {
                assert(all[i] == rest[i - here.len()]);
            }
        }
    }
}

/// Whether the paragraph holds the whole span.
pub open spec fn holds_span(paragraph: ParagraphView, span: Span) -> bool {
    span.start >= paragraph.start_offset && span.end <= paragraph.start_offset
        + paragraph.text.len()
}

/// The first of `paragraphs[k..]` that holds the whole span.
pub open spec fn containing(paragraphs: Seq<ParagraphView>, span: Span, k: int) -> Option<
    ParagraphView,
>
    decreases paragraphs.len() - k,
{
    if k < 0 || k >= paragraphs.len() {
        None
    } else if holds_span(paragraphs[k], span) {
        Some(paragraphs[k])
    } else {
        containing(paragraphs, span, k + 1)
    }
}

/// The paragraph that holds a span is one of the paragraphs.
pub proof fn containing_is_listed(paragraphs: Seq<ParagraphView>, span: Span, k: int)
    requires
        0 <= k,
        containing(paragraphs, span, k) is Some,
    ensures
        paragraphs.contains(containing(paragraphs, span, k)->Some_0),
        holds_span(containing(paragraphs, span, k)->Some_0, span),
    decreases paragraphs.len() - k,
{
    if k < paragraphs.len() && !holds_span(paragraphs[k], span) {
        containing_is_listed(paragraphs, span, k + 1);
    }
}

/// Find the first paragraph that holds the whole span.
pub fn find_containing<'a>(paragraphs: &Vec<Paragraph<'a>>, span: Span) -> (found: Option<
    Paragraph<'a>,
>)
    ensures
        found is Some == containing(paragraph_views(paragraphs@), span, 0) is Some,
        found matches Some(paragraph) ==> containing(paragraph_views(paragraphs@), span, 0) == Some(
            paragraph@,
        ) && holds_span(paragraph@, span),
{
    let ghost views = paragraph_views(paragraphs@);
    let mut k: usize = 0;
    while k < paragraphs.len()
        invariant
            k <= paragraphs.len(),
            views == paragraph_views(paragraphs@),
            containing(views, span, k as int) == containing(views, span, 0),
        decreases paragraphs.len() - k,
    {
        let paragraph = paragraphs[k];
        assert(views[k as int] == paragraph@);
        if span.start >= paragraph.start_offset && (span.end <= paragraph.start_offset || span.end
            - paragraph.start_offset <= paragraph.text.len()) {
            return Some(paragraph);
        }
        k += 1;
    }
    None
}

} // verus!
