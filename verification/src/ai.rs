//! Realignment of approximately quoted passages onto the paragraph they
//! were taken from.

use vstd::prelude::*;
use crate::distance::{
    best_window, find_best_window, last_window, verbatim_quotation_is_found, window,
    window_distance,
};
use crate::text::{chars_of, parse_number, parse_usize, texts};

pub use crate::paragraphs::split_paragraphs;
pub use crate::prompt::{build_prompt, extract_json_object, prepare_text_for_analysis};

verus! {

/// Replacement texts proposed for one passage.
#[derive(Debug, Clone, PartialEq, Eq)]
pub struct AiSuggestionsContent {
    pub recommendation: Vec<String>,
}

impl View for AiSuggestionsContent {
    type V = Seq<Seq<char>>;

    open spec fn view(&self) -> Seq<Seq<char>> {
        texts(self.recommendation@)
    }
}

/// A passage as quoted by the analysis service: the key of the paragraph
/// it was taken from, the quoted text, a category and the replacements.
#[derive(Debug, Clone, PartialEq, Eq)]
pub struct AiSuggestion {
    pub paragraph_key: String,
    pub string: String,
    pub kind: String,
    pub suggestions: AiSuggestionsContent,
}

/// What a quoted passage is: its texts.
pub struct AiSuggestionView {
    pub paragraph_key: Seq<char>,
    pub string: Seq<char>,
    pub kind: Seq<char>,
    pub suggestions: Seq<Seq<char>>,
}

impl View for AiSuggestion {
    type V = AiSuggestionView;

    open spec fn view(&self) -> AiSuggestionView {
        AiSuggestionView {
            paragraph_key: self.paragraph_key@,
            string: self.string@,
            kind: self.kind@,
            suggestions: self.suggestions@,
        }
    }
}

/// A passage located in its paragraph: `string` is the paragraph's own
/// text at `[start, end)`.
#[derive(Debug, Clone, PartialEq, Eq)]
pub struct AiFormattedOutput {
    pub start: usize,
    pub length: usize,
    pub end: usize,
    pub paragraph_key: String,
    pub string: String,
    pub kind: String,
    pub suggestions: AiSuggestionsContent,
}

/// What a located passage is: its offsets and texts.
pub struct AiFormattedOutputView {
    pub start: usize,
    pub length: usize,
    pub end: usize,
    pub paragraph_key: Seq<char>,
    pub string: Seq<char>,
    pub kind: Seq<char>,
    pub suggestions: Seq<Seq<char>>,
}

impl View for AiFormattedOutput {
    type V = AiFormattedOutputView;

    open spec fn view(&self) -> AiFormattedOutputView {
        AiFormattedOutputView {
            start: self.start,
            length: self.length,
            end: self.end,
            paragraph_key: self.paragraph_key@,
            string: self.string@,
            kind: self.kind@,
            suggestions: self.suggestions@,
        }
    }
}

/// Body of a request for analysis.
#[derive(Debug, Clone, PartialEq, Eq)]
pub struct AnalyzeRequest {
    pub text: String,
}

/// Why a quoted passage could not be located.
#[derive(Debug, Clone, Copy, PartialEq, Eq, Structural)]
pub enum RealignError {
    /// The paragraph key is not a number.
    KeyNotANumber,
    /// No paragraph has that key.
    ParagraphOutOfRange,
    /// The quotation is empty.
    EmptyQuotation,
    /// The quotation is longer than its paragraph.
    QuotationTooLong,
    /// The closest window differs in more than a fifth of its characters.
    NoCloseMatch { distance: usize, length: usize },
}

/// The greatest distance at which a window of `length` characters is
/// accepted: a fifth of the length.
pub open spec fn close_enough(distance: nat, length: nat) -> bool {
    5 * distance <= length
}

/// What realigning one passage against the paragraphs yields.
pub open spec fn realigned(
    candidate: AiSuggestionView,
    paragraphs: Seq<Seq<char>>,
) -> Result<AiFormattedOutputView, RealignError> {
    match parse_usize(candidate.paragraph_key) {
        None => Err(RealignError::KeyNotANumber),
        Some(key) => {
            if key == 0 || key > paragraphs.len() {
                Err(RealignError::ParagraphOutOfRange)
            } else {
                let paragraph = paragraphs[key - 1];
                let quotation = candidate.string;
                if quotation.len() == 0 {
                    Err(RealignError::EmptyQuotation)
                } else if quotation.len() > paragraph.len() {
                    Err(RealignError::QuotationTooLong)
                } else {
                    let at = best_window(paragraph, quotation);
                    let distance = window_distance(paragraph, quotation, at);
                    if close_enough(distance, quotation.len()) {
                        Ok(
                            AiFormattedOutputView {
                                start: at as usize,
                                length: quotation.len() as usize,
                                end: (at + quotation.len()) as usize,
                                paragraph_key: candidate.paragraph_key,
                                string: window(paragraph, at, quotation.len() as int),
                                kind: candidate.kind,
                                suggestions: candidate.suggestions,
                            },
                        )
                    } else {
                        Err(
                            RealignError::NoCloseMatch {
                                distance: distance as usize,
                                length: quotation.len() as usize,
                            },
                        )
                    }
                }
            }
        },
    }
}

/// The view of a realignment outcome.
pub open spec fn outcome_view(
    outcome: Result<AiFormattedOutput, RealignError>,
) -> Result<AiFormattedOutputView, RealignError> {
    match outcome {
        Ok(found) => Ok(found@),
        Err(reason) => Err(reason),
    }
}

/// The texts of a list of borrowed paragraphs.
pub open spec fn paragraph_texts(paragraphs: Seq<&str>) -> Seq<Seq<char>> {
    paragraphs.map_values(|p: &str| p@)
}

/// A copy of a list of strings.
pub fn clone_strings(strings: &Vec<String>) -> (out: Vec<String>)
    ensures
        out@ == strings@,
{
    let mut out: Vec<String> = Vec::new();
    let mut i: usize = 0;
    while i < strings.len()
        invariant
            i <= strings.len(),
            out@ == strings@.take(i as int),
        decreases strings.len() - i,
    {
        out.push(strings[i].clone());
        assert(strings@.take(i + 1) == strings@.take(i as int).push(strings@[i as int]));
        i += 1;
    }
    assert(strings@.take(i as int) == strings@);
    out
}

/// Locate one quoted passage in the paragraph that its key names.
pub fn realign_one(candidate: &AiSuggestion, paragraphs: &[&str]) -> (out: Result<
    AiFormattedOutput,
    RealignError,
>)
    ensures
        outcome_view(out) == realigned(candidate@, paragraph_texts(paragraphs@)),
{
    let key_chars = chars_of(candidate.paragraph_key.as_str());
    let key = match parse_number(key_chars.as_slice()) {
        None => {
            return Err(RealignError::KeyNotANumber);
        },
        Some(key) => key,
    };
    if key == 0 || key > paragraphs.len() {
        return Err(RealignError::ParagraphOutOfRange);
    }
    let paragraph: &str = paragraphs[key - 1];
    assert(paragraph@ == paragraph_texts(paragraphs@)[key - 1]);
    let quotation = candidate.string.as_str();
    let length = quotation.unicode_len();
    if length == 0 {
        return Err(RealignError::EmptyQuotation);
    }
    if length > paragraph.unicode_len() {
        return Err(RealignError::QuotationTooLong);
    }
    let (start, distance) = find_best_window(paragraph, quotation);
    if distance <= length / 5 {
        let end = start + length;
        Ok(
            AiFormattedOutput {
                start,
                length,
                end,
                paragraph_key: candidate.paragraph_key.clone(),
                string: paragraph.substring_char(start, end).to_owned(),
                kind: candidate.kind.clone(),
                suggestions: AiSuggestionsContent {
                    recommendation: clone_strings(&candidate.suggestions.recommendation),
                },
            },
        )
    } else {
        Err(RealignError::NoCloseMatch { distance, length })
    }
}

/// The views of a list of quoted passages.
pub open spec fn suggestion_views(candidates: Seq<AiSuggestion>) -> Seq<AiSuggestionView> {
    candidates.map_values(|c: AiSuggestion| c@)
}

/// The views of a list of located passages.
pub open spec fn output_views(outputs: Seq<AiFormattedOutput>) -> Seq<AiFormattedOutputView> {
    outputs.map_values(|o: AiFormattedOutput| o@)
}

/// The views of a list of realignment outcomes.
pub open spec fn outcome_views(outcomes: Seq<Result<AiFormattedOutput, RealignError>>) -> Seq<
    Result<AiFormattedOutputView, RealignError>,
> {
    outcomes.map_values(|o: Result<AiFormattedOutput, RealignError>| outcome_view(o))
}

/// The outcome of realigning each passage, in order.
pub open spec fn realigned_each(
    candidates: Seq<AiSuggestionView>,
    paragraphs: Seq<Seq<char>>,
) -> Seq<Result<AiFormattedOutputView, RealignError>> {
    candidates.map_values(|c: AiSuggestionView| realigned(c, paragraphs))
}

/// The passages that were located, in the order in which they were given.
pub open spec fn located(outcomes: Seq<Result<AiFormattedOutputView, RealignError>>) -> Seq<
    AiFormattedOutputView,
>
    decreases outcomes.len(),
{
    if outcomes.len() == 0 {
        Seq::empty()
    } else {
        let before = located(outcomes.drop_last());
        match outcomes.last() {
            Ok(found) => before.push(found),
            Err(_) => before,
        }
    }
}

/// Realign every passage; an outcome is reported for each, in order.
pub fn realign_each(candidates: &[AiSuggestion], paragraphs: &[&str]) -> (out: Vec<
    Result<AiFormattedOutput, RealignError>,
>)
    ensures
        outcome_views(out@) == realigned_each(
            suggestion_views(candidates@),
            paragraph_texts(paragraphs@),
        ),
{
    let mut out: Vec<Result<AiFormattedOutput, RealignError>> = Vec::new();
    let mut i: usize = 0;
    while i < candidates.len()
        invariant
            i <= candidates.len(),
            out@.len() == i,
            forall|j: int|
                0 <= j < i ==> outcome_view(#[trigger] out@[j]) == realigned(
                    candidates@[j]@,
                    paragraph_texts(paragraphs@),
                ),
        decreases candidates.len() - i,
    {
        let outcome = realign_one(&candidates[i], paragraphs);
        out.push(outcome);
        i += 1;
    }
    assert(outcome_views(out@) =~= realigned_each(
        suggestion_views(candidates@),
        paragraph_texts(paragraphs@),
    ));
    out
}

/// Keep the passages that were located and drop the others.
pub fn keep_located(outcomes: Vec<Result<AiFormattedOutput, RealignError>>) -> (out: Vec<
    AiFormattedOutput,
>)
    ensures
        output_views(out@) == located(outcome_views(outcomes@)),
{
    let ghost all = outcome_views(outcomes@);
    let ghost given = outcomes@;
    let mut out: Vec<AiFormattedOutput> = Vec::new();
    for outcome in it: outcomes
        invariant
            it.seq() == given,
            output_views(out@) == located(all.take(it.index() as int)),
            all == outcome_views(given),
    {
        proof {
            let k = it.index() as int;
            assert(all.take(k + 1).drop_last() == all.take(k));
            assert(all.take(k + 1).last() == outcome_view(outcome));
        }
        match outcome {
            Ok(found) => {
                let ghost before = out@;
                out.push(found);
                assert(output_views(out@) =~= output_views(before).push(found@));
            },
            Err(_) => {},
        }
    }
    assert(all.take(given.len() as int) == all);
    out
}

/// Locate the quoted passages in their paragraphs.  Passages that cannot
/// be located are left out; the others keep their order.
pub fn realign(candidates: &[AiSuggestion], paragraphs: &[&str]) -> (out: Vec<AiFormattedOutput>)
    ensures
        output_views(out@) == located(
            realigned_each(suggestion_views(candidates@), paragraph_texts(paragraphs@)),
        ),
{
    keep_located(realign_each(candidates, paragraphs))
}

/// Use a sliding window and the edit distance to find, for every quoted
/// passage, the span of its paragraph that it matches best.  Passages that
/// cannot be located are left out; the others keep their order.
pub fn find_and_update_indices(
    analysis_array: Vec<AiSuggestion>,
    paragraphs: Vec<&str>,
) -> (updated_results: Vec<AiFormattedOutput>)
    ensures
        output_views(updated_results@) == located(
            realigned_each(
                suggestion_views(analysis_array@),
                paragraph_texts(paragraphs@),
            ),
        ),
{
    realign(analysis_array.as_slice(), paragraphs.as_slice())
}

/// A passage quoted verbatim is located at its first occurrence in the
/// paragraph, with the paragraph's own text and the passage's metadata.
pub proof fn verbatim_quotation_realigns(
    candidate: AiSuggestionView,
    paragraphs: Seq<Seq<char>>,
    key: usize,
    at: int,
)
    requires
        parse_usize(candidate.paragraph_key) == Some(key),
        1 <= key <= paragraphs.len(),
        candidate.string.len() > 0,
        paragraphs[key - 1].len() <= usize::MAX,
        0 <= at <= last_window(paragraphs[key - 1], candidate.string),
        window(paragraphs[key - 1], at, candidate.string.len() as int) == candidate.string,
        forall|j: int|
            0 <= j < at ==> #[trigger] window(
                paragraphs[key - 1],
                j,
                candidate.string.len() as int,
            ) != candidate.string,
    ensures
        realigned(candidate, paragraphs) == Ok::<AiFormattedOutputView, RealignError>(
            AiFormattedOutputView {
                start: at as usize,
                length: candidate.string.len() as usize,
                end: (at + candidate.string.len()) as usize,
                paragraph_key: candidate.paragraph_key,
                string: candidate.string,
                kind: candidate.kind,
                suggestions: candidate.suggestions,
            },
        ),
{
    verbatim_quotation_is_found(paragraphs[key - 1], candidate.string, at);
}

/// A passage whose key names no paragraph, or that is empty or longer than
/// its paragraph, is never located.
pub proof fn unusable_quotation_is_dropped(candidate: AiSuggestionView, paragraphs: Seq<Seq<char>>)
    requires
        match parse_usize(candidate.paragraph_key) {
            None => true,
            Some(key) => key == 0 || key > paragraphs.len() || candidate.string.len() == 0
                || candidate.string.len() > paragraphs[key - 1].len(),
        },
    ensures
        realigned(candidate, paragraphs) is Err,
{
}

/// Whatever is located lies inside its paragraph, repeats the paragraph's
/// text there, has the length of the quotation and differs from it in at
/// most a fifth of its characters.
pub proof fn located_passage_is_exact(candidate: AiSuggestionView, paragraphs: Seq<Seq<char>>)
    requires
        realigned(candidate, paragraphs) is Ok,
        forall|i: int| 0 <= i < paragraphs.len() ==> (#[trigger] paragraphs[i]).len() <= usize::MAX,
    ensures
        ({
            let found = realigned(candidate, paragraphs)->Ok_0;
            let key = parse_usize(candidate.paragraph_key)->Some_0;
            &&& 1 <= key <= paragraphs.len()
            &&& found.end == found.start + found.length
            &&& found.end <= paragraphs[key - 1].len()
            &&& found.length == candidate.string.len()
            &&& found.string == paragraphs[key - 1].subrange(found.start as int, found.end as int)
            &&& close_enough(
                crate::distance::edit_distance(found.string, candidate.string),
                candidate.string.len(),
            )
        }),
{
    let key = parse_usize(candidate.paragraph_key)->Some_0;
    crate::distance::best_window_is_unique(paragraphs[key - 1], candidate.string, 0);
}

} // verus!
