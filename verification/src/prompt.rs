//! The instructions sent to the analysis service and the reading of its
//! answer.

use vstd::prelude::*;
use vstd::slice::slice_subrange;
use crate::paragraphs::{paragraphs_of, split_paragraph_chars};
use crate::text::{chars_of, decimal, push_decimal, string_of};

verus! {

/// The instructions that precede the text to analyze.
pub const PROMPT_HEAD: &'static str = r#"
You are an expert AI writing assistant. Your task is to analyze the provided text and identify segments that could be improved for clarity, conciseness, impact, or tone. Go beyond simple grammar and spelling corrections. Provide suggestions that leverage your deep understanding of language, context, and nuance.

Your output **must** be a single JSON object with a key named "analysis_results". This key must contain an array of suggestion objects.
Do not include any other text, explanations, or markdown formatting before or after the JSON object.

Each suggestion object in the array must conform to the following structure. Note: You only need to generate the 'paragraphKey', 'string', 'type', and 'suggestions' fields. The other fields will be calculated by the system.
{
    "start": "Integer, the starting character index of the string within the paragraph.",
    "length": "Integer, the length of the string.",
    "end": "Integer, the ending character index of the string.",
    "paragraphKey": "A string identifying the paragraph, e.g., '1'.",
    "string": "The exact string from the text that needs improvement.",
    "type": "A string describing the category of the issue (e.g., 'Clarity', 'Conciseness', 'Wordiness', 'Passive Voice', 'Impact').",
    "suggestions": {
        "recommendation": [
            "An array of strings, with each string being a concrete suggestion for replacement."
        ]
    }
}

-----

**Example:**

**[TEXT TO ANALYZE]**

(1) Our team is engaged in the process of leveraging our core competencies to synergize our efforts and achieve our goals. We will endeavor to finalize the report.

**[ANALYSIS_JSON]**

```json
{
    "analysis_results": [
        {
            "paragraphKey": "1",
            "string": "is engaged in the process of leveraging our core competencies to synergize",
            "type": "Wordiness & Corporate Jargon",
            "suggestions": {
                "recommendation": [
                    "is using its strengths to combine",
                    "is focusing its key skills to improve",
                    "is using our strengths to coordinate"
                ]
            }
        },
        {
            "paragraphKey": "1",
            "string": "We will endeavor to finalize",
            "type": "Clarity & Conciseness",
            "suggestions": {
                "recommendation": [
                    "We will finalize",
                    "We will finish"
                ]
            }
        }
    ]
}
```

-----

**Your Turn:**

**[TEXT TO ANALYZE]**

"#;

/// The marker that follows the text to analyze.
pub const PROMPT_TAIL: &'static str = r#"

**[ANALYSIS_JSON]**
"#;

/// Constructs the full prompt: the instructions, the text, and the marker
/// after which the service is to answer.
pub fn build_prompt(text_to_analyze: &str) -> (prompt: String)
    ensures
        prompt@ == PROMPT_HEAD@ + text_to_analyze@ + PROMPT_TAIL@,
{
    let mut prompt = String::from_str(PROMPT_HEAD);
    prompt.append(text_to_analyze);
    prompt.append(PROMPT_TAIL);
    prompt
}

/// A paragraph behind its key: the number in parentheses, then a space.
pub open spec fn numbered(index: nat, paragraph: Seq<char>) -> Seq<char> {
    seq!['('] + decimal(index + 1) + seq![')', ' '] + paragraph
}

/// The numbered paragraphs, a blank line between each two.
pub open spec fn numbered_paragraphs(paragraphs: Seq<Seq<char>>) -> Seq<char>
    decreases paragraphs.len(),
{
    if paragraphs.len() == 0 {
        Seq::empty()
    } else if paragraphs.len() == 1 {
        numbered(0, paragraphs[0])
    } else {
        numbered_paragraphs(paragraphs.drop_last()) + seq!['\n', '\n'] + numbered(
            (paragraphs.len() - 1) as nat,
            paragraphs.last(),
        )
    }
}

/// Splits text into paragraphs and formats it with paragraph keys, counted
/// from one, for the analysis service.
pub fn prepare_text_for_analysis(raw_text: &str) -> (prepared: String)
    ensures
        prepared@ == numbered_paragraphs(paragraphs_of(raw_text@)),
{
    let chars = chars_of(raw_text);
    let parts = split_paragraph_chars(chars.as_slice());
    let ghost paragraphs = parts@.map_values(|p: Vec<char>| p@);
    let mut out: Vec<char> = Vec::new();
    let mut i: usize = 0;
    while i < parts.len()
        invariant
            i <= parts.len(),
            paragraphs == parts@.map_values(|p: Vec<char>| p@),
            out@ == numbered_paragraphs(paragraphs.take(i as int)),
        decreases parts.len() - i,
    {
        let ghost before = out@;
        if i > 0 {
            out.push('\n');
            out.push('\n');
        }
        out.push('(');
        push_decimal(&mut out, i + 1);
        out.push(')');
        out.push(' ');
        let part = &parts[i];
        let mut k: usize = 0;
        let ghost lead = out@;
        while k < part.len()
            invariant
                k <= part.len(),
                out@ == lead + part@.take(k as int),
            decreases part.len() - k,
        {
            out.push(part[k]);
            assert(part@.take(k + 1) == part@.take(k as int).push(part@[k as int]));
            k += 1;
        }
        proof {
            assert(part@.take(k as int) == part@);
            assert(paragraphs.len() == parts@.len());
            let now = paragraphs.take(i + 1);
            assert(now.drop_last() == paragraphs.take(i as int));
            assert(now.last() == part@);
            if i > 0 {
                assert(out@ =~= before + seq!['\n', '\n'] + numbered(i as nat, part@));
            } else {
                assert(out@ =~= numbered(0, part@));
            }
        }
        i += 1;
    }
    assert(paragraphs.take(i as int) == paragraphs);
    string_of(out.as_slice())
}


/// Index of the first `c` in `s[from..]`.
pub open spec fn first_index_from(s: Seq<char>, c: char, from: int) -> Option<int>
    decreases s.len() - from,
{
    if from < 0 || from >= s.len() {
        None
    } else if s[from] == c {
        Some(from)
    } else {
        first_index_from(s, c, from + 1)
    }
}

/// Index of the last `c` in `s[..upto]`.
pub open spec fn last_index_upto(s: Seq<char>, c: char, upto: int) -> Option<int>
    decreases upto,
{
    if upto <= 0 || upto > s.len() {
        None
    } else if s[upto - 1] == c {
        Some(upto - 1)
    } else {
        last_index_upto(s, c, upto - 1)
    }
}

/// What [`first_index_from`] finds is an occurrence with none before it;
/// it finds none only where there is none.
pub proof fn first_index_is_first(s: Seq<char>, c: char, from: int)
    requires
        0 <= from,
    ensures
        match first_index_from(s, c, from) {
            Some(at) => from <= at < s.len() && s[at] == c && forall|j: int|
                from <= j < at ==> s[j] != c,
            None => forall|j: int| from <= j < s.len() ==> s[j] != c,
        },
    decreases s.len() - from,
{
    if from < s.len() && s[from] != c {
        first_index_is_first(s, c, from + 1);
    }
}

/// What [`last_index_upto`] finds is an occurrence with none behind it;
/// it finds none only where there is none.
pub proof fn last_index_is_last(s: Seq<char>, c: char, upto: int)
    requires
        upto <= s.len(),
    ensures
        match last_index_upto(s, c, upto) {
            Some(at) => 0 <= at < upto && s[at] == c && forall|j: int| at < j < upto ==> s[j] != c,
            None => forall|j: int| 0 <= j < upto ==> s[j] != c,
        },
    decreases upto,
{
    if upto > 0 && s[upto - 1] != c {
        last_index_is_last(s, c, upto - 1);
    }
}

/// The text from the first opening brace to the last closing brace, both
/// included, when the closing brace comes after the opening one.
pub open spec fn json_object_in(content: Seq<char>) -> Option<Seq<char>> {
    match (
        first_index_from(content, '{', 0),
        last_index_upto(content, '}', content.len() as int),
    ) {
        (Some(open), Some(close)) => if close > open {
            Some(content.subrange(open, close + 1))
        } else {
            None
        },
        _ => None,
    }
}

/// Find the first occurrence of a character.
pub fn find_first(s: &[char], c: char) -> (out: Option<usize>)
    ensures
        out is Some == first_index_from(s@, c, 0) is Some,
        out matches Some(at) ==> first_index_from(s@, c, 0) == Some(at as int),
{
    let mut i: usize = 0;
    while i < s.len()
        invariant
            i <= s.len(),
            first_index_from(s@, c, i as int) == first_index_from(s@, c, 0),
        decreases s.len() - i,
    {
        if s[i] == c {
            return Some(i);
        }
        i += 1;
    }
    None
}

/// Find the last occurrence of a character.
pub fn find_last(s: &[char], c: char) -> (out: Option<usize>)
    ensures
        out is Some == last_index_upto(s@, c, s@.len() as int) is Some,
        out matches Some(at) ==> last_index_upto(s@, c, s@.len() as int) == Some(at as int),
{
    let mut i: usize = s.len();
    while i > 0
        invariant
            i <= s.len(),
            last_index_upto(s@, c, i as int) == last_index_upto(s@, c, s@.len() as int),
        decreases i,
    {
        if s[i - 1] == c {
            return Some(i - 1);
        }
        i -= 1;
    }
    None
}

/// Cuts the JSON object out of an answer that may wrap it in other text:
/// everything from the first `{` to the last `}`.
pub fn extract_json_object(content: &str) -> (object: Option<String>)
    ensures
        object is Some == json_object_in(content@) is Some,
        object matches Some(text) ==> json_object_in(content@) == Some(text@),
{
    let chars = chars_of(content);
    match (find_first(chars.as_slice(), '{'), find_last(chars.as_slice(), '}')) {
        (Some(open), Some(close)) => {
            if close > open {
                proof {
                    last_index_is_last(chars@, '}', chars@.len() as int);
                }
                Some(string_of(slice_subrange(chars.as_slice(), open, close + 1)))
            } else {
                None
            }
        },
        _ => None,
    }
}

} // verus!
