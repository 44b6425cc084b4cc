//! The decisions around a call of the analysis service: whether to call it
//! at all, what to send, and what to make of its answer.

use vstd::prelude::*;
use crate::paragraphs::{paragraphs_of, split_paragraphs};
use crate::prompt::{
    build_prompt, extract_json_object, json_object_in, numbered_paragraphs,
    prepare_text_for_analysis, PROMPT_HEAD, PROMPT_TAIL,
};
use crate::text::{chars_eq, chars_of, texts};

verus! {

/// The placeholder that stands where a real key has not been filled in.
pub const API_KEY_PLACEHOLDER: &'static str = "YOUR_OPENROUTER_API_KEY";

/// Why an analysis came to nothing.
#[derive(Debug, Clone, PartialEq, Eq)]
pub enum AnalysisError {
    /// No key is set.
    KeyNotSet,
    /// The key is empty or still the placeholder.
    KeyNotConfigured,
    /// The request could not be sent, or its answer could not be read;
    /// with the reason.
    Transport(String),
    /// The service answered with an error; with the body of its answer.
    Api(String),
    /// The service answered without a choice.
    EmptyResponse,
    /// The answer holds no JSON object.
    NoJsonObject,
    /// The JSON object is not what was asked for; with the reason.
    InvalidJson(String),
}

pub enum AnalysisErrorView {
    KeyNotSet,
    KeyNotConfigured,
    Transport(Seq<char>),
    Api(Seq<char>),
    EmptyResponse,
    NoJsonObject,
    InvalidJson(Seq<char>),
}

impl View for AnalysisError {
    type V = AnalysisErrorView;

    open spec fn view(&self) -> AnalysisErrorView {
        match self {
            AnalysisError::KeyNotSet => AnalysisErrorView::KeyNotSet,
            AnalysisError::KeyNotConfigured => AnalysisErrorView::KeyNotConfigured,
            AnalysisError::Transport(reason) => AnalysisErrorView::Transport(reason@),
            AnalysisError::Api(body) => AnalysisErrorView::Api(body@),
            AnalysisError::EmptyResponse => AnalysisErrorView::EmptyResponse,
            AnalysisError::NoJsonObject => AnalysisErrorView::NoJsonObject,
            AnalysisError::InvalidJson(reason) => AnalysisErrorView::InvalidJson(reason@),
        }
    }
}

/// What a caller is told about an error.
pub open spec fn error_message(error: AnalysisErrorView) -> Seq<char> {
    match error {
        AnalysisErrorView::KeyNotSet => "OPENROUTER_API_KEY environment variable not set."@,
        AnalysisErrorView::KeyNotConfigured => "OpenRouter API key is not configured. Please set it in the .env file."@,
        AnalysisErrorView::Transport(reason) => reason,
        AnalysisErrorView::Api(body) => "API Error: "@ + body,
        AnalysisErrorView::EmptyResponse => "API response was empty."@,
        AnalysisErrorView::NoJsonObject => "No valid JSON object found in AI response."@,
        AnalysisErrorView::InvalidJson(reason) => "Failed to parse AI JSON response: "@ + reason,
    }
}

impl AnalysisError {
    /// What a caller is told about the error.
    pub fn message(&self) -> (text: String)
        ensures
            text@ == error_message(self@),
    {
        match self {
            AnalysisError::KeyNotSet => String::from_str(
                "OPENROUTER_API_KEY environment variable not set.",
            ),
            AnalysisError::KeyNotConfigured => String::from_str(
                "OpenRouter API key is not configured. Please set it in the .env file.",
            ),
            AnalysisError::Transport(reason) => reason.clone(),
            AnalysisError::Api(body) => {
                let mut text = String::from_str("API Error: ");
                text.append(body.as_str());
                text
            },
            AnalysisError::EmptyResponse => String::from_str("API response was empty."),
            AnalysisError::NoJsonObject => String::from_str(
                "No valid JSON object found in AI response.",
            ),
            AnalysisError::InvalidJson(reason) => {
                let mut text = String::from_str("Failed to parse AI JSON response: ");
                text.append(reason.as_str());
                text
            },
        }
    }
}

/// The view of a key that may not be set.
pub open spec fn optional_text(text: Option<&str>) -> Option<Seq<char>> {
    match text {
        Some(found) => Some(found@),
        None => None,
    }
}

/// What is wrong with a key, if anything: it is not set, or it is empty or
/// the placeholder.
pub open spec fn key_fault(api_key: Option<Seq<char>>) -> Option<AnalysisErrorView> {
    match api_key {
        None => Some(AnalysisErrorView::KeyNotSet),
        Some(key) => if key.len() == 0 || key == API_KEY_PLACEHOLDER@ {
            Some(AnalysisErrorView::KeyNotConfigured)
        } else {
            None
        },
    }
}

/// The view of an outcome without a value.
pub open spec fn fault_of(outcome: Result<(), AnalysisError>) -> Option<AnalysisErrorView> {
    match outcome {
        Ok(_) => None,
        Err(error) => Some(error@),
    }
}

/// Decide whether the service can be called with the key at hand.
pub fn check_api_key(api_key: Option<&str>) -> (outcome: Result<(), AnalysisError>)
    ensures
        fault_of(outcome) == key_fault(optional_text(api_key)),
{
    match api_key {
        None => Err(AnalysisError::KeyNotSet),
        Some(key) => {
            let chars = chars_of(key);
            let placeholder = chars_of(API_KEY_PLACEHOLDER);
            if chars.len() == 0 || chars_eq(chars.as_slice(), placeholder.as_slice()) {
                Err(AnalysisError::KeyNotConfigured)
            } else {
                Ok(())
            }
        },
    }
}

/// What goes to the service for a text, and the paragraphs that its answer
/// will refer to by their keys.
#[derive(Debug, Clone, PartialEq, Eq)]
pub struct PreparedAnalysis {
    pub paragraphs: Vec<String>,
    pub prompt: String,
}

/// Split a text into paragraphs and build the prompt that shows them to
/// the service under their keys.
pub fn prepare_analysis(text: &str) -> (prepared: PreparedAnalysis)
    ensures
        texts(prepared.paragraphs@) == paragraphs_of(text@),
        prepared.prompt@ == PROMPT_HEAD@ + numbered_paragraphs(paragraphs_of(text@)) + PROMPT_TAIL@,
{
    let paragraphs = split_paragraphs(text);
    let formatted_text = prepare_text_for_analysis(text);
    let prompt = build_prompt(formatted_text.as_str());
    PreparedAnalysis { paragraphs, prompt }
}

/// The view of an outcome that carries a text.
pub open spec fn text_outcome(outcome: Result<String, AnalysisError>) -> Result<
    Seq<char>,
    AnalysisErrorView,
> {
    match outcome {
        Ok(text) => Ok(text@),
        Err(error) => Err(error@),
    }
}

/// The JSON object in the first of the choices that the service offers.
pub open spec fn answer_json(choices: Seq<Seq<char>>) -> Result<Seq<char>, AnalysisErrorView> {
    if choices.len() == 0 {
        Err(AnalysisErrorView::EmptyResponse)
    } else {
        match json_object_in(choices[0]) {
            Some(object) => Ok(object),
            None => Err(AnalysisErrorView::NoJsonObject),
        }
    }
}

/// Take the first choice of the service's answer and cut the JSON object
/// out of it.
pub fn read_answer(choices: &Vec<String>) -> (outcome: Result<String, AnalysisError>)
    ensures
        text_outcome(outcome) == answer_json(texts(choices@)),
{
    if choices.len() == 0 {
        return Err(AnalysisError::EmptyResponse);
    }
    assert(texts(choices@)[0] == choices@[0]@);
    match extract_json_object(choices[0].as_str()) {
        Some(object) => Ok(object),
        None => Err(AnalysisError::NoJsonObject),
    }
}

} // verus!
