use harper_api::paragraphs::split_paragraphs;
use harper_api::analysis::{check_api_key, prepare_analysis, read_answer, AnalysisError};
use harper_api::prompt::{
    build_prompt, extract_json_object, prepare_text_for_analysis, PROMPT_HEAD, PROMPT_TAIL,
};

#[test]
fn paragraphs_are_numbered_from_one() {
    assert_eq!(
        prepare_text_for_analysis("First.\n\n  Second. \n\n\n\nThird"),
        "(1) First.\n\n(2) Second.\n\n(3) Third"
    );
}

#[test]
fn surrounding_whitespace_is_dropped() {
    assert_eq!(prepare_text_for_analysis("  \n One paragraph. \n\n  "), "(1) One paragraph.");
    assert_eq!(prepare_text_for_analysis(""), "");
    assert_eq!(prepare_text_for_analysis(" \n\n \n\n"), "");
}

#[test]
fn single_line_feed_does_not_split() {
    assert_eq!(prepare_text_for_analysis("a\nb\n\nc"), "(1) a\nb\n\n(2) c");
    assert_eq!(split_paragraphs("a\nb\n\nc"), vec!["a\nb".to_string(), "c".to_string()]);
}

#[test]
fn three_line_feeds_leave_one_with_the_next_block() {
    assert_eq!(split_paragraphs("a\n\n\nb"), vec!["a".to_string(), "b".to_string()]);
    assert_eq!(split_paragraphs("a\n\n\n\n\nb"), vec!["a".to_string(), "b".to_string()]);
}

#[test]
fn tenth_paragraph_has_a_two_digit_key() {
    let text = "a\n\nb\n\nc\n\nd\n\ne\n\nf\n\ng\n\nh\n\ni\n\nj\n\nk";
    let prepared = prepare_text_for_analysis(text);
    assert!(prepared.ends_with("(9) i\n\n(10) j\n\n(11) k"));
    assert_eq!(split_paragraphs(text).len(), 11);
}

#[test]
fn prompt_wraps_the_text() {
    let prompt = build_prompt("(1) Some text.");
    assert_eq!(prompt, format!("{}{}{}", PROMPT_HEAD, "(1) Some text.", PROMPT_TAIL));
    assert!(prompt.starts_with("\nYou are an expert AI writing assistant."));
    assert!(prompt.ends_with("(1) Some text.\n\n**[ANALYSIS_JSON]**\n"));
    assert!(prompt.contains("\"analysis_results\""));
    assert!(prompt.contains("{\n    \"start\": \"Integer, the starting character index"));
}

#[test]
fn json_object_is_cut_out_of_its_wrapping() {
    assert_eq!(
        extract_json_object("```json\n{\"analysis_results\": []}\n```"),
        Some("{\"analysis_results\": []}".to_string())
    );
    assert_eq!(extract_json_object("{\"a\": {\"b\": 1}} trailing"), Some("{\"a\": {\"b\": 1}}".to_string()));
    assert_eq!(extract_json_object("{}"), Some("{}".to_string()));
}

#[test]
fn answer_without_an_object_has_none() {
    assert_eq!(extract_json_object("no braces here"), None);
    assert_eq!(extract_json_object("} before {"), None);
    assert_eq!(extract_json_object("only {"), None);
    assert_eq!(extract_json_object("only }"), None);
    assert_eq!(extract_json_object(""), None);
}

#[test]
fn placeholder_and_empty_key_are_not_configured() {
    assert_eq!(check_api_key(None), Err(AnalysisError::KeyNotSet));
    assert_eq!(check_api_key(Some("")), Err(AnalysisError::KeyNotConfigured));
    assert_eq!(check_api_key(Some("YOUR_OPENROUTER_API_KEY")), Err(AnalysisError::KeyNotConfigured));
    assert_eq!(check_api_key(Some("your_openrouter_api_key")), Ok(()));
    assert_eq!(check_api_key(Some("k")), Ok(()));
}

#[test]
fn prepared_analysis_holds_paragraphs_and_prompt() {
    let prepared = prepare_analysis(" One.\n\nTwo. ");
    assert_eq!(prepared.paragraphs, vec!["One.".to_string(), "Two.".to_string()]);
    assert_eq!(prepared.prompt, build_prompt("(1) One.\n\n(2) Two."));
}

#[test]
fn answer_is_read_from_the_first_choice() {
    assert_eq!(read_answer(&vec![]), Err(AnalysisError::EmptyResponse));
    assert_eq!(read_answer(&vec!["nothing".to_string()]), Err(AnalysisError::NoJsonObject));
    assert_eq!(
        read_answer(&vec!["nothing".to_string(), "{}".to_string()]),
        Err(AnalysisError::NoJsonObject)
    );
    assert_eq!(
        read_answer(&vec!["```json\n{\"analysis_results\": []}\n```".to_string(), "x".to_string()]),
        Ok("{\"analysis_results\": []}".to_string())
    );
}

#[test]
fn errors_have_their_messages() {
    assert_eq!(AnalysisError::KeyNotSet.message(), "OPENROUTER_API_KEY environment variable not set.");
    assert_eq!(
        AnalysisError::KeyNotConfigured.message(),
        "OpenRouter API key is not configured. Please set it in the .env file."
    );
    assert_eq!(AnalysisError::Transport("timed out".to_string()).message(), "timed out");
    assert_eq!(AnalysisError::Api("quota".to_string()).message(), "API Error: quota");
    assert_eq!(AnalysisError::EmptyResponse.message(), "API response was empty.");
    assert_eq!(AnalysisError::NoJsonObject.message(), "No valid JSON object found in AI response.");
    assert_eq!(
        AnalysisError::InvalidJson("eof".to_string()).message(),
        "Failed to parse AI JSON response: eof"
    );
}
