use harper_api::ai::{
    find_and_update_indices, keep_located, realign, realign_each, realign_one, AiFormattedOutput, AiSuggestion,
    AiSuggestionsContent, RealignError,
};

fn candidate(key: &str, quoted: &str) -> AiSuggestion {
    AiSuggestion {
        paragraph_key: key.to_string(),
        string: quoted.to_string(),
        kind: "Wordiness".to_string(),
        suggestions: AiSuggestionsContent {
            recommendation: vec!["is using".to_string(), "uses".to_string()],
        },
    }
}

const TEAM: &str = "Our team is engaged in the process of leveraging our core competencies to synergize our efforts and achieve our goals. We will endeavor to finalize the report.";

#[test]
fn verbatim_quotation_gets_its_true_span() {
    let found = find_and_update_indices(
        vec![candidate("1", "is engaged in the process of")],
        vec![TEAM],
    );
    assert_eq!(found.len(), 1);
    assert_eq!(found[0].start, 9);
    assert_eq!(found[0].length, "is engaged in the process of".chars().count());
    assert_eq!(found[0].length, 28);
    assert_eq!(found[0].end, 37);
    assert_eq!(found[0].string, "is engaged in the process of");
    assert_eq!(found[0].paragraph_key, "1");
    assert_eq!(found[0].kind, "Wordiness");
    assert_eq!(
        found[0].suggestions.recommendation,
        vec!["is using".to_string(), "uses".to_string()]
    );
}

#[test]
fn too_long_quotation_is_dropped() {
    let found = find_and_update_indices(vec![candidate("1", "a much longer text")], vec!["short"]);
    assert!(found.is_empty());
    assert_eq!(
        realign_one(&candidate("1", "a much longer text"), &["short"]),
        Err(RealignError::QuotationTooLong)
    );
}

#[test]
fn unknown_paragraph_is_dropped() {
    let found = find_and_update_indices(vec![candidate("99", "Our team")], vec![TEAM]);
    assert!(found.is_empty());
    assert_eq!(
        realign_one(&candidate("99", "Our team"), &[TEAM]),
        Err(RealignError::ParagraphOutOfRange)
    );
}

#[test]
fn dropped_candidates_leave_the_others_alone() {
    let found = find_and_update_indices(
        vec![
            candidate("99", "Our team"),
            candidate("1", "We will endeavor to finalize"),
            candidate("1", ""),
            candidate("2", "second"),
        ],
        vec![TEAM, "The second paragraph."],
    );
    assert_eq!(found.len(), 2);
    assert_eq!(found[0].string, "We will endeavor to finalize");
    assert_eq!(found[0].start, 119);
    assert_eq!(found[1].paragraph_key, "2");
    assert_eq!((found[1].start, found[1].end), (4, 10));
}

#[test]
fn key_zero_names_no_paragraph() {
    assert_eq!(realign_one(&candidate("0", "Our"), &[TEAM]), Err(RealignError::ParagraphOutOfRange));
}

#[test]
fn key_that_is_no_number_is_rejected() {
    assert_eq!(realign_one(&candidate("one", "Our"), &[TEAM]), Err(RealignError::KeyNotANumber));
    assert_eq!(realign_one(&candidate("", "Our"), &[TEAM]), Err(RealignError::KeyNotANumber));
    assert_eq!(realign_one(&candidate("-1", "Our"), &[TEAM]), Err(RealignError::KeyNotANumber));
    assert_eq!(realign_one(&candidate(" 1", "Our"), &[TEAM]), Err(RealignError::KeyNotANumber));
    assert!(find_and_update_indices(vec![candidate("one", "Our")], vec![TEAM]).is_empty());
}

#[test]
fn key_with_a_plus_sign_is_a_number() {
    let found = realign_one(&candidate("+1", "team"), &[TEAM]).unwrap();
    assert_eq!((found.start, found.end), (4, 8));
    assert_eq!(found.paragraph_key, "+1");
}

#[test]
fn empty_quotation_is_rejected() {
    assert_eq!(realign_one(&candidate("1", ""), &[TEAM]), Err(RealignError::EmptyQuotation));
}

#[test]
fn leftmost_exact_occurrence_wins() {
    let found = realign_one(&candidate("1", "the cat"), &["thx cat, the cat and the cat"]).unwrap();
    assert_eq!((found.start, found.length, found.end), (9, 7, 16));
    assert_eq!(found.string, "the cat");
}

#[test]
fn leftmost_of_equally_close_windows_wins() {
    let found = realign_one(&candidate("1", "abcde"), &["abcdx abcdy"]).unwrap();
    assert_eq!((found.start, found.end), (0, 5));
    assert_eq!(found.string, "abcdx");
}

#[test]
fn near_quotation_is_replaced_by_the_text_of_the_paragraph() {
    let found = realign_one(&candidate("1", "is engagd in the procss of"), &[TEAM]).unwrap();
    assert_eq!(found.length, 26);
    assert_eq!(found.end, found.start + 26);
    let expected: String = TEAM.chars().skip(found.start).take(26).collect();
    assert_eq!(found.string, expected);
    assert!(found.start >= 9 && found.start <= 11);
}

#[test]
fn a_fifth_of_the_length_is_the_limit() {
    let accepted = realign_one(&candidate("1", "abcdx"), &["abcde"]).unwrap();
    assert_eq!((accepted.start, accepted.end), (0, 5));
    assert_eq!(accepted.string, "abcde");
    assert_eq!(
        realign_one(&candidate("1", "abcx"), &["abcd"]),
        Err(RealignError::NoCloseMatch { distance: 1, length: 4 })
    );
}

#[test]
fn distant_quotation_reports_its_distance() {
    assert_eq!(
        realign_one(&candidate("1", "abcxyz"), &["abcdef"]),
        Err(RealignError::NoCloseMatch { distance: 3, length: 6 })
    );
    assert_eq!(
        realign_one(&candidate("1", "sitting"), &["kittens"]),
        Err(RealignError::NoCloseMatch { distance: 3, length: 7 })
    );
}

#[test]
fn offsets_count_characters_not_bytes() {
    let found = realign_one(&candidate("1", "caf\u{e9}"), &["\u{e9}t\u{e9} au caf\u{e9} noir"]).unwrap();
    assert_eq!((found.start, found.length, found.end), (7, 4, 11));
    assert_eq!(found.string, "caf\u{e9}");
}

#[test]
fn every_candidate_gets_its_outcome() {
    let candidates = vec![candidate("1", "team"), candidate("7", "team"), candidate("1", "zzzz")];
    let outcomes = realign_each(&candidates, &[TEAM]);
    assert_eq!(outcomes.len(), 3);
    assert!(outcomes[0].is_ok());
    assert_eq!(outcomes[1], Err(RealignError::ParagraphOutOfRange));
    assert!(matches!(outcomes[2], Err(RealignError::NoCloseMatch { length: 4, .. })));
    let kept: Vec<AiFormattedOutput> = keep_located(outcomes);
    assert_eq!(kept.len(), 1);
    assert_eq!(kept[0].string, "team");
}

#[test]
fn batch_keeps_what_is_located() {
    let candidates = vec![candidate("1", "team"), candidate("2", "team"), candidate("1", "goals")];
    let found = realign(&candidates, &[TEAM]);
    assert_eq!(found.len(), 2);
    assert_eq!((found[0].start, found[0].end), (4, 8));
    assert_eq!(found[1].string, "goals");
    assert_eq!(found, find_and_update_indices(candidates, vec![TEAM]));
}

#[test]
fn realigning_twice_gives_the_same() {
    let first = find_and_update_indices(vec![candidate("1", "our core competencies")], vec![TEAM]);
    let second = find_and_update_indices(vec![candidate("1", "our core competencies")], vec![TEAM]);
    assert_eq!(first, second);
}
