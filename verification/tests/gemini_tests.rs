use pyscription::gemini::{
    compose_prompt, key_from_config, Candidate, CandidateContent, ContentPart, GenerateResponse,
    MockGeminiClient,
};

fn part(text: Option<&str>) -> ContentPart {
    ContentPart {
        text: text.map(|t| t.to_string()),
    }
}

fn candidate(parts: Option<Vec<ContentPart>>) -> Candidate {
    Candidate {
        content: parts.map(|parts| CandidateContent { parts }),
    }
}

#[test]
fn mock_returns_seeded_response() {
    let mut mock = MockGeminiClient::with_responses(vec!["hello world".into()]);
    let first = mock.generate_section("prompt");
    assert_eq!(first, "hello world");
    let fallback = mock.generate_section("prompt2");
    assert_eq!(fallback, "MOCK_RESPONSE::prompt2");
}

#[test]
fn mock_hands_out_responses_in_order() {
    let mut mock = MockGeminiClient::with_responses(vec!["one".into(), "two".into()]);
    assert_eq!(mock.generate_section("p"), "one");
    assert_eq!(mock.responses, vec!["two".to_string()]);
    assert_eq!(mock.generate_section("p"), "two");
    assert!(mock.responses.is_empty());
    assert_eq!(mock.generate_section("p"), "MOCK_RESPONSE::p");
}

#[test]
fn primary_text_takes_first_text_of_first_content() {
    let response = GenerateResponse {
        candidates: vec![
            candidate(None),
            candidate(Some(vec![part(None), part(Some("first")), part(Some("second"))])),
            candidate(Some(vec![part(Some("other"))])),
        ],
    };
    assert_eq!(response.primary_text().as_deref(), Some("first"));
}

#[test]
fn primary_text_does_not_look_past_first_content() {
    let response = GenerateResponse {
        candidates: vec![
            candidate(Some(vec![part(None)])),
            candidate(Some(vec![part(Some("late"))])),
        ],
    };
    assert_eq!(response.primary_text(), None);
    let empty = GenerateResponse { candidates: vec![] };
    assert_eq!(empty.primary_text(), None);
}

#[test]
fn prompt_wraps_the_data_in_markers() {
    assert_eq!(
        compose_prompt("Summarize.", "{}"),
        "Summarize.\n\n--- BEGIN PARSER JSON ---\n{}\n--- END PARSER JSON ---"
    );
}

#[test]
fn key_is_read_from_first_key_line() {
    assert_eq!(
        key_from_config("# secrets\n  key: \"abc123\"  \nkey: other\n").as_deref(),
        Some("abc123")
    );
    assert_eq!(key_from_config("key:plain").as_deref(), Some("plain"));
    assert_eq!(key_from_config("key: \"\"REPLACE\"\"\r\n").as_deref(), Some("REPLACE"));
}

#[test]
fn key_is_refused_when_missing_empty_or_placeholder() {
    assert_eq!(key_from_config(""), None);
    assert_eq!(key_from_config("name: value\n"), None);
    assert_eq!(key_from_config("key:\nkey: real\n"), None);
    assert_eq!(key_from_config("key: \"\"\n"), None);
    assert_eq!(key_from_config("key: REPLACE_ME\n"), None);
    assert_eq!(key_from_config("key: \"REPLACE_ME\"\n"), None);
}
