use db_advisor::client::MistralClient;
use db_advisor::client::REQUEST_TIMEOUT_SECS;
use db_advisor::client::build_request_body;
use db_advisor::client::check_status;
use db_advisor::client::extract_single_content;
use db_advisor::client::mask_api_key;
use db_advisor::errors::AdvisorError;

#[test]
fn masking_keeps_only_the_last_four_bytes() {
    assert_eq!(mask_api_key(b"abcdefgh"), b"...efgh".to_vec());
    assert_eq!(mask_api_key(b"abcd"), b"****".to_vec());
    assert_eq!(mask_api_key(b""), b"****".to_vec());
}

#[test]
fn provided_key_wins_over_environment() {
    let c = MistralClient::with_api_key(
        Some(b"given".to_vec()),
        Some(b"from-env".to_vec()),
        None,
    )
    .expect("key provided");
    assert_eq!(c.api_key, b"given".to_vec());
    assert_eq!(c.api_url, b"https://api.mistral.ai/v1/chat/completions".to_vec());
    assert_eq!(c.timeout_secs, REQUEST_TIMEOUT_SECS);
}

#[test]
fn blank_provided_key_falls_back_to_environment() {
    let c = MistralClient::with_api_key(Some(b"   ".to_vec()), Some(b"from-env".to_vec()), None)
        .expect("environment key present");
    assert_eq!(c.api_key, b"from-env".to_vec());
}

#[test]
fn missing_keys_are_a_configuration_error() {
    match MistralClient::with_api_key(Some(b" ".to_vec()), None, None) {
        Err(AdvisorError::MissingApiKey) => {},
        other => panic!("expected the missing-key error, got {:?}", other.is_ok()),
    }
}

#[test]
fn environment_url_overrides_the_default() {
    let c = MistralClient::new(Some(b"k".to_vec()), Some(b"http://localhost:1/x".to_vec()))
        .expect("key present");
    assert_eq!(c.api_url, b"http://localhost:1/x".to_vec());
}

#[test]
fn request_body_is_framed_exactly() {
    assert_eq!(
        build_request_body(b"hi", 2000, false),
        b"{\"model\":\"mistral-medium\",\"messages\":[{\"role\":\"user\",\"content\":\"hi\"}],\"temperature\":0.7,\"max_tokens\":2000}".to_vec()
    );
    assert_eq!(
        build_request_body(b"hi", 3000, true),
        b"{\"model\":\"mistral-medium\",\"messages\":[{\"role\":\"user\",\"content\":\"hi\"}],\"temperature\":0.7,\"max_tokens\":3000,\"stream\":true}".to_vec()
    );
}

#[test]
fn request_body_escapes_the_prompt() {
    let body = build_request_body(b"a\"b\nc", 2000, false);
    let text = String::from_utf8(body).unwrap();
    assert!(text.contains("\"content\":\"a\\\"b\\nc\""));
}

#[test]
fn request_body_parses_as_json() {
    let body = build_request_body("prompt with é and \\ and \"quotes\"".as_bytes(), 2000, false);
    let v: serde_json::Value = serde_json::from_slice(&body).expect("well-formed body");
    assert_eq!(v["model"], serde_json::Value::String("mistral-medium".to_string()));
    assert_eq!(
        v["messages"][0]["content"],
        serde_json::Value::String("prompt with é and \\ and \"quotes\"".to_string())
    );
}

#[test]
fn non_success_status_carries_the_body() {
    match check_status(503, b"overloaded".to_vec()) {
        Err(AdvisorError::UpstreamError { status, body }) => {
            assert_eq!(status, 503);
            assert_eq!(body, b"overloaded".to_vec());
        },
        _ => panic!("expected the upstream error"),
    }
    assert!(check_status(200, Vec::new()).is_ok());
    assert!(check_status(299, Vec::new()).is_ok());
    assert!(check_status(300, Vec::new()).is_err());
}

#[test]
fn single_shot_content_comes_from_the_first_message() {
    let body = b"{\"choices\":[{\"message\":{\"content\":\"hello\"}},{\"message\":{\"content\":\"other\"}}]}";
    assert_eq!(extract_single_content(body).expect("content"), b"hello".to_vec());
}

#[test]
fn single_shot_without_choices_is_the_empty_response_error() {
    match extract_single_content(b"{\"choices\":[]}") {
        Err(AdvisorError::EmptyResponse) => {},
        _ => panic!("expected the empty-response error"),
    }
}

#[test]
fn single_shot_with_a_broken_body_is_the_invalid_response_error() {
    match extract_single_content(b"not json at all") {
        Err(AdvisorError::InvalidResponse) => {},
        _ => panic!("expected the invalid-response error"),
    }
    match extract_single_content(b"{\"choices\":true}") {
        Err(AdvisorError::InvalidResponse) => {},
        _ => panic!("expected the invalid-response error"),
    }
}

#[test]
fn single_shot_choice_without_message_yields_empty_content() {
    let body = b"{\"choices\":[{\"delta\":{\"content\":\"d\"}}]}";
    assert_eq!(extract_single_content(body).expect("content"), Vec::<u8>::new());
}
