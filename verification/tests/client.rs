use llm_translator::llm::client::classify_error_response;
use llm_translator::llm::client::classify_with_detail;
use llm_translator::llm::client::LlmClient;
use llm_translator::llm::client::LlmError;

fn create_test_client() -> LlmClient {
    LlmClient::new(
        "https://api.openai.com/v1/chat/completions",
        "test-key".to_string(),
        3,
        30,
    )
}

#[test]
fn test_client_creation() {
    let client = create_test_client();
    assert_eq!(client.max_retries(), 3);
    assert_eq!(client.timeout_seconds(), 30);
}

#[test]
fn test_should_retry() {
    let client = create_test_client();

    // Should retry on rate limit
    assert!(client.should_retry(&LlmError::RateLimited { retry_after_ms: None }, 0));

    // Should retry on service unavailable
    assert!(client.should_retry(&LlmError::ServiceUnavailable, 0));

    // Should not retry on invalid API key
    assert!(!client.should_retry(&LlmError::InvalidApiKey, 0));

    // Should not retry after max retries
    assert!(!client.should_retry(&LlmError::ServiceUnavailable, 3));
}

#[test]
fn test_retry_delay_calculation() {
    let client = create_test_client();

    // Rate limited with specific retry_after
    let delay = client.calculate_retry_delay(
        1,
        &LlmError::RateLimited { retry_after_ms: Some(5000) },
    );
    assert_eq!(delay, 5000);

    // Exponential backoff for other errors
    let delay = client.calculate_retry_delay(2, &LlmError::ServiceUnavailable);
    // Should be around 200ms + jitter
    assert!(delay >= 200);
    assert!(delay < 300);
}

#[test]
fn test_retry_stops_after_max_retries() {
    let client = create_test_client();
    let error = LlmError::ServiceUnavailable;

    let mut retries = 0u32;
    let mut count = 0u32;
    loop {
        match client.next_retry(&error, count) {
            Some((next_count, delay)) => {
                assert_eq!(next_count, count + 1);
                assert!(delay >= 100);
                retries += 1;
                count = next_count;
            }
            None => break,
        }
    }
    // Exactly max_retries retries happen before the error surfaces.
    assert_eq!(retries, 3);

    // A terminal credential error is never retried at all.
    assert!(client.next_retry(&LlmError::InvalidApiKey, 0).is_none());
}

#[test]
fn test_classify_unauthorized() {
    let e = classify_error_response(401, "", None);
    assert!(matches!(e, LlmError::InvalidApiKey));
}

#[test]
fn test_classify_model_not_found() {
    let body = r#"{"error": {"message": "The model `gpt-x` does not exist", "type": "invalid_request_error"}}"#;
    let e = classify_error_response(404, body, None);
    match e {
        LlmError::ModelNotFound(m) => {
            assert_eq!(m, "The model `gpt-x` does not exist");
        }
        other => panic!("expected ModelNotFound, got {:?}", other),
    }
}

#[test]
fn test_classify_not_found_without_model() {
    let body = r#"{"error": {"message": "no such route", "type": "invalid_request_error", "code": "not_found"}}"#;
    let e = classify_error_response(404, body, None);
    match e {
        LlmError::ApiError { message, code } => {
            assert_eq!(message, "no such route");
            assert_eq!(code, Some("not_found".to_string()));
        }
        other => panic!("expected ApiError, got {:?}", other),
    }
}

#[test]
fn test_classify_rate_limited_with_header() {
    let e = classify_error_response(429, "", Some("7"));
    assert!(matches!(
        e,
        LlmError::RateLimited { retry_after_ms: Some(7000) }
    ));

    let e = classify_error_response(429, "", Some("soon"));
    assert!(matches!(e, LlmError::RateLimited { retry_after_ms: None }));
}

#[test]
fn test_classify_payload_too_large_extracts_tokens() {
    let body = r#"{"error": {"message": "requested 5210 tokens over the limit", "type": "invalid_request_error"}}"#;
    let e = classify_error_response(413, body, None);
    assert!(matches!(e, LlmError::RequestTooLarge(5210)));

    let e = classify_error_response(413, "not json", None);
    assert!(matches!(e, LlmError::RequestTooLarge(0)));
}

#[test]
fn test_classify_service_unavailable() {
    assert!(matches!(
        classify_error_response(503, "", None),
        LlmError::ServiceUnavailable
    ));
    assert!(matches!(
        classify_error_response(502, "", None),
        LlmError::ServiceUnavailable
    ));
    assert!(matches!(
        classify_error_response(507, "", None),
        LlmError::InsufficientQuota
    ));
}

#[test]
fn test_classify_other_status_keeps_body() {
    let e = classify_error_response(500, "boom", None);
    match e {
        LlmError::ApiError { message, code } => {
            assert_eq!(message, "HTTP 500: boom");
            assert!(code.is_none());
        }
        other => panic!("expected ApiError, got {:?}", other),
    }
}

#[test]
fn test_classify_with_detail_without_body() {
    let e = classify_with_detail(404, None, None, "");
    match e {
        LlmError::ApiError { message, code } => {
            assert_eq!(message, "Not found");
            assert!(code.is_none());
        }
        other => panic!("expected ApiError, got {:?}", other),
    }
}

#[test]
fn test_error_messages() {
    assert_eq!(LlmError::InvalidApiKey.message(), "Invalid API key");
    assert_eq!(
        LlmError::RequestTooLarge(42).message(),
        "Request too large: 42 tokens"
    );
    assert_eq!(LlmError::Timeout(30).message(), "Request timeout after 30 seconds");
    assert_eq!(
        LlmError::ModelNotFound("gpt-x".to_string()).message(),
        "Model not found: gpt-x"
    );
}
