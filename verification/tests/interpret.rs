use paip::chars::trim_end_text;
use paip::response::interpret;
use paip::response::ResponseError;

#[test]
fn test_interpret_quota_error() {
    let body = r#"{"error":{"code":429,"message":"quota exceeded"}}"#;
    let r = interpret(429, body);
    match r {
        Err(ResponseError::Api { code, message }) => {
            assert_eq!(code, 429);
            assert_eq!(message, "quota exceeded");
        }
        _ => panic!("expected a provider error"),
    }
}

#[test]
fn test_interpret_quota_error_message() {
    let body = r#"{"error":{"code":429,"message":"quota exceeded"}}"#;
    let e = interpret(429, body).unwrap_err();
    assert_eq!(e.message(), "LLM API error 429: quota exceeded");
}

#[test]
fn test_interpret_empty_candidates() {
    let r = interpret(200, r#"{"candidates":[]}"#);
    match r {
        Err(ResponseError::EmptyResponse { envelope }) => {
            assert_eq!(envelope.candidates.map(|c| c.len()), Some(0));
        }
        _ => panic!("expected an empty-response failure"),
    }
}

#[test]
fn test_interpret_success_text() {
    let body = r#"{"candidates":[{"content":{"parts":[{"text":"Bonjour"}]}}]}"#;
    let r = interpret(200, body);
    assert_eq!(r.unwrap(), "Bonjour");
}

#[test]
fn test_interpret_first_candidate_and_part_win() {
    let body = r#"{"candidates":[{"content":{"parts":[{"text":"first"},{"text":"second"}]}},{"content":{"parts":[{"text":"other"}]}}]}"#;
    let r = interpret(200, body);
    assert_eq!(r.unwrap(), "first");
}

#[test]
fn test_interpret_ignores_unknown_fields() {
    let body = r#"{"candidates":[{"content":{"parts":[{"text":"Hi"}],"role":"model"},"finishReason":"STOP","index":0}],"usageMetadata":{"promptTokenCount":5},"modelVersion":"m"}"#;
    let r = interpret(200, body);
    assert_eq!(r.unwrap(), "Hi");
}

#[test]
fn test_interpret_malformed_body() {
    let r = interpret(200, "not json at all");
    match r {
        Err(ResponseError::Deserialization { body }) => {
            assert_eq!(body, "not json at all");
        }
        _ => panic!("expected a deserialization failure"),
    }
}

#[test]
fn test_interpret_schema_mismatch() {
    let r = interpret(200, r#"{"candidates":"nope"}"#);
    assert!(matches!(r, Err(ResponseError::Deserialization { .. })));
}

#[test]
fn test_interpret_unexpected_status_without_error_body() {
    let r = interpret(500, "{}");
    match r {
        Err(ResponseError::UnexpectedStatus { status, envelope }) => {
            assert_eq!(status, 500);
            assert!(envelope.candidates.is_none());
            assert!(envelope.error.is_none());
        }
        _ => panic!("expected an unexpected-status failure"),
    }
}

#[test]
fn test_interpret_error_body_wins_on_failure_status() {
    let body = r#"{"candidates":[{"content":{"parts":[{"text":"Hi"}]}}],"error":{"code":400,"message":"bad"}}"#;
    let r = interpret(400, body);
    match r {
        Err(ResponseError::Api { code, message }) => {
            assert_eq!(code, 400);
            assert_eq!(message, "bad");
        }
        _ => panic!("expected a provider error"),
    }
}

#[test]
fn test_interpret_success_with_candidates_and_error_ignores_error() {
    let body = r#"{"candidates":[{"content":{"parts":[{"text":"Hi"}]}}],"error":{"code":400,"message":"bad"}}"#;
    let r = interpret(200, body);
    assert_eq!(r.unwrap(), "Hi");
}

#[test]
fn test_interpret_missing_content() {
    let r = interpret(200, r#"{"candidates":[{}]}"#);
    assert!(matches!(r, Err(ResponseError::EmptyResponse { .. })));
}

#[test]
fn test_interpret_empty_parts() {
    let r = interpret(200, r#"{"candidates":[{"content":{"parts":[]}}]}"#);
    assert!(matches!(r, Err(ResponseError::EmptyResponse { .. })));
}

#[test]
fn test_interpret_code_out_of_range_is_schema_mismatch() {
    let r = interpret(500, r#"{"error":{"code":70000,"message":"m"}}"#);
    assert!(matches!(r, Err(ResponseError::Deserialization { .. })));
}

#[test]
fn test_trim_end_only_trailing_whitespace() {
    assert_eq!(trim_end_text("  answer text \n\t "), "  answer text");
    assert_eq!(trim_end_text("a\nb\n"), "a\nb");
    assert_eq!(trim_end_text("\n\n"), "");
    assert_eq!(trim_end_text("keep"), "keep");
}

#[test]
fn test_interpret_status_boundaries() {
    let body = r#"{"candidates":[{"content":{"parts":[{"text":"ok"}]}}]}"#;
    assert_eq!(interpret(299, body).unwrap(), "ok");
    assert!(matches!(
        interpret(300, body),
        Err(ResponseError::UnexpectedStatus { status: 300, .. })
    ));
    assert!(matches!(
        interpret(199, body),
        Err(ResponseError::UnexpectedStatus { status: 199, .. })
    ));
}

#[test]
fn test_interpret_null_candidates_is_empty() {
    let r = interpret(200, r#"{"candidates":null}"#);
    assert!(matches!(r, Err(ResponseError::EmptyResponse { .. })));
}
