use wordlens::error::AppError;

#[test]
fn status_codes() {
    assert_eq!(AppError::InvalidRequest("x".into()).status_code(), 422);
    assert_eq!(AppError::OllamaUnreachable("x".into()).status_code(), 503);
    assert_eq!(AppError::OllamaBadGateway("x".into()).status_code(), 502);
    assert_eq!(AppError::OllamaParseError("x".into()).status_code(), 500);
}

#[test]
fn response_parts_carry_message() {
    let (s, body) = AppError::InvalidRequest("Word cannot be empty.".into()).into_response_parts();
    assert_eq!(s, 422);
    assert_eq!(body.error, "Word cannot be empty.");
    assert_eq!(AppError::OllamaBadGateway("bad".into()).message(), "bad");
}

#[test]
fn constructed_messages() {
    let e = AppError::unreachable("http://127.0.0.1:1/api/generate", "connection refused");
    assert_eq!(e.status_code(), 503);
    assert_eq!(
        e.message(),
        "Cannot reach Ollama at http://127.0.0.1:1/api/generate. Make sure Ollama is running with `ollama serve`. Error: connection refused"
    );
    let e = AppError::bad_gateway("404 Not Found", "model not found");
    assert_eq!(e.status_code(), 502);
    assert_eq!(e.message(), "Ollama returned HTTP 404 Not Found: model not found");
    let e = AppError::parse_failure("expected value");
    assert_eq!(e.status_code(), 500);
    assert_eq!(e.message(), "Failed to parse Ollama response: expected value");
}
