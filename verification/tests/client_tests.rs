use npushell::client::{
    chunk_event, completion_from_json, completion_result, health_result, parse_stream_line,
    status_is_success, CompletionError, CopilotClient, StreamCollector, StreamLine, StreamStep,
};
use npushell::config::ApiConfig;
use npushell::json::Json;

fn client() -> CopilotClient {
    CopilotClient::new(&ApiConfig::default())
}

#[test]
fn urls() {
    let c = client();
    assert_eq!(c.chat_completions_url(), "http://localhost:8000/v1/chat/completions");
    assert_eq!(c.models_url(), "http://localhost:8000/v1/models");
}

#[test]
fn request_body_is_json() {
    let c = client();
    let body = c.chat_request_body("sys \"q\"", "usr\nline", 150, false);
    assert_eq!(
        body,
        "{\"max_tokens\":150,\"messages\":[{\"content\":\"sys \\\"q\\\"\",\"role\":\"system\"},{\"content\":\"usr\\nline\",\"role\":\"user\"}],\"model\":\"default\",\"temperature\":0.3}"
    );
    let v: serde_json::Value = serde_json::from_str(&body).unwrap();
    assert_eq!(v["messages"][1]["content"], "usr\nline");
    let streamed = c.chat_request_body("s", "u", 512, true);
    assert!(streamed.contains(",\"stream\":true,"));
}

#[test]
fn status_success_range() {
    assert!(status_is_success(200));
    assert!(status_is_success(299));
    assert!(!status_is_success(300));
    assert!(!status_is_success(199));
    assert!(health_result(204).is_ok());
    assert_eq!(health_result(404), Err(404));
}

#[test]
fn completion_result_reads_content() {
    let body = r#"{"choices":[{"message":{"role":"assistant","content":"ls -la"}}]}"#;
    assert_eq!(completion_result(200, body).unwrap(), "ls -la");
}

#[test]
fn completion_result_errors() {
    match completion_result(500, "boom") {
        Err(CompletionError::Status { code, body }) => {
            assert_eq!(code, 500);
            assert_eq!(body, "boom");
        }
        other => panic!("unexpected {:?}", other),
    }
    assert!(matches!(completion_result(200, "not json"), Err(CompletionError::InvalidJson)));
    assert!(matches!(completion_result(200, "{\"choices\":[]}"), Err(CompletionError::MissingContent)));
    assert!(matches!(
        completion_result(200, "{\"choices\":[{\"message\":{\"content\":3}}]}"),
        Err(CompletionError::MissingContent)
    ));
}

#[test]
fn completion_from_json_values() {
    let data = Json::Object(vec![(
        "choices".to_string(),
        Json::Array(vec![Json::Object(vec![(
            "message".to_string(),
            Json::Object(vec![("content".to_string(), Json::Str("hi".to_string()))]),
        )])]),
    )]);
    assert_eq!(completion_from_json(Some(data)).unwrap(), "hi");
    assert!(matches!(completion_from_json(None), Err(CompletionError::InvalidJson)));
    assert!(matches!(completion_from_json(Some(Json::Null)), Err(CompletionError::MissingContent)));
}

#[test]
fn stream_lines() {
    assert!(matches!(parse_stream_line(": keep-alive"), StreamLine::Ignore));
    assert!(matches!(parse_stream_line("data: [DONE]"), StreamLine::Done));
    assert!(matches!(parse_stream_line("data: {bad"), StreamLine::Ignore));
    match parse_stream_line(r#"data: {"choices":[{"delta":{"content":"Hel"}}]}"#) {
        StreamLine::Token(t) => assert_eq!(t, "Hel"),
        _ => panic!("expected a token"),
    }
    assert!(matches!(parse_stream_line(r#"data: {"choices":[{"delta":{}}]}"#), StreamLine::Ignore));
    assert!(matches!(chunk_event(None), StreamLine::Ignore));
}

#[test]
fn stream_collector_accumulates() {
    let mut s = StreamCollector::new();
    assert!(matches!(s.step("event: x"), StreamStep::Skip));
    match s.step(r#"data: {"choices":[{"delta":{"content":"Hel"}}]}"#) {
        StreamStep::Print { token, first } => {
            assert_eq!(token, "Hel");
            assert!(first);
        }
        _ => panic!("expected print"),
    }
    match s.step(r#"data: {"choices":[{"delta":{"content":"lo"}}]}"#) {
        StreamStep::Print { token, first } => {
            assert_eq!(token, "lo");
            assert!(!first);
        }
        _ => panic!("expected print"),
    }
    assert!(matches!(s.step("data: [DONE]"), StreamStep::Finish));
    assert_eq!(s.response, "Hello");
    assert!(s.started);
}

#[test]
fn request_body_escapes_controls() {
    let c = client();
    let body = c.chat_request_body("a\tb\u{1}c\\", "\u{7f}é/", 1, false);
    assert!(body.contains("\"content\":\"a\\tb\\u0001c\\\\\""));
    assert!(body.contains("\"content\":\"\u{7f}é/\""));
}
