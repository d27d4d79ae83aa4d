use rusty_chat::history::Role;
use rusty_chat::inference::{
    build_request, decode_reply, failure_message, interpret, no_model_message, reply_of,
    GenerateError, HttpStatus,
};
use rusty_chat::settings::{FloatBits, Settings};
use rusty_chat::store::Message;

fn settings(system_prompt: &str) -> Settings {
    Settings {
        model: "llama3".to_string(),
        system_prompt: system_prompt.to_string(),
        temperature: FloatBits { bits: 0.3f64.to_bits() },
        top_p: FloatBits { bits: 0.9f64.to_bits() },
        max_tokens: 128,
        zoom: 100,
        maximized: true,
        window_width: 1024,
        window_height: 768,
    }
}

fn stored(id: u64, role: Role, content: &str) -> Message {
    Message { id, chat_id: "a".to_string(), role, content: content.to_string(), timestamp: 0 }
}

fn value(text: &str) -> serde_json::Value {
    serde_json::from_str(text).expect("a document")
}

#[test]
fn status_codes_run_from_100_to_999() {
    assert!(HttpStatus::new(99).is_none());
    assert!(HttpStatus::new(0).is_none());
    assert!(HttpStatus::new(1000).is_none());
    assert!(HttpStatus::new(u16::MAX).is_none());
    assert_eq!(HttpStatus::new(100).unwrap().code(), 100);
    assert_eq!(HttpStatus::new(999).unwrap().code(), 999);
    assert_eq!(HttpStatus::new(204).unwrap().code(), 204);
}

#[test]
fn success_is_200_to_299() {
    let success = |code: u16| HttpStatus::new(code).unwrap().is_success();
    assert!(!success(199));
    assert!(success(200));
    assert!(success(204));
    assert!(success(299));
    assert!(!success(300));
    assert!(!success(404));
    assert!(!success(500));
}

#[test]
fn failure_messages() {
    assert_eq!(
        failure_message(GenerateError::ConnectionFailed),
        "Error: Could not connect to Ollama. Make sure Ollama is running at http://localhost:11434"
    );
    assert_eq!(
        failure_message(GenerateError::ParseFailed),
        "Error: Failed to parse response from Ollama"
    );
    assert_eq!(
        failure_message(GenerateError::BadStatus(HttpStatus::new(500).unwrap())),
        "Error: Ollama API returned status 500 Internal Server Error"
    );
    assert_eq!(
        failure_message(GenerateError::BadStatus(HttpStatus::new(404).unwrap())),
        "Error: Ollama API returned status 404 Not Found"
    );
    assert_eq!(
        failure_message(GenerateError::BadStatus(HttpStatus::new(799).unwrap())),
        "Error: Ollama API returned status 799 <unknown status code>"
    );
    assert_eq!(
        no_model_message(),
        "Error: No model selected. Please open Settings and choose a model before sending messages."
    );
}

#[test]
fn request_order_is_system_then_history_then_turn() {
    let history = vec![stored(1, Role::User, "q"), stored(2, Role::Assistant, "r")];
    let request = build_request(&settings("sys"), &history, "next");
    let turns: Vec<(Role, &str)> =
        request.messages.iter().map(|t| (t.role, t.content.as_str())).collect();
    assert_eq!(
        turns,
        vec![
            (Role::System, "sys"),
            (Role::User, "q"),
            (Role::Assistant, "r"),
            (Role::User, "next")
        ]
    );
    assert_eq!(request.model, "llama3");
    assert!(!request.stream);
    assert_eq!(request.temperature, FloatBits { bits: 0.3f64.to_bits() });
    assert_eq!(request.top_p, FloatBits { bits: 0.9f64.to_bits() });
    assert_eq!(request.max_tokens, 128);
}

#[test]
fn request_without_prompt_or_history_is_the_turn_alone() {
    let request = build_request(&settings(""), &vec![], "only");
    assert_eq!(request.messages.len(), 1);
    assert_eq!(request.messages[0].role, Role::User);
    assert_eq!(request.messages[0].content, "only");
}

#[test]
fn a_blank_system_prompt_is_still_a_prompt() {
    let request = build_request(&settings(" "), &vec![], "x");
    assert_eq!(request.messages.len(), 2);
    assert_eq!(request.messages[0].role, Role::System);
    assert_eq!(request.messages[0].content, " ");
}

#[test]
fn reply_is_the_content_of_the_message() {
    let body = br#"{"message":{"role":"assistant","content":"hello"},"done":true}"#;
    assert_eq!(decode_reply(body), Ok("hello".to_string()));
    let without_done = br#"{"message":{"role":"assistant","content":"hello"}}"#;
    assert_eq!(decode_reply(without_done), Ok("hello".to_string()));
    let with_more = br#"{"model":"m","message":{"content":"","role":"assistant","x":[1]},"done":false,"n":1.5}"#;
    assert_eq!(decode_reply(with_more), Ok("".to_string()));
    let escaped = r#" { "message" : { "role" : "assistant", "content" : "a\n\"b\" é ü" } } "#;
    assert_eq!(decode_reply(escaped.as_bytes()), Ok("a\n\"b\" é ü".to_string()));
}

#[test]
fn malformed_bodies_fail_to_parse() {
    let bodies: [&[u8]; 14] = [
        b"",
        b"not json",
        b"{",
        b"null",
        b"[]",
        b"\"hello\"",
        b"{}",
        br#"{"message":"hello"}"#,
        br#"{"message":{"role":"assistant"}}"#,
        br#"{"message":{"content":"hello"}}"#,
        br#"{"message":{"role":1,"content":"hello"}}"#,
        br#"{"message":{"role":"assistant","content":["hello"]}}"#,
        br#"{"message":{"role":"assistant","content":"hello"},"done":"yes"}"#,
        br#"{"message":{"role":"assistant","content":"hello"}} trailing"#,
    ];
    for body in bodies {
        assert_eq!(decode_reply(body), Err(GenerateError::ParseFailed));
    }
}

#[test]
fn reply_of_a_document() {
    assert_eq!(
        reply_of(&value(r#"{"message":{"role":"assistant","content":"hi"},"done":true}"#)),
        Some("hi".to_string())
    );
    assert_eq!(reply_of(&value(r#"{"message":{"role":"assistant","content":null}}"#)), None);
    assert_eq!(reply_of(&value(r#"{"message":{"role":"a","content":"c"},"done":null}"#)), None);
    assert_eq!(reply_of(&value(r#"[{"message":{"role":"a","content":"c"}}]"#)), None);
    assert_eq!(reply_of(&value("7")), None);
}

#[test]
fn interpret_names_each_outcome() {
    let good = br#"{"message":{"role":"assistant","content":"hello"},"done":true}"#;
    let ok = HttpStatus::new(200).unwrap();
    assert_eq!(interpret(ok, good), Ok("hello".to_string()));
    assert_eq!(interpret(ok, b"<html>"), Err(GenerateError::ParseFailed));
    for code in [100u16, 301, 404, 500, 999] {
        let status = HttpStatus::new(code).unwrap();
        assert_eq!(interpret(status, good), Err(GenerateError::BadStatus(status)));
    }
    let created = HttpStatus::new(201).unwrap();
    assert_eq!(interpret(created, good), Ok("hello".to_string()));
}
