//! The translation between the two formats, on single requests and answers.

use gemma_gateway::request::request_to_openai;
use gemma_gateway::response::{chunk_to_gemini, response_to_gemini};
use gemma_gateway::value::JsonValue;

/// The value that a JSON text stands for.
fn json(text: &str) -> JsonValue {
    JsonValue::from_text(text).expect("JSON")
}

/// The value at the end of a path of names and places.
fn at<'a>(v: &'a JsonValue, path: &[&str]) -> &'a JsonValue {
    let mut here = v;
    for step in path {
        here = match here {
            JsonValue::Array(items) => &items[step.parse::<usize>().expect("a place")],
            _ => here.get(step).expect("a member"),
        };
    }
    here
}

/// The text at the end of a path.
fn text_at<'a>(v: &'a JsonValue, path: &[&str]) -> &'a str {
    at(v, path).as_str().expect("a string")
}

#[test]
fn text_turn_round_trips() {
    let req = json(r#"{"contents": [{"role": "user", "parts": [{"text": "hi"}]}]}"#);
    let out = request_to_openai("gemma", &req, false);
    assert_eq!(text_at(&out, &["messages", "0", "role"]), "user");
    assert_eq!(text_at(&out, &["messages", "0", "content"]), "hi");
}

#[test]
fn model_role_becomes_assistant() {
    let req = json(r#"{"contents": [{"role": "model", "parts": [{"text": "ok"}]}]}"#);
    let out = request_to_openai("gemma", &req, false);
    assert_eq!(text_at(&out, &["messages", "0", "role"]), "assistant");
}

#[test]
fn system_instruction_leads() {
    let req = json(
        r#"{
            "systemInstruction": {"parts": [{"text": "be brief"}]},
            "contents": [{"role": "user", "parts": [{"text": "hi"}]}]
        }"#,
    );
    let out = request_to_openai("gemma", &req, false);
    assert_eq!(text_at(&out, &["messages", "0", "role"]), "system");
    assert_eq!(text_at(&out, &["messages", "0", "content"]), "be brief");
}

#[test]
fn function_call_becomes_tool_call_with_string_args() {
    let req = json(
        r#"{"contents": [{"role": "model", "parts": [
            {"functionCall": {"name": "ls", "args": {"path": "/tmp"}}}
        ]}]}"#,
    );
    let out = request_to_openai("gemma", &req, false);
    let call = at(&out, &["messages", "0", "tool_calls", "0"]);
    assert_eq!(text_at(call, &["function", "name"]), "ls");
    // Must be a STRING, not an object: this is the classic mistranslation.
    assert!(matches!(at(call, &["function", "arguments"]), JsonValue::String(_)));
}

#[test]
fn function_response_becomes_its_own_tool_message() {
    let req = json(
        r#"{"contents": [{"role": "user", "parts": [
            {"functionResponse": {"name": "ls", "response": {"out": "a\nb"}}}
        ]}]}"#,
    );
    let out = request_to_openai("gemma", &req, false);
    assert_eq!(text_at(&out, &["messages", "0", "role"]), "tool");
    assert_eq!(text_at(&out, &["messages", "0", "tool_call_id"]), "ls");
}

#[test]
fn tool_declarations_translate() {
    let req = json(
        r#"{"tools": [{"functionDeclarations": [
            {"name": "grep", "description": "search", "parametersJsonSchema": {"type": "object"}}
        ]}], "contents": []}"#,
    );
    let out = request_to_openai("gemma", &req, false);
    assert_eq!(text_at(&out, &["tools", "0", "function", "name"]), "grep");
    assert_eq!(text_at(&out, &["tools", "0", "type"]), "function");
}

#[test]
fn generation_config_maps_to_openai_names() {
    let req = json(
        r#"{"contents": [], "generationConfig":
            {"temperature": 0.5, "maxOutputTokens": 128, "topP": 0.9}}"#,
    );
    let out = request_to_openai("gemma", &req, false).to_serde();
    assert_eq!(out["temperature"], 0.5);
    assert_eq!(out["max_tokens"], 128);
    assert_eq!(out["top_p"], 0.9);
}

#[test]
fn response_carries_text_and_usage() {
    let resp = json(
        r#"{
            "choices": [{"message": {"role": "assistant", "content": "hello"},
                         "finish_reason": "stop"}],
            "usage": {"prompt_tokens": 3, "completion_tokens": 1, "total_tokens": 4}
        }"#,
    );
    let out = response_to_gemini(&resp);
    assert_eq!(text_at(&out, &["candidates", "0", "content", "parts", "0", "text"]), "hello");
    assert_eq!(at(&out, &["usageMetadata", "totalTokenCount"]).as_u64(), Some(4));
    assert_eq!(text_at(&out, &["candidates", "0", "finishReason"]), "STOP");
}

#[test]
fn reasoning_content_is_kept_as_a_thought_part() {
    let resp = json(
        r#"{"choices": [{"message":
            {"reasoning_content": "thinking...", "content": "answer"}}]}"#,
    );
    let out = response_to_gemini(&resp);
    let parts = at(&out, &["candidates", "0", "content", "parts"]);
    assert!(matches!(at(parts, &["0", "thought"]), JsonValue::Bool(true)));
    assert_eq!(text_at(parts, &["1", "text"]), "answer");
}

#[test]
fn length_finish_becomes_max_tokens() {
    let resp = json(
        r#"{"choices": [{"message": {"content": "x"},
                         "finish_reason": "length"}]}"#,
    );
    let out = response_to_gemini(&resp);
    assert_eq!(text_at(&out, &["candidates", "0", "finishReason"]), "MAX_TOKENS");
}

#[test]
fn bad_tool_arguments_survive_as_raw() {
    let resp = json(
        r#"{"choices": [{"message": {"tool_calls": [
            {"function": {"name": "f", "arguments": "{not json"}}
        ]}}]}"#,
    );
    let out = response_to_gemini(&resp);
    let call = at(&out, &["candidates", "0", "content", "parts", "0", "functionCall"]);
    assert_eq!(text_at(call, &["name"]), "f");
    assert_eq!(text_at(call, &["args", "_raw"]), "{not json");
}

#[test]
fn stream_chunk_with_text() {
    let chunk = json(r#"{"choices": [{"delta": {"content": "he"}}]}"#);
    let out = chunk_to_gemini(&chunk).expect("should render");
    assert_eq!(text_at(&out, &["candidates", "0", "content", "parts", "0", "text"]), "he");
}

#[test]
fn stream_chunk_reasoning_first_token_counts() {
    let chunk = json(r#"{"choices": [{"delta": {"reasoning_content": "hm"}}]}"#);
    let out = chunk_to_gemini(&chunk).expect("reasoning is a real first token");
    let part = at(&out, &["candidates", "0", "content", "parts", "0"]);
    assert!(matches!(at(part, &["thought"]), JsonValue::Bool(true)));
}

#[test]
fn empty_role_only_chunk_is_dropped() {
    let chunk = json(r#"{"choices": [{"delta": {"role": "assistant"}}]}"#);
    assert!(chunk_to_gemini(&chunk).is_none());
}

#[test]
fn final_chunk_with_finish_reason_is_kept() {
    let chunk = json(r#"{"choices": [{"delta": {}, "finish_reason": "stop"}]}"#);
    let out = chunk_to_gemini(&chunk).expect("finish must reach the client");
    assert_eq!(text_at(&out, &["candidates", "0", "finishReason"]), "STOP");
}
