//! Answers: what becomes of a completion, and of a single chunk.

use gemma_gateway::response::{
    arguments_from, arguments_value, candidate_from_message, chunk_to_gemini, response_to_gemini,
};
use gemma_gateway::value::JsonValue;

fn json(text: &str) -> JsonValue {
    JsonValue::from_text(text).expect("JSON")
}

/// The text of one candidate, as JSON.
fn candidate(msg: &str, finish: Option<&str>) -> String {
    candidate_from_message(&json(msg), finish).to_text()
}

#[test]
fn a_whole_completion_is_translated() {
    let out = response_to_gemini(&json(
        r#"{
            "model": "gemma",
            "choices": [{
                "message": {"reasoning_content": "hm", "reasoning": "so", "content": "ok",
                    "tool_calls": [{"function": {"name": "ls", "arguments": "{\"a\": [1]}"}}]},
                "finish_reason": "tool_calls"
            }],
            "usage": {"prompt_tokens": 3, "completion_tokens": 5}
        }"#,
    ));
    let expected = [
        r#"{"candidates":[{"content":{"parts":[{"text":"hm","thought":true},"#,
        r#"{"text":"so","thought":true},{"text":"ok"},"#,
        r#"{"functionCall":{"args":{"a":[1]},"name":"ls"}}],"role":"model"},"#,
        r#""finishReason":"STOP","index":0}],"modelVersion":"gemma","#,
        r#""usageMetadata":{"candidatesTokenCount":5,"promptTokenCount":3,"totalTokenCount":0}}"#,
    ];
    assert_eq!(out.to_text(), expected.concat());
}

#[test]
fn an_empty_completion_has_an_empty_candidate() {
    let expected = [
        r#"{"candidates":[{"content":{"parts":[],"role":"model"},"finishReason":"STOP","index":0}],"#,
        r#""modelVersion":null,"usageMetadata":"#,
        r#"{"candidatesTokenCount":0,"promptTokenCount":0,"totalTokenCount":0}}"#,
    ];
    for text in ["{}", r#"{"choices": []}"#, r#"{"choices": [{}], "usage": null}"#] {
        assert_eq!(response_to_gemini(&json(text)).to_text(), expected.concat());
    }
}

#[test]
fn the_reason_to_end_is_named() {
    let reason = |finish: Option<&str>| -> String {
        let c = candidate_from_message(&json("{}"), finish);
        c.get("finishReason").unwrap().as_str().unwrap().to_string()
    };
    assert_eq!(reason(None), "STOP");
    assert_eq!(reason(Some("stop")), "STOP");
    assert_eq!(reason(Some("tool_calls")), "STOP");
    assert_eq!(reason(Some("length")), "MAX_TOKENS");
    assert_eq!(reason(Some("content_filter")), "content_filter");
}

#[test]
fn empty_texts_make_no_parts() {
    assert_eq!(
        candidate(r#"{"reasoning_content": "", "content": "", "reasoning": 5}"#, None),
        r#"{"content":{"parts":[],"role":"model"},"finishReason":"STOP","index":0}"#
    );
}

#[test]
fn reasoning_comes_first_and_the_answer_follows() {
    let expected = [
        r#"{"content":{"parts":[{"text":"t","thought":true},{"text":"a"}],"role":"model"},"#,
        r#""finishReason":"STOP","index":0}"#,
    ];
    assert_eq!(
        candidate(r#"{"content": "a", "reasoning_content": "t"}"#, None),
        expected.concat()
    );
}

#[test]
fn calls_without_a_function_or_arguments_are_kept() {
    let expected = [
        r#"{"content":{"parts":[{"functionCall":{"args":{},"name":""}},"#,
        r#"{"functionCall":{"args":{},"name":"f"}}],"role":"model"},"#,
        r#""finishReason":"STOP","index":0}"#,
    ];
    assert_eq!(
        candidate(r#"{"tool_calls": [{}, {"function": {"name": "f", "arguments": 4}}]}"#, None),
        expected.concat()
    );
}

#[test]
fn arguments_are_read_or_kept_raw() {
    assert_eq!(arguments_value(Some(r#"{"a": 1}"#)).to_text(), r#"{"a":1}"#);
    assert_eq!(arguments_value(Some("3")).to_text(), "3");
    assert_eq!(arguments_value(Some("")).to_text(), r#"{"_raw":""}"#);
    assert_eq!(arguments_value(Some("{")).to_text(), r#"{"_raw":"{"}"#);
    assert_eq!(arguments_value(None).to_text(), "{}");
    assert_eq!(arguments_from(None, "x").to_text(), r#"{"_raw":"x"}"#);
    assert_eq!(arguments_from(Some(JsonValue::Null), "x").to_text(), "null");
}

#[test]
fn a_chunk_shows_its_parts() {
    let chunk = json(
        r#"{"choices": [{"delta": {"content": "a", "reasoning": "b",
            "tool_calls": [{"function": {"name": "f", "arguments": "{}"}}]},
            "finish_reason": "length"}]}"#,
    );
    let expected = [
        r#"{"candidates":[{"content":{"parts":[{"text":"b","thought":true},{"text":"a"},"#,
        r#"{"functionCall":{"args":{},"name":"f"}}],"role":"model"},"#,
        r#""finishReason":"MAX_TOKENS","index":0}]}"#,
    ];
    assert_eq!(chunk_to_gemini(&chunk).unwrap().to_text(), expected.concat());
    let going_on = json(r#"{"choices": [{"delta": {"content": "a"}, "finish_reason": null}]}"#);
    assert_eq!(
        chunk_to_gemini(&going_on).unwrap().to_text(),
        r#"{"candidates":[{"content":{"parts":[{"text":"a"}],"role":"model"},"index":0}]}"#
    );
}

#[test]
fn chunks_with_nothing_to_render_are_dropped() {
    for text in [
        "{}",
        r#"{"choices": []}"#,
        r#"{"choices": [{"finish_reason": "stop"}]}"#,
        r#"{"choices": [{"delta": {"content": ""}}]}"#,
        r#"{"choices": [], "usage": {"total_tokens": 3}}"#,
    ] {
        assert!(chunk_to_gemini(&json(text)).is_none());
    }
}
