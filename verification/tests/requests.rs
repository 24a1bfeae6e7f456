//! Requests: what becomes of turns, media, settings and tools.

use gemma_gateway::request::{
    messages_of, parts_text, request_to_openai, role_to_openai, tool_call, tool_call_with,
    tool_message, tool_reply_message,
};
use gemma_gateway::response::part_from_call;
use gemma_gateway::value::JsonValue;

fn json(text: &str) -> JsonValue {
    JsonValue::from_text(text).expect("JSON")
}

/// The text of a member of a translated request, as JSON.
fn member(request: &str, stream: bool, key: &str) -> Option<String> {
    let out = request_to_openai("gemma", &json(request), stream);
    out.get(key).map(|v| v.to_text())
}

/// Pieces of an expected text, put together.
fn joined(pieces: &[&str]) -> String {
    pieces.concat()
}

#[test]
fn a_whole_request_is_translated() {
    let out = request_to_openai(
        "gemma",
        &json(
            r#"{
                "systemInstruction": {"parts": [{"text": "be "}, {"text": "brief"}]},
                "contents": [
                    {"parts": [{"text": "list it"}]},
                    {"role": "model", "parts": [
                        {"text": "ok"},
                        {"functionCall": {"name": "ls", "args": {"path": "/tmp"}}}
                    ]},
                    {"role": "user", "parts": [
                        {"functionResponse": {"name": "ls", "response": {"out": "a"}}}
                    ]}
                ],
                "generationConfig": {"topK": 40, "seed": 7, "stopSequences": ["END"]}
            }"#,
        ),
        false,
    );
    assert_eq!(
        out.to_text(),
        joined(&[
            r#"{"messages":[{"content":"be brief","role":"system"},"#,
            r#"{"content":"list it","role":"user"},"#,
            r#"{"content":"ok","role":"assistant","tool_calls":[{"function":{"#,
            r#""arguments":"{\"path\":\"/tmp\"}","name":"ls"},"id":"ls","type":"function"}]},"#,
            r#"{"content":"{\"out\":\"a\"}","role":"tool","tool_call_id":"ls"}],"#,
            r#""model":"gemma","seed":7,"stop":["END"],"stream":false,"top_k":40}"#,
        ])
    );
}

#[test]
fn an_empty_request_has_no_messages() {
    for text in ["{}", "null", "[]", r#"{"contents": 3}"#] {
        let out = request_to_openai("gemma", &json(text), false);
        assert_eq!(out.to_text(), r#"{"messages":[],"model":"gemma","stream":false}"#);
    }
}

#[test]
fn only_model_is_renamed() {
    assert_eq!(role_to_openai("model"), "assistant");
    assert_eq!(role_to_openai("user"), "user");
    assert_eq!(role_to_openai("Model"), "Model");
    assert_eq!(role_to_openai(""), "");
}

#[test]
fn texts_are_joined_without_anything_between() {
    let parts = json(r#"[{"text": "a"}, {"inlineData": {}}, {"text": 3}, {"text": "b"}]"#);
    assert_eq!(parts_text(parts.as_array().unwrap()), "ab");
}

#[test]
fn a_turn_without_anything_to_say_is_left_out() {
    let turns = json(r#"{"contents": [{"role": "user"}, {"role": "user", "parts": [{"text": ""}]}]}"#);
    assert_eq!(messages_of(&turns).len(), 0);
}

#[test]
fn a_call_without_text_has_null_content() {
    let out = member(
        r#"{"contents": [{"role": "model", "parts": [{"functionCall": {"name": "f"}}]}]}"#,
        false,
        "messages",
    );
    assert_eq!(
        out.unwrap(),
        joined(&[
            r#"[{"content":null,"role":"assistant","tool_calls":[{"function":"#,
            r#"{"arguments":"{}","name":"f"},"id":"f","type":"function"}]}]"#,
        ])
    );
}

#[test]
fn turns_stay_in_order() {
    let first = r#"{"role": "user", "parts": [{"text": "1"}]}"#;
    let second = r#"{"role": "model", "parts": [{"text": "2"}]}"#;
    let texts = |turns: &str| -> Vec<String> {
        let req = json(&format!(r#"{{"contents": [{turns}]}}"#));
        messages_of(&req).iter().map(|m| m.to_text()).collect()
    };
    let mut apart = texts(first);
    apart.extend(texts(second));
    assert_eq!(texts(&format!("{first}, {second}")), apart);
    assert_eq!(apart[0], r#"{"content":"1","role":"user"}"#);
    assert_eq!(apart[1], r#"{"content":"2","role":"assistant"}"#);
}

#[test]
fn results_follow_what_the_turn_says() {
    let req = json(
        r#"{"contents": [{"role": "user", "parts": [
            {"functionResponse": {"name": "a", "response": 1}},
            {"text": "done"},
            {"functionResponse": {"name": "b"}}
        ]}]}"#,
    );
    let texts: Vec<String> = messages_of(&req).iter().map(|m| m.to_text()).collect();
    assert_eq!(
        texts,
        vec![
            r#"{"content":"done","role":"user"}"#.to_string(),
            r#"{"content":"1","role":"tool","tool_call_id":"a"}"#.to_string(),
            r#"{"content":"null","role":"tool","tool_call_id":"b"}"#.to_string(),
        ]
    );
}

#[test]
fn a_result_is_answered_by_name() {
    let reply = tool_message(&json(r#"{"name": "ls", "response": {"out": "a\nb"}}"#));
    assert_eq!(
        reply.to_text(),
        r#"{"content":"{\"out\":\"a\\nb\"}","role":"tool","tool_call_id":"ls"}"#
    );
    let same = tool_reply_message("ls".to_string(), r#"{"out":"a\nb"}"#.to_string());
    assert_eq!(same.to_text(), reply.to_text());
}

#[test]
fn calls_round_trip() {
    let call = json(r#"{"name": "ls", "args": {"deep": [1, -2, null, true], "path": "/tmp"}}"#);
    let entry = tool_call(&call);
    assert_eq!(
        part_from_call(&entry).to_text(),
        format!(r#"{{"functionCall":{}}}"#, call.to_text())
    );
    let made = tool_call_with("f".to_string(), "{}".to_string());
    assert_eq!(
        part_from_call(&made).to_text(),
        r#"{"functionCall":{"args":{},"name":"f"}}"#
    );
}

#[test]
fn media_become_content_parts() {
    let out = member(
        r#"{"contents": [{"role": "user", "parts": [
            {"text": "what is it?"},
            {"inlineData": {"mimeType": "image/png", "data": "AAAA"}},
            {"fileData": {"mimeType": "video/mp4", "fileUri": "http://x/y.mp4"}},
            {"fileData": {"mimeType": "audio/wav", "fileUri": "http://x/y.wav"}},
            {"inlineData": {"mimeType": "text/plain", "data": "AAAA"}}
        ]}]}"#,
        false,
        "messages",
    );
    assert_eq!(
        out.unwrap(),
        joined(&[
            r#"[{"content":[{"text":"what is it?","type":"text"},"#,
            r#"{"image_url":{"url":"data:image/png;base64,AAAA"},"type":"image_url"},"#,
            r#"{"type":"video_url","video_url":{"url":"http://x/y.mp4"}},"#,
            r#"{"audio_url":{"url":"http://x/y.wav"},"type":"audio_url"}],"role":"user"}]"#,
        ])
    );
}

#[test]
fn a_schema_asks_for_structured_output() {
    let schema = r#"{"contents": [], "generationConfig": {
        "responseMimeType": "application/json", "responseJsonSchema": {"type": "object"},
        "responseSchema": {"type": "array"}}}"#;
    assert_eq!(
        member(schema, false, "response_format").unwrap(),
        joined(&[
            r#"{"json_schema":{"name":"response","schema":{"type":"object"}},"#,
            r#""type":"json_schema"}"#,
        ])
    );
    let open_api = r#"{"generationConfig": {"responseSchema": {"type": "array"}}}"#;
    assert_eq!(
        member(open_api, false, "response_format").unwrap(),
        joined(&[
            r#"{"json_schema":{"name":"response","schema":{"type":"array"}},"#,
            r#""type":"json_schema"}"#,
        ])
    );
    let any_json = r#"{"generationConfig": {"responseMimeType": "application/json"}}"#;
    assert_eq!(
        member(any_json, false, "response_format").unwrap(),
        r#"{"type":"json_object"}"#
    );
    let plain = r#"{"generationConfig": {"responseMimeType": "text/plain"}}"#;
    assert_eq!(member(plain, false, "response_format"), None);
}

#[test]
fn calling_modes_become_tool_choice() {
    let with = |mode: &str| {
        member(
            &format!(r#"{{"toolConfig": {{"functionCallingConfig": {{"mode": "{mode}"}}}}}}"#),
            false,
            "tool_choice",
        )
    };
    assert_eq!(with("AUTO").unwrap(), r#""auto""#);
    assert_eq!(with("ANY").unwrap(), r#""required""#);
    assert_eq!(with("NONE").unwrap(), r#""none""#);
    assert_eq!(with("MODE_UNSPECIFIED"), None);
    assert_eq!(member("{}", false, "tool_choice"), None);
}

#[test]
fn only_a_stream_asks_for_usage() {
    assert_eq!(
        member("{}", true, "stream_options").unwrap(),
        r#"{"include_usage":true}"#
    );
    assert_eq!(member("{}", true, "stream").unwrap(), "true");
    assert_eq!(member("{}", false, "stream_options"), None);
}

#[test]
fn a_declaration_is_filled_up() {
    let tools = member(
        r#"{"tools": [
            {"functionDeclarations": [{"name": "a"}, {"parameters": {"type": "string"}}]},
            {"googleSearch": {}},
            {"functionDeclarations": [{"name": "c", "description": "d",
                "parameters": 1, "parametersJsonSchema": 2}]}
        ]}"#,
        false,
        "tools",
    );
    assert_eq!(
        tools.unwrap(),
        joined(&[
            r#"[{"function":{"description":"","name":"a","parameters":"#,
            r#"{"properties":{},"type":"object"}},"type":"function"},"#,
            r#"{"function":{"description":"","name":null,"parameters":"#,
            r#"{"type":"string"}},"type":"function"},"#,
            r#"{"function":{"description":"d","name":"c","parameters":2},"type":"function"}]"#,
        ])
    );
    assert_eq!(member(r#"{"tools": []}"#, false, "tools"), None);
}

#[test]
fn settings_keep_their_values() {
    let request = r#"{"generationConfig": {"temperature": 0.25, "topP": "odd", "topK": null,
        "maxOutputTokens": [1], "seed": -3, "stopSequences": []}}"#;
    assert_eq!(member(request, false, "temperature").unwrap(), "0.25");
    assert_eq!(member(request, false, "top_p").unwrap(), r#""odd""#);
    assert_eq!(member(request, false, "top_k").unwrap(), "null");
    assert_eq!(member(request, false, "max_tokens").unwrap(), "[1]");
    assert_eq!(member(request, false, "seed").unwrap(), "-3");
    assert_eq!(member(request, false, "stop").unwrap(), "[]");
    assert_eq!(member("{}", false, "temperature"), None);
}
