//! Streamed turns: lines in pieces, calls in pieces, the end, and asking again.

use gemma_gateway::response::chunk_to_gemini;
use gemma_gateway::stream::{
    chunk_to_gemini_acc, frame_event, payload_of_line, shows_parts, AttemptStep, Ending,
    StreamAttempts, StreamTurn, ToolCallAccumulator, MAX_EMPTY_RETRIES,
};
use gemma_gateway::value::JsonValue;

fn json(text: &str) -> JsonValue {
    JsonValue::from_text(text).expect("JSON")
}

/// The line for a chunk that says `text`.
fn says(text: &str) -> String {
    format!("data: {{\"choices\": [{{\"delta\": {{\"content\": \"{text}\"}}}}]}}\n\n")
}

/// The event that shows `text`.
fn shown(text: &str) -> String {
    let head = r#"data: {"candidates":[{"content":{"parts":[{"text":""#;
    let tail = r#""}],"role":"model"},"index":0}]}"#;
    format!("{head}{text}{tail}\n\n")
}

const STOP: &str = "data: {\"choices\": [{\"delta\": {}, \"finish_reason\": \"stop\"}]}\n\n";

/// The event for the end of an answer, with nothing else in it.
fn stopped() -> String {
    let head = r#"data: {"candidates":[{"content":{"parts":[],"role":"model"},"#;
    let tail = r#""finishReason":"STOP","index":0}]}"#;
    format!("{head}{tail}\n\n")
}

/// What a turn sends in all, with the decision at its end.
fn sent_by(pieces: &[&[u8]], retries: u32) -> (Vec<String>, bool) {
    let mut turn = StreamTurn::new();
    let mut events = Vec::new();
    for piece in pieces {
        events.extend(turn.feed(piece));
    }
    match turn.finish(retries) {
        Ending::Retry => (events, true),
        Ending::Finish(last) => {
            events.extend(last);
            (events, false)
        }
    }
}

#[test]
fn text_goes_out_at_once() {
    let mut turn = StreamTurn::new();
    assert_eq!(turn.feed(says("he").as_bytes()), vec![shown("he")]);
    assert_eq!(turn.feed(says("y").as_bytes()), vec![shown("y")]);
    assert!(turn.sent);
}

#[test]
fn a_line_may_arrive_in_pieces() {
    let all = format!("{}{}{}data: [DONE]\n\n", says("he"), says("y"), STOP);
    let bytes = all.as_bytes();
    let whole = sent_by(&[bytes], 0);
    assert_eq!(
        whole,
        (vec![shown("he"), shown("y"), stopped()], false)
    );
    for cut in 0..bytes.len() {
        assert_eq!(sent_by(&[&bytes[..cut], &bytes[cut..]], 0), whole);
    }
}

#[test]
fn lines_that_are_no_events_are_skipped() {
    let mut turn = StreamTurn::new();
    let noise = ": keepalive\r\nevent: x\n\ndata:\ndata: {broken\ndata: 5\n";
    assert!(turn.feed(noise.as_bytes()).is_empty());
    assert_eq!(turn.feed(says("a").as_bytes()), vec![shown("a")]);
}

#[test]
fn the_payload_of_a_line_is_trimmed() {
    assert_eq!(payload_of_line("data: {} \r"), Some("{}"));
    assert_eq!(payload_of_line("  data:x"), Some("x"));
    assert_eq!(payload_of_line("data:\u{a0}\u{2003}"), None);
    assert_eq!(payload_of_line("data"), None);
    assert_eq!(payload_of_line(""), None);
    assert_eq!(payload_of_line("id: data: 3"), None);
}

#[test]
fn done_ends_the_turn_and_is_not_passed_on() {
    let mut turn = StreamTurn::new();
    let all = format!("{}data: [DONE]\n\n{}", says("a"), says("b"));
    assert_eq!(turn.feed(all.as_bytes()), vec![shown("a")]);
    assert!(turn.ended);
    assert!(turn.feed(says("c").as_bytes()).is_empty());
}

#[test]
fn an_event_is_one_line() {
    let event = frame_event(r#"{"a":1}"#);
    assert_eq!(event, "data: {\"a\":1}\n\n");
    let mut turn = StreamTurn::new();
    let events = turn.feed(says("two\\nlines").as_bytes());
    assert_eq!(events, vec![shown("two\\nlines")]);
    assert_eq!(events[0].find('\n'), Some(events[0].len() - 2));
}

#[test]
fn bytes_that_are_not_text_are_replaced() {
    let mut turn = StreamTurn::new();
    let mut bytes = b"data: {\"choices\": [{\"delta\": {\"content\": \"a".to_vec();
    bytes.push(0xff);
    bytes.extend(b"b\"}}]}\n");
    assert_eq!(turn.feed(&bytes), vec![shown("a\u{fffd}b")]);
}

#[test]
fn text_outside_ascii_may_be_cut_between_characters() {
    let line = says("grün ☕ 𝄞");
    let expected = (vec![shown("grün ☕ 𝄞")], false);
    for (cut, _) in line.char_indices() {
        let bytes = line.as_bytes();
        assert_eq!(sent_by(&[&bytes[..cut], &bytes[cut..]], 0), expected);
    }
}

#[test]
fn fragments_of_calls_are_put_together() {
    let mut acc = ToolCallAccumulator::new();
    let fragments = [
        r#"{"choices": [{"delta": {"tool_calls": [
            {"index": 0, "function": {"name": "ls", "arguments": ""}},
            {"index": 1, "function": {"name": "cat"}}]}}]}"#,
        r#"{"choices": [{"delta": {"tool_calls": [
            {"index": 1, "function": {"arguments": "{\"f\": "}},
            {"index": 0, "function": {"arguments": "{\"p\": \"/t"}}]}}]}"#,
        r#"{"choices": [{"delta": {"tool_calls": [
            {"index": 0, "function": {"name": "", "arguments": "mp\"}"}},
            {"index": 1, "function": {"arguments": "2}"}}]}}]}"#,
    ];
    for fragment in fragments {
        assert!(chunk_to_gemini_acc(&json(fragment), &mut acc).is_none());
    }
    let end = json(r#"{"choices": [{"delta": {}, "finish_reason": "tool_calls"}]}"#);
    let expected = [
        r#"{"candidates":[{"content":{"parts":["#,
        r#"{"functionCall":{"args":{"p":"/tmp"},"name":"ls"}},"#,
        r#"{"functionCall":{"args":{"f":2},"name":"cat"}}],"role":"model"},"#,
        r#""finishReason":"STOP","index":0}]}"#,
    ];
    assert_eq!(
        chunk_to_gemini_acc(&end, &mut acc).unwrap().to_text(),
        expected.concat()
    );
    assert!(acc.calls.is_empty());
}

#[test]
fn it_does_not_matter_where_a_call_is_cut() {
    let arguments = r#"{"path":"/tmp","n":[1,2]}"#;
    let mut whole = ToolCallAccumulator::new();
    let function = |name: &str, piece: &str| -> JsonValue {
        let quoted = JsonValue::of_str(piece).to_text();
        json(&format!(r#"{{"name": "{name}", "arguments": {quoted}}}"#))
    };
    whole.absorb(3, &function("f", arguments));
    let expected: Vec<String> = whole.take_parts().iter().map(|p| p.to_text()).collect();
    for cut in 0..arguments.len() {
        let mut acc = ToolCallAccumulator::new();
        acc.absorb(3, &function("f", &arguments[..cut]));
        acc.absorb(8, &function("g", "{}"));
        acc.absorb(3, &function("", &arguments[cut..]));
        let parts: Vec<String> = acc.take_parts().iter().map(|p| p.to_text()).collect();
        assert_eq!(parts[0], expected[0]);
        assert_eq!(parts[1], r#"{"functionCall":{"args":{},"name":"g"}}"#);
    }
}

#[test]
fn fragments_without_an_index_go_by_their_place() {
    let mut acc = ToolCallAccumulator::new();
    let fragments = json(r#"[{"function": {"name": "a"}}, {"function": {"name": "b"}}, {}]"#);
    acc.absorb_all(fragments.as_array().unwrap());
    let parts: Vec<String> = acc.take_parts().iter().map(|p| p.to_text()).collect();
    assert_eq!(
        parts,
        vec![
            r#"{"functionCall":{"args":{},"name":"a"}}"#.to_string(),
            r#"{"functionCall":{"args":{},"name":"b"}}"#.to_string(),
            r#"{"functionCall":{"args":{},"name":""}}"#.to_string(),
        ]
    );
}

#[test]
fn broken_arguments_of_a_streamed_call_are_kept_raw() {
    let mut acc = ToolCallAccumulator::new();
    acc.absorb(0, &json(r#"{"name": "f", "arguments": "{no"}"#));
    acc.absorb(0, &json(r#"{"arguments": "pe"}"#));
    assert_eq!(
        acc.take_parts()[0].to_text(),
        r#"{"functionCall":{"args":{"_raw":"{nope"},"name":"f"}}"#
    );
}

#[test]
fn whole_calls_are_not_changed() {
    let chunk = json(
        r#"{"choices": [{"delta": {"content": "x", "tool_calls": [
            {"index": 0, "function": {"name": "a", "arguments": "{\"k\": 1}"}},
            {"index": 1, "function": {"name": "b"}}]}, "finish_reason": "tool_calls"}]}"#,
    );
    let mut acc = ToolCallAccumulator::new();
    assert_eq!(
        chunk_to_gemini_acc(&chunk, &mut acc).unwrap().to_text(),
        chunk_to_gemini(&chunk).unwrap().to_text()
    );
}

#[test]
fn usage_is_streamed() {
    let mut acc = ToolCallAccumulator::new();
    let chunk = json(
        r#"{"choices": [], "usage": {"prompt_tokens": 3, "completion_tokens": 4,
            "total_tokens": 7}}"#,
    );
    let expected = [
        r#"{"usageMetadata":{"candidatesTokenCount":4,"promptTokenCount":3,"#,
        r#""totalTokenCount":7}}"#,
    ];
    assert_eq!(
        chunk_to_gemini_acc(&chunk, &mut acc).unwrap().to_text(),
        expected.concat()
    );
    let without = json(r#"{"choices": [{"delta": {"role": "assistant"}}], "usage": null}"#);
    assert!(chunk_to_gemini_acc(&without, &mut acc).is_none());
}

#[test]
fn parts_are_what_a_response_shows() {
    assert!(shows_parts(&json(
        r#"{"candidates": [{"content": {"parts": [{"text": "a"}]}}]}"#
    )));
    assert!(!shows_parts(&json(r#"{"candidates": [{"content": {"parts": []}}]}"#)));
    assert!(!shows_parts(&json(r#"{"candidates": [{}]}"#)));
    assert!(!shows_parts(&json(r#"{"usageMetadata": {}}"#)));
}

#[test]
fn an_empty_turn_is_asked_for_again_twice() {
    assert_eq!(MAX_EMPTY_RETRIES, 2);
    let empty = format!("{STOP}data: [DONE]\n\n");
    assert_eq!(sent_by(&[empty.as_bytes()], 0), (vec![], true));
    assert_eq!(sent_by(&[empty.as_bytes()], 1), (vec![], true));
    assert_eq!(
        sent_by(&[empty.as_bytes()], 2),
        (vec![stopped()], false)
    );
    assert_eq!(sent_by(&[], 0), (vec![], true));
    assert_eq!(sent_by(&[], 7), (vec![], false));
}

#[test]
fn a_turn_that_has_shown_something_is_not_asked_for_again() {
    assert_eq!(
        sent_by(&[says("a").as_bytes()], 0),
        (vec![shown("a")], false)
    );
}

#[test]
fn what_was_held_back_goes_out_first() {
    let usage = "data: {\"choices\": [], \"usage\": {\"total_tokens\": 1}}\n";
    let mut turn = StreamTurn::new();
    assert!(turn.feed(usage.as_bytes()).is_empty());
    assert!(!turn.sent);
    let events = turn.feed(says("a").as_bytes());
    assert_eq!(events.len(), 2);
    assert!(events[0].starts_with("data: {\"usageMetadata\":"));
    assert_eq!(events[1], shown("a"));
    assert_eq!(turn.feed(STOP.as_bytes()), vec![stopped()]);
}

#[test]
fn text_can_be_fed_without_bytes() {
    let mut turn = StreamTurn::new();
    assert!(turn.feed_text("da").is_empty());
    assert_eq!(turn.pending, "da");
    let rest = says("a");
    assert_eq!(turn.feed_text(&rest[2..]), vec![shown("a")]);
    assert_eq!(turn.pending, "");
}

#[test]
fn events_are_delivered_or_held_back() {
    let mut turn = StreamTurn::new();
    let mut out = Vec::new();
    turn.deliver(false, "1", &mut out);
    assert!(out.is_empty());
    turn.deliver(true, "2", &mut out);
    turn.deliver(false, "3", &mut out);
    assert_eq!(out, vec!["data: 1\n\n", "data: 2\n\n", "data: 3\n\n"]);
}

#[test]
fn at_most_two_more_attempts_follow() {
    let mut attempts = StreamAttempts::new();
    let mut again = 0;
    let last = loop {
        let mut turn = StreamTurn::new();
        assert!(turn.feed(STOP.as_bytes()).is_empty());
        match attempts.after_turn(turn) {
            AttemptStep::Again(next) => {
                again += 1;
                assert_eq!(next.used, again);
                attempts = next;
            }
            AttemptStep::Done(events) => break events,
        }
    };
    assert_eq!(again, 2);
    assert_eq!(last, vec![stopped()]);
}

#[test]
fn an_attempt_that_has_shown_something_is_the_last() {
    let mut turn = StreamTurn::new();
    assert_eq!(turn.feed(says("a").as_bytes()), vec![shown("a")]);
    match StreamAttempts::new().after_turn(turn) {
        AttemptStep::Again(_) => panic!("something was sent"),
        AttemptStep::Done(events) => assert!(events.is_empty()),
    }
}
