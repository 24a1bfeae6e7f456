//! What the gateway decides: names, addresses, retries, errors and listings.

use gemma_gateway::gateway::{
    action_status, advertised_names, chat_url, completion_reply, completion_status,
    counted_tokens, entry_of_model, error_body, estimate_for_bytes, estimated_tokens,
    first_served, list_models, model_action, models_url, requested_model, served_ids,
    status_for_client, token_probe, token_reply, token_total, tokenize_url, unsupported_action,
    upstream_error, with_model, Action, ChatCall, ChatStep, Completion, ModelNames, BAD_GATEWAY,
    NOT_FOUND, SUCCESS,
};
use gemma_gateway::request::request_to_openai;
use gemma_gateway::value::JsonValue;

fn json(text: &str) -> JsonValue {
    JsonValue::from_text(text).expect("JSON")
}

fn some(s: &str) -> Option<String> {
    Some(s.to_string())
}

const ALIASES: [&str; 6] = [
    "gemini-3.1-flash-lite",
    "gemini-3.1-flash",
    "gemini-3.1-pro",
    "gemini-2.5-flash-lite",
    "gemini-2.5-flash",
    "gemini-2.5-pro",
];

#[test]
fn an_openai_request_is_pointed_at_the_served_model() {
    let mut names = ModelNames::new(some("served-model"));
    let body = json(r#"{"model": "requested-model", "messages": []}"#);
    let model = names.resolve_model(None, &requested_model(&body));
    assert_eq!(model, "served-model");
    assert_eq!(
        with_model(body, &model).to_text(),
        r#"{"messages":[],"model":"served-model"}"#
    );
    assert_eq!(
        chat_url("http://127.0.0.1:8891/v1"),
        "http://127.0.0.1:8891/v1/chat/completions"
    );
}

#[test]
fn a_request_that_names_no_model_names_the_empty_one() {
    assert_eq!(requested_model(&json(r#"{"model": "m"}"#)), "m");
    assert_eq!(requested_model(&json(r#"{"model": 3}"#)), "");
    assert_eq!(requested_model(&json("{}")), "");
    assert_eq!(with_model(json("{}"), "m").to_text(), r#"{"model":"m"}"#);
    assert_eq!(with_model(json("[1]"), "m").to_text(), "[1]");
}

#[test]
fn a_pinned_model_wins() {
    let mut names = ModelNames::new(some("pinned"));
    assert_eq!(names.known(), some("pinned"));
    assert_eq!(names.resolve_model(some("served"), "asked"), "pinned");
    names.forget_model();
    assert_eq!(names.known(), some("pinned"));
    assert_eq!(names.discovered, None);
}

#[test]
fn a_discovered_model_is_remembered_until_it_is_forgotten() {
    let mut names = ModelNames::new(None);
    assert_eq!(names.known(), None);
    assert_eq!(names.resolve_model(None, "asked"), "asked");
    assert_eq!(names.known(), None);
    assert_eq!(names.resolve_model(some("first"), "asked"), "first");
    assert_eq!(names.resolve_model(some("second"), "other"), "first");
    names.forget_model();
    assert_eq!(names.known(), None);
    assert_eq!(names.resolve_model(some("second"), "other"), "second");
}

#[test]
fn the_first_listed_model_is_served() {
    let listing = json(r#"{"data": [{"id": "a"}, {"name": "x"}, {"id": 3}, {"id": "b"}]}"#);
    assert_eq!(first_served(&listing), some("a"));
    assert_eq!(served_ids(&listing), vec!["a", "b"]);
    let nameless = json(r#"{"data": [{"name": "x"}, {"id": "b"}]}"#);
    assert_eq!(first_served(&nameless), None);
    assert_eq!(served_ids(&nameless), vec!["b"]);
    assert_eq!(first_served(&json(r#"{"data": []}"#)), None);
    assert!(served_ids(&json("null")).is_empty());
}

#[test]
fn real_models_come_first_and_aliases_follow() {
    let names = advertised_names(vec!["gemma".to_string()]);
    assert_eq!(names[0], "gemma");
    assert_eq!(names[1..], ALIASES);
    let known = advertised_names(vec!["gemini-3.1-pro".to_string(), "gemma".to_string()]);
    assert_eq!(
        known,
        vec![
            "gemini-3.1-pro",
            "gemma",
            "gemini-3.1-flash-lite",
            "gemini-3.1-flash",
            "gemini-2.5-flash-lite",
            "gemini-2.5-flash",
            "gemini-2.5-pro",
        ]
    );
    assert_eq!(advertised_names(Vec::new()), ALIASES);
}

#[test]
fn models_are_listed_as_gemini_does() {
    let expected = [
        r#"{"displayName":"gemma","name":"models/gemma","supportedGenerationMethods":"#,
        r#"["generateContent","streamGenerateContent","countTokens"]}"#,
    ];
    assert_eq!(entry_of_model("gemma").to_text(), expected.concat());
    let listing = list_models(vec!["gemma".to_string()]);
    let models = listing.get("models").unwrap().as_array().unwrap();
    assert_eq!(models.len(), 7);
    assert_eq!(models[0].to_text(), expected.concat());
    assert_eq!(
        models[6].get("name").unwrap().as_str(),
        Some("models/gemini-2.5-pro")
    );
}

#[test]
fn addresses_hang_under_the_base() {
    for base in ["http://h:1/v1", "http://h:1/v1/", "http://h:1/v1//"] {
        assert_eq!(models_url(base), "http://h:1/v1/models");
        assert_eq!(chat_url(base), "http://h:1/v1/chat/completions");
    }
    assert_eq!(tokenize_url("http://h:1/v1"), "http://h:1/tokenize");
    assert_eq!(tokenize_url("http://h:1/v1/v1"), "http://h:1/tokenize");
    assert_eq!(tokenize_url("http://h:1/"), "http://h:1/tokenize");
    assert_eq!(tokenize_url("http://h:1/v1/"), "http://h:1/v1/tokenize");
    assert_eq!(models_url(""), "/models");
}

#[test]
fn client_errors_stay_and_the_rest_is_a_gateway_failure() {
    for status in [400u16, 404, 422, 429, 499] {
        assert_eq!(status_for_client(status), status);
    }
    for status in [0u16, 101, 302, 399, 500, 503, 599] {
        assert_eq!(status_for_client(status), BAD_GATEWAY);
    }
    assert_eq!(BAD_GATEWAY, 502);
}

#[test]
fn a_rejected_call_is_sent_again_once_under_another_name() {
    let call = ChatCall::new("old");
    let payload = call.payload(&json("{}"), true);
    assert_eq!(
        payload.to_text(),
        request_to_openai("old", &json("{}"), true).to_text()
    );
    let again = match call.after_rejection("new".to_string(), 404, "gone".to_string()) {
        ChatStep::Retry(next) => next,
        ChatStep::Fail { .. } => panic!("the name has changed"),
    };
    assert_eq!(again.name, "new");
    assert!(again.retried);
    assert_eq!(
        again.payload(&json("{}"), false).to_text(),
        r#"{"messages":[],"model":"new","stream":false}"#
    );
    match again.after_rejection("newer".to_string(), 500, "broken".to_string()) {
        ChatStep::Retry(_) => panic!("once is enough"),
        ChatStep::Fail { status, detail } => {
            assert_eq!(status, 502);
            assert_eq!(detail, "broken");
        }
    }
}

#[test]
fn the_same_name_back_is_not_asked_for_again() {
    match ChatCall::new("m").after_rejection("m".to_string(), 422, "bad".to_string()) {
        ChatStep::Retry(_) => panic!("the same question twice"),
        ChatStep::Fail { status, detail } => {
            assert_eq!(status, 422);
            assert_eq!(detail, "bad");
        }
    }
}

#[test]
fn a_transport_failure_is_the_gateways() {
    match ChatCall::new("m").after_transport_failure("refused".to_string()) {
        ChatStep::Retry(_) => panic!("nothing was answered"),
        ChatStep::Fail { status, detail } => {
            assert_eq!(status, 502);
            assert_eq!(detail, "refused");
        }
    }
}

#[test]
fn the_path_names_model_and_action() {
    let (model, action) = model_action("gemini-2.5-pro:streamGenerateContent");
    assert_eq!(model, "gemini-2.5-pro");
    assert!(matches!(action, Action::StreamGenerate));
    let (model, action) = model_action("m:countTokens");
    assert_eq!(model, "m");
    assert!(matches!(action, Action::CountTokens));
    assert!(matches!(model_action("m:generateContent").1, Action::Generate));
    let (model, action) = model_action("bare");
    assert_eq!(model, "bare");
    assert!(matches!(action, Action::Generate));
    match model_action("a:b:c") {
        (model, Action::Unsupported(other)) => {
            assert_eq!(model, "a");
            assert_eq!(other, "b:c");
        }
        _ => panic!("no such action"),
    }
    assert!(matches!(model_action("m:").1, Action::Unsupported(_)));
}

#[test]
fn errors_say_what_went_wrong() {
    assert_eq!(error_body("no").to_text(), r#"{"error":{"message":"no"}}"#);
    assert_eq!(
        unsupported_action("embed").to_text(),
        r#"{"error":{"message":"unsupported action: embed"}}"#
    );
    let (status, body) = upstream_error("decoding upstream response", "eof");
    assert_eq!(status, 502);
    assert_eq!(
        body.to_text(),
        r#"{"error":{"message":"decoding upstream response: eof","status":"UNAVAILABLE"}}"#
    );
}

#[test]
fn a_success_can_carry_an_error() {
    match completion_reply(json(r#"{"error": {"message": "grammar"}, "choices": []}"#)) {
        Completion::Failed(v) => {
            assert_eq!(v.to_text(), r#"{"choices":[],"error":{"message":"grammar"}}"#)
        }
        Completion::Answer(_) => panic!("an error is no answer"),
    }
    match completion_reply(json(r#"{"choices": [{"message": {"content": "a"}}]}"#)) {
        Completion::Answer(v) => {
            let parts = r#"{"content":{"parts":[{"text":"a"}],"role":"model"}"#;
            assert!(v.to_text().contains(parts));
        }
        Completion::Failed(_) => panic!("there is no error"),
    }
}

#[test]
fn tokens_are_counted_by_the_server() {
    let payload = request_to_openai(
        "m",
        &json(r#"{"contents": [{"parts": [{"text": "hi"}]}]}"#),
        false,
    );
    assert_eq!(
        token_probe("m", &payload).to_text(),
        r#"{"messages":[{"content":"hi","role":"user"}],"model":"m"}"#
    );
    assert_eq!(
        token_probe("m", &json("{}")).to_text(),
        r#"{"messages":[],"model":"m"}"#
    );
    assert_eq!(counted_tokens(&json(r#"{"count": 12}"#)), Some(12));
    assert_eq!(counted_tokens(&json(r#"{"count": -1}"#)), None);
    assert_eq!(counted_tokens(&json(r#"{"count": 1.5}"#)), None);
    assert_eq!(counted_tokens(&json(r#"{"count": "12"}"#)), None);
    assert_eq!(counted_tokens(&json("{}")), None);
    assert_eq!(
        counted_tokens(&json(r#"{"count": 18446744073709551615}"#)),
        Some(u64::MAX)
    );
    assert_eq!(token_reply(12).to_text(), r#"{"totalTokens":12}"#);
}

#[test]
fn tokens_are_estimated_from_the_bytes_of_the_messages() {
    assert_eq!(estimate_for_bytes(0), 0);
    assert_eq!(estimate_for_bytes(7), 1);
    assert_eq!(estimate_for_bytes(8), 2);
    let payload = json(r#"{"messages": [{"role": "user", "content": "grün"}, {"a": 1}]}"#);
    let bytes = r#"{"content":"grün","role":"user"}"#.len() + r#"{"a":1}"#.len();
    assert_eq!(bytes, 40);
    assert_eq!(estimated_tokens(&payload), Some(10));
    assert_eq!(estimated_tokens(&json("{}")), Some(0));
    assert_eq!(estimated_tokens(&json(r#"{"messages": 5}"#)), Some(0));
}

#[test]
fn only_an_unknown_action_is_refused() {
    assert_eq!(NOT_FOUND, 404);
    assert_eq!(action_status(&model_action("m:embedContent").1), Some(404));
    for path in ["m", "m:generateContent", "m:streamGenerateContent", "m:countTokens"] {
        assert_eq!(action_status(&model_action(path).1), None);
    }
}

#[test]
fn an_error_in_a_success_is_a_gateway_failure() {
    assert_eq!(SUCCESS, 200);
    let failed = completion_reply(json(r#"{"error": "grammar"}"#));
    assert_eq!(completion_status(&failed), 502);
    let answered = completion_reply(json(r#"{"choices": []}"#));
    assert_eq!(completion_status(&answered), 200);
}

#[test]
fn the_count_comes_before_the_estimate() {
    let payload = json(r#"{"messages": [{"role": "user", "content": "hello"}]}"#);
    assert_eq!(estimated_tokens(&payload), Some(8));
    assert_eq!(token_total(Some(&json(r#"{"count": 3}"#)), &payload), Some(3));
    assert_eq!(token_total(Some(&json(r#"{"count": 0}"#)), &payload), Some(0));
    assert_eq!(token_total(Some(&json(r#"{"detail": "no"}"#)), &payload), Some(8));
    assert_eq!(token_total(None, &payload), Some(8));
}
