//! From what an OpenAI-compatible server answers, whole or streamed, to the
//! Gemini response format.

use crate::request;
use crate::text;
use crate::value::{self, Json, JsonObject, JsonValue};
use crate::wire;
use vstd::prelude::*;

verus! {

/// The arguments of a call. They come as JSON text; text that is not JSON is
/// kept raw, so that the agent sees a bad-arguments error instead of silence.
/// Missing arguments are no arguments.
pub open spec fn arguments_of(text: Option<Seq<char>>) -> Json {
    match text {
        Some(s) => match wire::json_parsed(s) {
            Some(v) => v,
            None => Json::Object(map!["_raw"@ => Json::Str(s)]),
        },
        None => Json::Object(Map::empty()),
    }
}

/// The `functionCall` part for a call of `name` with `args`.
pub open spec fn part_with_args(name: Seq<char>, args: Json) -> Json {
    Json::Object(
        map![
            "functionCall"@ => Json::Object(map!["name"@ => Json::Str(name), "args"@ => args]),
        ],
    )
}

/// The `functionCall` part for a call of `name` whose arguments come as text.
pub open spec fn call_part(name: Seq<char>, arguments: Option<Seq<char>>) -> Json {
    part_with_args(name, arguments_of(arguments))
}

/// The `functionCall` part for a whole entry of `tool_calls`.
pub open spec fn part_of_call(call: Json) -> Json {
    let function = call.get_or("function"@, Json::Null);
    call_part(
        request::text_or_empty(function.text_at("name"@)),
        function.text_at("arguments"@),
    )
}

/// The part for a text, none where the text is missing or empty.
pub open spec fn text_part(text: Option<Seq<char>>, thought: bool) -> Seq<Json> {
    let t = request::text_or_empty(text);
    if t.len() == 0 {
        Seq::empty()
    } else if thought {
        seq![Json::Object(map!["text"@ => Json::Str(t), "thought"@ => Json::Bool(true)])]
    } else {
        seq![Json::Object(map!["text"@ => Json::Str(t)])]
    }
}

/// The parts for what a message or delta says: its reasoning first, then its
/// answer.
pub open spec fn spoken_parts(msg: Json) -> Seq<Json> {
    text_part(msg.text_at("reasoning_content"@), true) + text_part(
        msg.text_at("reasoning"@),
        true,
    ) + text_part(msg.text_at("content"@), false)
}

/// The parts for a message or delta whose calls are whole.
pub open spec fn message_parts(msg: Json) -> Seq<Json> {
    spoken_parts(msg) + msg.items_at("tool_calls"@).map_values(|call: Json| part_of_call(call))
}

/// The arguments of a call whose text was read as `parsed`: what was read, or
/// the text itself, kept raw.
pub fn arguments_from(parsed: Option<JsonValue>, text: &str) -> (r: JsonValue)
    ensures
        r@ == (match parsed {
            Some(v) => v@,
            None => Json::Object(map!["_raw"@ => Json::Str(text@)]),
        }),
{
    match parsed {
        Some(v) => v,
        None => {
            let mut raw = JsonObject::new();
            raw.insert("_raw", JsonValue::of_str(text));
            JsonValue::Object(raw)
        },
    }
}

/// Reads the arguments of a call.
pub fn arguments_value(text: Option<&str>) -> (r: JsonValue)
    ensures
        r@ == arguments_of(
            match text {
                Some(s) => Some(s@),
                None => None,
            },
        ),
{
    match text {
        Some(s) => arguments_from(JsonValue::from_text(s), s),
        None => JsonValue::empty_object(),
    }
}

/// Makes the `functionCall` part for a call of `name` with `args`.
pub fn function_call_part(name: String, args: JsonValue) -> (r: JsonValue)
    ensures
        r@ == part_with_args(name@, args@),
{
    let mut call = JsonObject::new();
    call.insert("name", JsonValue::String(name));
    call.insert("args", args);
    let mut part = JsonObject::new();
    part.insert("functionCall", JsonValue::Object(call));
    JsonValue::Object(part)
}

/// Makes the `functionCall` part for a whole entry of `tool_calls`.
pub fn part_from_call(call: &JsonValue) -> (r: JsonValue)
    ensures
        r@ == part_of_call(call@),
{
    match call.get("function") {
        Some(f) => {
            let args = arguments_value(f.text_at("arguments"));
            function_call_part(request::owned_or_empty(f.text_at("name")), args)
        },
        None => function_call_part(String::new(), arguments_value(None)),
    }
}

/// Appends the part for a text that is there and not empty.
fn push_text(parts: &mut Vec<JsonValue>, text: Option<&str>, thought: bool)
    ensures
        value::items_view(final(parts)@) == value::items_view(old(parts)@) + text_part(
            match text {
                Some(s) => Some(s@),
                None => None,
            },
            thought,
        ),
{
    let ghost start = value::items_view(parts@);
    if let Some(t) = text {
        if !t.is_empty() {
            let mut part = JsonObject::new();
            part.insert("text", JsonValue::of_str(t));
            if thought {
                part.insert("thought", JsonValue::Bool(true));
            }
            let v = JsonValue::Object(part);
            proof {
                value::lemma_items_view_push(parts@, v);
            }
            parts.push(v);
            assert(value::items_view(parts@) =~= start + text_part(Some(t@), thought));
            return;
        }
        assert(start =~= start + text_part(Some(t@), thought));
        return;
    }
    assert(start =~= start + text_part(None, thought));
}

/// The parts for what a message or delta says.
pub fn parts_spoken(msg: &JsonValue) -> (r: Vec<JsonValue>)
    ensures
        value::items_view(r@) == spoken_parts(msg@),
{
    let mut parts: Vec<JsonValue> = Vec::new();
    // Reasoning first: a thinking model puts its chain here, and dropping it
    // silently is how a full response ends up looking empty.
    push_text(&mut parts, msg.text_at("reasoning_content"), true);
    push_text(&mut parts, msg.text_at("reasoning"), true);
    push_text(&mut parts, msg.text_at("content"), false);
    assert(value::items_view(parts@) =~= spoken_parts(msg@));
    parts
}

/// The parts for a message or delta whose calls are whole.
pub fn parts_of_message(msg: &JsonValue) -> (r: Vec<JsonValue>)
    ensures
        value::items_view(r@) == message_parts(msg@),
{
    let mut parts = parts_spoken(msg);
    let ghost said = value::items_view(parts@);
    let ghost part = |call: Json| part_of_call(call);
    if let Some(calls) = msg.items_at("tool_calls") {
        let ghost all = value::items_view(calls@);
        proof {
            value::lemma_items_view(calls@);
        }
        assert(said =~= said + all.take(0).map_values(part));
        let mut i: usize = 0;
        while i < calls.len()
            invariant
                part == (|call: Json| part_of_call(call)),
                all == value::items_view(calls@),
                all.len() == calls@.len(),
                forall|j: int| 0 <= j < all.len() ==> #[trigger] all[j] == calls@[j]@,
                i <= calls@.len(),
                value::items_view(parts@) == said + all.take(i as int).map_values(part),
            decreases calls@.len() - i,
        {
            assert(all[i as int] == calls@[i as int]@);
            let v = part_from_call(&calls[i]);
            proof {
                value::lemma_items_view_push(parts@, v);
            }
            parts.push(v);
            assert(value::items_view(parts@) =~= said + all.take(i + 1).map_values(part));
            i = i + 1;
        }
        assert(all.take(i as int) =~= all);
    } else {
        assert(said =~= said + Seq::<Json>::empty().map_values(part));
    }
    parts
}

/// The Gemini name of the reason why a whole answer ended.
pub open spec fn finish_name(finish: Option<Seq<char>>) -> Seq<char> {
    match finish {
        None => "STOP"@,
        Some(f) => if f == "stop"@ || f == "tool_calls"@ {
            "STOP"@
        } else if f == "length"@ {
            "MAX_TOKENS"@
        } else {
            f
        },
    }
}

/// The content of a candidate with these parts.
pub open spec fn model_content(parts: Seq<Json>) -> Json {
    Json::Object(map!["role"@ => Json::Str("model"@), "parts"@ => Json::Array(parts)])
}

/// The Gemini candidate for an OpenAI assistant message.
pub open spec fn candidate_of(msg: Json, finish: Option<Seq<char>>) -> Json {
    Json::Object(
        map![
            "content"@ => model_content(message_parts(msg)),
            "finishReason"@ => Json::Str(finish_name(finish)),
            "index"@ => value::json_u64(0),
        ],
    )
}

/// Makes the content of a candidate with these parts.
pub fn content_with_parts(parts: Vec<JsonValue>) -> (r: JsonValue)
    ensures
        r@ == model_content(value::items_view(parts@)),
{
    let mut content = JsonObject::new();
    content.insert("role", JsonValue::of_str("model"));
    content.insert("parts", JsonValue::Array(parts));
    JsonValue::Object(content)
}

/// Builds a Gemini `Candidate` from an OpenAI assistant message.
pub fn candidate_from_message(msg: &JsonValue, finish: Option<&str>) -> (r: JsonValue)
    ensures
        r@ == candidate_of(
            msg@,
            match finish {
                Some(f) => Some(f@),
                None => None,
            },
        ),
{
    let reason = match finish {
        None => "STOP",
        Some(f) => if text::same_text(f, "stop") || text::same_text(f, "tool_calls") {
            "STOP"
        } else if text::same_text(f, "length") {
            "MAX_TOKENS"
        } else {
            f
        },
    };
    let mut candidate = JsonObject::new();
    candidate.insert("content", content_with_parts(parts_of_message(msg)));
    candidate.insert("finishReason", JsonValue::of_str(reason));
    candidate.insert("index", JsonValue::of_u64(0));
    JsonValue::Object(candidate)
}

/// The first choice of an answer, if it has one.
pub open spec fn first_choice(resp: Json) -> Option<Json> {
    let choices = resp.items_at("choices"@);
    if choices.len() > 0 {
        Some(choices[0])
    } else {
        None
    }
}

/// The first choice of an answer, if it has one.
pub fn choice_of(resp: &JsonValue) -> (r: Option<&JsonValue>)
    ensures
        match r {
            Some(c) => first_choice(resp@) == Some(c@),
            None => first_choice(resp@) is None,
        },
{
    if let Some(choices) = resp.items_at("choices") {
        proof {
            value::lemma_items_view(choices@);
        }
        if choices.len() > 0 {
            return Some(&choices[0]);
        }
    }
    None
}

/// The Gemini token counts for an OpenAI `usage`, zero where one is missing.
pub open spec fn usage_metadata(usage: Json) -> Json {
    let zero = value::json_u64(0);
    Json::Object(
        map![
            "promptTokenCount"@ => usage.get_or("prompt_tokens"@, zero),
            "candidatesTokenCount"@ => usage.get_or("completion_tokens"@, zero),
            "totalTokenCount"@ => usage.get_or("total_tokens"@, zero),
        ],
    )
}

/// Makes the Gemini token counts for an OpenAI `usage`.
pub fn usage_to_gemini(usage: &JsonValue) -> (r: JsonValue)
    ensures
        r@ == usage_metadata(usage@),
{
    let mut counts = JsonObject::new();
    counts.insert("promptTokenCount", usage.get_or("prompt_tokens", JsonValue::of_u64(0)));
    counts.insert(
        "candidatesTokenCount",
        usage.get_or("completion_tokens", JsonValue::of_u64(0)),
    );
    counts.insert("totalTokenCount", usage.get_or("total_tokens", JsonValue::of_u64(0)));
    JsonValue::Object(counts)
}

/// The Gemini response for an OpenAI completion.
pub open spec fn gemini_response(resp: Json) -> Json {
    let choice = match first_choice(resp) {
        Some(c) => c,
        None => Json::Null,
    };
    Json::Object(
        map![
            "candidates"@ => Json::Array(
                seq![
                    candidate_of(
                        choice.get_or("message"@, Json::Null),
                        choice.text_at("finish_reason"@),
                    ),
                ],
            ),
            "usageMetadata"@ => usage_metadata(resp.get_or("usage"@, Json::Null)),
            "modelVersion"@ => resp.get_or("model"@, Json::Null),
        ],
    )
}

/// A list of one value.
pub fn list_of(v: JsonValue) -> (r: JsonValue)
    ensures
        r@ == Json::Array(seq![v@]),
{
    let mut items: Vec<JsonValue> = Vec::new();
    proof {
        value::lemma_items_view_push(items@, v);
    }
    items.push(v);
    assert(value::items_view(items@) =~= seq![v@]);
    JsonValue::Array(items)
}

/// OpenAI completion to Gemini `GenerateContentResponse`.
pub fn response_to_gemini(resp: &JsonValue) -> (r: JsonValue)
    ensures
        r@ == gemini_response(resp@),
{
    let null = JsonValue::Null;
    let choice = match choice_of(resp) {
        Some(c) => c,
        None => &null,
    };
    let msg = match choice.get("message") {
        Some(m) => m,
        None => &null,
    };
    let usage = match resp.get("usage") {
        Some(u) => u,
        None => &null,
    };
    let candidate = candidate_from_message(msg, choice.text_at("finish_reason"));
    let mut out = JsonObject::new();
    out.insert("candidates", list_of(candidate));
    out.insert("usageMetadata", usage_to_gemini(usage));
    out.insert("modelVersion", resp.get_or("model", JsonValue::Null));
    JsonValue::Object(out)
}

/// The Gemini name of the reason why a streamed answer ended.
pub open spec fn stream_finish_name(finish: Seq<char>) -> Seq<char> {
    if finish == "length"@ {
        "MAX_TOKENS"@
    } else {
        "STOP"@
    }
}

/// The Gemini candidate for one streamed step: its parts, and why the answer
/// ended where this step ends it.
pub open spec fn stream_candidate(parts: Seq<Json>, finish: Option<Seq<char>>) -> Json {
    let m = map!["content"@ => model_content(parts), "index"@ => value::json_u64(0)];
    match finish {
        Some(f) => Json::Object(m.insert("finishReason"@, Json::Str(stream_finish_name(f)))),
        None => Json::Object(m),
    }
}

/// Makes the Gemini candidate for one streamed step.
pub fn candidate_from_step(parts: Vec<JsonValue>, finish: Option<&str>) -> (r: JsonValue)
    ensures
        r@ == stream_candidate(
            value::items_view(parts@),
            match finish {
                Some(f) => Some(f@),
                None => None,
            },
        ),
{
    let mut candidate = JsonObject::new();
    candidate.insert("content", content_with_parts(parts));
    candidate.insert("index", JsonValue::of_u64(0));
    if let Some(f) = finish {
        let reason = if text::same_text(f, "length") {
            "MAX_TOKENS"
        } else {
            "STOP"
        };
        candidate.insert("finishReason", JsonValue::of_str(reason));
    }
    JsonValue::Object(candidate)
}

/// The Gemini streaming response for one OpenAI chunk whose calls are whole, if
/// the chunk carries anything to render.
pub open spec fn gemini_chunk(chunk: Json) -> Option<Json> {
    match first_choice(chunk) {
        Some(choice) => match choice.get("delta"@) {
            Some(delta) => {
                let finish = choice.text_at("finish_reason"@);
                let parts = message_parts(delta);
                if parts.len() == 0 && finish is None {
                    None
                } else {
                    Some(
                        Json::Object(
                            map![
                                "candidates"@ => Json::Array(
                                    seq![stream_candidate(parts, finish)],
                                ),
                            ],
                        ),
                    )
                }
            },
            None => None,
        },
        None => None,
    }
}

/// One OpenAI SSE `delta` chunk to one Gemini streaming response, or `None` when
/// the chunk carries nothing renderable (role-only openers, empty keepalives).
pub fn chunk_to_gemini(chunk: &JsonValue) -> (r: Option<JsonValue>)
    ensures
        match r {
            Some(v) => gemini_chunk(chunk@) == Some(v@),
            None => gemini_chunk(chunk@) is None,
        },
{
    let choice = match choice_of(chunk) {
        Some(c) => c,
        None => return None,
    };
    let delta = match choice.get("delta") {
        Some(d) => d,
        None => return None,
    };
    let finish = choice.text_at("finish_reason");
    let parts = parts_of_message(delta);
    proof {
        value::lemma_items_view(parts@);
    }
    if parts.len() == 0 && finish.is_none() {
        return None;
    }
    let mut out = JsonObject::new();
    out.insert("candidates", list_of(candidate_from_step(parts, finish)));
    Some(JsonValue::Object(out))
}

} // verus!
