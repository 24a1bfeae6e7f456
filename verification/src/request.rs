//! From a Gemini `GenerateContentRequest` to the body of an OpenAI
//! `/v1/chat/completions` request.

use crate::laws;
use crate::response;
use crate::text;
use crate::value::{self, Json, JsonObject, JsonValue};
use crate::wire;
use vstd::prelude::*;
use vstd::string::*;

verus! {

/// The OpenAI name of a Gemini role: `model` is called `assistant`, every other
/// name stays.
pub open spec fn openai_role(role: Seq<char>) -> Seq<char> {
    if role == "model"@ {
        "assistant"@
    } else {
        role
    }
}

/// Google `role` values are `user` and `model`; OpenAI uses `user` and
/// `assistant`.
pub fn role_to_openai(role: &str) -> (r: &str)
    ensures
        r@ == openai_role(role@),
{
    if text::same_text(role, "model") {
        "assistant"
    } else {
        role
    }
}

/// A text that may be missing, the missing one taken as empty.
pub open spec fn text_or_empty(t: Option<Seq<char>>) -> Seq<char> {
    match t {
        Some(s) => s,
        None => Seq::empty(),
    }
}

/// The texts of all `text` parts, put together in order.
pub open spec fn joined_text(parts: Seq<Json>) -> Seq<char>
    decreases parts.len(),
{
    if parts.len() == 0 {
        Seq::empty()
    } else {
        joined_text(parts.drop_last()) + text_or_empty(parts.last().text_at("text"@))
    }
}

/// Collects the text of every `text` part, ignoring the parts that are surfaced
/// elsewhere.
pub fn parts_text(parts: &Vec<JsonValue>) -> (r: String)
    ensures
        r@ == joined_text(value::items_view(parts@)),
{
    let ghost all = value::items_view(parts@);
    proof {
        value::lemma_items_view(parts@);
    }
    let mut r = String::new();
    let mut i: usize = 0;
    while i < parts.len()
        invariant
            all == value::items_view(parts@),
            all.len() == parts@.len(),
            forall|j: int| 0 <= j < all.len() ==> #[trigger] all[j] == parts@[j]@,
            i <= parts@.len(),
            r@ == joined_text(all.take(i as int)),
        decreases parts@.len() - i,
    {
        assert(all.take(i + 1).drop_last() =~= all.take(i as int));
        assert(all[i as int] == parts@[i as int]@);
        if let Some(t) = parts[i].text_at("text") {
            r.append(t);
        } else {
            assert(joined_text(all.take(i + 1)) =~= joined_text(all.take(i as int)));
        }
        i = i + 1;
    }
    assert(all.take(i as int) =~= all);
    r
}

/// The kind of medium that a MIME type names, as the field of an OpenAI content
/// part that carries it.
pub open spec fn media_field(mime: Seq<char>) -> Option<Seq<char>> {
    if text::after_prefix(mime, "image/"@) is Some {
        Some("image_url"@)
    } else if text::after_prefix(mime, "audio/"@) is Some {
        Some("audio_url"@)
    } else if text::after_prefix(mime, "video/"@) is Some {
        Some("video_url"@)
    } else {
        None
    }
}

/// The OpenAI content part for a medium of type `mime` found at `url`.
pub open spec fn media_item(mime: Seq<char>, url: Seq<char>) -> Option<Json> {
    match media_field(mime) {
        Some(field) => Some(
            Json::Object(
                map![
                    "type"@ => Json::Str(field),
                    field => Json::Object(map!["url"@ => Json::Str(url)]),
                ],
            ),
        ),
        None => None,
    }
}

/// The OpenAI content part for a Gemini part that carries a medium, inline or by
/// reference to a file.
pub open spec fn media_of_part(part: Json) -> Option<Json> {
    match part.get("inlineData"@) {
        Some(blob) => match (blob.text_at("mimeType"@), blob.text_at("data"@)) {
            (Some(mime), Some(data)) => media_item(
                mime,
                "data:"@ + mime + ";base64,"@ + data,
            ),
            _ => None,
        },
        None => match part.get("fileData"@) {
            Some(file) => match (file.text_at("mimeType"@), file.text_at("fileUri"@)) {
                (Some(mime), Some(uri)) => media_item(mime, uri),
                _ => None,
            },
            None => None,
        },
    }
}

/// Makes the content part for a medium of type `mime` found at `url`.
fn media_content(mime: &str, url: &str) -> (r: Option<JsonValue>)
    ensures
        match r {
            Some(v) => media_item(mime@, url@) == Some(v@),
            None => media_item(mime@, url@) is None,
        },
{
    let field = if text::strip_prefix(mime, "image/").is_some() {
        "image_url"
    } else if text::strip_prefix(mime, "audio/").is_some() {
        "audio_url"
    } else if text::strip_prefix(mime, "video/").is_some() {
        "video_url"
    } else {
        return None;
    };
    let mut place = JsonObject::new();
    place.insert("url", JsonValue::of_str(url));
    let mut item = JsonObject::new();
    item.insert("type", JsonValue::of_str(field));
    item.insert(field, JsonValue::Object(place));
    Some(JsonValue::Object(item))
}

/// The OpenAI content part for a Gemini part that carries a medium.
pub fn media_part(part: &JsonValue) -> (r: Option<JsonValue>)
    ensures
        match r {
            Some(v) => media_of_part(part@) == Some(v@),
            None => media_of_part(part@) is None,
        },
{
    if let Some(blob) = part.get("inlineData") {
        match (blob.text_at("mimeType"), blob.text_at("data")) {
            (Some(mime), Some(data)) => {
                let url = "data:".to_owned().concat(mime).concat(";base64,").concat(data);
                media_content(mime, url.as_str())
            },
            _ => None,
        }
    } else if let Some(file) = part.get("fileData") {
        match (file.text_at("mimeType"), file.text_at("fileUri")) {
            (Some(mime), Some(uri)) => media_content(mime, uri),
            _ => None,
        }
    } else {
        None
    }
}

/// The OpenAI content parts for one Gemini part: its text, then its medium.
pub open spec fn content_of_part(part: Json) -> Seq<Json> {
    let text = text_or_empty(part.text_at("text"@));
    let texts = if text.len() > 0 {
        seq![
            Json::Object(map!["type"@ => Json::Str("text"@), "text"@ => Json::Str(text)]),
        ]
    } else {
        Seq::empty()
    };
    match media_of_part(part) {
        Some(medium) => texts.push(medium),
        None => texts,
    }
}

/// The OpenAI content parts for a list of Gemini parts, in order.
pub open spec fn content_items(parts: Seq<Json>) -> Seq<Json>
    decreases parts.len(),
{
    if parts.len() == 0 {
        Seq::empty()
    } else {
        content_items(parts.drop_last()) + content_of_part(parts.last())
    }
}

/// Whether some part carries a medium.
pub open spec fn has_media(parts: Seq<Json>) -> bool {
    exists|i: int| 0 <= i < parts.len() && media_of_part(#[trigger] parts[i]) is Some
}

/// The content of a message: a list of content parts where there is a medium,
/// else the joined text, and `null` where that is empty.
pub open spec fn message_content(parts: Seq<Json>) -> Json {
    if has_media(parts) {
        Json::Array(content_items(parts))
    } else if joined_text(parts).len() > 0 {
        Json::Str(joined_text(parts))
    } else {
        Json::Null
    }
}

/// The content of the message for `parts`.
pub fn content_value(parts: &Vec<JsonValue>) -> (r: JsonValue)
    ensures
        r@ == message_content(value::items_view(parts@)),
        (r is Null) == (message_content(value::items_view(parts@)) is Null),
{
    let ghost all = value::items_view(parts@);
    proof {
        value::lemma_items_view(parts@);
    }
    let mut items: Vec<JsonValue> = Vec::new();
    let mut media = false;
    let mut i: usize = 0;
    while i < parts.len()
        invariant
            all == value::items_view(parts@),
            all.len() == parts@.len(),
            forall|j: int| 0 <= j < all.len() ==> #[trigger] all[j] == parts@[j]@,
            i <= parts@.len(),
            value::items_view(items@) == content_items(all.take(i as int)),
            media == has_media(all.take(i as int)),
        decreases parts@.len() - i,
    {
        let ghost before = value::items_view(items@);
        let ghost front = all.take(i as int);
        let ghost next = all.take(i + 1);
        assert(next.drop_last() =~= front);
        assert(all[i as int] == parts@[i as int]@);
        assert(next[i as int] == parts@[i as int]@);
        if let Some(t) = parts[i].text_at("text") {
            if !t.is_empty() {
                let mut item = JsonObject::new();
                item.insert("type", JsonValue::of_str("text"));
                item.insert("text", JsonValue::of_str(t));
                let v = JsonValue::Object(item);
                proof {
                    value::lemma_items_view_push(items@, v);
                }
                items.push(v);
            }
        }
        match media_part(&parts[i]) {
            Some(v) => {
                proof {
                    value::lemma_items_view_push(items@, v);
                }
                items.push(v);
                media = true;
                assert(has_media(next)) by {
                    assert(media_of_part(next[i as int]) is Some);
                }
            },
            None => {
                assert(has_media(next) == has_media(front)) by {
                    if has_media(front) {
                        let k = choose|k: int|
                            0 <= k < front.len() && media_of_part(#[trigger] front[k]) is Some;
                        assert(media_of_part(next[k]) is Some);
                    }
                    if has_media(next) {
                        let k = choose|k: int|
                            0 <= k < next.len() && media_of_part(#[trigger] next[k]) is Some;
                        assert(media_of_part(front[k]) is Some);
                    }
                }
            },
        }
        assert(value::items_view(items@) =~= before + content_of_part(parts@[i as int]@));
        i = i + 1;
    }
    assert(all.take(i as int) =~= all);
    if media {
        return JsonValue::Array(items);
    }
    let text = parts_text(parts);
    if text.as_str().is_empty() {
        JsonValue::Null
    } else {
        JsonValue::String(text)
    }
}

/// The `tool` message that answers the call `id` with `content`.
pub open spec fn tool_reply(id: Seq<char>, content: Seq<char>) -> Json {
    Json::Object(
        map![
            "role"@ => Json::Str("tool"@),
            "tool_call_id"@ => Json::Str(id),
            "content"@ => Json::Str(content),
        ],
    )
}

/// The `tool` message for a Gemini `functionResponse`. OpenAI keys the reply by
/// call id and Gemini by name, so the name is the id.
pub open spec fn tool_message_of(response: Json) -> Json {
    tool_reply(
        text_or_empty(response.text_at("name"@)),
        wire::json_text(response.get_or("response"@, Json::Null)),
    )
}

/// The `tool_calls` entry for a call of `name`, its arguments a JSON text.
pub open spec fn tool_call_entry(name: Seq<char>, arguments: Seq<char>) -> Json {
    Json::Object(
        map![
            "id"@ => Json::Str(name),
            "type"@ => Json::Str("function"@),
            "function"@ => Json::Object(
                map!["name"@ => Json::Str(name), "arguments"@ => Json::Str(arguments)],
            ),
        ],
    )
}

/// The arguments of a Gemini `functionCall`, none where it has none.
pub open spec fn call_args(call: Json) -> Json {
    call.get_or("args"@, Json::Object(Map::empty()))
}

/// The `tool_calls` entry for a Gemini `functionCall`.
pub open spec fn tool_call_of(call: Json) -> Json {
    tool_call_entry(text_or_empty(call.text_at("name"@)), wire::json_text(call_args(call)))
}

/// The `tool` messages for the parts that are function responses, in order.
pub open spec fn tool_messages(parts: Seq<Json>) -> Seq<Json>
    decreases parts.len(),
{
    if parts.len() == 0 {
        Seq::empty()
    } else {
        let front = tool_messages(parts.drop_last());
        match parts.last().get("functionResponse"@) {
            Some(response) => front.push(tool_message_of(response)),
            None => front,
        }
    }
}

/// The `tool_calls` entries for the parts that are function calls, in order.
pub open spec fn tool_calls(parts: Seq<Json>) -> Seq<Json>
    decreases parts.len(),
{
    if parts.len() == 0 {
        Seq::empty()
    } else {
        let front = tool_calls(parts.drop_last());
        match parts.last().get("functionCall"@) {
            Some(call) => front.push(tool_call_of(call)),
            None => front,
        }
    }
}

/// A copy of a text that may be missing, the missing one taken as empty.
pub fn owned_or_empty(t: Option<&str>) -> (r: String)
    ensures
        r@ == text_or_empty(
            match t {
                Some(s) => Some(s@),
                None => None,
            },
        ),
{
    match t {
        Some(s) => s.to_owned(),
        None => String::new(),
    }
}

/// Makes the `tool` message that answers the call `id` with `content`.
pub fn tool_reply_message(id: String, content: String) -> (r: JsonValue)
    ensures
        r@ == tool_reply(id@, content@),
{
    let mut msg = JsonObject::new();
    msg.insert("role", JsonValue::of_str("tool"));
    msg.insert("tool_call_id", JsonValue::String(id));
    msg.insert("content", JsonValue::String(content));
    JsonValue::Object(msg)
}

/// Makes the `tool` message for a Gemini `functionResponse`.
pub fn tool_message(response: &JsonValue) -> (r: JsonValue)
    ensures
        r@ == tool_message_of(response@),
{
    let reply = response.get_or("response", JsonValue::Null);
    tool_reply_message(owned_or_empty(response.text_at("name")), reply.to_text())
}

/// Makes the `tool_calls` entry for a call of `name` with this argument text.
pub fn tool_call_with(name: String, arguments: String) -> (r: JsonValue)
    ensures
        r@ == tool_call_entry(name@, arguments@),
{
    let mut function = JsonObject::new();
    function.insert("name", JsonValue::String(name.clone()));
    function.insert("arguments", JsonValue::String(arguments));
    let mut entry = JsonObject::new();
    entry.insert("id", JsonValue::String(name));
    entry.insert("type", JsonValue::of_str("function"));
    entry.insert("function", JsonValue::Object(function));
    JsonValue::Object(entry)
}

/// Makes the `tool_calls` entry for a Gemini `functionCall`. Sent back by the
/// server as it is, the entry is rendered as the same call again, wherever the
/// arguments are read back exactly from their text.
pub fn tool_call(call: &JsonValue) -> (r: JsonValue)
    ensures
        r@ == tool_call_of(call@),
        wire::restorable(call_args(call@), 127) ==> response::part_of_call(r@)
            == response::part_with_args(
            text_or_empty(call@.text_at("name"@)),
            call_args(call@),
        ),
{
    let args = call.get_or("args", JsonValue::empty_object());
    let text = args.to_text();
    proof {
        if wire::restorable(call_args(call@), 127) {
            laws::law_calls_round_trip(call@);
        }
    }
    tool_call_with(owned_or_empty(call.text_at("name")), text)
}

/// The messages for one Gemini turn: what the turn says, then the results that
/// it hands back. A result cannot ride along inside another message.
pub open spec fn turn_messages(turn: Json) -> Seq<Json> {
    let parts = turn.items_at("parts"@);
    let role = match turn.text_at("role"@) {
        Some(r) => r,
        None => "user"@,
    };
    let calls = tool_calls(parts);
    let content = message_content(parts);
    let said = if calls.len() > 0 {
        seq![
            Json::Object(
                map![
                    "role"@ => Json::Str("assistant"@),
                    "content"@ => content,
                    "tool_calls"@ => Json::Array(calls),
                ],
            ),
        ]
    } else if !(content is Null) {
        seq![
            Json::Object(
                map!["role"@ => Json::Str(openai_role(role)), "content"@ => content],
            ),
        ]
    } else {
        Seq::empty()
    };
    said + tool_messages(parts)
}

/// Appends the messages for one Gemini turn.
pub fn push_turn(turn: &JsonValue, messages: &mut Vec<JsonValue>)
    ensures
        value::items_view(final(messages)@) == value::items_view(old(messages)@) + turn_messages(
            turn@,
        ),
{
    let ghost start = value::items_view(messages@);
    let none: Vec<JsonValue> = Vec::new();
    let parts = match turn.items_at("parts") {
        Some(items) => items,
        None => &none,
    };
    let ghost all = value::items_view(parts@);
    proof {
        value::lemma_items_view(parts@);
    }
    assert(all == turn@.items_at("parts"@));
    let mut calls: Vec<JsonValue> = Vec::new();
    let mut replies: Vec<JsonValue> = Vec::new();
    let mut i: usize = 0;
    while i < parts.len()
        invariant
            all == value::items_view(parts@),
            all.len() == parts@.len(),
            forall|j: int| 0 <= j < all.len() ==> #[trigger] all[j] == parts@[j]@,
            i <= parts@.len(),
            value::items_view(calls@) == tool_calls(all.take(i as int)),
            value::items_view(replies@) == tool_messages(all.take(i as int)),
        decreases parts@.len() - i,
    {
        assert(all.take(i + 1).drop_last() =~= all.take(i as int));
        assert(all[i as int] == parts@[i as int]@);
        if let Some(response) = parts[i].get("functionResponse") {
            let v = tool_message(response);
            proof {
                value::lemma_items_view_push(replies@, v);
            }
            replies.push(v);
        }
        if let Some(call) = parts[i].get("functionCall") {
            let v = tool_call(call);
            proof {
                value::lemma_items_view_push(calls@, v);
            }
            calls.push(v);
        }
        i = i + 1;
    }
    assert(all.take(i as int) =~= all);
    proof {
        value::lemma_items_view(calls@);
    }
    let content = content_value(parts);
    if calls.len() > 0 {
        let mut msg = JsonObject::new();
        msg.insert("role", JsonValue::of_str("assistant"));
        msg.insert("content", content);
        msg.insert("tool_calls", JsonValue::Array(calls));
        let v = JsonValue::Object(msg);
        proof {
            value::lemma_items_view_push(messages@, v);
        }
        messages.push(v);
    } else if let JsonValue::Null = content {
    } else {
        let role = match turn.text_at("role") {
            Some(r) => r,
            None => "user",
        };
        let mut msg = JsonObject::new();
        msg.insert("role", JsonValue::of_str(role_to_openai(role)));
        msg.insert("content", content);
        let v = JsonValue::Object(msg);
        proof {
            value::lemma_items_view_push(messages@, v);
        }
        messages.push(v);
    }
    let ghost said = value::items_view(messages@);
    let ghost kept = messages@;
    let ghost given = replies@;
    messages.append(&mut replies);
    assert(messages@ =~= kept + given);
    proof {
        value::lemma_items_view_add(kept, given);
    }
    assert(value::items_view(messages@) =~= start + turn_messages(turn@));
}

/// The messages for a list of Gemini turns, in order.
pub open spec fn turns_messages(turns: Seq<Json>) -> Seq<Json>
    decreases turns.len(),
{
    if turns.len() == 0 {
        Seq::empty()
    } else {
        turns_messages(turns.drop_last()) + turn_messages(turns.last())
    }
}

/// The `system` message for a request whose system instruction has text.
pub open spec fn system_messages(req: Json) -> Seq<Json> {
    let text = match req.get("systemInstruction"@) {
        Some(sys) => joined_text(sys.items_at("parts"@)),
        None => Seq::empty(),
    };
    if text.len() > 0 {
        seq![
            Json::Object(
                map!["role"@ => Json::Str("system"@), "content"@ => Json::Str(text)],
            ),
        ]
    } else {
        Seq::empty()
    }
}

/// All messages of a request: the system instruction leads, the turns follow.
pub open spec fn request_messages(req: Json) -> Seq<Json> {
    system_messages(req) + turns_messages(req.items_at("contents"@))
}

/// The messages of a Gemini request.
pub fn messages_of(req: &JsonValue) -> (r: Vec<JsonValue>)
    ensures
        value::items_view(r@) == request_messages(req@),
{
    let mut messages: Vec<JsonValue> = Vec::new();
    // systemInstruction is a Content, not a string: it carries parts like any
    // other turn.
    if let Some(sys) = req.get("systemInstruction") {
        if let Some(parts) = sys.items_at("parts") {
            let text = parts_text(parts);
            if !text.as_str().is_empty() {
                let mut msg = JsonObject::new();
                msg.insert("role", JsonValue::of_str("system"));
                msg.insert("content", JsonValue::String(text));
                let v = JsonValue::Object(msg);
                proof {
                    value::lemma_items_view_push(messages@, v);
                }
                messages.push(v);
            }
        }
    }
    assert(value::items_view(messages@) =~= system_messages(req@));
    let ghost lead = value::items_view(messages@);
    if let Some(turns) = req.items_at("contents") {
        let ghost all = value::items_view(turns@);
        proof {
            value::lemma_items_view(turns@);
        }
        assert(lead =~= lead + turns_messages(all.take(0)));
        let mut i: usize = 0;
        while i < turns.len()
            invariant
                all == value::items_view(turns@),
                all.len() == turns@.len(),
                forall|j: int| 0 <= j < all.len() ==> #[trigger] all[j] == turns@[j]@,
                i <= turns@.len(),
                value::items_view(messages@) == lead + turns_messages(all.take(i as int)),
            decreases turns@.len() - i,
        {
            assert(all.take(i + 1).drop_last() =~= all.take(i as int));
            assert(all[i as int] == turns@[i as int]@);
            push_turn(&turns[i], &mut messages);
            assert(value::items_view(messages@) =~= lead + turns_messages(all.take(i + 1)));
            i = i + 1;
        }
        assert(all.take(i as int) =~= all);
    } else {
        assert(lead =~= lead + turns_messages(Seq::empty()));
    }
    messages
}

/// `m` with the member `key` set where there is a value for it.
pub open spec fn with_member(m: Map<Seq<char>, Json>, key: Seq<char>, v: Option<Json>) -> Map<
    Seq<char>,
    Json,
> {
    match v {
        Some(x) => m.insert(key, x),
        None => m,
    }
}

/// The structured output that a generation config asks for: a schema, or JSON of
/// any shape.
pub open spec fn structured_output(cfg: Json) -> Option<Json> {
    let schema = match cfg.get("responseJsonSchema"@) {
        Some(s) => Some(s),
        None => cfg.get("responseSchema"@),
    };
    match schema {
        Some(s) => Some(
            Json::Object(
                map![
                    "type"@ => Json::Str("json_schema"@),
                    "json_schema"@ => Json::Object(
                        map!["name"@ => Json::Str("response"@), "schema"@ => s],
                    ),
                ],
            ),
        ),
        None => if cfg.text_at("responseMimeType"@) == Some("application/json"@) {
            Some(Json::Object(map!["type"@ => Json::Str("json_object"@)]))
        } else {
            None
        },
    }
}

/// `m` with the settings of a generation config under their OpenAI names.
pub open spec fn with_config(m: Map<Seq<char>, Json>, cfg: Json) -> Map<Seq<char>, Json> {
    let m = with_member(m, "temperature"@, cfg.get("temperature"@));
    let m = with_member(m, "top_p"@, cfg.get("topP"@));
    let m = with_member(m, "top_k"@, cfg.get("topK"@));
    let m = with_member(m, "max_tokens"@, cfg.get("maxOutputTokens"@));
    let m = with_member(m, "seed"@, cfg.get("seed"@));
    let m = with_member(m, "stop"@, cfg.get("stopSequences"@));
    with_member(m, "response_format"@, structured_output(cfg))
}

/// Sets the member `to` of `body` to the member `from` of `source`, where there
/// is one.
fn copy_member(body: &mut JsonObject, to: &str, source: &JsonValue, from: &str)
    ensures
        final(body)@ == with_member(old(body)@, to@, source@.get(from@)),
{
    if let Some(v) = source.get(from) {
        body.insert(to, v.clone());
    }
}

/// The structured output that a generation config asks for.
fn response_format(cfg: &JsonValue) -> (r: Option<JsonValue>)
    ensures
        match r {
            Some(v) => structured_output(cfg@) == Some(v@),
            None => structured_output(cfg@) is None,
        },
{
    let schema = match cfg.get("responseJsonSchema") {
        Some(s) => Some(s),
        None => cfg.get("responseSchema"),
    };
    if let Some(s) = schema {
        let mut inner = JsonObject::new();
        inner.insert("name", JsonValue::of_str("response"));
        inner.insert("schema", s.clone());
        let mut format = JsonObject::new();
        format.insert("type", JsonValue::of_str("json_schema"));
        format.insert("json_schema", JsonValue::Object(inner));
        return Some(JsonValue::Object(format));
    }
    if let Some(mime) = cfg.text_at("responseMimeType") {
        if text::same_text(mime, "application/json") {
            let mut format = JsonObject::new();
            format.insert("type", JsonValue::of_str("json_object"));
            return Some(JsonValue::Object(format));
        }
    }
    None
}

/// Sets the members of `body` that a generation config asks for.
pub fn apply_config(body: &mut JsonObject, cfg: &JsonValue)
    ensures
        final(body)@ == with_config(old(body)@, cfg@),
{
    copy_member(body, "temperature", cfg, "temperature");
    copy_member(body, "top_p", cfg, "topP");
    copy_member(body, "top_k", cfg, "topK");
    copy_member(body, "max_tokens", cfg, "maxOutputTokens");
    copy_member(body, "seed", cfg, "seed");
    copy_member(body, "stop", cfg, "stopSequences");
    if let Some(format) = response_format(cfg) {
        body.insert("response_format", format);
    }
}

/// The parameters of a function that declares none.
pub open spec fn no_parameters() -> Json {
    Json::Object(
        map!["type"@ => Json::Str("object"@), "properties"@ => Json::Object(Map::empty())],
    )
}

/// The OpenAI tool for a Gemini function declaration.
pub open spec fn tool_of(decl: Json) -> Json {
    let parameters = match decl.get("parametersJsonSchema"@) {
        Some(p) => p,
        None => decl.get_or("parameters"@, no_parameters()),
    };
    Json::Object(
        map![
            "type"@ => Json::Str("function"@),
            "function"@ => Json::Object(
                map![
                    "name"@ => decl.get_or("name"@, Json::Null),
                    "description"@ => decl.get_or("description"@, Json::Str(Seq::empty())),
                    "parameters"@ => parameters,
                ],
            ),
        ],
    )
}

/// The OpenAI tools for a list of function declarations, in order.
pub open spec fn tools_of_declarations(decls: Seq<Json>) -> Seq<Json> {
    decls.map_values(|decl: Json| tool_of(decl))
}

/// The OpenAI tools for a Gemini list of tools, which group declarations.
pub open spec fn declared_tools(tools: Seq<Json>) -> Seq<Json>
    decreases tools.len(),
{
    if tools.len() == 0 {
        Seq::empty()
    } else {
        declared_tools(tools.drop_last()) + tools_of_declarations(
            tools.last().items_at("functionDeclarations"@),
        )
    }
}

/// Makes the OpenAI tool for a Gemini function declaration.
pub fn tool_declaration(decl: &JsonValue) -> (r: JsonValue)
    ensures
        r@ == tool_of(decl@),
{
    let parameters = match decl.get("parametersJsonSchema") {
        Some(p) => p.clone(),
        None => {
            let mut none = JsonObject::new();
            none.insert("type", JsonValue::of_str("object"));
            none.insert("properties", JsonValue::empty_object());
            decl.get_or("parameters", JsonValue::Object(none))
        },
    };
    let mut function = JsonObject::new();
    function.insert("name", decl.get_or("name", JsonValue::Null));
    function.insert("description", decl.get_or("description", JsonValue::String(String::new())));
    function.insert("parameters", parameters);
    let mut tool = JsonObject::new();
    tool.insert("type", JsonValue::of_str("function"));
    tool.insert("function", JsonValue::Object(function));
    JsonValue::Object(tool)
}

/// Appends the OpenAI tools for one group of Gemini declarations.
fn push_tools(group: &JsonValue, tools: &mut Vec<JsonValue>)
    ensures
        value::items_view(final(tools)@) == value::items_view(old(tools)@)
            + tools_of_declarations(group@.items_at("functionDeclarations"@)),
{
    let ghost start = value::items_view(tools@);
    if let Some(decls) = group.items_at("functionDeclarations") {
        let ghost all = value::items_view(decls@);
        proof {
            value::lemma_items_view(decls@);
        }
        assert(start =~= start + tools_of_declarations(all.take(0)));
        let mut i: usize = 0;
        while i < decls.len()
            invariant
                all == value::items_view(decls@),
                all.len() == decls@.len(),
                forall|j: int| 0 <= j < all.len() ==> #[trigger] all[j] == decls@[j]@,
                i <= decls@.len(),
                value::items_view(tools@) == start + tools_of_declarations(all.take(i as int)),
            decreases decls@.len() - i,
        {
            assert(all[i as int] == decls@[i as int]@);
            let v = tool_declaration(&decls[i]);
            proof {
                value::lemma_items_view_push(tools@, v);
            }
            tools.push(v);
            assert(value::items_view(tools@) =~= start + tools_of_declarations(all.take(i + 1)));
            i = i + 1;
        }
        assert(all.take(i as int) =~= all);
    } else {
        assert(start =~= start + tools_of_declarations(Seq::empty()));
    }
}

/// The OpenAI tools that a Gemini request declares.
pub fn tools_of_request(req: &JsonValue) -> (r: Vec<JsonValue>)
    ensures
        value::items_view(r@) == declared_tools(req@.items_at("tools"@)),
{
    let mut tools: Vec<JsonValue> = Vec::new();
    if let Some(groups) = req.items_at("tools") {
        let ghost all = value::items_view(groups@);
        proof {
            value::lemma_items_view(groups@);
        }
        let mut i: usize = 0;
        while i < groups.len()
            invariant
                all == value::items_view(groups@),
                all.len() == groups@.len(),
                forall|j: int| 0 <= j < all.len() ==> #[trigger] all[j] == groups@[j]@,
                i <= groups@.len(),
                value::items_view(tools@) == declared_tools(all.take(i as int)),
            decreases groups@.len() - i,
        {
            assert(all.take(i + 1).drop_last() =~= all.take(i as int));
            assert(all[i as int] == groups@[i as int]@);
            push_tools(&groups[i], &mut tools);
            i = i + 1;
        }
        assert(all.take(i as int) =~= all);
    }
    tools
}

/// The `tool_choice` for the function-calling mode of a request.
pub open spec fn tool_choice_of(req: Json) -> Option<Json> {
    let mode = match req.get("toolConfig"@) {
        Some(config) => match config.get("functionCallingConfig"@) {
            Some(calling) => calling.text_at("mode"@),
            None => None,
        },
        None => None,
    };
    if mode == Some("AUTO"@) {
        Some(Json::Str("auto"@))
    } else if mode == Some("ANY"@) {
        Some(Json::Str("required"@))
    } else if mode == Some("NONE"@) {
        Some(Json::Str("none"@))
    } else {
        None
    }
}

/// The `tool_choice` for the function-calling mode of a request, if it has one
/// that OpenAI knows.
pub fn tool_choice(req: &JsonValue) -> (r: Option<JsonValue>)
    ensures
        match r {
            Some(v) => tool_choice_of(req@) == Some(v@),
            None => tool_choice_of(req@) is None,
        },
{
    let mode = match req.get("toolConfig") {
        Some(config) => match config.get("functionCallingConfig") {
            Some(calling) => calling.text_at("mode"),
            None => None,
        },
        None => None,
    };
    match mode {
        Some(m) => if text::same_text(m, "AUTO") {
            Some(JsonValue::of_str("auto"))
        } else if text::same_text(m, "ANY") {
            Some(JsonValue::of_str("required"))
        } else if text::same_text(m, "NONE") {
            Some(JsonValue::of_str("none"))
        } else {
            None
        },
        None => None,
    }
}

/// The options of a streamed request: report token usage at the end.
pub open spec fn stream_options_of(stream: bool) -> Option<Json> {
    if stream {
        Some(Json::Object(map!["include_usage"@ => Json::Bool(true)]))
    } else {
        None
    }
}

/// The members of the OpenAI request for a Gemini request.
pub open spec fn request_members(model: Seq<char>, req: Json, stream: bool) -> Map<
    Seq<char>,
    Json,
> {
    let m = map![
        "model"@ => Json::Str(model),
        "messages"@ => Json::Array(request_messages(req)),
        "stream"@ => Json::Bool(stream),
    ];
    let m = match req.get("generationConfig"@) {
        Some(cfg) => with_config(m, cfg),
        None => m,
    };
    let tools = declared_tools(req.items_at("tools"@));
    let m = if tools.len() > 0 {
        m.insert("tools"@, Json::Array(tools))
    } else {
        m
    };
    let m = with_member(m, "tool_choice"@, tool_choice_of(req));
    with_member(m, "stream_options"@, stream_options_of(stream))
}

/// Gemini `GenerateContentRequest` to the body of an OpenAI
/// `/v1/chat/completions` request for `model`.
pub fn request_to_openai(model: &str, req: &JsonValue, stream: bool) -> (r: JsonValue)
    ensures
        r@ == Json::Object(request_members(model@, req@, stream)),
{
    let messages = messages_of(req);
    let mut body = JsonObject::new();
    body.insert("model", JsonValue::of_str(model));
    body.insert("messages", JsonValue::Array(messages));
    body.insert("stream", JsonValue::Bool(stream));
    if let Some(cfg) = req.get("generationConfig") {
        apply_config(&mut body, cfg);
    }
    // Gemini groups tool declarations under tools[].functionDeclarations.
    let tools = tools_of_request(req);
    proof {
        value::lemma_items_view(tools@);
    }
    if tools.len() > 0 {
        body.insert("tools", JsonValue::Array(tools));
    }
    if let Some(choice) = tool_choice(req) {
        body.insert("tool_choice", choice);
    }
    if stream {
        let mut options = JsonObject::new();
        options.insert("include_usage", JsonValue::Bool(true));
        body.insert("stream_options", JsonValue::Object(options));
    }
    JsonValue::Object(body)
}

} // verus!
