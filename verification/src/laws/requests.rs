//! What each piece of a Gemini request becomes.

use crate::laws;
use crate::request;
use crate::text;
use crate::value::Json;
use crate::wire;
use vstd::prelude::*;

verus! {

/// The marks of the names in messages and calls.
proof fn lemma_message_names()
    ensures
        laws::mark("role"@) == (4nat, 'r', 'o', 'e'),
        laws::mark("content"@) == (7nat, 'c', 'o', 't'),
        laws::mark("tool_call_id"@) == (12nat, 't', 'o', 'd'),
        laws::mark("tool_calls"@) == (10nat, 't', 'o', 's'),
        laws::mark("id"@) == (2nat, 'i', 'd', 'd'),
        laws::mark("type"@) == (4nat, 't', 'y', 'e'),
        laws::mark("function"@) == (8nat, 'f', 'u', 'n'),
        laws::mark("name"@) == (4nat, 'n', 'a', 'e'),
        laws::mark("arguments"@) == (9nat, 'a', 'r', 's'),
        laws::mark("description"@) == (11nat, 'd', 'e', 'n'),
        laws::mark("parameters"@) == (10nat, 'p', 'a', 's'),
        laws::mark("properties"@) == (10nat, 'p', 'r', 's'),
        laws::mark("text"@) == (4nat, 't', 'e', 't'),
        laws::mark("url"@) == (3nat, 'u', 'r', 'l'),
        laws::mark("image_url"@) == (9nat, 'i', 'm', 'l'),
        laws::mark("audio_url"@) == (9nat, 'a', 'u', 'l'),
        laws::mark("video_url"@) == (9nat, 'v', 'i', 'l'),
        laws::mark("image/"@) == (6nat, 'i', 'm', '/'),
        laws::mark("audio/"@) == (6nat, 'a', 'u', '/'),
        laws::mark("video/"@) == (6nat, 'v', 'i', '/'),
        laws::mark("json_schema"@) == (11nat, 'j', 's', 'a'),
        laws::mark("schema"@) == (6nat, 's', 'c', 'a'),
        laws::mark("AUTO"@) == (4nat, 'A', 'U', 'O'),
        laws::mark("ANY"@) == (3nat, 'A', 'N', 'Y'),
        laws::mark("NONE"@) == (4nat, 'N', 'O', 'E'),
{
    reveal_strlit("role");
    reveal_strlit("content");
    reveal_strlit("tool_call_id");
    reveal_strlit("tool_calls");
    reveal_strlit("id");
    reveal_strlit("type");
    reveal_strlit("function");
    reveal_strlit("name");
    reveal_strlit("arguments");
    reveal_strlit("description");
    reveal_strlit("parameters");
    reveal_strlit("properties");
    reveal_strlit("text");
    reveal_strlit("url");
    reveal_strlit("image_url");
    reveal_strlit("audio_url");
    reveal_strlit("video_url");
    reveal_strlit("image/");
    reveal_strlit("audio/");
    reveal_strlit("video/");
    reveal_strlit("json_schema");
    reveal_strlit("schema");
    reveal_strlit("AUTO");
    reveal_strlit("ANY");
    reveal_strlit("NONE");
}

/// The model is the assistant, and every other role keeps its name.
pub proof fn law_roles(role: Seq<char>)
    ensures
        request::openai_role("model"@) == "assistant"@,
        role != "model"@ ==> request::openai_role(role) == role,
{
}

/// A text that is there is itself, a missing one is empty.
pub proof fn law_missing_text_is_empty(t: Seq<char>)
    ensures
        request::text_or_empty(Some(t)) == t,
        request::text_or_empty(None).len() == 0,
{
}

/// Texts are joined in order with nothing between them: two stretches of parts
/// have the text of the first, then that of the second, and one part has its own.
pub proof fn law_texts_join(a: Seq<Json>, b: Seq<Json>, part: Json, t: Seq<char>)
    ensures
        request::joined_text(a + b) == request::joined_text(a) + request::joined_text(b),
        part.get("text"@) == Some(Json::Str(t)) ==> request::joined_text(seq![part]) == t,
        part.text_at("text"@) is None ==> request::joined_text(seq![part]).len() == 0,
        request::joined_text(Seq::empty()).len() == 0,
    decreases b.len(),
{
    if b.len() == 0 {
        assert(a + b =~= a);
        assert(request::joined_text(a) + request::joined_text(b) =~= request::joined_text(a));
    } else {
        assert((a + b).drop_last() =~= a + b.drop_last());
        law_texts_join(a, b.drop_last(), part, t);
        assert(request::joined_text(a + b) =~= request::joined_text(a) + request::joined_text(b));
    }
    assert(seq![part].drop_last() =~= Seq::<Json>::empty());
    assert(request::joined_text(Seq::<Json>::empty()) =~= Seq::<char>::empty());
    if part.get("text"@) == Some(Json::Str(t)) {
        assert(request::joined_text(seq![part]) =~= t);
    }
}

/// Whether `item` is the OpenAI content part that has its medium at `url`, under
/// `field`.
pub open spec fn is_medium(item: Json, field: Seq<char>, url: Seq<char>) -> bool {
    &&& laws::has_exactly(item, set!["type"@, field])
    &&& item.get("type"@) == Some(Json::Str(field))
    &&& item.get(field) is Some
    &&& laws::has_exactly(item.get(field)->0, set!["url"@])
    &&& item.get(field)->0.get("url"@) == Some(Json::Str(url))
}

/// A medium is carried under the field for its kind, with its address as it is.
pub proof fn law_medium_kinds(sub: Seq<char>, mime: Seq<char>, url: Seq<char>)
    ensures
        request::media_item("image/"@ + sub, url) is Some,
        is_medium(request::media_item("image/"@ + sub, url)->0, "image_url"@, url),
        request::media_item("audio/"@ + sub, url) is Some,
        is_medium(request::media_item("audio/"@ + sub, url)->0, "audio_url"@, url),
        request::media_item("video/"@ + sub, url) is Some,
        is_medium(request::media_item("video/"@ + sub, url)->0, "video_url"@, url),
        text::after_prefix(mime, "image/"@) is None && text::after_prefix(mime, "audio/"@) is None
            && text::after_prefix(mime, "video/"@) is None ==> request::media_item(
            mime,
            url,
        ) is None,
{
    lemma_message_names();
    laws::texts::law_prefix_comes_off("image/"@ + sub, "image/"@, sub);
    laws::texts::law_prefix_comes_off("audio/"@ + sub, "audio/"@, sub);
    laws::texts::law_prefix_comes_off("video/"@ + sub, "video/"@, sub);
    assert(("audio/"@ + sub)[0] == 'a');
    assert(("video/"@ + sub)[0] == 'v');
    assert(("audio/"@ + sub).take(6)[0] != "image/"@[0]);
    assert(("video/"@ + sub).take(6)[0] != "image/"@[0]);
    assert(("video/"@ + sub).take(6)[0] != "audio/"@[0]);
    lemma_medium_object("image_url"@, url);
    lemma_medium_object("audio_url"@, url);
    lemma_medium_object("video_url"@, url);
}

/// The object for a medium is one.
proof fn lemma_medium_object(field: Seq<char>, url: Seq<char>)
    requires
        field != "type"@,
    ensures
        is_medium(
            Json::Object(
                map![
                    "type"@ => Json::Str(field),
                    field => Json::Object(map!["url"@ => Json::Str(url)]),
                ],
            ),
            field,
            url,
        ),
{
    let m = map![
        "type"@ => Json::Str(field),
        field => Json::Object(map!["url"@ => Json::Str(url)]),
    ];
    assert(m.dom() =~= set!["type"@, field]);
    assert(map!["url"@ => Json::Str(url)].dom() =~= set!["url"@]);
}

/// Inline data becomes a data address that says the type and holds the data, and
/// counts before a file; a file keeps its address.
pub proof fn law_media_addresses(
    part: Json,
    blob: Json,
    mime: Seq<char>,
    data: Seq<char>,
)
    ensures
        part.get("inlineData"@) == Some(blob) && blob.text_at("mimeType"@) == Some(mime)
            && blob.text_at("data"@) == Some(data) ==> request::media_of_part(part)
            == request::media_item(mime, "data:"@ + mime + ";base64,"@ + data),
        part.get("inlineData"@) is None && part.get("fileData"@) == Some(blob)
            && blob.text_at("mimeType"@) == Some(mime) && blob.text_at("fileUri"@) == Some(data)
            ==> request::media_of_part(part) == request::media_item(mime, data),
        part.get("inlineData"@) == Some(blob) && (blob.text_at("mimeType"@) is None
            || blob.text_at("data"@) is None) ==> request::media_of_part(part) is None,
        part.get("inlineData"@) is None && part.get("fileData"@) == Some(blob) && (blob.text_at(
            "mimeType"@,
        ) is None || blob.text_at("fileUri"@) is None) ==> request::media_of_part(part) is None,
        part.get("inlineData"@) is None && part.get("fileData"@) is None
            ==> request::media_of_part(part) is None,
{
}

/// The content items of two stretches of parts are those of the first, then those
/// of the second; one part gives its text, where it has some, and its medium.
pub proof fn law_content_items_in_order(a: Seq<Json>, b: Seq<Json>, part: Json)
    ensures
        request::content_items(a + b) == request::content_items(a) + request::content_items(b),
        request::content_items(Seq::empty()).len() == 0,
        ({
            let own = request::content_items(seq![part]);
            let said = request::text_or_empty(part.text_at("text"@));
            let medium = request::media_of_part(part);
            let texts: int = if said.len() > 0 {
                1
            } else {
                0
            };
            &&& own.len() == texts + (if medium is Some {
                1int
            } else {
                0int
            })
            &&& said.len() > 0 ==> laws::has_exactly(own[0], set!["type"@, "text"@])
                && own[0].get("type"@) == Some(Json::Str("text"@)) && own[0].get("text"@) == Some(
                Json::Str(said),
            )
            &&& medium is Some ==> own[texts] == medium->0
        }),
        request::has_media(a + b) == (request::has_media(a) || request::has_media(b)),
        request::has_media(seq![part]) == (request::media_of_part(part) is Some),
        !request::has_media(Seq::empty()),
    decreases b.len(),
{
    if b.len() == 0 {
        assert(a + b =~= a);
        assert(request::content_items(a) + request::content_items(b)
            =~= request::content_items(a));
    } else {
        assert((a + b).drop_last() =~= a + b.drop_last());
        law_content_items_in_order(a, b.drop_last(), part);
        assert(request::content_items(a + b) =~= request::content_items(a)
            + request::content_items(b));
    }
    lemma_message_names();
    assert(seq![part].drop_last() =~= Seq::<Json>::empty());
    assert(request::content_items(Seq::<Json>::empty()) =~= Seq::<Json>::empty());
    assert(request::content_items(seq![part]) =~= request::content_of_part(part));
    let said = request::text_or_empty(part.text_at("text"@));
    assert(map!["type"@ => Json::Str("text"@), "text"@ => Json::Str(said)].dom() =~= set![
        "type"@,
        "text"@,
    ]);
    if request::has_media(a) {
        let k = choose|k: int|
            0 <= k < a.len() && request::media_of_part(#[trigger] a[k]) is Some;
        assert(request::media_of_part((a + b)[k]) is Some);
    }
    if request::has_media(b) {
        let k = choose|k: int|
            0 <= k < b.len() && request::media_of_part(#[trigger] b[k]) is Some;
        assert(request::media_of_part((a + b)[a.len() + k]) is Some);
    }
    if request::has_media(a + b) {
        let k = choose|k: int|
            0 <= k < (a + b).len() && request::media_of_part(#[trigger] (a + b)[k]) is Some;
        if k < a.len() {
            assert(request::media_of_part(a[k]) is Some);
        } else {
            assert(request::media_of_part(b[k - a.len()]) is Some);
        }
    }
    assert(seq![part][0] == part);
    if request::media_of_part(part) is Some {
        assert(request::media_of_part(seq![part][0]) is Some);
    }
}

/// A message without media has its text for content, and none where there is no
/// text; with media its content is the list of all content items.
pub proof fn law_content_of_a_message(parts: Seq<Json>)
    ensures
        request::has_media(parts) ==> request::message_content(parts) == Json::Array(
            request::content_items(parts),
        ),
        !request::has_media(parts) && request::joined_text(parts).len() > 0
            ==> request::message_content(parts) == Json::Str(request::joined_text(parts)),
        !request::has_media(parts) && request::joined_text(parts).len() == 0
            ==> request::message_content(parts) == Json::Null,
{
}

/// A result is answered by a `tool` message under the name of its function, with
/// the JSON text of the result, or of `null` where there is none.
pub proof fn law_result_message(response: Json)
    ensures
        ({
            let m = request::tool_message_of(response);
            &&& laws::has_exactly(m, set!["role"@, "tool_call_id"@, "content"@])
            &&& m.get("role"@) == Some(Json::Str("tool"@))
            &&& response.text_at("name"@) is Some ==> m.text_at("tool_call_id"@)
                == response.text_at("name"@)
            &&& response.text_at("name"@) is None ==> m.text_at("tool_call_id"@) == Some(
                Seq::<char>::empty(),
            )
            &&& response.get("response"@) is Some ==> m.text_at("content"@) == Some(
                wire::json_text(response.get("response"@)->0),
            )
            &&& response.get("response"@) is None ==> m.text_at("content"@) == Some(
                wire::json_text(Json::Null),
            )
        }),
{
    lemma_message_names();
    let m = request::tool_message_of(response);
    assert(m->Object_0.dom() =~= set!["role"@, "tool_call_id"@, "content"@]);
}

/// Whether `entry` is the `tool_calls` entry for the Gemini call `call`: its name
/// is the id and the name of the function, and the JSON text of its arguments,
/// of the empty object where it has none, is the argument text.
pub open spec fn is_entry_for(entry: Json, call: Json) -> bool {
    &&& laws::has_exactly(entry, set!["id"@, "type"@, "function"@])
    &&& entry.get("type"@) == Some(Json::Str("function"@))
    &&& entry.get("function"@) is Some
    &&& laws::has_exactly(entry.get("function"@)->0, set!["name"@, "arguments"@])
    &&& entry.text_at("id"@) is Some
    &&& entry.get("function"@)->0.text_at("name"@) == entry.text_at("id"@)
    &&& call.text_at("name"@) is Some ==> entry.text_at("id"@) == call.text_at("name"@)
    &&& call.text_at("name"@) is None ==> entry.text_at("id"@)->0.len() == 0
    &&& call.get("args"@) is Some ==> entry.get("function"@)->0.text_at("arguments"@) == Some(
        wire::json_text(call.get("args"@)->0),
    )
    &&& call.get("args"@) is None ==> entry.get("function"@)->0.text_at("arguments"@) == Some(
        wire::json_text(Json::Object(Map::empty())),
    )
}

/// The entry made for a call is one for it.
proof fn lemma_entry_for(call: Json)
    ensures
        is_entry_for(request::tool_call_of(call), call),
{
    lemma_message_names();
    let entry = request::tool_call_of(call);
    assert(entry->Object_0.dom() =~= set!["id"@, "type"@, "function"@]);
    assert(entry.get("function"@)->0->Object_0.dom() =~= set!["name"@, "arguments"@]);
}

/// The calls of a turn keep their places: the entry for the part at `i` stands
/// behind as many entries as there are calls before that part, and it is the
/// entry for that call and no other.
pub proof fn law_calls_keep_their_places(parts: Seq<Json>, i: int)
    requires
        0 <= i < parts.len(),
        parts[i].get("functionCall"@) is Some,
    ensures
        ({
            let entries = request::tool_calls(parts);
            let k = laws::parts_with(parts.take(i), "functionCall"@);
            &&& k < entries.len()
            &&& is_entry_for(entries[k as int], parts[i].get("functionCall"@)->0)
        }),
    decreases parts.len(),
{
    let front = parts.drop_last();
    laws::law_calls_and_results_are_kept(front);
    laws::law_calls_and_results_are_kept(parts);
    lemma_entry_for(parts[i].get("functionCall"@)->0);
    if i == parts.len() - 1 {
        assert(parts.take(i) =~= front);
    } else {
        assert(front[i] == parts[i]);
        assert(front.take(i) =~= parts.take(i));
        law_calls_keep_their_places(front, i);
    }
}

/// The results of a turn keep their places: the message for the part at `i`
/// stands behind as many as there are results before that part.
pub proof fn law_results_keep_their_places(parts: Seq<Json>, i: int)
    requires
        0 <= i < parts.len(),
        parts[i].get("functionResponse"@) is Some,
    ensures
        ({
            let messages = request::tool_messages(parts);
            let k = laws::parts_with(parts.take(i), "functionResponse"@);
            &&& k < messages.len()
            &&& messages[k as int] == request::tool_message_of(
                parts[i].get("functionResponse"@)->0,
            )
        }),
    decreases parts.len(),
{
    let front = parts.drop_last();
    laws::law_calls_and_results_are_kept(front);
    laws::law_calls_and_results_are_kept(parts);
    if i == parts.len() - 1 {
        assert(parts.take(i) =~= front);
    } else {
        assert(front[i] == parts[i]);
        assert(front.take(i) =~= parts.take(i));
        law_results_keep_their_places(front, i);
    }
}

/// A turn that calls is one message of the assistant with its content and all its
/// calls, and the results follow it.
pub proof fn law_turn_that_calls(turn: Json)
    requires
        laws::parts_with(turn.items_at("parts"@), "functionCall"@) > 0,
    ensures
        ({
            let parts = turn.items_at("parts"@);
            let all = request::turn_messages(turn);
            &&& all.len() == 1 + laws::parts_with(parts, "functionResponse"@)
            &&& laws::has_exactly(all[0], set!["role"@, "content"@, "tool_calls"@])
            &&& all[0].get("role"@) == Some(Json::Str("assistant"@))
            &&& all[0].get("content"@) == Some(request::message_content(parts))
            &&& all[0].get("tool_calls"@) == Some(Json::Array(request::tool_calls(parts)))
            &&& all.skip(1) == request::tool_messages(parts)
        }),
{
    lemma_message_names();
    let parts = turn.items_at("parts"@);
    laws::law_calls_and_results_are_kept(parts);
    let all = request::turn_messages(turn);
    assert(all[0]->Object_0.dom() =~= set!["role"@, "content"@, "tool_calls"@]);
    assert(all.skip(1) =~= request::tool_messages(parts));
}

/// A turn that does not call is one message under its role, that of the user
/// where it names none, and the results follow it; where it says nothing, it is
/// its results alone.
pub proof fn law_turn_that_does_not_call(turn: Json)
    requires
        laws::parts_with(turn.items_at("parts"@), "functionCall"@) == 0,
    ensures
        ({
            let parts = turn.items_at("parts"@);
            let all = request::turn_messages(turn);
            let content = request::message_content(parts);
            &&& content is Null ==> all == request::tool_messages(parts)
            &&& !(content is Null) ==> {
                &&& all.len() == 1 + laws::parts_with(parts, "functionResponse"@)
                &&& laws::has_exactly(all[0], set!["role"@, "content"@])
                &&& all[0].get("content"@) == Some(content)
                &&& turn.text_at("role"@) is None ==> all[0].get("role"@) == Some(
                    Json::Str("user"@),
                )
                &&& turn.text_at("role"@) == Some("model"@) ==> all[0].get("role"@) == Some(
                    Json::Str("assistant"@),
                )
                &&& turn.text_at("role"@) is Some && turn.text_at("role"@) != Some("model"@)
                    ==> all[0].text_at("role"@) == turn.text_at("role"@)
                &&& all.skip(1) == request::tool_messages(parts)
            }
        }),
{
    lemma_message_names();
    reveal_strlit("user");
    reveal_strlit("model");
    let parts = turn.items_at("parts"@);
    laws::law_calls_and_results_are_kept(parts);
    let all = request::turn_messages(turn);
    if request::message_content(parts) is Null {
        assert(all =~= request::tool_messages(parts));
    } else {
        assert(all[0]->Object_0.dom() =~= set!["role"@, "content"@]);
        assert(all.skip(1) =~= request::tool_messages(parts));
    }
}

/// One turn gives its own messages, and no turn gives none.
pub proof fn law_one_turn(turn: Json)
    ensures
        request::turns_messages(seq![turn]) == request::turn_messages(turn),
        request::turns_messages(Seq::empty()).len() == 0,
{
    assert(seq![turn].drop_last() =~= Seq::<Json>::empty());
    assert(request::turns_messages(Seq::<Json>::empty()) =~= Seq::<Json>::empty());
    assert(request::turns_messages(seq![turn]) =~= request::turn_messages(turn));
}

/// Without the text of a system instruction, the messages are those of the turns.
pub proof fn law_no_system_instruction(req: Json)
    requires
        req.get("systemInstruction"@) is Some ==> request::joined_text(
            req.get("systemInstruction"@)->0.items_at("parts"@),
        ).len() == 0,
    ensures
        request::request_messages(req) == request::turns_messages(req.items_at("contents"@)),
{
    assert(request::request_messages(req) =~= request::turns_messages(req.items_at("contents"@)));
}

/// Nothing else is sent: a translated request has no member beyond the model, the
/// messages, the mode, the settings, the tools and the options of a stream.
pub proof fn law_nothing_else_is_sent(model: Seq<char>, req: Json, stream: bool, key: Seq<char>)
    requires
        !seq![
            "model"@,
            "messages"@,
            "stream"@,
            "temperature"@,
            "top_p"@,
            "top_k"@,
            "max_tokens"@,
            "seed"@,
            "stop"@,
            "response_format"@,
            "tools"@,
            "tool_choice"@,
            "stream_options"@,
        ].contains(key),
    ensures
        Json::Object(request::request_members(model, req, stream)).get(key) is None,
{
    let names = seq![
        "model"@,
        "messages"@,
        "stream"@,
        "temperature"@,
        "top_p"@,
        "top_k"@,
        "max_tokens"@,
        "seed"@,
        "stop"@,
        "response_format"@,
        "tools"@,
        "tool_choice"@,
        "stream_options"@,
    ];
    assert(key != names[0] && key != names[1] && key != names[2] && key != names[3] && key
        != names[4] && key != names[5] && key != names[6] && key != names[7] && key != names[8]
        && key != names[9] && key != names[10] && key != names[11] && key != names[12]);
}

/// Without a generation config no setting is sent.
pub proof fn law_no_settings(model: Seq<char>, req: Json, stream: bool)
    requires
        req.get("generationConfig"@) is None,
    ensures
        ({
            let out = Json::Object(request::request_members(model, req, stream));
            &&& out.get("temperature"@) is None
            &&& out.get("top_p"@) is None
            &&& out.get("top_k"@) is None
            &&& out.get("max_tokens"@) is None
            &&& out.get("seed"@) is None
            &&& out.get("stop"@) is None
            &&& out.get("response_format"@) is None
        }),
{
    laws::lemma_request_names();
}

/// A member is set where there is a value for it, and no other member changes.
pub proof fn law_one_member_is_set(
    m: Map<Seq<char>, Json>,
    key: Seq<char>,
    v: Option<Json>,
    other: Seq<char>,
)
    ensures
        v is Some ==> Json::Object(request::with_member(m, key, v)).get(key) == v,
        other != key ==> Json::Object(request::with_member(m, key, v)).get(other)
            == Json::Object(m).get(other),
        v is None ==> request::with_member(m, key, v) == m,
{
}

/// A schema is sent as it is, the JSON schema before the other; without one, JSON
/// of any shape is asked for exactly where the type of the answer is JSON.
pub proof fn law_structured_output(cfg: Json)
    ensures
        ({
            let out = request::structured_output(cfg);
            let json = cfg.get("responseJsonSchema"@);
            let open = cfg.get("responseSchema"@);
            &&& json is Some || open is Some ==> {
                &&& out is Some
                &&& laws::has_exactly(out->0, set!["type"@, "json_schema"@])
                &&& out->0.get("type"@) == Some(Json::Str("json_schema"@))
                &&& out->0.get("json_schema"@)->0.get("schema"@) == (if json is Some {
                    json
                } else {
                    open
                })
                &&& laws::has_exactly(out->0.get("json_schema"@)->0, set!["name"@, "schema"@])
                &&& out->0.get("json_schema"@)->0.text_at("name"@) == Some("response"@)
            }
            &&& json is None && open is None && cfg.text_at("responseMimeType"@) == Some(
                "application/json"@,
            ) ==> {
                &&& out is Some
                &&& laws::has_exactly(out->0, set!["type"@])
                &&& out->0.get("type"@) == Some(Json::Str("json_object"@))
            }
            &&& json is None && open is None && cfg.text_at("responseMimeType"@) != Some(
                "application/json"@,
            ) ==> out is None
        }),
{
    lemma_message_names();
    let out = request::structured_output(cfg);
    if cfg.get("responseJsonSchema"@) is Some || cfg.get("responseSchema"@) is Some {
        assert(out->0->Object_0.dom() =~= set!["type"@, "json_schema"@]);
        assert(out->0.get("json_schema"@)->0->Object_0.dom() =~= set!["name"@, "schema"@]);
    } else if out is Some {
        assert(out->0->Object_0.dom() =~= set!["type"@]);
    }
}

/// A declared function is a tool with its name, its description and its
/// parameters, the JSON schema before the other; what is missing is `null`, the
/// empty text, and an object without properties.
pub proof fn law_declared_function(decl: Json)
    ensures
        ({
            let tool = request::tool_of(decl);
            let function = tool.get("function"@)->0;
            let given = function.get("parameters"@)->0;
            &&& laws::has_exactly(tool, set!["type"@, "function"@])
            &&& tool.get("type"@) == Some(Json::Str("function"@))
            &&& laws::has_exactly(function, set!["name"@, "description"@, "parameters"@])
            &&& decl.get("name"@) is Some ==> function.get("name"@) == decl.get("name"@)
            &&& decl.get("name"@) is None ==> function.get("name"@) == Some(Json::Null)
            &&& decl.get("description"@) is Some ==> function.get("description"@) == decl.get(
                "description"@,
            )
            &&& decl.get("description"@) is None ==> function.text_at("description"@) == Some(
                Seq::<char>::empty(),
            )
            &&& decl.get("parametersJsonSchema"@) is Some ==> Some(given) == decl.get(
                "parametersJsonSchema"@,
            )
            &&& decl.get("parametersJsonSchema"@) is None && decl.get("parameters"@) is Some
                ==> Some(given) == decl.get("parameters"@)
            &&& decl.get("parametersJsonSchema"@) is None && decl.get("parameters"@) is None ==> {
                &&& laws::has_exactly(given, set!["type"@, "properties"@])
                &&& given.get("type"@) == Some(Json::Str("object"@))
                &&& given.get("properties"@) is Some
                &&& laws::has_exactly(given.get("properties"@)->0, Set::empty())
            }
        }),
{
    lemma_message_names();
    let tool = request::tool_of(decl);
    let function = tool.get("function"@)->0;
    assert(tool->Object_0.dom() =~= set!["type"@, "function"@]);
    assert(function->Object_0.dom() =~= set!["name"@, "description"@, "parameters"@]);
    assert(request::no_parameters()->Object_0.dom() =~= set!["type"@, "properties"@]);
    assert(request::no_parameters().get("properties"@)->0->Object_0.dom()
        =~= Set::<Seq<char>>::empty());
}

/// A group of declarations gives one tool for each, in order, and no group gives
/// none.
pub proof fn law_one_group_of_tools(group: Json)
    ensures
        ({
            let tools = request::declared_tools(seq![group]);
            let decls = group.items_at("functionDeclarations"@);
            &&& tools.len() == decls.len()
            &&& forall|i: int|
                0 <= i < decls.len() ==> #[trigger] tools[i] == request::tool_of(decls[i])
        }),
        request::declared_tools(Seq::empty()).len() == 0,
{
    assert(seq![group].drop_last() =~= Seq::<Json>::empty());
    let decls = group.items_at("functionDeclarations"@);
    assert(request::declared_tools(Seq::<Json>::empty()) =~= Seq::<Json>::empty());
    assert(request::declared_tools(seq![group]) =~= request::tools_of_declarations(decls));
}

/// The calling mode becomes the choice of tools: automatic, required or none; any
/// other mode, or none at all, leaves the choice to the server.
pub proof fn law_calling_modes(req: Json, config: Json, calling: Json, mode: Seq<char>)
    requires
        req.get("toolConfig"@) == Some(config),
        config.get("functionCallingConfig"@) == Some(calling),
    ensures
        calling.text_at("mode"@) == Some("AUTO"@) ==> request::tool_choice_of(req) == Some(
            Json::Str("auto"@),
        ),
        calling.text_at("mode"@) == Some("ANY"@) ==> request::tool_choice_of(req) == Some(
            Json::Str("required"@),
        ),
        calling.text_at("mode"@) == Some("NONE"@) ==> request::tool_choice_of(req) == Some(
            Json::Str("none"@),
        ),
        calling.text_at("mode"@) == Some(mode) && mode != "AUTO"@ && mode != "ANY"@ && mode
            != "NONE"@ ==> request::tool_choice_of(req) is None,
        calling.text_at("mode"@) is None ==> request::tool_choice_of(req) is None,
{
    lemma_message_names();
}

/// A request that says nothing of calling leaves the choice to the server.
pub proof fn law_no_calling_mode(req: Json)
    requires
        req.get("toolConfig"@) is Some ==> req.get("toolConfig"@)->0.get(
            "functionCallingConfig"@,
        ) is None,
    ensures
        request::tool_choice_of(req) is None,
{
}

/// A stream asks for usage at its end, and nothing else does.
pub proof fn law_stream_options()
    ensures
        request::stream_options_of(false) is None,
        request::stream_options_of(true) is Some,
        laws::has_exactly(request::stream_options_of(true)->0, set!["include_usage"@]),
        request::stream_options_of(true)->0.get("include_usage"@) == Some(Json::Bool(true)),
{
    assert(request::stream_options_of(true)->0->Object_0.dom() =~= set!["include_usage"@]);
}

} // verus!
