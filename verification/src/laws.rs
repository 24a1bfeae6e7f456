//! What holds of the library as a whole, proved from what its functions state.

use crate::gateway::{self, NamesView};
use crate::request;
use crate::response;
use crate::stream::{self, CallView, TurnView};
use crate::text;
use crate::value::Json;
use crate::wire;
use vstd::prelude::*;

pub mod answers;
pub mod decisions;
pub mod requests;
pub mod streams;
pub mod texts;
pub mod values;

verus! {

/// Whether a value is an object that has members of these names and no others.
pub open spec fn has_exactly(v: Json, names: Set<Seq<char>>) -> bool {
    &&& v is Object
    &&& v->Object_0.dom() == names
}

// ---- Requests -------------------------------------------------------------

/// Turns are translated one by one and in order: the messages of two stretches
/// of a conversation are those of the first, then those of the second.
pub proof fn law_turns_keep_their_order(a: Seq<Json>, b: Seq<Json>)
    ensures
        request::turns_messages(a + b) == request::turns_messages(a) + request::turns_messages(b),
    decreases b.len(),
{
    if b.len() == 0 {
        assert(a + b =~= a);
        assert(request::turns_messages(a) + request::turns_messages(b) =~= request::turns_messages(
            a,
        ));
    } else {
        assert((a + b).drop_last() =~= a + b.drop_last());
        law_turns_keep_their_order(a, b.drop_last());
        assert(request::turns_messages(a + b) =~= request::turns_messages(a)
            + request::turns_messages(b));
    }
}

/// The system instruction leads: where it has text, the first message is the
/// `system` message with that text, and the turns follow it unchanged.
pub proof fn law_system_instruction_leads(req: Json)
    requires
        req.get("systemInstruction"@) is Some,
        request::joined_text(req.get("systemInstruction"@)->0.items_at("parts"@)).len() > 0,
    ensures
        ({
            let text = request::joined_text(
                req.get("systemInstruction"@)->0.items_at("parts"@),
            );
            let messages = request::request_messages(req);
            &&& messages.len() > 0
            &&& messages[0] == Json::Object(
                map!["role"@ => Json::Str("system"@), "content"@ => Json::Str(text)],
            )
            &&& messages.skip(1) == request::turns_messages(req.items_at("contents"@))
        }),
{
    assert(request::request_messages(req).skip(1) =~= request::turns_messages(
        req.items_at("contents"@),
    ));
}

/// The number of parts that have a member called `key`.
pub open spec fn parts_with(parts: Seq<Json>, key: Seq<char>) -> nat
    decreases parts.len(),
{
    if parts.len() == 0 {
        0
    } else {
        parts_with(parts.drop_last(), key) + if parts.last().get(key) is Some {
            1nat
        } else {
            0nat
        }
    }
}

/// Each function response becomes a `tool` message of its own and each function
/// call an entry of its own: none is lost, none is doubled.
pub proof fn law_calls_and_results_are_kept(parts: Seq<Json>)
    ensures
        request::tool_messages(parts).len() == parts_with(parts, "functionResponse"@),
        request::tool_calls(parts).len() == parts_with(parts, "functionCall"@),
    decreases parts.len(),
{
    if parts.len() > 0 {
        law_calls_and_results_are_kept(parts.drop_last());
    }
}

/// The result that a part hands back is answered by exactly the `tool` message
/// for it, wherever the part stands in the turn.
pub proof fn law_every_result_is_answered(turn: Json, i: int)
    requires
        0 <= i < turn.items_at("parts"@).len(),
        turn.items_at("parts"@)[i].get("functionResponse"@) is Some,
    ensures
        request::turn_messages(turn).contains(
            request::tool_message_of(turn.items_at("parts"@)[i].get("functionResponse"@)->0),
        ),
{
    let parts = turn.items_at("parts"@);
    let m = request::tool_message_of(parts[i].get("functionResponse"@)->0);
    lemma_result_listed(parts, i);
    let results = request::tool_messages(parts);
    let k = choose|k: int| 0 <= k < results.len() && results[k] == m;
    let all = request::turn_messages(turn);
    let lead = all.len() - results.len();
    assert(all[lead + k] == m);
}

/// The message for a function response is in the list.
proof fn lemma_result_listed(parts: Seq<Json>, i: int)
    requires
        0 <= i < parts.len(),
        parts[i].get("functionResponse"@) is Some,
    ensures
        request::tool_messages(parts).contains(
            request::tool_message_of(parts[i].get("functionResponse"@)->0),
        ),
    decreases parts.len(),
{
    let m = request::tool_message_of(parts[i].get("functionResponse"@)->0);
    let all = request::tool_messages(parts);
    if i == parts.len() - 1 {
        assert(all[all.len() - 1] == m);
    } else {
        assert(parts.drop_last()[i] == parts[i]);
        lemma_result_listed(parts.drop_last(), i);
        let front = request::tool_messages(parts.drop_last());
        let k = choose|k: int| 0 <= k < front.len() && front[k] == m;
        assert(all[k] == m);
    }
}

/// The content items of a part are among those of the parts.
proof fn lemma_content_listed(parts: Seq<Json>, i: int, item: Json)
    requires
        0 <= i < parts.len(),
        request::content_of_part(parts[i]).contains(item),
    ensures
        request::content_items(parts).contains(item),
    decreases parts.len(),
{
    let all = request::content_items(parts);
    let front = request::content_items(parts.drop_last());
    if i == parts.len() - 1 {
        let own = request::content_of_part(parts[i]);
        let k = choose|k: int| 0 <= k < own.len() && own[k] == item;
        assert(all[front.len() + k] == item);
    } else {
        assert(parts.drop_last()[i] == parts[i]);
        lemma_content_listed(parts.drop_last(), i, item);
        let k = choose|k: int| 0 <= k < front.len() && front[k] == item;
        assert(all[k] == item);
    }
}

/// Media are kept: a part that carries an image, audio or video makes the content
/// of its message a list, and the medium stands in it.
pub proof fn law_media_are_kept(parts: Seq<Json>, i: int)
    requires
        0 <= i < parts.len(),
        request::media_of_part(parts[i]) is Some,
    ensures
        request::message_content(parts) is Array,
        request::message_content(parts)->Array_0.contains(
            request::media_of_part(parts[i])->0,
        ),
{
    let own = request::content_of_part(parts[i]);
    assert(own.last() == request::media_of_part(parts[i])->0);
    lemma_content_listed(parts, i, own.last());
}

/// Text is kept next to media: where the content of a message is a list, the text
/// of every part stands in it.
pub proof fn law_text_is_kept_next_to_media(parts: Seq<Json>, i: int)
    requires
        0 <= i < parts.len(),
        request::has_media(parts),
        request::text_or_empty(parts[i].text_at("text"@)).len() > 0,
    ensures
        request::message_content(parts) is Array,
        request::message_content(parts)->Array_0.contains(
            Json::Object(
                map![
                    "type"@ => Json::Str("text"@),
                    "text"@ => Json::Str(parts[i].text_at("text"@)->0),
                ],
            ),
        ),
{
    let own = request::content_of_part(parts[i]);
    lemma_content_listed(parts, i, own[0]);
}

/// Tools are declared in order: those of two lists are those of the first, then
/// those of the second.
pub proof fn law_tools_keep_their_order(a: Seq<Json>, b: Seq<Json>)
    ensures
        request::declared_tools(a + b) == request::declared_tools(a) + request::declared_tools(b),
    decreases b.len(),
{
    if b.len() == 0 {
        assert(a + b =~= a);
        assert(request::declared_tools(a) + request::declared_tools(b)
            =~= request::declared_tools(a));
    } else {
        assert((a + b).drop_last() =~= a + b.drop_last());
        law_tools_keep_their_order(a, b.drop_last());
        assert(request::declared_tools(a + b) =~= request::declared_tools(a)
            + request::declared_tools(b));
    }
}

/// What tells one member name from another: its length, its first two characters
/// and its last.
pub open spec fn mark(name: Seq<char>) -> (nat, char, char, char) {
    (name.len(), name[0], name[1], name.last())
}

/// The marks of the names that a translated request can have, all distinct.
pub proof fn lemma_request_names()
    ensures
        mark("model"@) == (5nat, 'm', 'o', 'l'),
        mark("messages"@) == (8nat, 'm', 'e', 's'),
        mark("stream"@) == (6nat, 's', 't', 'm'),
        mark("temperature"@) == (11nat, 't', 'e', 'e'),
        mark("top_p"@) == (5nat, 't', 'o', 'p'),
        mark("top_k"@) == (5nat, 't', 'o', 'k'),
        mark("max_tokens"@) == (10nat, 'm', 'a', 's'),
        mark("seed"@) == (4nat, 's', 'e', 'd'),
        mark("stop"@) == (4nat, 's', 't', 'p'),
        mark("response_format"@) == (15nat, 'r', 'e', 't'),
        mark("tools"@) == (5nat, 't', 'o', 's'),
        mark("tool_choice"@) == (11nat, 't', 'o', 'e'),
        mark("stream_options"@) == (14nat, 's', 't', 's'),
{
    reveal_strlit("model");
    reveal_strlit("messages");
    reveal_strlit("stream");
    reveal_strlit("temperature");
    reveal_strlit("top_p");
    reveal_strlit("top_k");
    reveal_strlit("max_tokens");
    reveal_strlit("seed");
    reveal_strlit("stop");
    reveal_strlit("response_format");
    reveal_strlit("tools");
    reveal_strlit("tool_choice");
    reveal_strlit("stream_options");
}

/// No request can talk the gateway out of what it set itself: the translated
/// request names the model it is for, carries the messages of the request, and
/// streams exactly when it was asked to.
pub proof fn law_model_messages_and_mode_stand(model: Seq<char>, req: Json, stream: bool)
    ensures
        ({
            let out = Json::Object(request::request_members(model, req, stream));
            &&& out.get("model"@) == Some(Json::Str(model))
            &&& out.get("messages"@) == Some(Json::Array(request::request_messages(req)))
            &&& out.get("stream"@) == Some(Json::Bool(stream))
        }),
{
    lemma_request_names();
}

/// The settings of a generation config arrive under their OpenAI names with their
/// values untouched, and a setting that is not there is not sent.
pub proof fn law_settings_pass_through(model: Seq<char>, req: Json, stream: bool)
    requires
        req.get("generationConfig"@) is Some,
    ensures
        ({
            let cfg = req.get("generationConfig"@)->0;
            let out = Json::Object(request::request_members(model, req, stream));
            &&& out.get("temperature"@) == cfg.get("temperature"@)
            &&& out.get("top_p"@) == cfg.get("topP"@)
            &&& out.get("top_k"@) == cfg.get("topK"@)
            &&& out.get("max_tokens"@) == cfg.get("maxOutputTokens"@)
            &&& out.get("seed"@) == cfg.get("seed"@)
            &&& out.get("stop"@) == cfg.get("stopSequences"@)
            &&& out.get("response_format"@) == request::structured_output(cfg)
        }),
{
    lemma_request_names();
}

/// Tools are sent exactly where some are declared, `tool_choice` exactly where
/// the mode asks for one, and usage is asked for exactly where the answer is
/// streamed.
pub proof fn law_tools_and_usage(model: Seq<char>, req: Json, stream: bool)
    ensures
        ({
            let tools = request::declared_tools(req.items_at("tools"@));
            let out = Json::Object(request::request_members(model, req, stream));
            &&& out.get("tools"@) == (if tools.len() > 0 {
                Some(Json::Array(tools))
            } else {
                None
            })
            &&& out.get("tool_choice"@) == request::tool_choice_of(req)
            &&& out.get("stream_options"@) == request::stream_options_of(stream)
        }),
{
    lemma_request_names();
}

/// The marks of the names that a tool call has, all distinct.
proof fn lemma_call_names()
    ensures
        mark("id"@) == (2nat, 'i', 'd', 'd'),
        mark("type"@) == (4nat, 't', 'y', 'e'),
        mark("function"@) == (8nat, 'f', 'u', 'n'),
        mark("name"@) == (4nat, 'n', 'a', 'e'),
        mark("arguments"@) == (9nat, 'a', 'r', 's'),
        mark("args"@) == (4nat, 'a', 'r', 's'),
{
    reveal_strlit("id");
    reveal_strlit("type");
    reveal_strlit("function");
    reveal_strlit("name");
    reveal_strlit("arguments");
    reveal_strlit("args");
}

/// The arguments of a translated call are a JSON string, never an object.
pub proof fn law_arguments_are_text(call: Json)
    ensures
        request::tool_call_of(call).get_or("function"@, Json::Null).text_at("arguments"@) == Some(
            wire::json_text(request::call_args(call)),
        ),
{
    lemma_call_names();
}

/// A call goes to the server and comes back the same: where its arguments can be
/// read back from their text, the entry made for a Gemini `functionCall` is
/// translated to a part with the same name and the same arguments.
pub proof fn law_calls_round_trip(call: Json)
    requires
        wire::json_parsed(wire::json_text(request::call_args(call))) == Some(
            request::call_args(call),
        ),
    ensures
        response::part_of_call(request::tool_call_of(call)) == response::part_with_args(
            request::text_or_empty(call.text_at("name"@)),
            request::call_args(call),
        ),
{
    lemma_call_names();
}

// ---- Answers --------------------------------------------------------------

/// Reasoning is kept, and first: where a message has reasoning, the first part is
/// that reasoning, marked as a thought.
pub proof fn law_reasoning_is_kept(msg: Json)
    requires
        request::text_or_empty(msg.text_at("reasoning_content"@)).len() > 0,
    ensures
        ({
            let parts = response::message_parts(msg);
            &&& parts.len() > 0
            &&& parts[0] == Json::Object(
                map![
                    "text"@ => Json::Str(msg.text_at("reasoning_content"@)->0),
                    "thought"@ => Json::Bool(true),
                ],
            )
        }),
{
}

/// No answer is lost: the answer of a message is a part of its own that is not a
/// thought, and it stands right behind the reasoning.
pub proof fn law_answer_follows_reasoning(msg: Json)
    requires
        request::text_or_empty(msg.text_at("content"@)).len() > 0,
    ensures
        ({
            let thoughts = response::text_part(msg.text_at("reasoning_content"@), true)
                + response::text_part(msg.text_at("reasoning"@), true);
            let parts = response::message_parts(msg);
            &&& thoughts.len() < parts.len()
            &&& parts.take(thoughts.len() as int) == thoughts
            &&& parts[thoughts.len() as int] == Json::Object(
                map!["text"@ => Json::Str(msg.text_at("content"@)->0)],
            )
        }),
{
    let thoughts = response::text_part(msg.text_at("reasoning_content"@), true)
        + response::text_part(msg.text_at("reasoning"@), true);
    assert(response::message_parts(msg).take(thoughts.len() as int) =~= thoughts);
}

/// No call is lost: behind what a message says, its parts are its calls, one for
/// each and in order.
pub proof fn law_calls_follow_the_answer(msg: Json)
    ensures
        ({
            let said = response::spoken_parts(msg);
            let calls = msg.items_at("tool_calls"@);
            let parts = response::message_parts(msg);
            &&& parts.len() == said.len() + calls.len()
            &&& parts.take(said.len() as int) == said
            &&& forall|i: int|
                0 <= i < calls.len() ==> #[trigger] parts[said.len() + i]
                    == response::part_of_call(calls[i])
        }),
{
    let said = response::spoken_parts(msg);
    assert(response::message_parts(msg).take(said.len() as int) =~= said);
}

/// The end of a streamed answer always reaches the client: a chunk whose choice
/// has a delta and a reason to end is rendered, with that reason.
pub proof fn law_the_end_is_rendered(chunk: Json)
    requires
        response::first_choice(chunk) is Some,
        response::first_choice(chunk)->0.get("delta"@) is Some,
        response::first_choice(chunk)->0.text_at("finish_reason"@) is Some,
    ensures
        response::gemini_chunk(chunk) is Some,
        ({
            let finish = response::first_choice(chunk)->0.text_at("finish_reason"@)->0;
            let out = response::gemini_chunk(chunk)->0.items_at("candidates"@);
            out.len() == 1 && out[0].text_at("finishReason"@) == Some(
                response::stream_finish_name(finish),
            )
        }),
{
}

// ---- Streams --------------------------------------------------------------

/// Reading goes on where it stopped: to read on with `more` behind what was left
/// over is to read all of it at once.
proof fn lemma_reading_goes_on(t: TurnView, pending: Seq<char>, more: Seq<char>)
    ensures
        ({
            let first = stream::read_lines(t, pending);
            let second = stream::read_lines(first.turn, first.pending + more);
            let whole = stream::read_lines(t, pending + more);
            &&& whole.turn == second.turn
            &&& whole.pending == second.pending
            &&& whole.events == first.events + second.events
        }),
    decreases pending.len(),
{
    let i = text::first_index(pending, '\n');
    text::lemma_first_index_bounds(pending, '\n');
    let first = stream::read_lines(t, pending);
    let whole = stream::read_lines(t, pending + more);
    if t.ended || i >= pending.len() {
        assert(first.events + whole.events =~= whole.events);
    } else {
        let all = pending + more;
        assert forall|j: int| 0 <= j < i implies all[j] != '\n' by {
            assert(all[j] == pending[j]);
        }
        text::lemma_first_index_from(all, '\n', i);
        assert(all.skip(i)[0] == '\n');
        assert(all.take(i) =~= pending.take(i));
        assert(all.skip(i + 1) =~= pending.skip(i + 1) + more);
        let (next, events) = stream::after_line(t, pending.take(i));
        lemma_reading_goes_on(next, pending.skip(i + 1), more);
        let rest = stream::read_lines(next, pending.skip(i + 1));
        let second = stream::read_lines(rest.turn, rest.pending + more);
        assert(events + (rest.events + second.events) =~= (events + rest.events) + second.events);
    }
}

/// A stream may be cut anywhere: text that arrives in two pieces gives the same
/// turn, the same left-over text and the same events as text that arrives whole.
pub proof fn law_text_may_arrive_in_pieces(
    t: TurnView,
    pending: Seq<char>,
    a: Seq<char>,
    b: Seq<char>,
)
    ensures
        ({
            let first = stream::read_lines(t, pending + a);
            let second = stream::read_lines(first.turn, first.pending + b);
            let whole = stream::read_lines(t, pending + (a + b));
            &&& whole.turn == second.turn
            &&& whole.pending == second.pending
            &&& whole.events == first.events + second.events
        }),
{
    assert(pending + (a + b) =~= (pending + a) + b);
    lemma_reading_goes_on(t, pending + a, b);
}

/// Two texts put together are encoded one behind the other.
proof fn lemma_encode_add(a: Seq<char>, b: Seq<char>)
    ensures
        vstd::utf8::encode_utf8(a + b) == vstd::utf8::encode_utf8(a) + vstd::utf8::encode_utf8(b),
    decreases a.len(),
{
    if a.len() == 0 {
        assert(a + b =~= b);
        assert(vstd::utf8::encode_utf8(a) + vstd::utf8::encode_utf8(b)
            =~= vstd::utf8::encode_utf8(b));
    } else {
        assert((a + b).drop_first() =~= a.drop_first() + b);
        lemma_encode_add(a.drop_first(), b);
        assert(vstd::utf8::encode_utf8(a + b) =~= vstd::utf8::encode_utf8(a)
            + vstd::utf8::encode_utf8(b));
    }
}

/// Bytes that are UTF-8 in two pieces are so as a whole, and give the text of
/// one piece behind that of the other: what the server sends may be cut between
/// any two characters.
pub proof fn law_bytes_may_arrive_in_pieces(a: Seq<u8>, b: Seq<u8>)
    requires
        vstd::utf8::valid_utf8(a),
        vstd::utf8::valid_utf8(b),
    ensures
        wire::lossy_text(a + b) == wire::lossy_text(a) + wire::lossy_text(b),
{
    let x = vstd::utf8::decode_utf8(a);
    let y = vstd::utf8::decode_utf8(b);
    vstd::utf8::valid_utf8_concat(a, b);
    vstd::utf8::decode_utf8_encode_utf8(a);
    vstd::utf8::decode_utf8_encode_utf8(b);
    lemma_encode_add(x, y);
    vstd::utf8::encode_utf8_decode_utf8(x + y);
}

/// Whether an event is one JSON document, framed.
pub open spec fn is_document(event: Seq<char>) -> bool {
    exists|v: Json| event == #[trigger] stream::event_frame(wire::json_text(v))
}

/// Whether each of these events is one JSON document, framed.
pub open spec fn all_documents(events: Seq<Seq<char>>) -> bool {
    forall|i: int| 0 <= i < events.len() ==> is_document(#[trigger] events[i])
}

/// Only JSON documents go to the client, each framed as one event: neither the
/// `[DONE]` of the server nor anything that is not JSON is passed on.
pub proof fn law_only_documents_are_sent(t: TurnView, pending: Seq<char>)
    requires
        all_documents(t.held),
    ensures
        all_documents(stream::read_lines(t, pending).events),
        all_documents(stream::read_lines(t, pending).turn.held),
    decreases pending.len(),
{
    text::lemma_first_index_bounds(pending, '\n');
    let i = text::first_index(pending, '\n');
    if !t.ended && i < pending.len() {
        let line = pending.take(i);
        let (next, events) = stream::after_line(t, line);
        lemma_line_sends_documents(t, line);
        law_only_documents_are_sent(next, pending.skip(i + 1));
        let rest = stream::read_lines(next, pending.skip(i + 1));
        assert forall|k: int| 0 <= k < (events + rest.events).len() implies is_document(
            #[trigger] (events + rest.events)[k],
        ) by {
            if k < events.len() {
                assert(is_document(events[k]));
            } else {
                assert(is_document(rest.events[k - events.len()]));
            }
        }
    }
}

/// What one line sends or holds back is made of documents.
proof fn lemma_line_sends_documents(t: TurnView, line: Seq<char>)
    requires
        all_documents(t.held),
    ensures
        all_documents(stream::after_line(t, line).0.held),
        all_documents(stream::after_line(t, line).1),
{
    if let Some(data) = stream::line_payload(line) {
        if data != "[DONE]"@ {
            if let Some(chunk) = wire::json_parsed(data) {
                let (calls, out) = stream::gemini_step(chunk, t.calls);
                if let Some(v) = out {
                    let frame = stream::event_frame(wire::json_text(v));
                    assert(is_document(frame));
                    let grown = t.held.push(frame);
                    assert forall|k: int| 0 <= k < grown.len() implies is_document(
                        #[trigger] grown[k],
                    ) by {
                        if k < t.held.len() {
                            assert(is_document(t.held[k]));
                        }
                    }
                }
            }
        }
    }
}

/// An event is one `data:` line and the blank line that ends it: around text that
/// has no line break, the frame breaks nowhere but at its end.
pub proof fn law_event_is_one_line(json: Seq<char>)
    requires
        stream::unbroken(json),
    ensures
        text::split_first(stream::event_frame(json), '\n') == Some(
            ("data: "@ + json, seq!['\n']),
        ),
{
    reveal_strlit("data: ");
    reveal_strlit("\n\n");
    let event = stream::event_frame(json);
    let line = "data: "@ + json;
    assert forall|j: int| 0 <= j < line.len() implies event[j] != '\n' by {
        if j >= 6 {
            assert(event[j] == json[j - 6]);
        }
    }
    text::lemma_first_index_from(event, '\n', line.len() as int);
    assert(event.skip(line.len() as int)[0] == '\n');
    assert(event.take(line.len() as int) =~= line);
    assert(event.skip(line.len() as int + 1) =~= seq!['\n']);
}

/// Once the server has said that it is done, nothing more goes out.
pub proof fn law_done_is_the_end(t: TurnView, pending: Seq<char>)
    requires
        t.ended,
    ensures
        stream::read_lines(t, pending).events.len() == 0,
        stream::read_lines(t, pending).turn == t,
        stream::read_lines(t, pending).pending == pending,
{
}

/// A turn knows whether the client has seen anything of it: as long as it counts
/// as unsent, no event has gone out, and once sent it stays so.
pub proof fn law_sent_is_remembered(t: TurnView, pending: Seq<char>)
    ensures
        t.sent ==> stream::read_lines(t, pending).turn.sent,
        !stream::read_lines(t, pending).turn.sent ==> stream::read_lines(
            t,
            pending,
        ).events.len() == 0,
    decreases pending.len(),
{
    text::lemma_first_index_bounds(pending, '\n');
    let i = text::first_index(pending, '\n');
    if !t.ended && i < pending.len() {
        let (next, events) = stream::after_line(t, pending.take(i));
        law_sent_is_remembered(next, pending.skip(i + 1));
    }
}

/// Whatever has a part to show goes out at once, with what was held back.
pub proof fn law_parts_go_out(t: TurnView, v: Json)
    requires
        stream::has_parts(v),
    ensures
        stream::delivered(t, v).0.sent,
        stream::delivered(t, v).1 == t.held.push(stream::event_frame(wire::json_text(v))),
{
}

/// An empty turn is asked for again at most twice, and never after anything has
/// been sent to the client.
pub proof fn law_empty_turns_are_retried_twice(t: TurnView, retries: u32)
    ensures
        stream::asks_again(t, retries) <==> !t.sent && retries < 2,
{
}

/// What was asked for again counts: from `used` times on, as many more follow as
/// are left, and each only after a turn of which nothing was sent.
proof fn lemma_repeats(turns: Seq<TurnView>, used: u32)
    requires
        used <= 2,
    ensures
        stream::repeats(turns, used) <= 2 - used,
        stream::repeats(turns, used) <= turns.len(),
        forall|i: int| 0 <= i < stream::repeats(turns, used) ==> !(#[trigger] turns[i]).sent,
    decreases turns.len(),
{
    if turns.len() > 0 && stream::asks_again(turns[0], used) {
        let rest = turns.drop_first();
        lemma_repeats(rest, (used + 1) as u32);
        assert forall|i: int| 0 <= i < stream::repeats(turns, used) implies !(
        #[trigger] turns[i]).sent by {
            if i > 0 {
                assert(turns[i] == rest[i - 1]);
            }
        }
    }
}

/// Over all attempts at one request, whatever they come to, at most two are
/// followed by another, and none of which anything was sent to the client. Two
/// are, where the first two attempts sent nothing.
pub proof fn law_at_most_two_more_attempts(turns: Seq<TurnView>)
    ensures
        stream::repeats(turns, 0) <= 2,
        forall|i: int| 0 <= i < stream::repeats(turns, 0) ==> !(#[trigger] turns[i]).sent,
        turns.len() >= 2 && !turns[0].sent && !turns[1].sent ==> stream::repeats(turns, 0) == 2,
{
    lemma_repeats(turns, 0);
    if turns.len() >= 2 && !turns[0].sent && !turns[1].sent {
        let rest = turns.drop_first();
        assert(rest[0] == turns[1]);
        assert(stream::asks_again(rest[0], 1));
        assert(stream::repeats(rest, 1) == 1 + stream::repeats(rest.drop_first(), 2));
        assert(stream::repeats(turns, 0) == 1 + stream::repeats(rest, 1));
    }
}

/// The real count wins: where the server counted, its count is the answer, and
/// where it did not, four bytes of the messages make a token.
pub proof fn law_count_before_estimate(reply: Json, payload: Json)
    ensures
        gateway::counted(reply) is Some ==> gateway::total_of(Some(reply), payload)
            == gateway::counted(reply),
        gateway::counted(reply) is None ==> gateway::total_of(Some(reply), payload)
            == gateway::estimate_of(payload.items_at("messages"@)),
        gateway::total_of(None, payload) == gateway::estimate_of(payload.items_at("messages"@)),
{
}

/// The marks of the names that parts have.
proof fn lemma_part_names()
    ensures
        mark("text"@) == (4nat, 't', 'e', 't'),
        mark("thought"@) == (7nat, 't', 'h', 't'),
        mark("functionCall"@) == (12nat, 'f', 'u', 'l'),
{
    reveal_strlit("text");
    reveal_strlit("thought");
    reveal_strlit("functionCall");
}

/// Nothing of a call goes out before the model has finished: until then the
/// parts of a chunk are what it says, and none of them is a call.
pub proof fn law_calls_wait_for_the_end(chunk: Json, calls: Seq<CallView>)
    requires
        response::first_choice(chunk) is Some,
        response::first_choice(chunk)->0.get("delta"@) is Some,
        response::first_choice(chunk)->0.text_at("finish_reason"@) is None,
    ensures
        ({
            let delta = response::first_choice(chunk)->0.get("delta"@)->0;
            let said = response::spoken_parts(delta);
            let (after, out) = stream::gemini_step(chunk, calls);
            &&& after == stream::absorbed_all(calls, delta.items_at("tool_calls"@))
            &&& out == stream::step_response(
                if said.len() > 0 {
                    Some(response::stream_candidate(said, None))
                } else {
                    None
                },
                stream::chunk_usage(chunk),
            )
            &&& forall|i: int|
                0 <= i < said.len() ==> (#[trigger] said[i]).get("functionCall"@) is None
        }),
{
    lemma_part_names();
}

/// When the model has finished, every call that arrived goes out whole, behind
/// what the last chunk says, and none is kept.
pub proof fn law_calls_go_out_whole(chunk: Json, calls: Seq<CallView>)
    requires
        response::first_choice(chunk) is Some,
        response::first_choice(chunk)->0.get("delta"@) is Some,
        response::first_choice(chunk)->0.text_at("finish_reason"@) is Some,
    ensures
        ({
            let choice = response::first_choice(chunk)->0;
            let delta = choice.get("delta"@)->0;
            let all = stream::absorbed_all(calls, delta.items_at("tool_calls"@));
            let (after, out) = stream::gemini_step(chunk, calls);
            &&& after.len() == 0
            &&& out == stream::step_response(
                Some(
                    response::stream_candidate(
                        response::spoken_parts(delta) + stream::call_parts(all),
                        choice.text_at("finish_reason"@),
                    ),
                ),
                stream::chunk_usage(chunk),
            )
            &&& stream::call_parts(all).len() == all.len()
        }),
{
}

/// Token usage reaches the client: a chunk that reports it is rendered, with the
/// counts, whether or not it carries anything else.
pub proof fn law_usage_reaches_the_client(chunk: Json, calls: Seq<CallView>)
    requires
        stream::chunk_usage(chunk) is Some,
    ensures
        stream::gemini_step(chunk, calls).1 is Some,
        stream::gemini_step(chunk, calls).1->0.get("usageMetadata"@) == stream::chunk_usage(
            chunk,
        ),
{
}

/// It does not matter where a call is cut: two fragments of one call leave what
/// the one fragment with both argument texts leaves.
pub proof fn law_fragments_join(
    calls: Seq<CallView>,
    index: u64,
    first: Json,
    second: Json,
    whole: Json,
)
    requires
        first.text_at("arguments"@) is Some,
        second.text_at("arguments"@) is Some,
        whole.text_at("arguments"@) == Some(
            first.text_at("arguments"@)->0 + second.text_at("arguments"@)->0,
        ),
        whole.text_at("name"@) == first.text_at("name"@),
        request::text_or_empty(second.text_at("name"@)).len() == 0,
    ensures
        stream::absorbed(stream::absorbed(calls, index, first), index, second)
            == stream::absorbed(calls, index, whole),
{
    let at = stream::call_position(calls, index);
    stream::lemma_call_position(calls, index);
    let once = stream::absorbed(calls, index, first);
    let twice = stream::absorbed(once, index, second);
    let joined = stream::absorbed(calls, index, whole);
    assert forall|j: int| 0 <= j < at implies once[j].index != index by {
        assert(once[j] == calls[j]);
    }
    stream::lemma_call_position_is(once, index, at);
    assert(twice[at].arguments->0 =~= joined[at].arguments->0);
    assert(twice[at].name =~= joined[at].name);
    assert(twice =~= joined);
}

/// Calls do not mix: a fragment for one place leaves the call at every other
/// place as it is.
pub proof fn law_calls_do_not_mix(
    calls: Seq<CallView>,
    index: u64,
    other: u64,
    function: Json,
)
    requires
        index != other,
        stream::call_position(calls, other) < calls.len(),
    ensures
        ({
            let after = stream::absorbed(calls, index, function);
            let at = stream::call_position(calls, other);
            stream::call_position(after, other) == at && after[at] == calls[at]
        }),
{
    let at = stream::call_position(calls, other);
    let after = stream::absorbed(calls, index, function);
    stream::lemma_call_position(calls, index);
    stream::lemma_call_position(calls, other);
    assert forall|j: int| 0 <= j < at implies after[j].index != other by {
        assert(after[j].index == calls[j].index);
    }
    stream::lemma_call_position_is(after, other, at);
}

/// The calls that whole fragments at distinct places leave are the fragments
/// themselves.
proof fn lemma_whole_fragments(fragments: Seq<Json>)
    requires
        forall|i: int, j: int|
            0 <= i < j < fragments.len() ==> stream::fragment_index(#[trigger] fragments[i], i)
                != stream::fragment_index(#[trigger] fragments[j], j),
    ensures
        stream::absorbed_all(Seq::empty(), fragments).len() == fragments.len(),
        forall|i: int|
            0 <= i < fragments.len() ==> (#[trigger] stream::absorbed_all(
                Seq::empty(),
                fragments,
            )[i]) == stream::grown(
                CallView {
                    index: stream::fragment_index(fragments[i], i),
                    name: Seq::empty(),
                    arguments: None,
                },
                fragments[i].get_or("function"@, Json::Null),
            ),
    decreases fragments.len(),
{
    if fragments.len() > 0 {
        let front = fragments.drop_last();
        let last = fragments.len() - 1;
        assert forall|i: int, j: int| 0 <= i < j < front.len() implies stream::fragment_index(
            #[trigger] front[i],
            i,
        ) != stream::fragment_index(#[trigger] front[j], j) by {
            assert(front[i] == fragments[i]);
            assert(front[j] == fragments[j]);
        }
        lemma_whole_fragments(front);
        let before = stream::absorbed_all(Seq::empty(), front);
        let index = stream::fragment_index(fragments[last], last);
        assert forall|j: int| 0 <= j < before.len() implies before[j].index != index by {
            assert(before[j].index == stream::fragment_index(front[j], j));
            assert(front[j] == fragments[j]);
        }
        stream::lemma_call_position_is(before, index, before.len() as int);
        let all = stream::absorbed_all(Seq::empty(), fragments);
        assert forall|i: int| 0 <= i < fragments.len() implies (#[trigger] all[i])
            == stream::grown(
            CallView {
                index: stream::fragment_index(fragments[i], i),
                name: Seq::empty(),
                arguments: None,
            },
            fragments[i].get_or("function"@, Json::Null),
        ) by {
            if i < last {
                assert(all[i] == before[i]);
                assert(front[i] == fragments[i]);
            }
        }
    }
}

/// A call that arrives whole in the last chunk is rendered as a whole call is:
/// with nothing held and each call at a place of its own, holding fragments
/// changes nothing.
pub proof fn law_whole_calls_are_not_changed(chunk: Json)
    requires
        response::first_choice(chunk) is Some,
        response::first_choice(chunk)->0.get("delta"@) is Some,
        response::first_choice(chunk)->0.text_at("finish_reason"@) is Some,
        stream::chunk_usage(chunk) is None,
        ({
            let fragments = response::first_choice(chunk)->0.get("delta"@)->0.items_at(
                "tool_calls"@,
            );
            forall|i: int, j: int|
                0 <= i < j < fragments.len() ==> stream::fragment_index(
                    #[trigger] fragments[i],
                    i,
                ) != stream::fragment_index(#[trigger] fragments[j], j)
        }),
    ensures
        stream::gemini_step(chunk, Seq::empty()).1 == response::gemini_chunk(chunk),
{
    let delta = response::first_choice(chunk)->0.get("delta"@)->0;
    let fragments = delta.items_at("tool_calls"@);
    lemma_whole_fragments(fragments);
    let all = stream::absorbed_all(Seq::empty(), fragments);
    let whole = fragments.map_values(|call: Json| response::part_of_call(call));
    assert forall|i: int| 0 <= i < fragments.len() implies #[trigger] stream::call_parts(all)[i]
        == whole[i] by {
        let function = fragments[i].get_or("function"@, Json::Null);
        assert(all[i].name == request::text_or_empty(function.text_at("name"@)));
        if let Some(more) = function.text_at("arguments"@) {
            assert(Seq::<char>::empty() + more =~= more);
        }
    }
    assert(stream::call_parts(all) =~= whole);
}

// ---- The gateway ----------------------------------------------------------

/// A pinned model wins: it is what every request goes out with, whatever was
/// discovered, served or requested, and a rejection does not unpin it.
pub proof fn law_pinned_model_wins(
    names: NamesView,
    served: Option<Seq<char>>,
    requested: Seq<char>,
)
    requires
        names.pinned is Some,
    ensures
        gateway::resolved_name(names, served, requested) == names.pinned->0,
        gateway::names_after(names, served) == names,
        gateway::names_forgotten(names) == names,
{
}

/// What was found is remembered: after a request that found a model, later ones
/// go out with it and ask nothing, whatever they name and whatever is served by
/// then.
pub proof fn law_discovery_is_remembered(
    names: NamesView,
    served: Seq<char>,
    later: Option<Seq<char>>,
    requested: Seq<char>,
    again: Seq<char>,
)
    ensures
        ({
            let name = gateway::resolved_name(names, Some(served), requested);
            let after = gateway::names_after(names, Some(served));
            &&& gateway::known_name(after) == Some(name)
            &&& gateway::resolved_name(after, later, again) == name
        }),
{
}

/// A rejection leads to a fresh look: with nothing pinned, the next request goes
/// out with what the server serves then, and as it is where nothing is served.
pub proof fn law_rejection_rediscovers(
    names: NamesView,
    served: Option<Seq<char>>,
    requested: Seq<char>,
)
    requires
        names.pinned is None,
    ensures
        ({
            let cleared = gateway::names_forgotten(names);
            &&& gateway::known_name(cleared) is None
            &&& gateway::resolved_name(cleared, served, requested) == (match served {
                Some(s) => s,
                None => requested,
            })
        }),
{
}

/// A rejected request is sent again at most once, and never under the name that
/// was rejected.
pub proof fn law_rejection_is_retried_once(name: Seq<char>, fresh: Seq<char>)
    ensures
        !gateway::worth_retrying(true, name, fresh),
        gateway::worth_retrying(false, name, fresh) <==> fresh != name,
{
}

/// Errors of the client stay errors of the client, and every other rejection is
/// a gateway failure: no status that was an error is reported as a success.
pub proof fn law_client_errors_stay(upstream: u16)
    ensures
        400 <= upstream < 500 ==> gateway::client_status(upstream) == upstream,
        !(400 <= upstream < 500) ==> gateway::client_status(upstream) == 502,
        gateway::client_status(upstream) >= 400,
{
}

/// What is left out of a list of names are those among `ids`, and nothing else.
proof fn lemma_names_without(names: Seq<Seq<char>>, ids: Seq<Seq<char>>)
    ensures
        forall|x: Seq<char>|
            #![trigger gateway::names_without(names, ids).contains(x)]
            gateway::names_without(names, ids).contains(x) <==> names.contains(x) && !ids.contains(
                x,
            ),
        names.no_duplicates() ==> gateway::names_without(names, ids).no_duplicates(),
    decreases names.len(),
{
    if names.len() > 0 {
        let front = names.drop_last();
        let last = names.last();
        lemma_names_without(front, ids);
        let kept = gateway::names_without(front, ids);
        let all = gateway::names_without(names, ids);
        assert forall|x: Seq<char>| #[trigger] all.contains(x) <==> names.contains(x)
            && !ids.contains(x) by {
            assert(names.contains(x) <==> front.contains(x) || x == last) by {
                if names.contains(x) {
                    let k = choose|k: int| 0 <= k < names.len() && names[k] == x;
                    if k < front.len() {
                        assert(front[k] == x);
                    }
                }
                if front.contains(x) {
                    let k = choose|k: int| 0 <= k < front.len() && front[k] == x;
                    assert(names[k] == x);
                }
                assert(names[names.len() - 1] == last);
            }
            if ids.contains(last) {
                assert(all == kept);
            } else {
                assert(all == kept.push(last));
                assert(all.contains(x) <==> kept.contains(x) || x == last) by {
                    if all.contains(x) {
                        let k = choose|k: int| 0 <= k < all.len() && all[k] == x;
                        if k < kept.len() {
                            assert(kept[k] == x);
                        }
                    }
                    if kept.contains(x) {
                        let k = choose|k: int| 0 <= k < kept.len() && kept[k] == x;
                        assert(all[k] == x);
                    }
                    assert(all[all.len() - 1] == last);
                }
            }
            assert(kept.contains(x) <==> front.contains(x) && !ids.contains(x));
        }
        if names.no_duplicates() {
            assert(front.no_duplicates());
            if !ids.contains(last) {
                assert(!front.contains(last)) by {
                    if front.contains(last) {
                        let k = choose|k: int| 0 <= k < front.len() && front[k] == last;
                        assert(names[k] == names[names.len() - 1]);
                    }
                }
                assert(!kept.contains(last));
                assert forall|i: int, j: int|
                    0 <= i < all.len() && 0 <= j < all.len() && i != j implies all[i]
                    != all[j] by {
                    if i == kept.len() {
                        assert(kept[j] != last) by {
                            assert(kept.contains(kept[j]));
                        }
                    } else if j == kept.len() {
                        assert(kept[i] != last) by {
                            assert(kept.contains(kept[i]));
                        }
                    }
                }
            }
        }
    }
}

/// The stock names are all different.
proof fn lemma_aliases_differ()
    ensures
        gateway::aliases().no_duplicates(),
{
    reveal_strlit("gemini-3.1-flash-lite");
    reveal_strlit("gemini-3.1-flash");
    reveal_strlit("gemini-3.1-pro");
    reveal_strlit("gemini-2.5-flash-lite");
    reveal_strlit("gemini-2.5-flash");
    reveal_strlit("gemini-2.5-pro");
    let names = gateway::aliases();
    assert(names[0].len() == 21 && names[0][7] == '3');
    assert(names[1].len() == 16 && names[1][7] == '3');
    assert(names[2].len() == 14 && names[2][7] == '3');
    assert(names[3].len() == 21 && names[3][7] == '2');
    assert(names[4].len() == 16 && names[4][7] == '2');
    assert(names[5].len() == 14 && names[5][7] == '2');
}

/// The listing has the real models first and in the order of the server, then
/// stock names; every stock name is advertised, and none twice.
pub proof fn law_real_models_first_then_aliases(ids: Seq<Seq<char>>)
    ensures
        gateway::advertised(ids).take(ids.len() as int) == ids,
        forall|x: Seq<char>|
            gateway::advertised(ids).contains(x) <==> ids.contains(x)
                || gateway::aliases().contains(x),
        ids.no_duplicates() ==> gateway::advertised(ids).no_duplicates(),
{
    let extra = gateway::names_without(gateway::aliases(), ids);
    let all = gateway::advertised(ids);
    lemma_names_without(gateway::aliases(), ids);
    lemma_aliases_differ();
    assert(all.take(ids.len() as int) =~= ids);
    assert forall|x: Seq<char>| all.contains(x) <==> ids.contains(x)
        || gateway::aliases().contains(x) by {
        assert(all.contains(x) <==> ids.contains(x) || extra.contains(x)) by {
            if all.contains(x) {
                let k = choose|k: int| 0 <= k < all.len() && all[k] == x;
                if k < ids.len() {
                    assert(ids[k] == x);
                } else {
                    assert(extra[k - ids.len()] == x);
                }
            }
            if ids.contains(x) {
                let k = choose|k: int| 0 <= k < ids.len() && ids[k] == x;
                assert(all[k] == x);
            }
            if extra.contains(x) {
                let k = choose|k: int| 0 <= k < extra.len() && extra[k] == x;
                assert(all[ids.len() + k] == x);
            }
        }
    }
    if ids.no_duplicates() {
        assert forall|i: int, j: int|
            0 <= i < all.len() && 0 <= j < all.len() && i != j implies all[i] != all[j] by {
            if i < ids.len() && j >= ids.len() {
                assert(ids.contains(ids[i]));
                assert(extra.contains(extra[j - ids.len()]));
            } else if j < ids.len() && i >= ids.len() {
                assert(ids.contains(ids[j]));
                assert(extra.contains(extra[i - ids.len()]));
            } else if i >= ids.len() && j >= ids.len() {
                assert(extra[i - ids.len()] != extra[j - ids.len()]);
            }
        }
    }
}

/// An OpenAI request that passes through goes to the model that is served, and
/// nothing else about it changes.
pub proof fn law_passthrough_changes_the_model_alone(body: Json, model: Seq<char>, key: Seq<char>)
    requires
        body is Object,
    ensures
        gateway::for_model(body, model).text_at("model"@) == Some(model),
        key != "model"@ ==> gateway::for_model(body, model).get(key) == body.get(key),
{
}

} // verus!
