//! What each piece of an answer becomes.

use crate::laws;
use crate::request;
use crate::response;
use crate::value::{self, Json};
use crate::wire;
use vstd::prelude::*;

verus! {

/// The marks of the names in answers.
proof fn lemma_answer_names()
    ensures
        laws::mark("text"@) == (4nat, 't', 'e', 't'),
        laws::mark("thought"@) == (7nat, 't', 'h', 't'),
        laws::mark("name"@) == (4nat, 'n', 'a', 'e'),
        laws::mark("args"@) == (4nat, 'a', 'r', 's'),
        laws::mark("role"@) == (4nat, 'r', 'o', 'e'),
        laws::mark("parts"@) == (5nat, 'p', 'a', 's'),
        laws::mark("content"@) == (7nat, 'c', 'o', 't'),
        laws::mark("finishReason"@) == (12nat, 'f', 'i', 'n'),
        laws::mark("index"@) == (5nat, 'i', 'n', 'x'),
        laws::mark("promptTokenCount"@) == (16nat, 'p', 'r', 't'),
        laws::mark("candidatesTokenCount"@) == (20nat, 'c', 'a', 't'),
        laws::mark("totalTokenCount"@) == (15nat, 't', 'o', 't'),
        laws::mark("candidates"@) == (10nat, 'c', 'a', 's'),
        laws::mark("usageMetadata"@) == (13nat, 'u', 's', 'a'),
        laws::mark("modelVersion"@) == (12nat, 'm', 'o', 'n'),
        laws::mark("stop"@) == (4nat, 's', 't', 'p'),
        laws::mark("length"@) == (6nat, 'l', 'e', 'h'),
        laws::mark("tool_calls"@) == (10nat, 't', 'o', 's'),
{
    reveal_strlit("text");
    reveal_strlit("thought");
    reveal_strlit("name");
    reveal_strlit("args");
    reveal_strlit("role");
    reveal_strlit("parts");
    reveal_strlit("content");
    reveal_strlit("finishReason");
    reveal_strlit("index");
    reveal_strlit("promptTokenCount");
    reveal_strlit("candidatesTokenCount");
    reveal_strlit("totalTokenCount");
    reveal_strlit("candidates");
    reveal_strlit("usageMetadata");
    reveal_strlit("modelVersion");
    reveal_strlit("stop");
    reveal_strlit("length");
    reveal_strlit("tool_calls");
}

/// Arguments that are JSON are read, others are kept raw, missing ones are none:
/// no call loses its arguments.
pub proof fn law_arguments(s: Seq<char>)
    ensures
        wire::json_parsed(s) is Some ==> Some(response::arguments_of(Some(s)))
            == wire::json_parsed(s),
        wire::json_parsed(s) is None ==> laws::has_exactly(
            response::arguments_of(Some(s)),
            set!["_raw"@],
        ) && response::arguments_of(Some(s)).get("_raw"@) == Some(Json::Str(s)),
        laws::has_exactly(response::arguments_of(None), Set::empty()),
{
    if wire::json_parsed(s) is None {
        assert(response::arguments_of(Some(s))->Object_0.dom() =~= set!["_raw"@]);
    }
    assert(response::arguments_of(None)->Object_0.dom() =~= Set::<Seq<char>>::empty());
}

/// Whether `part` is the call of the function `name` with `args`, and nothing else.
pub open spec fn is_call(part: Json, name: Seq<char>, args: Json) -> bool {
    &&& laws::has_exactly(part, set!["functionCall"@])
    &&& part.get("functionCall"@) is Some
    &&& laws::has_exactly(part.get("functionCall"@)->0, set!["name"@, "args"@])
    &&& part.get("functionCall"@)->0.get("name"@) == Some(Json::Str(name))
    &&& part.get("functionCall"@)->0.get("args"@) == Some(args)
}

/// The part made for a call is a call.
pub proof fn lemma_is_call(name: Seq<char>, args: Json)
    ensures
        is_call(response::part_with_args(name, args), name, args),
{
    lemma_answer_names();
    let part = response::part_with_args(name, args);
    assert(part->Object_0.dom() =~= set!["functionCall"@]);
    assert(part.get("functionCall"@)->0->Object_0.dom() =~= set!["name"@, "args"@]);
}

/// A call of the server becomes a call of the same function with the arguments
/// that its text stands for.
pub proof fn law_one_call(call: Json, function: Json, name: Seq<char>, s: Seq<char>)
    requires
        call.get("function"@) == Some(function),
    ensures
        function.text_at("name"@) == Some(name) && function.text_at("arguments"@) == Some(s)
            ==> is_call(response::part_of_call(call), name, response::arguments_of(Some(s))),
        function.text_at("name"@) == Some(name) && function.text_at("arguments"@) is None
            ==> is_call(response::part_of_call(call), name, Json::Object(Map::empty())),
        function.text_at("name"@) is None && function.text_at("arguments"@) == Some(s)
            ==> is_call(
            response::part_of_call(call),
            Seq::empty(),
            response::arguments_of(Some(s)),
        ),
        function.text_at("name"@) is None && function.text_at("arguments"@) is None ==> is_call(
            response::part_of_call(call),
            Seq::empty(),
            Json::Object(Map::empty()),
        ),
{
    let named = request::text_or_empty(function.text_at("name"@));
    lemma_is_call(named, response::arguments_of(function.text_at("arguments"@)));
}

/// An entry without a function is kept as a call without a name and arguments.
pub proof fn law_call_without_function(call: Json)
    requires
        call.get("function"@) is None,
    ensures
        is_call(response::part_of_call(call), Seq::empty(), Json::Object(Map::empty())),
{
    lemma_is_call(Seq::empty(), Json::Object(Map::empty()));
}

/// Whether `part` shows the text `t` and nothing else, as a thought or not.
pub open spec fn shows(part: Json, t: Seq<char>, thought: bool) -> bool {
    &&& part.get("text"@) == Some(Json::Str(t))
    &&& thought ==> laws::has_exactly(part, set!["text"@, "thought"@]) && part.get("thought"@)
        == Some(Json::Bool(true))
    &&& !thought ==> laws::has_exactly(part, set!["text"@])
}

/// The length of the text of a member, zero where it has none.
pub open spec fn said(msg: Json, key: Seq<char>) -> nat {
    match msg.text_at(key) {
        Some(t) => t.len(),
        None => 0,
    }
}

/// One for a text that is there and not empty, else none.
pub open spec fn one_if(said: nat) -> int {
    if said > 0 {
        1
    } else {
        0
    }
}

/// What a message says is kept whatever else it has: its reasoning under either
/// name as thoughts, then its answer, one part for each that is not empty, in
/// this order and with nothing else among them.
pub proof fn law_everything_said_is_kept(msg: Json)
    ensures
        ({
            let parts = response::spoken_parts(msg);
            let first = said(msg, "reasoning_content"@);
            let second = said(msg, "reasoning"@);
            let last = said(msg, "content"@);
            &&& parts.len() == one_if(first) + one_if(second) + one_if(last)
            &&& first > 0 ==> shows(parts[0], msg.text_at("reasoning_content"@)->0, true)
            &&& second > 0 ==> shows(
                parts[one_if(first)],
                msg.text_at("reasoning"@)->0,
                true,
            )
            &&& last > 0 ==> shows(
                parts[one_if(first) + one_if(second)],
                msg.text_at("content"@)->0,
                false,
            )
        }),
{
    lemma_answer_names();
    lemma_text_part(msg.text_at("reasoning_content"@), true);
    lemma_text_part(msg.text_at("reasoning"@), true);
    lemma_text_part(msg.text_at("content"@), false);
}

/// The part for a text shows it.
proof fn lemma_text_part(t: Option<Seq<char>>, thought: bool)
    ensures
        ({
            let parts = response::text_part(t, thought);
            &&& (t is Some && t->0.len() > 0) ==> parts.len() == 1 && shows(
                parts[0],
                t->0,
                thought,
            )
            &&& (t is None || t->0.len() == 0) ==> parts.len() == 0
        }),
{
    lemma_answer_names();
    if t is Some && t->0.len() > 0 {
        let m = response::text_part(t, thought)[0]->Object_0;
        if thought {
            assert(m.dom() =~= set!["text"@, "thought"@]);
        } else {
            assert(m.dom() =~= set!["text"@]);
        }
    }
}

/// The parts of a message are what it says, then its calls: reasoning under the
/// second name stands behind that under the first, before the answer and the
/// calls, whether or not there are any.
pub proof fn law_reasoning_under_either_name(msg: Json)
    requires
        said(msg, "reasoning"@) > 0,
    ensures
        ({
            let parts = response::message_parts(msg);
            let at = one_if(said(msg, "reasoning_content"@));
            &&& at < parts.len()
            &&& shows(parts[at], msg.text_at("reasoning"@)->0, true)
        }),
{
    law_everything_said_is_kept(msg);
}

/// The reasons to end are named as Gemini names them; one that it has no name for
/// stays as it is.
pub proof fn law_reasons_to_end(f: Seq<char>)
    ensures
        response::finish_name(None) == "STOP"@,
        response::finish_name(Some("stop"@)) == "STOP"@,
        response::finish_name(Some("tool_calls"@)) == "STOP"@,
        response::finish_name(Some("length"@)) == "MAX_TOKENS"@,
        f != "stop"@ && f != "tool_calls"@ && f != "length"@ ==> response::finish_name(Some(f))
            == f,
        response::stream_finish_name("length"@) == "MAX_TOKENS"@,
        f != "length"@ ==> response::stream_finish_name(f) == "STOP"@,
{
    lemma_answer_names();
}

/// Whether `content` is the model's, with these parts.
pub open spec fn is_content(content: Json, parts: Seq<Json>) -> bool {
    &&& laws::has_exactly(content, set!["role"@, "parts"@])
    &&& content.get("role"@) == Some(Json::Str("model"@))
    &&& content.get("parts"@) == Some(Json::Array(parts))
}

/// The content made of parts is the model's.
proof fn lemma_content(parts: Seq<Json>)
    ensures
        is_content(response::model_content(parts), parts),
{
    lemma_answer_names();
    assert(response::model_content(parts)->Object_0.dom() =~= set!["role"@, "parts"@]);
}

/// The candidate of a message has its parts, the reason to end, and the index zero.
pub proof fn law_candidate(msg: Json, finish: Option<Seq<char>>)
    ensures
        ({
            let c = response::candidate_of(msg, finish);
            &&& laws::has_exactly(c, set!["content"@, "finishReason"@, "index"@])
            &&& c.get("content"@) is Some
            &&& is_content(c.get("content"@)->0, response::message_parts(msg))
            &&& c.get("finishReason"@) == Some(Json::Str(response::finish_name(finish)))
            &&& c.get("index"@) == Some(value::json_u64(0))
        }),
{
    lemma_answer_names();
    lemma_content(response::message_parts(msg));
    let c = response::candidate_of(msg, finish);
    assert(c->Object_0.dom() =~= set!["content"@, "finishReason"@, "index"@]);
}

/// The candidate of a streamed step has its parts and the index zero, and a reason
/// to end exactly where the step ends the answer.
pub proof fn law_streamed_candidate(parts: Seq<Json>, f: Seq<char>)
    ensures
        ({
            let going = response::stream_candidate(parts, None);
            let ending = response::stream_candidate(parts, Some(f));
            &&& laws::has_exactly(going, set!["content"@, "index"@])
            &&& is_content(going.get("content"@)->0, parts)
            &&& going.get("index"@) == Some(value::json_u64(0))
            &&& laws::has_exactly(ending, set!["content"@, "index"@, "finishReason"@])
            &&& is_content(ending.get("content"@)->0, parts)
            &&& ending.get("index"@) == Some(value::json_u64(0))
            &&& ending.get("finishReason"@) == Some(Json::Str(response::stream_finish_name(f)))
        }),
{
    lemma_answer_names();
    lemma_content(parts);
    assert(response::stream_candidate(parts, None)->Object_0.dom() =~= set![
        "content"@,
        "index"@,
    ]);
    assert(response::stream_candidate(parts, Some(f))->Object_0.dom() =~= set![
        "content"@,
        "index"@,
        "finishReason"@,
    ]);
}

/// The first choice counts, and there is one exactly where the choices are a list
/// that is not empty.
pub proof fn law_first_choice(resp: Json, choices: Seq<Json>, c: Json)
    ensures
        resp.get("choices"@) == Some(Json::Array(choices)) && choices.len() > 0
            ==> response::first_choice(resp) == Some(choices[0]),
        response::first_choice(resp) == Some(c) ==> resp.get("choices"@) is Some && resp.get(
            "choices"@,
        )->0 is Array && resp.get("choices"@)->0->Array_0.len() > 0,
{
}

/// The counts of usage are handed on under their Gemini names, zero for one that
/// is missing.
pub proof fn law_usage_counts(usage: Json)
    ensures
        ({
            let out = response::usage_metadata(usage);
            &&& laws::has_exactly(
                out,
                set!["promptTokenCount"@, "candidatesTokenCount"@, "totalTokenCount"@],
            )
            &&& usage.get("prompt_tokens"@) is Some ==> out.get("promptTokenCount"@)
                == usage.get("prompt_tokens"@)
            &&& usage.get("completion_tokens"@) is Some ==> out.get("candidatesTokenCount"@)
                == usage.get("completion_tokens"@)
            &&& usage.get("total_tokens"@) is Some ==> out.get("totalTokenCount"@) == usage.get(
                "total_tokens"@,
            )
            &&& usage.get("prompt_tokens"@) is None ==> out.get("promptTokenCount"@) == Some(
                value::json_u64(0),
            )
            &&& usage.get("completion_tokens"@) is None ==> out.get("candidatesTokenCount"@)
                == Some(value::json_u64(0))
            &&& usage.get("total_tokens"@) is None ==> out.get("totalTokenCount"@) == Some(
                value::json_u64(0),
            )
        }),
{
    lemma_answer_names();
    assert(response::usage_metadata(usage)->Object_0.dom() =~= set![
        "promptTokenCount"@,
        "candidatesTokenCount"@,
        "totalTokenCount"@,
    ]);
}

/// A completion becomes one candidate for the message of its first choice, the
/// counts of its usage, and the name of its model; what is missing is taken as
/// `null`.
pub proof fn law_completion(resp: Json, choice: Json, msg: Json)
    requires
        response::first_choice(resp) == Some(choice) || response::first_choice(resp) is None
            && choice is Null,
        choice.get("message"@) == Some(msg) || choice.get("message"@) is None && msg is Null,
    ensures
        ({
            let out = response::gemini_response(resp);
            &&& laws::has_exactly(out, set!["candidates"@, "usageMetadata"@, "modelVersion"@])
            &&& out.items_at("candidates"@).len() == 1
            &&& out.items_at("candidates"@)[0] == response::candidate_of(
                msg,
                choice.text_at("finish_reason"@),
            )
            &&& resp.get("usage"@) is Some ==> out.get("usageMetadata"@) == Some(
                response::usage_metadata(resp.get("usage"@)->0),
            )
            &&& resp.get("usage"@) is None ==> out.get("usageMetadata"@) == Some(
                response::usage_metadata(Json::Null),
            )
            &&& resp.get("model"@) is Some ==> out.get("modelVersion"@) == resp.get("model"@)
            &&& resp.get("model"@) is None ==> out.get("modelVersion"@) == Some(Json::Null)
        }),
{
    lemma_answer_names();
    let out = response::gemini_response(resp);
    assert(out->Object_0.dom() =~= set!["candidates"@, "usageMetadata"@, "modelVersion"@]);
}

/// A chunk is rendered exactly where its delta says or calls something, or ends
/// the answer; what is rendered is one candidate with all of it.
pub proof fn law_chunk(chunk: Json, choice: Json, delta: Json)
    requires
        response::first_choice(chunk) == Some(choice),
        choice.get("delta"@) == Some(delta),
    ensures
        ({
            let out = response::gemini_chunk(chunk);
            let silent = said(delta, "reasoning_content"@) == 0 && said(delta, "reasoning"@) == 0
                && said(delta, "content"@) == 0 && delta.items_at("tool_calls"@).len() == 0;
            &&& out is None <==> silent && choice.text_at("finish_reason"@) is None
            &&& out is Some ==> {
                &&& laws::has_exactly(out->0, set!["candidates"@])
                &&& out->0.items_at("candidates"@).len() == 1
                &&& out->0.items_at("candidates"@)[0] == response::stream_candidate(
                    response::message_parts(delta),
                    choice.text_at("finish_reason"@),
                )
            }
        }),
{
    law_everything_said_is_kept(delta);
    laws::law_calls_follow_the_answer(delta);
    if response::gemini_chunk(chunk) is Some {
        assert(response::gemini_chunk(chunk)->0->Object_0.dom() =~= set!["candidates"@]);
    }
}

/// A chunk without a choice, or whose choice has no delta, is not rendered.
pub proof fn law_chunk_without_delta(chunk: Json)
    requires
        response::first_choice(chunk) is Some ==> response::first_choice(chunk)->0.get(
            "delta"@,
        ) is None,
    ensures
        response::gemini_chunk(chunk) is None,
{
}

} // verus!
