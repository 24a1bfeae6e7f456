//! What becomes of a streamed answer, piece by piece.

use crate::laws;
use crate::laws::answers;
use crate::laws::texts;
use crate::response;
use crate::stream::{self, CallView, PendingCall, StreamTurn, TurnView};
use crate::text;
use crate::value::Json;
use crate::wire;
use vstd::prelude::*;

verus! {

/// Whether `name` and `arguments` are what the fragment `function` says.
pub open spec fn is_said(function: Json, name: Seq<char>, arguments: Option<Seq<char>>) -> bool {
    &&& function.text_at("name"@) is Some ==> function.text_at("name"@) == Some(name)
    &&& function.text_at("name"@) is None ==> name.len() == 0
    &&& function.text_at("arguments"@) == arguments
}

/// A fragment for a place that no call has opens a call there, behind the others,
/// with what the fragment says.
pub proof fn law_new_place_opens_a_call(calls: Seq<CallView>, index: u64, function: Json)
    requires
        forall|j: int| 0 <= j < calls.len() ==> (#[trigger] calls[j]).index != index,
    ensures
        ({
            let after = stream::absorbed(calls, index, function);
            &&& after.len() == calls.len() + 1
            &&& after.take(calls.len() as int) == calls
            &&& after.last().index == index
            &&& is_said(function, after.last().name, after.last().arguments)
        }),
{
    stream::lemma_call_position_is(calls, index, calls.len() as int);
    let after = stream::absorbed(calls, index, function);
    assert(after.take(calls.len() as int) =~= calls);
    if let Some(more) = function.text_at("arguments"@) {
        assert(Seq::<char>::empty() + more =~= more);
    }
}

/// A fragment for a place that a call has goes to that call alone: the name that
/// it has stays, the one that it lacks is taken, and argument text is put behind
/// what there is.
pub proof fn law_known_place_goes_on(calls: Seq<CallView>, index: u64, function: Json, at: int)
    requires
        0 <= at < calls.len(),
        calls[at].index == index,
        forall|j: int| 0 <= j < at ==> (#[trigger] calls[j]).index != index,
    ensures
        ({
            let after = stream::absorbed(calls, index, function);
            let more = function.text_at("arguments"@);
            &&& after.len() == calls.len()
            &&& forall|j: int|
                0 <= j < calls.len() && j != at ==> #[trigger] after[j] == calls[j]
            &&& after[at].index == index
            &&& calls[at].name.len() > 0 ==> after[at].name == calls[at].name
            &&& calls[at].name.len() == 0 ==> is_said(function, after[at].name, more)
            &&& more is None ==> after[at].arguments == calls[at].arguments
            &&& more is Some && calls[at].arguments is None ==> after[at].arguments == more
            &&& more is Some && calls[at].arguments is Some ==> after[at].arguments == Some(
                calls[at].arguments->0 + more->0,
            )
        }),
{
    stream::lemma_call_position_is(calls, index, at);
    if let Some(more) = function.text_at("arguments"@) {
        assert(Seq::<char>::empty() + more =~= more);
    }
}

/// A fragment goes to the place that it names, and to its place in the list where
/// it names none.
pub proof fn law_places_of_fragments(fragment: Json, place: int, n: u64)
    ensures
        fragment.get("index"@) is Some && fragment.get("index"@)->0.unsigned() == Some(n)
            ==> stream::fragment_index(fragment, place) == n,
        (fragment.get("index"@) is None || fragment.get("index"@)->0.unsigned() is None) && 0
            <= place <= u64::MAX ==> stream::fragment_index(fragment, place) == place,
{
}

/// Whether each of these fragments names its place.
pub open spec fn all_placed(fragments: Seq<Json>) -> bool {
    forall|i: int|
        0 <= i < fragments.len() ==> (#[trigger] fragments[i]).get("index"@) is Some
            && fragments[i].get("index"@)->0.unsigned() is Some
}

/// Fragments carry over: no fragments change nothing, one goes to its place, and
/// fragments that arrive in two lists leave what they leave in one.
pub proof fn law_fragments_carry_over(calls: Seq<CallView>, a: Seq<Json>, b: Seq<Json>)
    requires
        all_placed(b),
    ensures
        stream::absorbed_all(calls, Seq::empty()) == calls,
        stream::absorbed_all(stream::absorbed_all(calls, a), b) == stream::absorbed_all(
            calls,
            a + b,
        ),
    decreases b.len(),
{
    if b.len() == 0 {
        assert(a + b =~= a);
    } else {
        let front = b.drop_last();
        assert forall|i: int| 0 <= i < front.len() implies (#[trigger] front[i]).get(
            "index"@,
        ) is Some && front[i].get("index"@)->0.unsigned() is Some by {
            assert(front[i] == b[i]);
        }
        law_fragments_carry_over(calls, a, front);
        assert((a + b).drop_last() =~= a + front);
        assert((a + b).last() == b.last());
        assert(b.last() == b[b.len() - 1]);
    }
}

/// One fragment goes to its place.
pub proof fn law_one_fragment(calls: Seq<CallView>, fragment: Json, function: Json)
    requires
        fragment.get("function"@) == Some(function) || fragment.get("function"@) is None
            && function is Null,
    ensures
        stream::absorbed_all(calls, seq![fragment]) == stream::absorbed(
            calls,
            stream::fragment_index(fragment, 0),
            function,
        ),
{
    assert(seq![fragment].drop_last() =~= Seq::<Json>::empty());
    assert(stream::absorbed_all(calls, Seq::<Json>::empty()) == calls);
}

/// Whether `after` is the call `before`, possibly further on: at the same place,
/// with the name that it had, and with its argument text at the front.
pub open spec fn goes_on(before: CallView, after: CallView) -> bool {
    &&& after.index == before.index
    &&& before.name.len() > 0 ==> after.name == before.name
    &&& before.arguments is Some ==> after.arguments is Some
        && before.arguments->0.is_prefix_of(after.arguments->0)
}

/// No call that is held is lost: whatever fragments arrive, every call is still
/// held at its position, with its name kept and its arguments only extended.
pub proof fn law_held_calls_stay(calls: Seq<CallView>, fragments: Seq<Json>, p: int)
    requires
        0 <= p < calls.len(),
    ensures
        stream::absorbed_all(calls, fragments).len() >= calls.len(),
        goes_on(calls[p], stream::absorbed_all(calls, fragments)[p]),
    decreases fragments.len(),
{
    if fragments.len() > 0 {
        law_held_calls_stay(calls, fragments.drop_last(), p);
        let before = stream::absorbed_all(calls, fragments.drop_last());
        let index = stream::fragment_index(fragments.last(), fragments.len() - 1);
        let function = fragments.last().get_or("function"@, Json::Null);
        stream::lemma_call_position(before, index);
        let after = stream::absorbed(before, index, function);
        assert(goes_on(before[p], after[p])) by {
            if let (Some(x), Some(y)) = (before[p].arguments, after[p].arguments) {
                assert(x.is_prefix_of(y));
            }
        }
        if let Some(x) = calls[p].arguments {
            let y = before[p].arguments->0;
            let z = after[p].arguments->0;
            assert(z.take(x.len() as int) =~= y.take(x.len() as int));
            assert(x.is_prefix_of(z));
        }
    }
}

/// A held call becomes a call of its function with the arguments that its text
/// stands for, one part for each and in order.
pub proof fn law_held_calls_become_parts(calls: Seq<CallView>, i: int)
    requires
        0 <= i < calls.len(),
    ensures
        stream::call_parts(calls).len() == calls.len(),
        calls[i].arguments is Some ==> answers::is_call(
            stream::call_parts(calls)[i],
            calls[i].name,
            response::arguments_of(calls[i].arguments),
        ),
        calls[i].arguments is None ==> answers::is_call(
            stream::call_parts(calls)[i],
            calls[i].name,
            Json::Object(Map::empty()),
        ),
{
    answers::lemma_is_call(calls[i].name, response::arguments_of(calls[i].arguments));
}

/// The parts of the one candidate of a streamed response.
pub open spec fn parts_of(out: Json) -> Seq<Json> {
    out.items_at("candidates"@)[0].get_or("content"@, Json::Null).items_at("parts"@)
}

/// A chunk that brings no fragments and does not end the answer keeps every held
/// call as it is; one that ends it emits them all, whole and in order, behind what
/// it says, and with its reason to end.
pub proof fn law_held_calls_are_kept_or_emitted(
    chunk: Json,
    choice: Json,
    delta: Json,
    calls: Seq<CallView>,
    i: int,
)
    requires
        response::first_choice(chunk) == Some(choice),
        choice.get("delta"@) == Some(delta),
        delta.items_at("tool_calls"@).len() == 0,
        0 <= i < calls.len(),
    ensures
        ({
            let (after, out) = stream::gemini_step(chunk, calls);
            let said = response::spoken_parts(delta);
            &&& choice.text_at("finish_reason"@) is None ==> after == calls
            &&& choice.text_at("finish_reason"@) is Some ==> {
                &&& after.len() == 0
                &&& out is Some
                &&& out->0.items_at("candidates"@).len() == 1
                &&& parts_of(out->0).len() == said.len() + calls.len()
                &&& parts_of(out->0).take(said.len() as int) == said
                &&& answers::is_call(
                    parts_of(out->0)[said.len() + i],
                    calls[i].name,
                    response::arguments_of(calls[i].arguments),
                )
                &&& out->0.items_at("candidates"@)[0].get("finishReason"@) == Some(
                    Json::Str(
                        response::stream_finish_name(choice.text_at("finish_reason"@)->0),
                    ),
                )
            }
        }),
{
    assert(delta.items_at("tool_calls"@) =~= Seq::<Json>::empty());
    law_fragments_carry_over(calls, Seq::empty(), Seq::empty());
    law_held_calls_become_parts(calls, i);
    let said = response::spoken_parts(delta);
    let all = said + stream::call_parts(calls);
    if let Some(f) = choice.text_at("finish_reason"@) {
        answers::law_streamed_candidate(all, f);
        reveal_strlit("candidates");
        reveal_strlit("usageMetadata");
        assert("candidates"@.len() != "usageMetadata"@.len());
        let out = stream::gemini_step(chunk, calls).1->0;
        assert(out.items_at("candidates"@) =~= seq![response::stream_candidate(all, Some(f))]);
        assert(parts_of(out) == all);
        assert(all.take(said.len() as int) =~= said);
    }
}

/// A chunk without a delta holds and emits no calls: those held stay, and it is
/// rendered for its usage alone.
pub proof fn law_chunk_without_delta_keeps_calls(chunk: Json, calls: Seq<CallView>)
    requires
        response::first_choice(chunk) is Some ==> response::first_choice(chunk)->0.get(
            "delta"@,
        ) is None,
    ensures
        stream::gemini_step(chunk, calls).0 == calls,
        stream::gemini_step(chunk, calls).1 is Some <==> stream::chunk_usage(chunk) is Some,
        stream::gemini_step(chunk, calls).1 is Some ==> laws::has_exactly(
            stream::gemini_step(chunk, calls).1->0,
            set!["usageMetadata"@],
        ),
{
    if let Some(out) = stream::gemini_step(chunk, calls).1 {
        assert(out->Object_0.dom() =~= set!["usageMetadata"@]);
    }
}

/// Text is shown at once: what the delta of a chunk says is in its response, in a
/// candidate that ends nothing, though calls are held.
pub proof fn law_text_is_shown_at_once(
    chunk: Json,
    choice: Json,
    delta: Json,
    calls: Seq<CallView>,
)
    requires
        response::first_choice(chunk) == Some(choice),
        choice.get("delta"@) == Some(delta),
        choice.text_at("finish_reason"@) is None,
        response::spoken_parts(delta).len() > 0,
    ensures
        ({
            let out = stream::gemini_step(chunk, calls).1;
            &&& out is Some
            &&& out->0.items_at("candidates"@).len() == 1
            &&& parts_of(out->0) == response::spoken_parts(delta)
            &&& out->0.items_at("candidates"@)[0].get("finishReason"@) is None
        }),
{
    let said = response::spoken_parts(delta);
    reveal_strlit("candidates");
    reveal_strlit("usageMetadata");
    assert("candidates"@.len() != "usageMetadata"@.len());
    reveal_strlit("content");
    reveal_strlit("index");
    reveal_strlit("finishReason");
    answers::law_streamed_candidate(said, Seq::empty());
    let out = stream::gemini_step(chunk, calls).1->0;
    assert(out.items_at("candidates"@) =~= seq![response::stream_candidate(said, None)]);
    let candidate = response::stream_candidate(said, None);
    assert(!set!["content"@, "index"@].contains("finishReason"@));
    assert(!candidate->Object_0.dom().contains("finishReason"@));
}

/// Usage is reported by a chunk exactly where its usage is an object.
pub proof fn law_usage_of_a_chunk(chunk: Json)
    ensures
        chunk.get("usage"@) is Some && chunk.get("usage"@)->0 is Object ==> stream::chunk_usage(
            chunk,
        ) == Some(response::usage_metadata(chunk.get("usage"@)->0)),
        stream::chunk_usage(chunk) is Some ==> chunk.get("usage"@) is Some && chunk.get(
            "usage"@,
        )->0 is Object,
{
}

/// A streamed response has the candidate and the usage that there are, and there
/// is none where there is neither.
pub proof fn law_streamed_response(candidate: Json, usage: Json)
    ensures
        stream::step_response(None, None) is None,
        laws::has_exactly(
            stream::step_response(Some(candidate), Some(usage))->0,
            set!["candidates"@, "usageMetadata"@],
        ),
        stream::step_response(Some(candidate), Some(usage))->0.get("candidates"@) == Some(
            Json::Array(seq![candidate]),
        ),
        stream::step_response(Some(candidate), Some(usage))->0.get("usageMetadata"@) == Some(
            usage,
        ),
        laws::has_exactly(
            stream::step_response(Some(candidate), None)->0,
            set!["candidates"@],
        ),
        stream::step_response(Some(candidate), None)->0.get("candidates"@) == Some(
            Json::Array(seq![candidate]),
        ),
        laws::has_exactly(stream::step_response(None, Some(usage))->0, set!["usageMetadata"@]),
        stream::step_response(None, Some(usage))->0.get("usageMetadata"@) == Some(usage),
{
    reveal_strlit("candidates");
    reveal_strlit("usageMetadata");
    assert("candidates"@.len() != "usageMetadata"@.len());
    assert(stream::step_response(Some(candidate), Some(usage))->0->Object_0.dom() =~= set![
        "candidates"@,
        "usageMetadata"@,
    ]);
    assert(stream::step_response(Some(candidate), None)->0->Object_0.dom() =~= set![
        "candidates"@,
    ]);
    assert(stream::step_response(None, Some(usage))->0->Object_0.dom() =~= set![
        "usageMetadata"@,
    ]);
}

/// A document on a `data:` line is read, with or without a blank before it and a
/// carriage return behind it.
pub proof fn law_documents_are_read(doc: Seq<char>)
    requires
        doc.len() > 0,
        !text::white_space(doc[0]),
        !text::white_space(doc.last()),
    ensures
        stream::line_payload("data:"@ + doc) == Some(doc),
        stream::line_payload("data: "@ + doc) == Some(doc),
        stream::line_payload(("data: "@ + doc).push('\r')) == Some(doc),
{
    reveal_strlit("data:");
    reveal_strlit("data: ");
    let tight = "data:"@ + doc;
    let wide = "data: "@ + doc;
    let blank = seq![' '] + doc;
    assert(wide =~= "data:"@ + blank);
    assert(tight.last() == doc.last());
    assert(wide.last() == doc.last());
    texts::law_trimmed_stays(tight);
    texts::law_trimmed_stays(wide);
    texts::law_trimmed_stays(doc);
    texts::law_prefix_comes_off(tight, "data:"@, doc);
    texts::law_prefix_comes_off(wide, "data:"@, blank);
    assert(blank.drop_first() =~= doc);
    assert(text::trim_front(blank) == text::trim_front(doc));
    assert(text::trim_text(blank) == doc);
    let line = wide.push('\r');
    assert(line[0] == 'd');
    assert(text::trim_front(line) == line);
    assert(line.drop_last() =~= wide);
    assert(text::trim_text(line) == wide);
}

/// A line that is not a `data:` line, or has nothing behind it but white space,
/// carries no document; and what is read is never empty nor has white space at
/// its ends.
pub proof fn law_other_lines_carry_nothing(line: Seq<char>)
    ensures
        text::after_prefix(text::trim_text(line), "data:"@) is None ==> stream::line_payload(
            line,
        ) is None,
        stream::line_payload(line) is Some ==> stream::line_payload(line)->0.len() > 0
            && !text::white_space(stream::line_payload(line)->0[0]) && !text::white_space(
            stream::line_payload(line)->0.last(),
        ),
{
    if let Some(rest) = text::after_prefix(text::trim_text(line), "data:"@) {
        let ends = texts::law_trimming_leaves_the_middle(rest);
        let doc = text::trim_text(rest);
        if doc.len() > 0 {
            assert(doc[0] == rest[ends.0]);
            assert(doc.last() == rest[ends.1 - 1]);
        }
    }
}

/// An event is the JSON text with a `data: ` before it and a blank line behind it.
pub proof fn law_frames(json: Seq<char>)
    ensures
        ({
            let event = stream::event_frame(json);
            let n: int = json.len() as int;
            &&& event.len() == n + 8
            &&& event.take(6) == "data: "@
            &&& event.subrange(6, 6 + n) == json
            &&& event[6 + n] == '\n'
            &&& event[7 + n] == '\n'
        }),
{
    reveal_strlit("data: ");
    reveal_strlit("\n\n");
    let event = stream::event_frame(json);
    let n: int = json.len() as int;
    assert(event.take(6) =~= "data: "@);
    assert(event.subrange(6, 6 + n) =~= json);
}

/// Framed events are one line each: a `data: ` line, and the blank line behind it.
pub proof fn law_framed_events(events: Seq<Seq<char>>, i: int)
    requires
        stream::all_framed(events),
        0 <= i < events.len(),
    ensures
        events[i].len() >= 8,
        events[i].take(6) == "data: "@,
        text::split_first(events[i], '\n') == Some(
            (events[i].take(events[i].len() - 2), seq!['\n']),
        ),
{
    let event = events[i];
    assert(stream::framed(event));
    let json = choose|json: Seq<char>|
        event == #[trigger] stream::event_frame(json) && stream::unbroken(json);
    law_frames(json);
    laws::law_event_is_one_line(json);
    reveal_strlit("data: ");
    reveal_strlit("\n\n");
    assert(event.take(event.len() - 2) =~= "data: "@ + json);
}

/// A response shows something exactly where its first candidate has a part.
pub proof fn law_what_is_shown(v: Json)
    ensures
        v.items_at("candidates"@).len() > 0 && parts_of(v).len() > 0 ==> stream::has_parts(v),
        stream::has_parts(v) ==> v.items_at("candidates"@).len() > 0 && parts_of(v).len() > 0,
{
}

/// Before anything has gone out, a response with nothing to show waits behind the
/// others that wait; afterwards every response goes out at once. The calls and the
/// end of the turn are not touched.
pub proof fn law_waiting_and_sending(t: TurnView, v: Json)
    ensures
        ({
            let (next, out) = stream::delivered(t, v);
            let event = stream::event_frame(wire::json_text(v));
            &&& next.calls == t.calls
            &&& next.ended == t.ended
            &&& !t.sent && !stream::has_parts(v) ==> {
                &&& out.len() == 0
                &&& !next.sent
                &&& next.held.len() == t.held.len() + 1
                &&& next.held.take(t.held.len() as int) == t.held
                &&& next.held.last() == event
            }
            &&& t.sent || stream::has_parts(v) ==> {
                &&& out.len() == t.held.len() + 1
                &&& out.take(t.held.len() as int) == t.held
                &&& out.last() == event
                &&& next.sent
                &&& next.held.len() == 0
            }
        }),
{
    let event = stream::event_frame(wire::json_text(v));
    assert(t.held.push(event).take(t.held.len() as int) =~= t.held);
}

/// A chunk moves the calls on and sends or holds its response; one that is not
/// rendered sends nothing and changes nothing else.
pub proof fn law_chunk_in_a_turn(t: TurnView, chunk: Json)
    ensures
        ({
            let (calls, out) = stream::gemini_step(chunk, t.calls);
            let (next, events) = stream::after_chunk(t, chunk);
            &&& next.calls == calls
            &&& next.ended == t.ended
            &&& out is None ==> events.len() == 0 && next.sent == t.sent && next.held == t.held
            &&& out is Some && (t.sent || stream::has_parts(out->0)) ==> next.sent
                && next.held.len() == 0 && events == t.held.push(
                stream::event_frame(wire::json_text(out->0)),
            )
            &&& out is Some && !t.sent && !stream::has_parts(out->0) ==> !next.sent
                && events.len() == 0 && next.held == t.held.push(
                stream::event_frame(wire::json_text(out->0)),
            )
        }),
{
}

/// The sentinel ends the turn and changes nothing else; a document that is not
/// JSON, and a line without one, change nothing; any other document is a chunk.
pub proof fn law_lines_in_a_turn(t: TurnView, line: Seq<char>, doc: Seq<char>, chunk: Json)
    ensures
        stream::line_payload(line) == Some("[DONE]"@) ==> stream::after_line(t, line).0.ended
            && stream::after_line(t, line).0.calls == t.calls && stream::after_line(t, line).0.sent
            == t.sent && stream::after_line(t, line).0.held == t.held && stream::after_line(
            t,
            line,
        ).1.len() == 0,
        stream::line_payload(line) is None ==> stream::after_line(t, line).0 == t
            && stream::after_line(t, line).1.len() == 0,
        stream::line_payload(line) == Some(doc) && doc != "[DONE]"@ && wire::json_parsed(
            doc,
        ) is None ==> stream::after_line(t, line).0 == t && stream::after_line(t, line).1.len()
            == 0,
        stream::line_payload(line) == Some(doc) && doc != "[DONE]"@ && wire::json_parsed(doc)
            == Some(chunk) ==> stream::after_line(t, line) == stream::after_chunk(t, chunk),
{
}

/// A whole line is taken in as soon as it is there, and the rest is read after it;
/// text without a line break waits.
pub proof fn law_whole_lines_are_read(t: TurnView, line: Seq<char>, rest: Seq<char>)
    requires
        !line.contains('\n'),
        !t.ended,
    ensures
        ({
            let (next, events) = stream::after_line(t, line);
            let after = stream::read_lines(next, rest);
            let all = stream::read_lines(t, line + seq!['\n'] + rest);
            &&& all.turn == after.turn
            &&& all.pending == after.pending
            &&& all.events == events + after.events
        }),
        stream::read_lines(t, line).turn == t,
        stream::read_lines(t, line).pending == line,
        stream::read_lines(t, line).events.len() == 0,
{
    let all = line + seq!['\n'] + rest;
    texts::law_split_at_the_first(all, '\n', line, rest);
    texts::law_split_or_not(line, '\n');
    text::lemma_first_index_bounds(all, '\n');
    text::lemma_first_index_bounds(line, '\n');
}

/// Before anything has arrived there are no calls, nothing is held and nothing was
/// sent.
pub proof fn law_new_turn()
    ensures
        stream::new_turn().calls.len() == 0,
        stream::new_turn().held.len() == 0,
        !stream::new_turn().sent,
        !stream::new_turn().ended,
{
}

/// Pending calls, events and turns stand for what they hold, place by place.
pub proof fn law_stream_views(calls: Seq<PendingCall>, events: Seq<String>, turn: StreamTurn, i: int)
    ensures
        stream::calls_view(calls).len() == calls.len(),
        0 <= i < calls.len() ==> {
            &&& stream::calls_view(calls)[i].index == calls[i].index
            &&& stream::calls_view(calls)[i].name == calls[i].name@
            &&& calls[i].arguments is None ==> stream::calls_view(calls)[i].arguments is None
            &&& calls[i].arguments is Some ==> stream::calls_view(calls)[i].arguments == Some(
                calls[i].arguments->0@,
            )
        },
        stream::events_view(events).len() == events.len(),
        0 <= i < events.len() ==> stream::events_view(events)[i] == events[i]@,
        turn@.calls == stream::calls_view(turn.acc.calls@),
        turn@.held == stream::events_view(turn.held@),
        turn@.ended == turn.ended,
        turn@.sent == turn.sent,
{
}

/// The number of repeats grows by one for a turn that is asked for again, and ends
/// with the first that is not.
pub proof fn law_repeats(turns: Seq<TurnView>, turn: TurnView, used: u32)
    ensures
        turn.sent || used >= 2 ==> stream::repeats(seq![turn] + turns, used) == 0,
        !turn.sent && used < 2 ==> stream::repeats(seq![turn] + turns, used) == 1
            + stream::repeats(turns, (used + 1) as u32),
        stream::repeats(Seq::empty(), used) == 0,
{
    assert((seq![turn] + turns).drop_first() =~= turns);
}

} // verus!
