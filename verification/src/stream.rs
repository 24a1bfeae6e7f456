//! A streamed answer: OpenAI server-sent events in, Gemini ones out.
//!
//! Both formats put one JSON document on each `data:` line, so the work is per
//! chunk. Two things span chunks: a line can arrive in pieces, and so can a tool
//! call.

use crate::request;
use crate::response;
use crate::text;
use crate::value::{self, Json, JsonObject, JsonValue};
use crate::wire;
use vstd::prelude::*;
use vstd::string::*;

verus! {

/// A tool call that is still arriving: the place that its fragments name, and
/// what they have said so far.
pub struct CallView {
    pub index: u64,
    pub name: Seq<char>,
    pub arguments: Option<Seq<char>>,
}

/// The place of the call at `index` in `calls`, or their number where there is
/// none yet.
pub open spec fn call_position(calls: Seq<CallView>, index: u64) -> int
    decreases calls.len(),
{
    if calls.len() == 0 || calls[0].index == index {
        0
    } else {
        1 + call_position(calls.drop_first(), index)
    }
}

/// A call with one more fragment: the first name counts, argument text is put
/// behind what there is.
pub open spec fn grown(call: CallView, function: Json) -> CallView {
    CallView {
        index: call.index,
        name: if call.name.len() > 0 {
            call.name
        } else {
            request::text_or_empty(function.text_at("name"@))
        },
        arguments: match function.text_at("arguments"@) {
            Some(more) => Some(request::text_or_empty(call.arguments) + more),
            None => call.arguments,
        },
    }
}

/// The calls after a fragment for the call at `index`.
pub open spec fn absorbed(calls: Seq<CallView>, index: u64, function: Json) -> Seq<CallView> {
    let at = call_position(calls, index);
    if at < calls.len() {
        calls.update(at, grown(calls[at], function))
    } else {
        calls.push(grown(CallView { index, name: Seq::empty(), arguments: None }, function))
    }
}

/// The place that a fragment names, by default its place in the list.
pub open spec fn fragment_index(fragment: Json, place: int) -> u64 {
    match fragment.get("index"@) {
        Some(i) => match i.unsigned() {
            Some(n) => n,
            None => place as u64,
        },
        None => place as u64,
    }
}

/// The calls after a list of fragments.
pub open spec fn absorbed_all(calls: Seq<CallView>, fragments: Seq<Json>) -> Seq<CallView>
    decreases fragments.len(),
{
    if fragments.len() == 0 {
        calls
    } else {
        absorbed(
            absorbed_all(calls, fragments.drop_last()),
            fragment_index(fragments.last(), fragments.len() - 1),
            fragments.last().get_or("function"@, Json::Null),
        )
    }
}

/// The parts for calls that are complete.
pub open spec fn call_parts(calls: Seq<CallView>) -> Seq<Json> {
    calls.map_values(|c: CallView| response::call_part(c.name, c.arguments))
}

/// A tool call that is still arriving.
pub struct PendingCall {
    pub index: u64,
    pub name: String,
    pub arguments: Option<String>,
}

impl View for PendingCall {
    type V = CallView;

    open spec fn view(&self) -> CallView {
        CallView {
            index: self.index,
            name: self.name@,
            arguments: match self.arguments {
                Some(s) => Some(s@),
                None => None,
            },
        }
    }
}

/// The calls that a list of pending calls stands for.
pub open spec fn calls_view(calls: Seq<PendingCall>) -> Seq<CallView> {
    calls.map_values(|c: PendingCall| c@)
}

/// Holds the fragments of tool calls across chunks until the model reports that
/// it has finished, so that each call is emitted whole.
pub struct ToolCallAccumulator {
    pub calls: Vec<PendingCall>,
}

impl View for ToolCallAccumulator {
    type V = Seq<CallView>;

    open spec fn view(&self) -> Seq<CallView> {
        calls_view(self.calls@)
    }
}

/// The place of a call is in range and names its index, and no call before it
/// does.
pub proof fn lemma_call_position(calls: Seq<CallView>, index: u64)
    ensures
        0 <= call_position(calls, index) <= calls.len(),
        call_position(calls, index) < calls.len() ==> calls[call_position(calls, index)].index
            == index,
        forall|j: int| 0 <= j < call_position(calls, index) ==> calls[j].index != index,
    decreases calls.len(),
{
    if calls.len() > 0 && calls[0].index != index {
        lemma_call_position(calls.drop_first(), index);
        assert forall|j: int| 0 <= j < call_position(calls, index) implies calls[j].index
            != index by {
            if j > 0 {
                assert(calls[j] == calls.drop_first()[j - 1]);
            }
        }
    }
}

/// A place that names the index, with no earlier one that does, is the place of
/// the call; so is the end where no call names it.
pub proof fn lemma_call_position_is(calls: Seq<CallView>, index: u64, at: int)
    requires
        0 <= at <= calls.len(),
        at < calls.len() ==> calls[at].index == index,
        forall|j: int| 0 <= j < at ==> calls[j].index != index,
    ensures
        call_position(calls, index) == at,
{
    lemma_call_position(calls, index);
    let p = call_position(calls, index);
    if p < at {
        assert(calls[p].index != index);
    } else if at < p {
        assert(calls[at].index != index);
    }
}

impl ToolCallAccumulator {
    /// No calls yet.
    pub fn new() -> (r: ToolCallAccumulator)
        ensures
            r@ == Seq::<CallView>::empty(),
    {
        let r = ToolCallAccumulator { calls: Vec::new() };
        assert(r@ =~= Seq::<CallView>::empty());
        r
    }

    /// The place of the call at `index`.
    fn position(&self, index: u64) -> (r: usize)
        ensures
            r == call_position(self@, index),
            r <= self.calls@.len(),
    {
        let mut i: usize = 0;
        while i < self.calls.len()
            invariant
                i <= self.calls@.len(),
                forall|j: int| 0 <= j < i ==> self@[j].index != index,
            decreases self.calls@.len() - i,
        {
            if self.calls[i].index == index {
                proof {
                    lemma_call_position_is(self@, index, i as int);
                }
                return i;
            }
            i = i + 1;
        }
        proof {
            lemma_call_position_is(self@, index, i as int);
        }
        i
    }

    /// Takes in one fragment for the call at `index`.
    pub fn absorb(&mut self, index: u64, function: &JsonValue)
        ensures
            final(self)@ == absorbed(old(self)@, index, function@),
    {
        let ghost before = self@;
        let at: usize = self.position(index);
        if at < self.calls.len() {
            let call = grow(&self.calls[at], function);
            self.calls.set(at, call);
        } else {
            let fresh = PendingCall { index, name: String::new(), arguments: None };
            let call = grow(&fresh, function);
            self.calls.push(call);
        }
        assert(self@ =~= absorbed(before, index, function@));
    }

    /// Takes in the fragments of one chunk.
    pub fn absorb_all(&mut self, fragments: &Vec<JsonValue>)
        ensures
            final(self)@ == absorbed_all(old(self)@, value::items_view(fragments@)),
    {
        let ghost before = self@;
        let ghost all = value::items_view(fragments@);
        proof {
            value::lemma_items_view(fragments@);
        }
        let null = JsonValue::Null;
        let mut i: usize = 0;
        while i < fragments.len()
            invariant
                null@ == Json::Null,
                all == value::items_view(fragments@),
                all.len() == fragments@.len(),
                forall|j: int| 0 <= j < all.len() ==> #[trigger] all[j] == fragments@[j]@,
                i <= fragments@.len(),
                self@ == absorbed_all(before, all.take(i as int)),
            decreases fragments@.len() - i,
        {
            assert(all.take(i + 1).drop_last() =~= all.take(i as int));
            assert(all[i as int] == fragments@[i as int]@);
            let index: u64 = match fragments[i].get("index") {
                Some(v) => match v.as_u64() {
                    Some(n) => n,
                    None => i as u64,
                },
                None => i as u64,
            };
            let function = match fragments[i].get("function") {
                Some(f) => f,
                None => &null,
            };
            self.absorb(index, function);
            i = i + 1;
        }
        assert(all.take(i as int) =~= all);
    }

    /// Hands out the parts for the calls, now complete, and forgets them.
    pub fn take_parts(&mut self) -> (r: Vec<JsonValue>)
        ensures
            value::items_view(r@) == call_parts(old(self)@),
            final(self)@ == Seq::<CallView>::empty(),
    {
        let ghost before = self@;
        let mut parts: Vec<JsonValue> = Vec::new();
        let mut i: usize = 0;
        assert(call_parts(before.take(0)) =~= Seq::empty());
        while i < self.calls.len()
            invariant
                before == self@,
                i <= self.calls@.len(),
                value::items_view(parts@) == call_parts(before.take(i as int)),
            decreases self.calls@.len() - i,
        {
            let call = &self.calls[i];
            let args = match &call.arguments {
                Some(s) => response::arguments_value(Some(s.as_str())),
                None => response::arguments_value(None),
            };
            let v = response::function_call_part(call.name.clone(), args);
            proof {
                value::lemma_items_view_push(parts@, v);
            }
            parts.push(v);
            assert(before[i as int] == self.calls@[i as int]@);
            assert(value::items_view(parts@) =~= call_parts(before.take(i + 1)));
            i = i + 1;
        }
        assert(before.take(i as int) =~= before);
        self.calls = Vec::new();
        assert(self@ =~= Seq::<CallView>::empty());
        parts
    }
}

/// A call with one more fragment.
fn grow(call: &PendingCall, function: &JsonValue) -> (r: PendingCall)
    ensures
        r@ == grown(call@, function@),
{
    let name = if call.name.as_str().is_empty() {
        request::owned_or_empty(function.text_at("name"))
    } else {
        call.name.clone()
    };
    let so_far = match &call.arguments {
        Some(s) => Some(s.clone()),
        None => None,
    };
    let arguments = match function.text_at("arguments") {
        Some(more) => match so_far {
            Some(s) => Some(s.concat(more)),
            None => {
                assert(Seq::<char>::empty() + more@ =~= more@);
                Some(more.to_owned())
            },
        },
        None => so_far,
    };
    PendingCall { index: call.index, name, arguments }
}

/// The token counts of a chunk that reports usage.
pub open spec fn chunk_usage(chunk: Json) -> Option<Json> {
    match chunk.get("usage"@) {
        Some(Json::Object(m)) => Some(response::usage_metadata(Json::Object(m))),
        _ => None,
    }
}

/// The streamed response with these members, none where there are no members.
pub open spec fn step_response(candidate: Option<Json>, usage: Option<Json>) -> Option<Json> {
    if candidate is None && usage is None {
        None
    } else {
        let m = Map::<Seq<char>, Json>::empty();
        let m = match candidate {
            Some(c) => m.insert("candidates"@, Json::Array(seq![c])),
            None => m,
        };
        Some(Json::Object(request::with_member(m, "usageMetadata"@, usage)))
    }
}

/// The calls still arriving after a chunk, and the Gemini streaming response for
/// it. Text goes out at once; calls go out whole, when the model has finished.
pub open spec fn gemini_step(chunk: Json, calls: Seq<CallView>) -> (Seq<CallView>, Option<Json>) {
    let usage = chunk_usage(chunk);
    match response::first_choice(chunk) {
        Some(choice) => match choice.get("delta"@) {
            Some(delta) => {
                let all = absorbed_all(calls, delta.items_at("tool_calls"@));
                match choice.text_at("finish_reason"@) {
                    Some(finish) => (
                        Seq::empty(),
                        step_response(
                            Some(
                                response::stream_candidate(
                                    response::spoken_parts(delta) + call_parts(all),
                                    Some(finish),
                                ),
                            ),
                            usage,
                        ),
                    ),
                    None => {
                        let parts = response::spoken_parts(delta);
                        let candidate = if parts.len() > 0 {
                            Some(response::stream_candidate(parts, None))
                        } else {
                            None
                        };
                        (all, step_response(candidate, usage))
                    },
                }
            },
            None => (calls, step_response(None, usage)),
        },
        None => (calls, step_response(None, usage)),
    }
}

/// Makes the streamed response with these members.
fn response_of_step(candidate: Option<JsonValue>, usage: Option<JsonValue>) -> (r: Option<
    JsonValue,
>)
    ensures
        match r {
            Some(v) => step_response(
                match candidate {
                    Some(c) => Some(c@),
                    None => None,
                },
                match usage {
                    Some(u) => Some(u@),
                    None => None,
                },
            ) == Some(v@),
            None => candidate is None && usage is None,
        },
{
    if candidate.is_none() && usage.is_none() {
        return None;
    }
    let mut out = JsonObject::new();
    if let Some(c) = candidate {
        out.insert("candidates", response::list_of(c));
    }
    if let Some(u) = usage {
        out.insert("usageMetadata", u);
    }
    Some(JsonValue::Object(out))
}

/// The token counts of a chunk that reports usage.
fn usage_of_chunk(chunk: &JsonValue) -> (r: Option<JsonValue>)
    ensures
        match r {
            Some(v) => chunk_usage(chunk@) == Some(v@),
            None => chunk_usage(chunk@) is None,
        },
{
    match chunk.get("usage") {
        Some(usage) => match usage {
            JsonValue::Object(_) => Some(response::usage_to_gemini(usage)),
            _ => None,
        },
        None => None,
    }
}

/// One OpenAI SSE `delta` chunk to one Gemini streaming response, with the
/// fragments of tool calls held in `acc` until the model reports that it has
/// finished. `None` when the chunk carries nothing to render.
pub fn chunk_to_gemini_acc(chunk: &JsonValue, acc: &mut ToolCallAccumulator) -> (r: Option<
    JsonValue,
>)
    ensures
        final(acc)@ == gemini_step(chunk@, old(acc)@).0,
        match r {
            Some(v) => gemini_step(chunk@, old(acc)@).1 == Some(v@),
            None => gemini_step(chunk@, old(acc)@).1 is None,
        },
{
    let usage = usage_of_chunk(chunk);
    let choice = match response::choice_of(chunk) {
        Some(c) => c,
        None => return response_of_step(None, usage),
    };
    let delta = match choice.get("delta") {
        Some(d) => d,
        None => return response_of_step(None, usage),
    };
    if let Some(fragments) = delta.items_at("tool_calls") {
        acc.absorb_all(fragments);
    }
    let mut parts = response::parts_spoken(delta);
    proof {
        value::lemma_items_view(parts@);
    }
    match choice.text_at("finish_reason") {
        Some(finish) => {
            let ghost said = parts@;
            let mut calls = acc.take_parts();
            let ghost given = calls@;
            parts.append(&mut calls);
            assert(parts@ =~= said + given);
            proof {
                value::lemma_items_view_add(said, given);
            }
            response_of_step(Some(response::candidate_from_step(parts, Some(finish))), usage)
        },
        None => if parts.len() > 0 {
            response_of_step(Some(response::candidate_from_step(parts, None)), usage)
        } else {
            response_of_step(None, usage)
        },
    }
}

/// The document on a line of server-sent events, if it carries one.
pub open spec fn line_payload(line: Seq<char>) -> Option<Seq<char>> {
    match text::after_prefix(text::trim_text(line), "data:"@) {
        Some(rest) => if text::trim_text(rest).len() > 0 {
            Some(text::trim_text(rest))
        } else {
            None
        },
        None => None,
    }
}

/// The document on a line of server-sent events, if it carries one.
pub fn payload_of_line(line: &str) -> (r: Option<&str>)
    ensures
        match r {
            Some(data) => line_payload(line@) == Some(data@),
            None => line_payload(line@) is None,
        },
{
    match text::strip_prefix(text::trimmed(line), "data:") {
        Some(rest) => {
            let data = text::trimmed(rest);
            if data.is_empty() {
                None
            } else {
                Some(data)
            }
        },
        None => None,
    }
}

/// One Gemini server-sent event around a JSON text.
pub open spec fn event_frame(json: Seq<char>) -> Seq<char> {
    "data: "@ + json + "\n\n"@
}

/// Frames a JSON text as one Gemini server-sent event.
pub fn frame_event(json: &str) -> (r: String)
    ensures
        r@ == event_frame(json@),
{
    "data: ".to_owned().concat(json).concat("\n\n")
}

/// Whether a text has no line break.
pub open spec fn unbroken(t: Seq<char>) -> bool {
    forall|i: int| 0 <= i < t.len() ==> t[i] != '\n' && t[i] != '\r'
}

/// Whether an event is a frame around text without a line break.
pub open spec fn framed(event: Seq<char>) -> bool {
    exists|json: Seq<char>| event == #[trigger] event_frame(json) && unbroken(json)
}

/// Whether each of these events is a frame around text without a line break.
pub open spec fn all_framed(events: Seq<Seq<char>>) -> bool {
    forall|i: int| 0 <= i < events.len() ==> framed(#[trigger] events[i])
}

/// One more framed event leaves all of them framed.
proof fn lemma_framed_push(events: Seq<Seq<char>>, json: Seq<char>)
    requires
        all_framed(events),
        unbroken(json),
    ensures
        all_framed(events.push(event_frame(json))),
{
    let more = events.push(event_frame(json));
    assert forall|i: int| 0 <= i < more.len() implies framed(#[trigger] more[i]) by {
        if i < events.len() {
            assert(more[i] == events[i]);
        }
    }
}

/// Framed events put together are framed.
proof fn lemma_framed_add(a: Seq<Seq<char>>, b: Seq<Seq<char>>)
    requires
        all_framed(a),
        all_framed(b),
    ensures
        all_framed(a + b),
{
    assert forall|i: int| 0 <= i < (a + b).len() implies framed(#[trigger] (a + b)[i]) by {
        if i < a.len() {
            assert((a + b)[i] == a[i]);
        } else {
            assert((a + b)[i] == b[i - a.len()]);
        }
    }
}

/// Whether a streamed response has a part to show.
pub open spec fn has_parts(v: Json) -> bool {
    let candidates = v.items_at("candidates"@);
    candidates.len() > 0 && candidates[0].get_or("content"@, Json::Null).items_at("parts"@).len()
        > 0
}

/// Whether a streamed response has a part to show.
pub fn shows_parts(v: &JsonValue) -> (r: bool)
    ensures
        r == has_parts(v@),
{
    if let Some(candidates) = v.items_at("candidates") {
        proof {
            value::lemma_items_view(candidates@);
        }
        if candidates.len() > 0 {
            if let Some(content) = candidates[0].get("content") {
                if let Some(parts) = content.items_at("parts") {
                    proof {
                        value::lemma_items_view(parts@);
                    }
                    return parts.len() > 0;
                }
            }
        }
    }
    false
}

/// Where a streamed turn stands: the calls still arriving, whether the server
/// has said that it is done, whether anything went to the client, and the events
/// held back until there is something to show.
#[verifier::ext_equal]
pub struct TurnView {
    pub calls: Seq<CallView>,
    pub ended: bool,
    pub sent: bool,
    pub held: Seq<Seq<char>>,
}

/// The turn after a streamed response, and the events that go out. Before
/// anything has gone out, a response with nothing to show is held back.
pub open spec fn delivered(t: TurnView, v: Json) -> (TurnView, Seq<Seq<char>>) {
    let frame = event_frame(wire::json_text(v));
    if t.sent || has_parts(v) {
        (TurnView { sent: true, held: Seq::empty(), ..t }, t.held.push(frame))
    } else {
        (TurnView { held: t.held.push(frame), ..t }, Seq::empty())
    }
}

/// The turn after a chunk, and the events that go out.
pub open spec fn after_chunk(t: TurnView, chunk: Json) -> (TurnView, Seq<Seq<char>>) {
    let (calls, out) = gemini_step(chunk, t.calls);
    let next = TurnView { calls, ..t };
    match out {
        Some(v) => delivered(next, v),
        None => (next, Seq::empty()),
    }
}

/// The turn after a line, and the events that go out. The `[DONE]` of OpenAI
/// ends the turn and is never passed on; a line that is no event, or whose
/// document is not JSON, is skipped.
pub open spec fn after_line(t: TurnView, line: Seq<char>) -> (TurnView, Seq<Seq<char>>) {
    match line_payload(line) {
        Some(data) => if data == "[DONE]"@ {
            (TurnView { ended: true, ..t }, Seq::empty())
        } else {
            match wire::json_parsed(data) {
                Some(chunk) => after_chunk(t, chunk),
                None => (t, Seq::empty()),
            }
        },
        None => (t, Seq::empty()),
    }
}

/// What comes of reading lines: the turn, the text after the last line read, and
/// the events that go out.
pub struct Reading {
    pub turn: TurnView,
    pub pending: Seq<char>,
    pub events: Seq<Seq<char>>,
}

/// Reads the whole lines at the front of `pending`, until the turn has ended.
pub open spec fn read_lines(t: TurnView, pending: Seq<char>) -> Reading
    decreases pending.len(),
{
    proof {
        text::lemma_first_index_bounds(pending, '\n');
    }
    let i = text::first_index(pending, '\n');
    if t.ended || i >= pending.len() {
        Reading { turn: t, pending, events: Seq::empty() }
    } else {
        let (next, events) = after_line(t, pending.take(i));
        let rest = read_lines(next, pending.skip(i + 1));
        Reading { turn: rest.turn, pending: rest.pending, events: events + rest.events }
    }
}

/// The events that a list of strings stands for.
pub open spec fn events_view(events: Seq<String>) -> Seq<Seq<char>> {
    events.map_values(|e: String| e@)
}

/// How often an empty turn is asked for again.
pub const MAX_EMPTY_RETRIES: u32 = 2;

/// What to do when the server has no more to say.
pub enum Ending {
    /// Ask again: the turn came to nothing, and the client has seen none of it.
    Retry,
    /// Send these last events and end the stream.
    Finish(Vec<String>),
}

/// One streamed turn, from the bytes of the server to the events for the client.
pub struct StreamTurn {
    pub pending: String,
    pub acc: ToolCallAccumulator,
    pub ended: bool,
    pub sent: bool,
    pub held: Vec<String>,
}

impl View for StreamTurn {
    type V = TurnView;

    open spec fn view(&self) -> TurnView {
        TurnView {
            calls: self.acc@,
            ended: self.ended,
            sent: self.sent,
            held: events_view(self.held@),
        }
    }
}

/// The turn before anything has arrived.
pub open spec fn new_turn() -> TurnView {
    TurnView { calls: Seq::empty(), ended: false, sent: false, held: Seq::empty() }
}

/// Whether a turn whose stream is over is asked for again, after it has been
/// `retries` times.
pub open spec fn asks_again(t: TurnView, retries: u32) -> bool {
    !t.sent && retries < MAX_EMPTY_RETRIES
}

/// How often a turn was asked for again, over the attempts at one request.
pub struct StreamAttempts {
    pub used: u32,
}

/// What follows an attempt at a streamed turn.
pub enum AttemptStep {
    /// Ask again; the attempts count one more.
    Again(StreamAttempts),
    /// Send these last events and end the stream.
    Done(Vec<String>),
}

/// How many of the attempts at one request, which came to `turns`, are followed
/// by another, where it was asked for again `used` times before.
pub open spec fn repeats(turns: Seq<TurnView>, used: u32) -> nat
    decreases turns.len(),
{
    if turns.len() == 0 || !asks_again(turns[0], used) {
        0
    } else {
        1 + repeats(turns.drop_first(), (used + 1) as u32)
    }
}

impl StreamAttempts {
    /// Nothing was asked for again yet.
    pub fn new() -> (r: StreamAttempts)
        ensures
            r.used == 0,
    {
        StreamAttempts { used: 0 }
    }

    /// Decides what follows an attempt whose stream is over: another one, counted,
    /// or the last events.
    pub fn after_turn(self, turn: StreamTurn) -> (r: AttemptStep)
        ensures
            match r {
                AttemptStep::Again(next) => asks_again(turn@, self.used) && next.used == self.used
                    + 1,
                AttemptStep::Done(events) => !asks_again(turn@, self.used) && events_view(
                    events@,
                ) == turn@.held,
            },
    {
        match turn.finish(self.used) {
            Ending::Retry => AttemptStep::Again(StreamAttempts { used: self.used + 1 }),
            Ending::Finish(events) => AttemptStep::Done(events),
        }
    }
}

impl StreamTurn {
    /// A turn before anything has arrived.
    pub fn new() -> (r: StreamTurn)
        ensures
            r@ == new_turn(),
            r.pending@ == Seq::<char>::empty(),
    {
        let r = StreamTurn {
            pending: String::new(),
            acc: ToolCallAccumulator::new(),
            ended: false,
            sent: false,
            held: Vec::new(),
        };
        assert(events_view(r.held@) =~= Seq::<Seq<char>>::empty());
        r
    }

    /// Passes on the event around `json`, or holds it back; `shown` tells
    /// whether it has a part to show. Appends what goes out to `out`.
    pub fn deliver(&mut self, shown: bool, json: &str, out: &mut Vec<String>)
        ensures
            final(self).pending@ == old(self).pending@,
            ({
                let t = old(self)@;
                let frame = event_frame(json@);
                let before = events_view(old(out)@);
                if t.sent || shown {
                    &&& final(self)@ == TurnView { sent: true, held: Seq::empty(), ..t }
                    &&& events_view(final(out)@) == before + t.held.push(frame)
                } else {
                    &&& final(self)@ == TurnView { held: t.held.push(frame), ..t }
                    &&& events_view(final(out)@) == before
                }
            }),
            unbroken(json@) && all_framed(old(self)@.held) && all_framed(events_view(old(out)@))
                ==> all_framed(final(self)@.held) && all_framed(events_view(final(out)@)),
    {
        proof {
            if unbroken(json@) && all_framed(self@.held) && all_framed(events_view(out@)) {
                lemma_framed_push(self@.held, json@);
                lemma_framed_add(events_view(out@), self@.held.push(event_frame(json@)));
            }
        }
        let ghost t = self@;
        let ghost before = events_view(out@);
        let frame = frame_event(json);
        let ghost kept = self.held@.push(frame);
        self.held.push(frame);
        assert(events_view(kept) =~= t.held.push(event_frame(json@)));
        if self.sent || shown {
            self.sent = true;
            let ghost start = out@;
            out.append(&mut self.held);
            assert(out@ =~= start + kept);
            assert(events_view(out@) =~= before + events_view(kept));
            self.held = Vec::new();
            assert(events_view(self.held@) =~= Seq::<Seq<char>>::empty());
        }
    }

    /// Takes in one chunk.
    pub fn take_chunk(&mut self, chunk: &JsonValue, out: &mut Vec<String>)
        ensures
            final(self).pending@ == old(self).pending@,
            final(self)@ == after_chunk(old(self)@, chunk@).0,
            events_view(final(out)@) == events_view(old(out)@) + after_chunk(
                old(self)@,
                chunk@,
            ).1,
            all_framed(old(self)@.held) && all_framed(events_view(old(out)@)) ==> all_framed(
                final(self)@.held,
            ) && all_framed(events_view(final(out)@)),
    {
        let ghost before = events_view(out@);
        match chunk_to_gemini_acc(chunk, &mut self.acc) {
            Some(v) => {
                let shown = shows_parts(&v);
                let json = v.to_text();
                self.deliver(shown, json.as_str(), out);
            },
            None => {},
        }
        assert(events_view(out@) =~= before + after_chunk(old(self)@, chunk@).1);
    }

    /// Takes in one line.
    pub fn take_line(&mut self, line: &str, out: &mut Vec<String>)
        ensures
            final(self).pending@ == old(self).pending@,
            final(self)@ == after_line(old(self)@, line@).0,
            events_view(final(out)@) == events_view(old(out)@) + after_line(
                old(self)@,
                line@,
            ).1,
            all_framed(old(self)@.held) && all_framed(events_view(old(out)@)) ==> all_framed(
                final(self)@.held,
            ) && all_framed(events_view(final(out)@)),
    {
        let ghost before = events_view(out@);
        if let Some(data) = payload_of_line(line) {
            if text::same_text(data, "[DONE]") {
                // OpenAI ends a stream with this sentinel; Google's just ends.
                self.ended = true;
            } else if let Some(chunk) = JsonValue::from_text(data) {
                self.take_chunk(&chunk, out);
                return;
            }
        }
        assert(events_view(out@) =~= before + Seq::empty());
    }

    /// Takes in text and gives the events that go out. A line can arrive in
    /// pieces, so what follows the last line break waits for more. Every event
    /// that goes out or is held back is one line of JSON, framed.
    pub fn feed_text(&mut self, more: &str) -> (r: Vec<String>)
        ensures
            ({
                let reading = read_lines(old(self)@, old(self).pending@ + more@);
                &&& final(self)@ == reading.turn
                &&& final(self).pending@ == reading.pending
                &&& events_view(r@) == reading.events
            }),
            all_framed(old(self)@.held) ==> all_framed(final(self)@.held) && all_framed(
                events_view(r@),
            ),
    {
        let mut out: Vec<String> = Vec::new();
        let ghost sound = all_framed(self@.held);
        self.pending.append(more);
        let ghost all = read_lines(self@, self.pending@);
        assert(events_view(out@) =~= Seq::<Seq<char>>::empty());
        assert(all.events =~= events_view(out@) + all.events);
        loop
            invariant
                ({
                    let rest = read_lines(self@, self.pending@);
                    &&& all.turn == rest.turn
                    &&& all.pending == rest.pending
                    &&& all.events == events_view(out@) + rest.events
                }),
                sound ==> all_framed(self@.held) && all_framed(events_view(out@)),
            ensures
                all.turn == self@,
                all.pending == self.pending@,
                all.events == events_view(out@),
                sound ==> all_framed(self@.held) && all_framed(events_view(out@)),
            decreases self.pending@.len(),
        {
            proof {
                text::lemma_first_index_bounds(self.pending@, '\n');
            }
            if self.ended {
                assert(events_view(out@) + Seq::empty() =~= events_view(out@));
                break;
            }
            let ghost t = self@;
            let ghost pending = self.pending@;
            let held = self.pending.clone();
            match text::split_once(held.as_str(), '\n') {
                Some((line, rest)) => {
                    let ghost before = events_view(out@);
                    self.pending = rest.to_owned();
                    self.take_line(line, &mut out);
                    let ghost tail = read_lines(self@, self.pending@);
                    assert(before + (after_line(t, line@).1 + tail.events) =~= (before
                        + after_line(t, line@).1) + tail.events);
                },
                None => {
                    assert(events_view(out@) + Seq::empty() =~= events_view(out@));
                    break;
                },
            }
        }
        out
    }

    /// Takes in bytes from the server and gives the events that go out.
    pub fn feed(&mut self, bytes: &[u8]) -> (r: Vec<String>)
        ensures
            ({
                let reading = read_lines(
                    old(self)@,
                    old(self).pending@ + wire::lossy_text(bytes@),
                );
                &&& final(self)@ == reading.turn
                &&& final(self).pending@ == reading.pending
                &&& events_view(r@) == reading.events
            }),
            all_framed(old(self)@.held) ==> all_framed(final(self)@.held) && all_framed(
                events_view(r@),
            ),
    {
        let more = wire::decode_lossy(bytes);
        self.feed_text(more.as_str())
    }

    /// Decides what happens when the server has no more to say, after `retries`
    /// earlier attempts at this turn.
    pub fn finish(self, retries: u32) -> (r: Ending)
        ensures
            match r {
                Ending::Retry => asks_again(self@, retries),
                Ending::Finish(events) => !asks_again(self@, retries) && events_view(events@)
                    == self@.held,
            },
    {
        if !self.sent && retries < MAX_EMPTY_RETRIES {
            Ending::Retry
        } else {
            Ending::Finish(self.held)
        }
    }
}

} // verus!
