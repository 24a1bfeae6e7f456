//! What the gateway decides around the translation: which model a request is
//! for, where it goes, when it is tried again, and what is answered.

use crate::request;
use crate::response;
use crate::text;
use crate::value::{self, Json, JsonObject, JsonValue};
use crate::wire;
use vstd::prelude::*;
use vstd::string::*;

verus! {

/// The text of a string that may be missing.
pub open spec fn text_of(s: Option<String>) -> Option<Seq<char>> {
    match s {
        Some(t) => Some(t@),
        None => None,
    }
}

/// A copy of a string that may be missing.
fn copy_text(s: &Option<String>) -> (r: Option<String>)
    ensures
        text_of(r) == text_of(*s),
{
    match s {
        Some(t) => Some(t.clone()),
        None => None,
    }
}

/// Which model to ask the server for: the one that was pinned, if any, else the
/// one that the server turned out to serve.
pub struct ModelNames {
    pub pinned: Option<String>,
    /// Whatever the server turned out to be serving, remembered after the first
    /// ask.
    pub discovered: Option<String>,
}

/// The names that a `ModelNames` holds.
pub struct NamesView {
    pub pinned: Option<Seq<char>>,
    pub discovered: Option<Seq<char>>,
}

impl View for ModelNames {
    type V = NamesView;

    open spec fn view(&self) -> NamesView {
        NamesView { pinned: text_of(self.pinned), discovered: text_of(self.discovered) }
    }
}

/// The name that is known without asking.
pub open spec fn known_name(names: NamesView) -> Option<Seq<char>> {
    match names.pinned {
        Some(p) => Some(p),
        None => names.discovered,
    }
}

/// The name that a request goes out with, where the server was found to serve
/// `served`.
pub open spec fn resolved_name(
    names: NamesView,
    served: Option<Seq<char>>,
    requested: Seq<char>,
) -> Seq<char> {
    match known_name(names) {
        Some(k) => k,
        None => match served {
            Some(s) => s,
            None => requested,
        },
    }
}

/// The names after a request has been resolved: a name that was found is
/// remembered.
pub open spec fn names_after(names: NamesView, served: Option<Seq<char>>) -> NamesView {
    match known_name(names) {
        Some(_) => names,
        None => NamesView { pinned: names.pinned, discovered: served },
    }
}

/// The names after the server has rejected a request: what was discovered is
/// forgotten, what was pinned stays.
pub open spec fn names_forgotten(names: NamesView) -> NamesView {
    match names.pinned {
        Some(_) => names,
        None => NamesView { pinned: None, discovered: None },
    }
}

impl ModelNames {
    /// Nothing discovered yet.
    pub fn new(pinned: Option<String>) -> (r: ModelNames)
        ensures
            r@ == (NamesView { pinned: text_of(pinned), discovered: None }),
    {
        ModelNames { pinned, discovered: None }
    }

    /// The name that is known without asking the server.
    pub fn known(&self) -> (r: Option<String>)
        ensures
            text_of(r) == known_name(self@),
    {
        match &self.pinned {
            Some(p) => Some(p.clone()),
            None => copy_text(&self.discovered),
        }
    }

    /// Which model to actually ask for.
    ///
    /// Clients send names that mean nothing to the server, so a real one is
    /// substituted. With nothing known and nothing served, the request passes
    /// through as it is, and the error of the server says so.
    pub fn resolve_model(&mut self, served: Option<String>, requested: &str) -> (r: String)
        ensures
            r@ == resolved_name(old(self)@, text_of(served), requested@),
            final(self)@ == names_after(old(self)@, text_of(served)),
    {
        if let Some(k) = self.known() {
            return k;
        }
        match served {
            Some(name) => {
                self.discovered = Some(name.clone());
                name
            },
            None => requested.to_owned(),
        }
    }

    /// Forgets the discovered name so that the next request looks it up again.
    /// Called when the server rejects a request: the usual cause is that it was
    /// restarted with another model.
    pub fn forget_model(&mut self)
        ensures
            final(self)@ == names_forgotten(old(self)@),
    {
        if self.pinned.is_none() {
            self.discovered = None;
        }
    }
}

/// The identifiers in a list of models, in order; an entry without one is left
/// out.
pub open spec fn model_ids(entries: Seq<Json>) -> Seq<Seq<char>>
    decreases entries.len(),
{
    if entries.len() == 0 {
        Seq::empty()
    } else {
        let front = model_ids(entries.drop_last());
        match entries.last().text_at("id"@) {
            Some(id) => front.push(id),
            None => front,
        }
    }
}

/// The first model that the server lists, if that entry has an identifier.
pub open spec fn first_model(listing: Json) -> Option<Seq<char>> {
    let entries = listing.items_at("data"@);
    if entries.len() > 0 {
        entries[0].text_at("id"@)
    } else {
        None
    }
}

/// The texts that a list of strings stands for.
pub open spec fn texts_view(texts: Seq<String>) -> Seq<Seq<char>> {
    texts.map_values(|t: String| t@)
}

/// The first model that the server lists.
pub fn first_served(listing: &JsonValue) -> (r: Option<String>)
    ensures
        text_of(r) == first_model(listing@),
{
    if let Some(entries) = listing.items_at("data") {
        proof {
            value::lemma_items_view(entries@);
        }
        if entries.len() > 0 {
            if let Some(id) = entries[0].text_at("id") {
                return Some(id.to_owned());
            }
        }
    }
    None
}

/// All models that the server lists.
pub fn served_ids(listing: &JsonValue) -> (r: Vec<String>)
    ensures
        texts_view(r@) == model_ids(listing@.items_at("data"@)),
{
    let mut ids: Vec<String> = Vec::new();
    assert(texts_view(ids@) =~= Seq::<Seq<char>>::empty());
    if let Some(entries) = listing.items_at("data") {
        let ghost all = value::items_view(entries@);
        proof {
            value::lemma_items_view(entries@);
        }
        let mut i: usize = 0;
        while i < entries.len()
            invariant
                all == value::items_view(entries@),
                all.len() == entries@.len(),
                forall|j: int| 0 <= j < all.len() ==> #[trigger] all[j] == entries@[j]@,
                i <= entries@.len(),
                texts_view(ids@) == model_ids(all.take(i as int)),
            decreases entries@.len() - i,
        {
            assert(all.take(i + 1).drop_last() =~= all.take(i as int));
            assert(all[i as int] == entries@[i as int]@);
            if let Some(id) = entries[i].text_at("id") {
                let ghost before = texts_view(ids@);
                ids.push(id.to_owned());
                assert(texts_view(ids@) =~= before.push(id@));
            }
            i = i + 1;
        }
        assert(all.take(i as int) =~= all);
    }
    ids
}

/// The stock Gemini names that are advertised next to what is really served: a
/// client in its automatic mode asks for one of them before it sends anything.
pub open spec fn aliases() -> Seq<Seq<char>> {
    seq![
        "gemini-3.1-flash-lite"@,
        "gemini-3.1-flash"@,
        "gemini-3.1-pro"@,
        "gemini-2.5-flash-lite"@,
        "gemini-2.5-flash"@,
        "gemini-2.5-pro"@,
    ]
}

/// The listing of one model.
pub open spec fn model_entry(id: Seq<char>) -> Json {
    Json::Object(
        map![
            "name"@ => Json::Str("models/"@ + id),
            "displayName"@ => Json::Str(id),
            "supportedGenerationMethods"@ => Json::Array(
                seq![
                    Json::Str("generateContent"@),
                    Json::Str("streamGenerateContent"@),
                    Json::Str("countTokens"@),
                ],
            ),
        ],
    )
}

/// The names of `names` that are not among `ids`, in order.
pub open spec fn names_without(names: Seq<Seq<char>>, ids: Seq<Seq<char>>) -> Seq<Seq<char>>
    decreases names.len(),
{
    if names.len() == 0 {
        Seq::empty()
    } else {
        let front = names_without(names.drop_last(), ids);
        if ids.contains(names.last()) {
            front
        } else {
            front.push(names.last())
        }
    }
}

/// All names that are advertised: the real ones first, then the aliases that are
/// not among them.
pub open spec fn advertised(ids: Seq<Seq<char>>) -> Seq<Seq<char>> {
    ids + names_without(aliases(), ids)
}

/// The Gemini model listing for what the server serves.
pub open spec fn model_listing(ids: Seq<Seq<char>>) -> Json {
    Json::Object(
        map![
            "models"@ => Json::Array(advertised(ids).map_values(|id: Seq<char>| model_entry(id))),
        ],
    )
}

/// Makes the listing of one model.
pub fn entry_of_model(id: &str) -> (r: JsonValue)
    ensures
        r@ == model_entry(id@),
{
    let mut methods: Vec<JsonValue> = Vec::new();
    methods.push(JsonValue::of_str("generateContent"));
    methods.push(JsonValue::of_str("streamGenerateContent"));
    methods.push(JsonValue::of_str("countTokens"));
    let ghost all = methods@;
    proof {
        value::lemma_items_view(all);
    }
    assert(value::items_view(all) =~= seq![
        Json::Str("generateContent"@),
        Json::Str("streamGenerateContent"@),
        Json::Str("countTokens"@),
    ]);
    let mut entry = JsonObject::new();
    entry.insert("name", JsonValue::String("models/".to_owned().concat(id)));
    entry.insert("displayName", JsonValue::of_str(id));
    entry.insert("supportedGenerationMethods", JsonValue::Array(methods));
    JsonValue::Object(entry)
}

/// Whether `name` is among `ids`.
fn is_among(name: &str, ids: &Vec<String>) -> (r: bool)
    ensures
        r == texts_view(ids@).contains(name@),
{
    let mut i: usize = 0;
    while i < ids.len()
        invariant
            i <= ids@.len(),
            forall|j: int| 0 <= j < i ==> texts_view(ids@)[j] != name@,
        decreases ids@.len() - i,
    {
        assert(texts_view(ids@)[i as int] == ids@[i as int]@);
        if text::same_text(ids[i].as_str(), name) {
            return true;
        }
        i = i + 1;
    }
    false
}

/// The stock names, as strings.
fn alias_names() -> (r: Vec<String>)
    ensures
        texts_view(r@) == aliases(),
{
    let mut names: Vec<String> = Vec::new();
    names.push("gemini-3.1-flash-lite".to_owned());
    names.push("gemini-3.1-flash".to_owned());
    names.push("gemini-3.1-pro".to_owned());
    names.push("gemini-2.5-flash-lite".to_owned());
    names.push("gemini-2.5-flash".to_owned());
    names.push("gemini-2.5-pro".to_owned());
    assert(texts_view(names@) =~= aliases());
    names
}

/// All names that are advertised where the server serves `ids`.
pub fn advertised_names(ids: Vec<String>) -> (r: Vec<String>)
    ensures
        texts_view(r@) == advertised(texts_view(ids@)),
{
    let stock = alias_names();
    let ghost all = texts_view(stock@);
    let ghost served = texts_view(ids@);
    let mut names = ids;
    let mut extra: Vec<String> = Vec::new();
    assert(texts_view(extra@) =~= Seq::<Seq<char>>::empty());
    let mut i: usize = 0;
    while i < stock.len()
        invariant
            all == texts_view(stock@),
            served == texts_view(names@),
            i <= stock@.len(),
            texts_view(extra@) == names_without(all.take(i as int), served),
        decreases stock@.len() - i,
    {
        assert(all.take(i + 1).drop_last() =~= all.take(i as int));
        assert(all[i as int] == stock@[i as int]@);
        if !is_among(stock[i].as_str(), &names) {
            let ghost before = texts_view(extra@);
            extra.push(stock[i].clone());
            assert(texts_view(extra@) =~= before.push(all[i as int]));
        }
        i = i + 1;
    }
    assert(all.take(i as int) =~= all);
    let ghost kept = names@;
    let ghost given = extra@;
    names.append(&mut extra);
    assert(names@ =~= kept + given);
    assert(texts_view(names@) =~= texts_view(kept) + texts_view(given));
    names
}

/// `GET /v1beta/models`: lists the models that the server serves, the real ones
/// first, and the stock names next to them.
pub fn list_models(ids: Vec<String>) -> (r: JsonValue)
    ensures
        r@ == model_listing(texts_view(ids@)),
{
    let names = advertised_names(ids);
    let ghost all = texts_view(names@);
    let ghost entry = |id: Seq<char>| model_entry(id);
    let mut models: Vec<JsonValue> = Vec::new();
    let mut i: usize = 0;
    assert(all.take(0).map_values(entry) =~= Seq::<Json>::empty());
    while i < names.len()
        invariant
            entry == (|id: Seq<char>| model_entry(id)),
            all == texts_view(names@),
            i <= names@.len(),
            value::items_view(models@) == all.take(i as int).map_values(entry),
        decreases names@.len() - i,
    {
        let v = entry_of_model(names[i].as_str());
        proof {
            value::lemma_items_view_push(models@, v);
        }
        models.push(v);
        assert(all[i as int] == names@[i as int]@);
        assert(value::items_view(models@) =~= all.take(i + 1).map_values(entry));
        i = i + 1;
    }
    assert(all.take(i as int) =~= all);
    let mut listing = JsonObject::new();
    listing.insert("models", JsonValue::Array(models));
    JsonValue::Object(listing)
}

/// An address under the base address of the server.
pub open spec fn url_under(upstream: Seq<char>, path: Seq<char>) -> Seq<char> {
    text::without_trailing_char(upstream, '/') + path
}

/// Where the server lists its models.
pub fn models_url(upstream: &str) -> (r: String)
    ensures
        r@ == url_under(upstream@, "/models"@),
{
    text::trim_end_char(upstream, '/').to_owned().concat("/models")
}

/// Where the server takes chat completions.
pub fn chat_url(upstream: &str) -> (r: String)
    ensures
        r@ == url_under(upstream@, "/chat/completions"@),
{
    text::trim_end_char(upstream, '/').to_owned().concat("/chat/completions")
}

/// Where the server counts tokens, which is outside its `/v1`.
pub fn tokenize_url(upstream: &str) -> (r: String)
    ensures
        r@ == url_under(text::without_trailing_text(upstream@, "/v1"@), "/tokenize"@),
{
    text::trim_end_char(text::trim_end_text(upstream, "/v1"), '/').to_owned().concat("/tokenize")
}

/// The status of an answer that is no error.
pub const SUCCESS: u16 = 200;

/// The status for something that there is none of.
pub const NOT_FOUND: u16 = 404;

/// The status for a transport failure or a failure of the server behind.
pub const BAD_GATEWAY: u16 = 502;

/// The status that the client sees for a status that the server rejected a
/// request with: its own errors stay its own, all else is a gateway failure.
pub open spec fn client_status(upstream: u16) -> u16 {
    if 400 <= upstream < 500 {
        upstream
    } else {
        BAD_GATEWAY
    }
}

/// The status that the client sees for a rejection by the server.
pub fn status_for_client(upstream: u16) -> (r: u16)
    ensures
        r == client_status(upstream),
{
    if 400 <= upstream && upstream < 500 {
        upstream
    } else {
        BAD_GATEWAY
    }
}

/// One chat request on its way to the server: the model name that it carries,
/// and whether it is the second attempt.
pub struct ChatCall {
    pub name: String,
    pub retried: bool,
}

/// What follows a rejection.
pub enum ChatStep {
    /// Send the request again, under another name.
    Retry(ChatCall),
    /// Report the failure with this status.
    Fail { status: u16, detail: String },
}

/// Whether a rejected call is sent again, where the model is now found to be
/// `fresh`: once, and only under another name. The same name back means that the
/// rejection was about something else, so asking again would ask the same thing.
pub open spec fn worth_retrying(retried: bool, name: Seq<char>, fresh: Seq<char>) -> bool {
    !retried && fresh != name
}

impl ChatCall {
    /// The first attempt.
    pub fn new(model: &str) -> (r: ChatCall)
        ensures
            r.name@ == model@,
            !r.retried,
    {
        ChatCall { name: model.to_owned(), retried: false }
    }

    /// The body to send for a Gemini request.
    pub fn payload(&self, body: &JsonValue, stream: bool) -> (r: JsonValue)
        ensures
            r@ == Json::Object(request::request_members(self.name@, body@, stream)),
    {
        request::request_to_openai(self.name.as_str(), body, stream)
    }

    /// Decides what follows when the server answers with an error status, and the
    /// model was then found to be `fresh`.
    pub fn after_rejection(self, fresh: String, status: u16, detail: String) -> (r: ChatStep)
        ensures
            match r {
                ChatStep::Retry(next) => {
                    &&& worth_retrying(self.retried, self.name@, fresh@)
                    &&& next.name@ == fresh@
                    &&& next.retried
                },
                ChatStep::Fail { status: s, detail: d } => {
                    &&& !worth_retrying(self.retried, self.name@, fresh@)
                    &&& s == client_status(status)
                    &&& d@ == detail@
                },
            },
    {
        if self.retried || text::same_text(fresh.as_str(), self.name.as_str()) {
            ChatStep::Fail { status: status_for_client(status), detail }
        } else {
            ChatStep::Retry(ChatCall { name: fresh, retried: true })
        }
    }

    /// What follows when the server cannot be reached: the failure is reported as
    /// the gateway's.
    pub fn after_transport_failure(self, message: String) -> (r: ChatStep)
        ensures
            r matches ChatStep::Fail { status, detail } && status == BAD_GATEWAY && detail@
                == message@,
    {
        ChatStep::Fail { status: BAD_GATEWAY, detail: message }
    }
}

/// What a client asks of a model.
pub enum Action {
    CountTokens,
    StreamGenerate,
    Generate,
    Unsupported(String),
}

/// The model and the action that a path names. The SDK writes the action behind
/// a colon; without one, content is generated.
pub open spec fn path_parts(spec: Seq<char>) -> (Seq<char>, Seq<char>) {
    match text::split_first(spec, ':') {
        Some(parts) => parts,
        None => (spec, "generateContent"@),
    }
}

/// Whether `action` is what a path calls `name`.
pub open spec fn is_action(action: Action, name: Seq<char>) -> bool {
    match action {
        Action::CountTokens => name == "countTokens"@,
        Action::StreamGenerate => name == "streamGenerateContent"@,
        Action::Generate => name == "generateContent"@,
        Action::Unsupported(other) => other@ == name && name != "countTokens"@ && name
            != "streamGenerateContent"@ && name != "generateContent"@,
    }
}

/// Reads the path of a request: `{model}:generateContent`,
/// `{model}:streamGenerateContent` or `{model}:countTokens`.
pub fn model_action(spec: &str) -> (r: (String, Action))
    ensures
        r.0@ == path_parts(spec@).0,
        is_action(r.1, path_parts(spec@).1),
{
    let (model, action) = match text::split_once(spec, ':') {
        Some((m, a)) => (m, a),
        None => (spec, "generateContent"),
    };
    let chosen = if text::same_text(action, "countTokens") {
        Action::CountTokens
    } else if text::same_text(action, "streamGenerateContent") {
        Action::StreamGenerate
    } else if text::same_text(action, "generateContent") {
        Action::Generate
    } else {
        Action::Unsupported(action.to_owned())
    };
    (model.to_owned(), chosen)
}

/// The status that an action is refused with, none for an action that is carried
/// out.
pub fn action_status(action: &Action) -> (r: Option<u16>)
    ensures
        *action is Unsupported <==> r == Some(NOT_FOUND),
        !(*action is Unsupported) <==> r is None,
{
    match action {
        Action::Unsupported(_) => Some(NOT_FOUND),
        _ => None,
    }
}

/// The body of an error answer.
pub open spec fn error_of(message: Seq<char>) -> Json {
    Json::Object(
        map!["error"@ => Json::Object(map!["message"@ => Json::Str(message)])],
    )
}

/// Makes the body of an error answer.
pub fn error_body(message: &str) -> (r: JsonValue)
    ensures
        r@ == error_of(message@),
{
    let mut error = JsonObject::new();
    error.insert("message", JsonValue::of_str(message));
    let mut body = JsonObject::new();
    body.insert("error", JsonValue::Object(error));
    JsonValue::Object(body)
}

/// The answer to an action that there is none of.
pub fn unsupported_action(action: &str) -> (r: JsonValue)
    ensures
        r@ == error_of("unsupported action: "@ + action@),
{
    let message = "unsupported action: ".to_owned().concat(action);
    error_body(message.as_str())
}

/// The status and the body of the answer when the server could not be talked to.
pub fn upstream_error(context: &str, detail: &str) -> (r: (u16, JsonValue))
    ensures
        r.0 == BAD_GATEWAY,
        r.1@ == Json::Object(
            map![
                "error"@ => Json::Object(
                    map![
                        "message"@ => Json::Str(context@ + ": "@ + detail@),
                        "status"@ => Json::Str("UNAVAILABLE"@),
                    ],
                ),
            ],
        ),
{
    let message = context.to_owned().concat(": ").concat(detail);
    let mut error = JsonObject::new();
    error.insert("message", JsonValue::String(message));
    error.insert("status", JsonValue::of_str("UNAVAILABLE"));
    let mut body = JsonObject::new();
    body.insert("error", JsonValue::Object(error));
    (BAD_GATEWAY, JsonValue::Object(body))
}

/// What is answered for a completion.
pub enum Completion {
    /// The Gemini response.
    Answer(JsonValue),
    /// The error that the server wrapped in a success, handed on as a gateway
    /// failure; the discovered model is to be forgotten.
    Failed(JsonValue),
}

/// Decides what is answered for a decoded completion. A success can carry an
/// error body, which is worth not translating.
pub fn completion_reply(completion: JsonValue) -> (r: Completion)
    ensures
        match r {
            Completion::Answer(v) => completion@.get("error"@) is None && v@
                == response::gemini_response(completion@),
            Completion::Failed(v) => completion@.get("error"@) is Some && v@ == completion@,
        },
{
    if completion.get("error").is_some() {
        Completion::Failed(completion)
    } else {
        Completion::Answer(response::response_to_gemini(&completion))
    }
}

/// The status that a completion is answered with: a success for an answer, a
/// gateway failure for an error that the server wrapped in a success.
pub fn completion_status(completion: &Completion) -> (r: u16)
    ensures
        r == (if *completion is Failed {
            BAD_GATEWAY
        } else {
            SUCCESS
        }),
{
    match completion {
        Completion::Answer(_) => SUCCESS,
        Completion::Failed(_) => BAD_GATEWAY,
    }
}

/// The model that an OpenAI request names, empty where it names none.
pub fn requested_model(body: &JsonValue) -> (r: String)
    ensures
        r@ == request::text_or_empty(body@.text_at("model"@)),
{
    request::owned_or_empty(body.text_at("model"))
}

/// An OpenAI request for another model: an object with that model, anything else
/// as it is.
pub open spec fn for_model(body: Json, model: Seq<char>) -> Json {
    match body {
        Json::Object(m) => Json::Object(m.insert("model"@, Json::Str(model))),
        _ => body,
    }
}

/// Points an OpenAI request at the model that is really served.
pub fn with_model(body: JsonValue, model: &str) -> (r: JsonValue)
    ensures
        r@ == for_model(body@, model@),
{
    match body {
        JsonValue::Object(o) => {
            let mut members = o;
            members.insert("model", JsonValue::of_str(model));
            JsonValue::Object(members)
        },
        other => other,
    }
}

/// The question to the server how many tokens a translated request has.
pub fn token_probe(model: &str, payload: &JsonValue) -> (r: JsonValue)
    ensures
        r@ == Json::Object(
            map![
                "model"@ => Json::Str(model@),
                "messages"@ => payload@.get_or("messages"@, Json::Array(Seq::empty())),
            ],
        ),
{
    let mut probe = JsonObject::new();
    probe.insert("model", JsonValue::of_str(model));
    probe.insert("messages", payload.get_or("messages", JsonValue::Array(Vec::new())));
    JsonValue::Object(probe)
}

/// The count in the answer to a token probe.
pub open spec fn counted(reply: Json) -> Option<u64> {
    match reply.get("count"@) {
        Some(n) => n.unsigned(),
        None => None,
    }
}

/// The count in the answer to a token probe.
pub fn counted_tokens(reply: &JsonValue) -> (r: Option<u64>)
    ensures
        r == counted(reply@),
{
    match reply.get("count") {
        Some(n) => n.as_u64(),
        None => None,
    }
}

/// The number of bytes in the JSON texts of `messages`, one by one.
pub open spec fn text_bytes(messages: Seq<Json>) -> nat
    decreases messages.len(),
{
    if messages.len() == 0 {
        0
    } else {
        text_bytes(messages.drop_last()) + vstd::utf8::encode_utf8(
            wire::json_text(messages.last()),
        ).len()
    }
}

/// The estimate for a number of bytes of text: four bytes to a token.
pub fn estimate_for_bytes(bytes: usize) -> (r: u64)
    ensures
        r == bytes / 4,
{
    (bytes / 4) as u64
}

/// The estimate for a list of messages, none where their size does not fit a
/// machine word.
pub open spec fn estimate_of(messages: Seq<Json>) -> Option<u64> {
    if text_bytes(messages) <= usize::MAX {
        Some((text_bytes(messages) / 4) as u64)
    } else {
        None
    }
}

/// An estimate of the tokens of a translated request, for when the server does
/// not count them: it serves budgeting, not correctness. `None` where the size
/// of the request does not fit a machine word.
pub fn estimated_tokens(payload: &JsonValue) -> (r: Option<u64>)
    ensures
        r == estimate_of(payload@.items_at("messages"@)),
        r is Some ==> r->0 == text_bytes(payload@.items_at("messages"@)) / 4,
{
    let mut total: usize = 0;
    if let Some(messages) = payload.items_at("messages") {
        let ghost all = value::items_view(messages@);
        proof {
            value::lemma_items_view(messages@);
        }
        let mut i: usize = 0;
        while i < messages.len()
            invariant
                all == value::items_view(messages@),
                all == payload@.items_at("messages"@),
                all.len() == messages@.len(),
                forall|j: int| 0 <= j < all.len() ==> #[trigger] all[j] == messages@[j]@,
                i <= messages@.len(),
                total == text_bytes(all.take(i as int)),
            decreases messages@.len() - i,
        {
            assert(all.take(i + 1).drop_last() =~= all.take(i as int));
            assert(all[i as int] == messages@[i as int]@);
            let json = messages[i].to_text();
            let size: usize = json.as_str().as_bytes().len();
            match total.checked_add(size) {
                Some(sum) => {
                    total = sum;
                },
                None => {
                    proof {
                        lemma_text_bytes_grow(all, i + 1);
                    }
                    return None;
                },
            }
            i = i + 1;
        }
        assert(all.take(i as int) =~= all);
    }
    Some(estimate_for_bytes(total))
}

/// The first messages take no more bytes than all of them.
pub proof fn lemma_text_bytes_grow(messages: Seq<Json>, n: int)
    requires
        0 <= n <= messages.len(),
    ensures
        text_bytes(messages.take(n)) <= text_bytes(messages),
    decreases messages.len() - n,
{
    if n == messages.len() {
        assert(messages.take(n) =~= messages);
    } else {
        assert(messages.take(n + 1).drop_last() =~= messages.take(n));
        lemma_text_bytes_grow(messages, n + 1);
    }
}

/// The tokens of a translated request whose probe was answered with `reply`: the
/// real count where there is one, else the estimate.
pub open spec fn total_of(reply: Option<Json>, payload: Json) -> Option<u64> {
    let count = match reply {
        Some(v) => counted(v),
        None => None,
    };
    match count {
        Some(n) => Some(n),
        None => estimate_of(payload.items_at("messages"@)),
    }
}

/// The tokens of a translated request: what the server counted in its `reply` to
/// the probe, and an estimate where it did not answer or did not count.
pub fn token_total(reply: Option<&JsonValue>, payload: &JsonValue) -> (r: Option<u64>)
    ensures
        r == total_of(
            match reply {
                Some(v) => Some(v@),
                None => None,
            },
            payload@,
        ),
{
    if let Some(v) = reply {
        if let Some(n) = counted_tokens(v) {
            return Some(n);
        }
    }
    estimated_tokens(payload)
}

/// The answer to a count of tokens.
pub fn token_reply(count: u64) -> (r: JsonValue)
    ensures
        r@ == Json::Object(map!["totalTokens"@ => value::json_u64(count)]),
{
    let mut reply = JsonObject::new();
    reply.insert("totalTokens", JsonValue::of_u64(count));
    JsonValue::Object(reply)
}

} // verus!
