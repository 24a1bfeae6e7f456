//! What the gateway decides, read off its inputs.

use crate::gateway::{self, Action, ModelNames, NamesView};
use crate::laws;
use crate::laws::texts;
use crate::value::{self, Json};
use crate::wire;
use vstd::prelude::*;

verus! {

/// The first model that the server lists is the one that is found, though it be
/// the only one; nothing is found where there is no list, an empty one, or one
/// whose first entry has no name.
pub proof fn law_first_listed_model_is_found(listing: Json, entries: Seq<Json>, id: Seq<char>)
    ensures
        listing.get("data"@) == Some(Json::Array(entries)) && entries.len() > 0 && entries[0].get(
            "id"@,
        ) == Some(Json::Str(id)) ==> gateway::first_model(listing) == Some(id),
        gateway::first_model(listing) == Some(id) ==> {
            &&& listing.get("data"@) is Some
            &&& listing.get("data"@)->0 is Array
            &&& listing.get("data"@)->0->Array_0.len() > 0
            &&& listing.get("data"@)->0->Array_0[0].get("id"@) == Some(Json::Str(id))
        },
{
}

/// All names that the server lists are found, in order: those of two lists are
/// those of the first, then those of the second, and one entry has its own name or
/// none.
pub proof fn law_all_listed_models_are_found(
    a: Seq<Json>,
    b: Seq<Json>,
    entry: Json,
    id: Seq<char>,
)
    ensures
        gateway::model_ids(a + b) == gateway::model_ids(a) + gateway::model_ids(b),
        entry.get("id"@) == Some(Json::Str(id)) ==> gateway::model_ids(seq![entry]) == seq![id],
        entry.text_at("id"@) is None ==> gateway::model_ids(seq![entry]).len() == 0,
        gateway::model_ids(Seq::empty()).len() == 0,
    decreases b.len(),
{
    if b.len() == 0 {
        assert(a + b =~= a);
        assert(gateway::model_ids(a) + gateway::model_ids(b) =~= gateway::model_ids(a));
    } else {
        assert((a + b).drop_last() =~= a + b.drop_last());
        law_all_listed_models_are_found(a, b.drop_last(), entry, id);
        assert(gateway::model_ids(a + b) =~= gateway::model_ids(a) + gateway::model_ids(b));
    }
    assert(seq![entry].drop_last() =~= Seq::<Json>::empty());
    assert(gateway::model_ids(Seq::<Json>::empty()) =~= Seq::<Seq<char>>::empty());
    if entry.get("id"@) == Some(Json::Str(id)) {
        assert(gateway::model_ids(seq![entry]) =~= seq![id]);
    }
}

/// A name that is known is used; else what is served, and the request as it is
/// where nothing is. What was found is remembered, a fruitless search changes
/// nothing, and nothing touches what was pinned.
pub proof fn law_resolving(names: NamesView, served: Seq<char>, requested: Seq<char>)
    ensures
        gateway::known_name(names) is None <==> names.pinned is None && names.discovered is None,
        names.pinned is Some ==> gateway::known_name(names) == names.pinned,
        names.pinned is None ==> gateway::known_name(names) == names.discovered,
        names.pinned is None && names.discovered is Some ==> gateway::resolved_name(
            names,
            Some(served),
            requested,
        ) == names.discovered->0,
        names.pinned is None && names.discovered is None ==> {
            &&& gateway::resolved_name(names, Some(served), requested) == served
            &&& gateway::resolved_name(names, None, requested) == requested
            &&& gateway::names_after(names, Some(served)).discovered == Some(served)
            &&& gateway::names_after(names, None) == names
        },
        gateway::names_after(names, Some(served)).pinned == names.pinned,
        gateway::names_forgotten(names).pinned == names.pinned,
        names.pinned is None ==> gateway::names_forgotten(names).discovered is None,
        names.discovered is Some ==> gateway::names_after(names, Some(served)) == names,
{
}

/// Names stand for their texts.
pub proof fn law_names_view(names: ModelNames, texts: Seq<String>, i: int)
    ensures
        names.pinned is Some ==> names@.pinned == Some(names.pinned->0@),
        names.pinned is None ==> names@.pinned is None,
        names.discovered is Some ==> names@.discovered == Some(names.discovered->0@),
        names.discovered is None ==> names@.discovered is None,
        gateway::texts_view(texts).len() == texts.len(),
        0 <= i < texts.len() ==> gateway::texts_view(texts)[i] == texts[i]@,
{
}

/// The listing of a model names it twice, once under `models/`, and says the three
/// things that can be asked of it.
pub proof fn law_listed_model(id: Seq<char>)
    ensures
        ({
            let entry = gateway::model_entry(id);
            let methods = entry.items_at("supportedGenerationMethods"@);
            &&& laws::has_exactly(
                entry,
                set!["name"@, "displayName"@, "supportedGenerationMethods"@],
            )
            &&& entry.text_at("name"@) == Some("models/"@ + id)
            &&& entry.text_at("displayName"@) == Some(id)
            &&& methods.len() == 3
            &&& methods[0] == Json::Str("generateContent"@)
            &&& methods[1] == Json::Str("streamGenerateContent"@)
            &&& methods[2] == Json::Str("countTokens"@)
        }),
{
    reveal_strlit("name");
    reveal_strlit("displayName");
    reveal_strlit("supportedGenerationMethods");
    assert("name"@.len() != "displayName"@.len());
    assert("name"@.len() != "supportedGenerationMethods"@.len());
    assert("displayName"@.len() != "supportedGenerationMethods"@.len());
    assert(gateway::model_entry(id)->Object_0.dom() =~= set![
        "name"@,
        "displayName"@,
        "supportedGenerationMethods"@,
    ]);
}

/// The listing has an entry for every name that is advertised, in order, and
/// nothing else.
pub proof fn law_listing(ids: Seq<Seq<char>>)
    ensures
        ({
            let listing = gateway::model_listing(ids);
            let models = listing.items_at("models"@);
            let names = gateway::advertised(ids);
            &&& laws::has_exactly(listing, set!["models"@])
            &&& models.len() == names.len()
            &&& forall|i: int|
                0 <= i < names.len() ==> #[trigger] models[i] == gateway::model_entry(names[i])
        }),
{
    assert(gateway::model_listing(ids)->Object_0.dom() =~= set!["models"@]);
}

/// The stock names are these six, in this order.
pub proof fn law_stock_names()
    ensures
        gateway::aliases().len() == 6,
        gateway::aliases()[0] == "gemini-3.1-flash-lite"@,
        gateway::aliases()[1] == "gemini-3.1-flash"@,
        gateway::aliases()[2] == "gemini-3.1-pro"@,
        gateway::aliases()[3] == "gemini-2.5-flash-lite"@,
        gateway::aliases()[4] == "gemini-2.5-flash"@,
        gateway::aliases()[5] == "gemini-2.5-pro"@,
{
}

/// The stock names that the server does not serve are advertised in their order:
/// leaving out is done name by name.
pub proof fn law_leaving_out(a: Seq<Seq<char>>, b: Seq<Seq<char>>, ids: Seq<Seq<char>>, x: Seq<char>)
    ensures
        gateway::names_without(a + b, ids) == gateway::names_without(a, ids)
            + gateway::names_without(b, ids),
        ids.contains(x) ==> gateway::names_without(seq![x], ids).len() == 0,
        !ids.contains(x) ==> gateway::names_without(seq![x], ids) == seq![x],
        gateway::advertised(ids) == ids + gateway::names_without(gateway::aliases(), ids),
    decreases b.len(),
{
    if b.len() == 0 {
        assert(a + b =~= a);
        assert(gateway::names_without(a, ids) + gateway::names_without(b, ids)
            =~= gateway::names_without(a, ids));
    } else {
        assert((a + b).drop_last() =~= a + b.drop_last());
        law_leaving_out(a, b.drop_last(), ids, x);
        assert(gateway::names_without(a + b, ids) =~= gateway::names_without(a, ids)
            + gateway::names_without(b, ids));
    }
    assert(seq![x].drop_last() =~= Seq::<Seq<char>>::empty());
    assert(gateway::names_without(Seq::<Seq<char>>::empty(), ids) =~= Seq::<Seq<char>>::empty());
    if !ids.contains(x) {
        assert(gateway::names_without(seq![x], ids) =~= seq![x]);
    }
}

/// Slashes at the end of the base address make no difference, and an address is
/// the base and the path behind it.
pub proof fn law_addresses(base: Seq<char>, path: Seq<char>)
    ensures
        gateway::url_under(base.push('/'), path) == gateway::url_under(base, path),
        base.len() == 0 || base.last() != '/' ==> gateway::url_under(base, path) == base + path,
{
    texts::law_trailing_run_goes(base, '/');
}

/// The path of a request is the model and the action with the first colon between
/// them; without a colon it is the model, and content is generated.
pub proof fn law_paths(model: Seq<char>, action: Seq<char>)
    requires
        !model.contains(':'),
    ensures
        gateway::path_parts(model + seq![':'] + action) == (model, action),
        gateway::path_parts(model) == (model, "generateContent"@),
{
    texts::law_split_at_the_first(model + seq![':'] + action, ':', model, action);
    texts::law_split_or_not(model, ':');
}

/// Each action has one name, and a name without an action is handed on as it is.
pub proof fn law_actions(other: String, name: Seq<char>)
    ensures
        gateway::is_action(Action::CountTokens, name) <==> name == "countTokens"@,
        gateway::is_action(Action::StreamGenerate, name) <==> name == "streamGenerateContent"@,
        gateway::is_action(Action::Generate, name) <==> name == "generateContent"@,
        gateway::is_action(Action::Unsupported(other), name) ==> other@ == name,
        gateway::is_action(Action::Unsupported(other), name) ==> !gateway::is_action(
            Action::CountTokens,
            name,
        ) && !gateway::is_action(Action::StreamGenerate, name) && !gateway::is_action(
            Action::Generate,
            name,
        ),
        other@ == name && name != "countTokens"@ && name != "streamGenerateContent"@ && name
            != "generateContent"@ ==> gateway::is_action(Action::Unsupported(other), name),
{
}

/// An error is an object with the message and nothing else.
pub proof fn law_errors(message: Seq<char>)
    ensures
        laws::has_exactly(gateway::error_of(message), set!["error"@]),
        gateway::error_of(message).get("error"@) is Some,
        laws::has_exactly(gateway::error_of(message).get("error"@)->0, set!["message"@]),
        gateway::error_of(message).get("error"@)->0.get("message"@) == Some(Json::Str(message)),
{
    let e = gateway::error_of(message);
    assert(e->Object_0.dom() =~= set!["error"@]);
    assert(e.get("error"@)->0->Object_0.dom() =~= set!["message"@]);
}

/// A request that is no object passes through as it is.
pub proof fn law_no_object_passes_through(body: Json, model: Seq<char>)
    requires
        !(body is Object),
    ensures
        gateway::for_model(body, model) == body,
{
}

/// The count of a reply is its member `count` where that is an unsigned integer,
/// whatever other members it has, and there is no count otherwise.
pub proof fn law_count_of_a_reply(reply: Json, n: u64)
    ensures
        gateway::counted(reply) == Some(n) <==> reply.get("count"@) == Some(value::json_u64(n)),
{
}

/// The count does not depend on any other member.
pub proof fn law_other_members_do_not_count(
    members: Map<Seq<char>, Json>,
    key: Seq<char>,
    v: Json,
    n: u64,
)
    ensures
        key != "count"@ ==> gateway::counted(Json::Object(members.insert(key, v)))
            == gateway::counted(Json::Object(members)),
        gateway::counted(Json::Object(members.insert("count"@, value::json_u64(n)))) == Some(n),
        gateway::counted(Json::Object(members.remove("count"@))) is None,
{
}

/// The bytes of two lists of messages are those of the first and those of the
/// second together, and one message has those of its JSON text.
pub proof fn law_bytes_add_up(a: Seq<Json>, b: Seq<Json>, message: Json)
    ensures
        gateway::text_bytes(a + b) == gateway::text_bytes(a) + gateway::text_bytes(b),
        gateway::text_bytes(seq![message]) == vstd::utf8::encode_utf8(
            wire::json_text(message),
        ).len(),
        gateway::text_bytes(Seq::empty()) == 0,
    decreases b.len(),
{
    if b.len() == 0 {
        assert(a + b =~= a);
    } else {
        assert((a + b).drop_last() =~= a + b.drop_last());
        law_bytes_add_up(a, b.drop_last(), message);
    }
    assert(seq![message].drop_last() =~= Seq::<Json>::empty());
    assert(gateway::text_bytes(Seq::<Json>::empty()) == 0);
}

/// Four bytes make a token, and what is left over makes none.
pub proof fn law_four_bytes_to_a_token(messages: Seq<Json>)
    ensures
        gateway::estimate_of(messages) is Some <==> gateway::text_bytes(messages) <= usize::MAX,
        gateway::estimate_of(messages) is Some ==> 4 * gateway::estimate_of(messages)->0
            <= gateway::text_bytes(messages) < 4 * gateway::estimate_of(messages)->0 + 4,
{
}

} // verus!
