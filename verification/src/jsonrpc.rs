//! The JSON-RPC 2.0 envelope around a request, and the two halves of a reply.
use vstd::prelude::*;

use crate::json::{json_of, json_parsed, lemma_json_view, member, Json, JsonObject, JsonView};

verus! {

/// The protocol version that every envelope names.
pub const JSONRPC_VERSION: &'static str = "2.0";

/// A request envelope.
pub open spec fn request_view(id: Seq<char>, method: Seq<char>, params: JsonView) -> JsonView {
    JsonView::Object(
        Map::empty().insert("jsonrpc"@, JsonView::String(JSONRPC_VERSION@)).insert(
            "id"@,
            JsonView::String(id),
        ).insert("method"@, JsonView::String(method)).insert("params"@, params),
    )
}

/// Wraps `params` into a request envelope. The upstream agent echoes `id` in its reply.
pub fn build_request(id: &str, method: &str, params: Json) -> (request: Json)
    ensures
        request@ == request_view(id@, method@, params@),
{
    broadcast use lemma_json_view;
    let mut envelope = JsonObject::new();
    envelope.insert("jsonrpc".to_owned(), Json::string(JSONRPC_VERSION));
    envelope.insert("id".to_owned(), Json::string(id));
    envelope.insert("method".to_owned(), Json::string(method));
    envelope.insert("params".to_owned(), params);
    Json::Object(envelope)
}

/// The two halves of a reply, which exclude each other: a well-formed reply has one of them. A
/// reply with neither is malformed, and so is one with both; of those there is none.
#[derive(Debug, Clone)]
pub struct ResponseEnvelope {
    pub result: Option<Json>,
    pub error: Option<Json>,
}

/// The contents of a `ResponseEnvelope`.
pub struct ResponseEnvelopeView {
    pub result: Option<JsonView>,
    pub error: Option<JsonView>,
}

impl View for ResponseEnvelope {
    type V = ResponseEnvelopeView;

    open spec fn view(&self) -> ResponseEnvelopeView {
        ResponseEnvelopeView { result: json_of(self.result), error: json_of(self.error) }
    }
}

/// The halves of a reply.
pub open spec fn envelope_view(value: JsonView) -> ResponseEnvelopeView {
    let result = member(value, "result"@);
    let error = member(value, "error"@);
    if result is Some && error is Some {
        ResponseEnvelopeView { result: None, error: None }
    } else {
        ResponseEnvelopeView { result, error }
    }
}

impl Default for ResponseEnvelope {
    fn default() -> (envelope: ResponseEnvelope)
        ensures
            envelope@ == (ResponseEnvelopeView { result: None, error: None }),
    {
        ResponseEnvelope { result: None, error: None }
    }
}

/// A copy of the member `name` of an object.
pub(crate) fn copy_member(value: &Json, name: &str) -> (copy: Option<Json>)
    ensures
        json_of(copy) == member(value@, name@),
{
    match value.get(name) {
        Some(found) => Some(found.clone()),
        None => None,
    }
}

impl ResponseEnvelope {
    /// The halves of a reply that has been read.
    pub fn from_json(value: &Json) -> (envelope: ResponseEnvelope)
        ensures
            envelope@ == envelope_view(value@),
            member(value@, "error"@) is None ==> json_of(envelope.result) == member(
                value@,
                "result"@,
            ),
            member(value@, "result"@) is None ==> json_of(envelope.error) == member(
                value@,
                "error"@,
            ),
            member(value@, "error"@) is Some ==> envelope.result is None,
            member(value@, "result"@) is Some ==> envelope.error is None,
    {
        let result = copy_member(value, "result");
        let error = copy_member(value, "error");
        if result.is_some() && error.is_some() {
            ResponseEnvelope::default()
        } else {
            ResponseEnvelope { result, error }
        }
    }

    /// Reads a reply and splits it into its halves. There is none where the body is not JSON.
    pub fn parse(body: &[u8]) -> (envelope: Option<ResponseEnvelope>)
        ensures
            match (envelope, json_parsed(body@)) {
                (Some(envelope), Some(value)) => envelope@ == envelope_view(value),
                (None, None) => true,
                _ => false,
            },
    {
        match Json::parse(body) {
            Some(value) => Some(ResponseEnvelope::from_json(&value)),
            None => None,
        }
    }
}

/// The halves of a reply exclude each other.
pub proof fn law_halves_exclude_each_other(value: JsonView)
    ensures
        envelope_view(value).result is None || envelope_view(value).error is None,
{
}

/// A request envelope says the version, the identifier, the method and the payload, each as it was
/// given, and nothing else.
pub proof fn law_envelope_says_what_it_was_given(
    id: Seq<char>,
    method: Seq<char>,
    params: JsonView,
)
    ensures
        ({
            let envelope = request_view(id, method, params);
            &&& member(envelope, "jsonrpc"@) == Some(JsonView::String("2.0"@))
            &&& member(envelope, "id"@) == Some(JsonView::String(id))
            &&& member(envelope, "method"@) == Some(JsonView::String(method))
            &&& member(envelope, "params"@) == Some(params)
            &&& forall|name: Seq<char>| #[trigger]
                member(envelope, name) is Some ==> name == "jsonrpc"@ || name == "id"@ || name
                    == "method"@ || name == "params"@
        }),
{
    reveal_strlit("jsonrpc");
    reveal_strlit("id");
    reveal_strlit("method");
    reveal_strlit("params");
    assert("jsonrpc"@.len() == 7 && "id"@.len() == 2);
    assert("method"@.len() == 6 && "params"@.len() == 6);
    assert("method"@[0] == 'm' && "params"@[0] == 'p');
}

/// A reply that has one of the two members has that half, exactly as it stands there, whatever it
/// holds; a reply that has both or neither has no half.
pub proof fn law_half_is_the_member_as_it_stands(value: JsonView)
    ensures
        member(value, "error"@) is None ==> envelope_view(value).result == member(
            value,
            "result"@,
        ),
        member(value, "result"@) is None ==> envelope_view(value).error == member(value, "error"@),
        member(value, "error"@) is Some ==> envelope_view(value).result is None,
        member(value, "result"@) is Some ==> envelope_view(value).error is None,
{
}

/// The halves of an envelope are seen as they are.
pub proof fn law_envelope_is_seen_whole(envelope: ResponseEnvelope)
    ensures
        envelope@.result is Some <==> envelope.result is Some,
        envelope.result is Some ==> envelope@.result->0 == envelope.result->0@,
        envelope@.error is Some <==> envelope.error is Some,
        envelope.error is Some ==> envelope@.error->0 == envelope.error->0@,
{
}

} // verus!
