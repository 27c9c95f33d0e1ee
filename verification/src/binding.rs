//! The two ways to talk to the upstream agent: how a request is framed for each, and how a reply
//! is taken apart.
use vstd::prelude::*;

use crate::a2a::{
    configuration_view, message_view, send_message_view, ContinuationView, SendConfigurationView,
    SEND_MESSAGE_METHOD,
};
use crate::json::{
    is_plain, json_of, json_parsed, json_text, lemma_json_view, member, Json, JsonObject, JsonView,
};
use crate::jsonrpc::{
    build_request, copy_member, envelope_view, law_envelope_says_what_it_was_given,
    law_half_is_the_member_as_it_stands, request_view, ResponseEnvelope,
};
use crate::text::{lowered, same_text, trimmed};

verus! {

/// How the upstream agent is talked to.
#[derive(Debug, Clone, Copy, PartialEq, Eq, Structural)]
pub enum UpstreamBinding {
    /// JSON-RPC 2.0: the body names the method and wraps the payload.
    JsonRpc,
    /// HTTP and plain JSON: the route names the operation, the body is the payload.
    HttpJson,
}

/// A name that stands for no binding.
#[derive(Debug, Clone, PartialEq, Eq)]
pub struct UnknownBinding(pub String);

impl UnknownBinding {
    /// What is wrong, for the operator.
    pub fn message(&self) -> (text: String)
        ensures
            text@ == "unknown upstream binding '"@ + self.0@
                + "' (expected 'jsonrpc' or 'httpjson')"@,
    {
        let mut text = "unknown upstream binding '".to_owned();
        text.append(self.0.as_str());
        text.append("' (expected 'jsonrpc' or 'httpjson')");
        text
    }
}

/// The binding that a name stands for. Case and white space around the name do not matter.
pub open spec fn binding_of(name: Seq<char>) -> Option<UpstreamBinding> {
    let name = lowered(trimmed(name));
    if name == "jsonrpc"@ || name == "json-rpc"@ || name == "json_rpc"@ {
        Some(UpstreamBinding::JsonRpc)
    } else if name == "httpjson"@ || name == "http+json"@ || name == "http-json"@ || name
        == "http_json"@ {
        Some(UpstreamBinding::HttpJson)
    } else {
        None
    }
}

/// The two halves of a reply: the result that the response is shaped from, and the error that the
/// upstream agent reports. In the plain binding the error stands beside the result; in JSON-RPC it
/// excludes it. A reply that is not JSON has neither.
#[derive(Debug, Clone)]
pub struct ResponseParts {
    pub result: Option<Json>,
    pub error: Option<Json>,
}

/// The contents of `ResponseParts`.
pub struct ResponsePartsView {
    pub result: Option<JsonView>,
    pub error: Option<JsonView>,
}

impl View for ResponseParts {
    type V = ResponsePartsView;

    open spec fn view(&self) -> ResponsePartsView {
        ResponsePartsView { result: json_of(self.result), error: json_of(self.error) }
    }
}

impl Default for ResponseParts {
    fn default() -> (parts: ResponseParts)
        ensures
            parts@ == (ResponsePartsView { result: None, error: None }),
    {
        ResponseParts { result: None, error: None }
    }
}

impl UpstreamBinding {
    /// The body of a request with the payload `params`.
    pub open spec fn request_view(self, request_id: Seq<char>, params: JsonView) -> JsonView {
        match self {
            UpstreamBinding::JsonRpc => request_view(request_id, SEND_MESSAGE_METHOD@, params),
            UpstreamBinding::HttpJson => params,
        }
    }

    /// The halves of a reply. In JSON-RPC they exclude each other; in the plain binding the whole
    /// body is the result, also where it holds an error.
    pub open spec fn parts_view(self, body: Option<JsonView>) -> ResponsePartsView {
        match (self, body) {
            (_, None) => ResponsePartsView { result: None, error: None },
            (UpstreamBinding::JsonRpc, Some(value)) => ResponsePartsView {
                result: envelope_view(value).result,
                error: envelope_view(value).error,
            },
            (UpstreamBinding::HttpJson, Some(value)) => ResponsePartsView {
                result: Some(value),
                error: member(value, "error"@),
            },
        }
    }

    /// The binding that `name` stands for.
    pub fn from_name(name: &str) -> (binding: Result<UpstreamBinding, UnknownBinding>)
        ensures
            match binding {
                Ok(binding) => binding_of(name@) == Some(binding),
                Err(unknown) => binding_of(name@) is None && unknown.0@ == lowered(trimmed(name@)),
            },
    {
        let name = name.trim().to_ascii_lowercase();
        let known = name.as_str();
        if same_text(known, "jsonrpc") || same_text(known, "json-rpc") || same_text(
            known,
            "json_rpc",
        ) {
            Ok(UpstreamBinding::JsonRpc)
        } else if same_text(known, "httpjson") || same_text(known, "http+json") || same_text(
            known,
            "http-json",
        ) || same_text(known, "http_json") {
            Ok(UpstreamBinding::HttpJson)
        } else {
            Err(UnknownBinding(name))
        }
    }

    /// Builds the body of a request. The plain binding has no use for `request_id`.
    pub fn request_body(&self, request_id: &str, params: Json) -> (body: Json)
        ensures
            body@ == self.request_view(request_id@, params@),
    {
        match self {
            UpstreamBinding::JsonRpc => build_request(request_id, SEND_MESSAGE_METHOD, params),
            UpstreamBinding::HttpJson => params,
        }
    }

    /// Writes out the body of a request. The upstream agent reads from it what was to be said,
    /// where that holds no number but integers and is not nested too deeply.
    pub fn frame_request(&self, request_id: &str, params: Json) -> (body: Vec<u8>)
        ensures
            body@ == json_text(self.request_view(request_id@, params@)),
            is_plain(self.request_view(request_id@, params@), 127) ==> json_parsed(body@) == Some(
                self.request_view(request_id@, params@),
            ),
    {
        self.request_body(request_id, params).to_text()
    }

    /// Takes apart a reply that has been read; `None` stands for one that is not JSON.
    pub fn split_response(&self, body: Option<Json>) -> (parts: ResponseParts)
        ensures
            parts@ == self.parts_view(json_of(body)),
    {
        match body {
            None => ResponseParts::default(),
            Some(value) => match self {
                UpstreamBinding::JsonRpc => {
                    let envelope = ResponseEnvelope::from_json(&value);
                    ResponseParts { result: envelope.result, error: envelope.error }
                },
                UpstreamBinding::HttpJson => {
                    let error = copy_member(&value, "error");
                    ResponseParts { result: Some(value), error }
                },
            },
        }
    }

    /// Reads a reply and takes it apart.
    pub fn parse_response(&self, body: &[u8]) -> (parts: ResponseParts)
        ensures
            parts@ == self.parts_view(json_parsed(body@)),
    {
        self.split_response(Json::parse(body))
    }
}

impl std::str::FromStr for UpstreamBinding {
    type Err = UnknownBinding;

    fn from_str(s: &str) -> (binding: Result<UpstreamBinding, UnknownBinding>)
        ensures
            match binding {
                Ok(binding) => binding_of(s@) == Some(binding),
                Err(unknown) => binding_of(s@) is None && unknown.0@ == lowered(trimmed(s@)),
            },
    {
        UpstreamBinding::from_name(s)
    }
}

/// What a caller is told whose request is refused.
pub open spec fn caller_error_view(message: Seq<char>) -> JsonView {
    let error = Map::empty().insert("message"@, JsonView::String(message)).insert(
        "source"@,
        JsonView::String("rest-to-a2a"@),
    );
    JsonView::Object(Map::empty().insert("error"@, JsonView::Object(error)))
}

/// Builds what a caller is told whose request is refused.
pub fn caller_error(message: &str) -> (body: Json)
    ensures
        body@ == caller_error_view(message@),
{
    broadcast use lemma_json_view;
    let mut error = JsonObject::new();
    error.insert("message".to_owned(), Json::string(message));
    error.insert("source".to_owned(), Json::string("rest-to-a2a"));
    let mut body = JsonObject::new();
    body.insert("error".to_owned(), Json::Object(error));
    Json::Object(body)
}

/// Writes out what a caller is told whose request is refused.
pub fn caller_error_body(message: &str) -> (body: Vec<u8>)
    ensures
        body@ == json_text(caller_error_view(message@)),
        json_parsed(body@) == Some(caller_error_view(message@)),
{
    let body = caller_error(message);
    proof {
        reveal_with_fuel(is_plain, 4);
    }
    body.to_text()
}

/// What is plain within one depth is plain within a greater one.
proof fn lemma_plain_within_more(value: JsonView, depth: nat, more: nat)
    requires
        is_plain(value, depth),
        depth <= more,
    ensures
        is_plain(value, more),
    decreases depth,
{
    match value {
        JsonView::Array(items) => {
            assert forall|i: int| 0 <= i < items.len() implies is_plain(
                #[trigger] items[i],
                (more - 1) as nat,
            ) by {
                lemma_plain_within_more(items[i], (depth - 1) as nat, (more - 1) as nat);
            }
        },
        JsonView::Object(members) => {
            assert forall|name: Seq<char>| #[trigger] members.contains_key(name) implies is_plain(
                members[name],
                (more - 1) as nat,
            ) by {
                lemma_plain_within_more(members[name], (depth - 1) as nat, (more - 1) as nat);
            }
        },
        _ => {},
    }
}

/// A send is plain, so that the upstream agent reads from its text what was to be said: metadata
/// alone can bring floating-point numbers or great depth into it.
pub proof fn law_send_is_plain(
    binding: UpstreamBinding,
    prompt: Seq<char>,
    message_id: Seq<char>,
    continuation: ContinuationView,
    configuration: Option<SendConfigurationView>,
    metadata: Option<JsonView>,
)
    requires
        metadata is None || is_plain(metadata->0, 124),
    ensures
        is_plain(
            binding.request_view(
                message_id,
                send_message_view(prompt, message_id, continuation, configuration, metadata),
            ),
            127,
        ),
{
    let params = send_message_view(prompt, message_id, continuation, configuration, metadata);
    let message = message_view(prompt, message_id, continuation, metadata);
    let part = Map::empty().insert("text"@, JsonView::String(prompt));
    let parts = JsonView::Array(seq![JsonView::Object(part)]);
    reveal_with_fuel(is_plain, 2);
    assert(is_plain(JsonView::Object(part), 123));
    assert(is_plain(parts, 124));
    assert(is_plain(JsonView::Object(message), 125));
    if let Some(configuration) = configuration {
        if let Some(modes) = configuration.accepted_output_modes {
            let listed = modes.map_values(|mode: Seq<char>| JsonView::String(mode));
            assert(is_plain(JsonView::Array(listed), 124));
        }
        assert(is_plain(JsonView::Object(configuration_view(configuration)), 125));
    }
    assert(is_plain(params, 126));
    lemma_plain_within_more(params, 126, 127);
    assert(is_plain(request_view(message_id, SEND_MESSAGE_METHOD@, params), 127));
}

/// The names of the bindings: each of these, and no other, after trimming and in lower case.
pub proof fn law_bindings_by_name(name: Seq<char>)
    ensures
        ({
            let known = lowered(trimmed(name));
            &&& binding_of(name) == Some(UpstreamBinding::JsonRpc) <==> known == "jsonrpc"@ || known
                == "json-rpc"@ || known == "json_rpc"@
            &&& binding_of(name) == Some(UpstreamBinding::HttpJson) <==> known == "httpjson"@
                || known == "http+json"@ || known == "http-json"@ || known == "http_json"@
        }),
{
    reveal_strlit("jsonrpc");
    reveal_strlit("json-rpc");
    reveal_strlit("json_rpc");
    reveal_strlit("httpjson");
    reveal_strlit("http+json");
    reveal_strlit("http-json");
    reveal_strlit("http_json");
    let known = lowered(trimmed(name));
    assert("jsonrpc"@[0] == 'j' && "json-rpc"@[0] == 'j' && "json_rpc"@[0] == 'j');
    assert("httpjson"@[0] == 'h' && "http+json"@[0] == 'h');
    assert("http-json"@[0] == 'h' && "http_json"@[0] == 'h');
}

/// The body of a request: the payload alone in the plain binding, and in JSON-RPC the payload as
/// the `params` of a call of `SendMessage`.
pub proof fn law_request_is_framed_for_its_binding(request_id: Seq<char>, params: JsonView)
    ensures
        UpstreamBinding::HttpJson.request_view(request_id, params) == params,
        ({
            let envelope = UpstreamBinding::JsonRpc.request_view(request_id, params);
            &&& member(envelope, "jsonrpc"@) == Some(JsonView::String("2.0"@))
            &&& member(envelope, "id"@) == Some(JsonView::String(request_id))
            &&& member(envelope, "method"@) == Some(JsonView::String("SendMessage"@))
            &&& member(envelope, "params"@) == Some(params)
        }),
{
    law_envelope_says_what_it_was_given(request_id, SEND_MESSAGE_METHOD@, params);
}

/// The halves of a reply. In JSON-RPC a reply with one of the members `result` and `error` has that
/// half as it stands there, whatever it holds, and one with both has neither; in the plain binding
/// the result is the body, and the error its member `error`, beside each other. A body that is not
/// JSON has neither.
pub proof fn law_reply_is_taken_apart_as_it_stands(value: JsonView)
    ensures
        ({
            let parts = UpstreamBinding::JsonRpc.parts_view(Some(value));
            let result = member(value, "result"@);
            let error = member(value, "error"@);
            &&& error is None ==> parts.result == result && parts.error is None
            &&& result is None ==> parts.error == error && parts.result is None
            &&& result is Some && error is Some ==> parts.result is None && parts.error is None
        }),
        UpstreamBinding::HttpJson.parts_view(Some(value)).result == Some(value),
        UpstreamBinding::HttpJson.parts_view(Some(value)).error == member(value, "error"@),
        UpstreamBinding::JsonRpc.parts_view(None).result is None,
        UpstreamBinding::JsonRpc.parts_view(None).error is None,
        UpstreamBinding::HttpJson.parts_view(None).result is None,
        UpstreamBinding::HttpJson.parts_view(None).error is None,
{
    law_half_is_the_member_as_it_stands(value);
}

/// The halves of a reply are seen as they are.
pub proof fn law_parts_are_seen_whole(parts: ResponseParts)
    ensures
        parts@.result is Some <==> parts.result is Some,
        parts.result is Some ==> parts@.result->0 == parts.result->0@,
        parts@.error is Some <==> parts.error is Some,
        parts.error is Some ==> parts@.error->0 == parts.error->0@,
{
}

/// A caller whose request is refused is told the message and where it comes from, and nothing else.
pub proof fn law_caller_is_told_the_message(message: Seq<char>)
    ensures
        ({
            let body = caller_error_view(message);
            let error = member(body, "error"@);
            &&& error is Some
            &&& member(error->0, "message"@) == Some(JsonView::String(message))
            &&& member(error->0, "source"@) == Some(JsonView::String("rest-to-a2a"@))
            &&& forall|name: Seq<char>| #[trigger] member(body, name) is Some ==> name == "error"@
            &&& forall|name: Seq<char>| #[trigger]
                member(error->0, name) is Some ==> name == "message"@ || name == "source"@
        }),
{
    reveal_strlit("message");
    reveal_strlit("source");
    assert("message"@.len() == 7 && "source"@.len() == 6);
}

} // verus!
