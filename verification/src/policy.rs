//! The two halves of the bridge: from a REST request to a send, and from the upstream agent's
//! reply to a REST response.
//!
//! Reading requests, evaluating selectors and talking to the store are left to the caller. Each
//! half is a few functions: they take what has been read, and say what to do next.
use vstd::prelude::*;
use vstd::slice::slice_to_vec;
use vstd::utf8::encode_utf8;

use crate::a2a::{
    build_send_message_with_metadata, generate_message_id, law_message_says_what_it_was_given,
    message_id_view, message_view, parse_result, parse_result_view, send_message_view, text_member,
    ContinuationView, SendConfiguration, SendConfigurationView, StateClass,
};
use crate::binding::{
    caller_error_body, caller_error_view, law_send_is_plain, ResponseParts, UpstreamBinding,
};
use crate::cache::{
    key_of, reading_view, CacheErrorView, CacheKey, ConversationStore, EntryState, Reading,
    ReadingView, Step, StepView,
};
use crate::cache_laws::{
    built_up, carried_out, found, law_built_up_local_store_holds_no_tombstone, Backend, RecordView,
};
use crate::config::ResponseField;
use crate::config_map::{ContinuationMode, PolicyConfig, ResponseType};
use crate::continuation::{
    cached_view, conversation_key, explicit_view, is_unresumable_continuable,
    law_next_turn_resumes_the_task, law_turn_after_the_end_is_fresh, persist_outcome, persist_view,
    resolve_cache, resolve_explicit, RequestContinuation, RequestContinuationView,
};
use crate::dataweave::{
    is_nameless, scalar_text, script_json, value_to_json, value_to_string, ScriptValue,
};
use crate::digest::sha256_digest;
use crate::json::{
    is_plain, json_of, json_parsed, json_text, lemma_json_view, member, Json, JsonView,
};
use crate::response_build::{assemble, assemble_view, fields_of, BuiltField};
use crate::select::{select, select_view};
use crate::text::{contains_text, occurs_in, text_of, texts_of};

verus! {

/// The header that names the type of a body.
pub const CONTENT_TYPE: &'static str = "content-type";

/// The header that names the length of a body. It is dropped where the body is rewritten.
pub const CONTENT_LENGTH: &'static str = "content-length";

/// The type of every body that the bridge writes.
pub const APPLICATION_JSON: &'static str = "application/json";

/// The header that names a request.
pub const REQUEST_ID: &'static str = "x-request-id";

/// The selectors that a request needs evaluated.
pub struct ActiveSelectors<'a> {
    pub prompt: &'a pdk::script::Script,
    pub context_key: Option<&'a pdk::script::Script>,
    pub task_id: Option<&'a pdk::script::Script>,
    pub context_id: Option<&'a pdk::script::Script>,
    pub metadata: Option<&'a pdk::script::Script>,
}

/// The selector that an option holds, where it is wanted.
pub open spec fn wanted<'a>(
    selector: &'a Option<pdk::script::Script>,
    yes: bool,
) -> Option<&'a pdk::script::Script> {
    match selector {
        Some(script) => if yes {
            Some(script)
        } else {
            None
        },
        None => None,
    }
}

/// The selectors that a request needs evaluated: the name of the conversation in the cache mode
/// only, the identifiers of the task in the explicit mode only.
pub fn active_selectors(config: &PolicyConfig) -> (active: ActiveSelectors<'_>)
    ensures
        *active.prompt == config.prompt_selector,
        active.context_key == wanted(
            &config.context_key_selector,
            config.continuation_mode == ContinuationMode::Cache,
        ),
        active.task_id == wanted(
            &config.task_id_selector,
            config.continuation_mode == ContinuationMode::Explicit,
        ),
        active.context_id == wanted(
            &config.context_id_selector,
            config.continuation_mode == ContinuationMode::Explicit,
        ),
        active.metadata == wanted(&config.metadata_selector, true),
{
    let none: Option<&pdk::script::Script> = None;
    let (context_key, task_id, context_id) = match config.continuation_mode {
        ContinuationMode::Cache => (config.context_key_selector.as_ref(), none, none),
        ContinuationMode::Explicit => (
            none,
            config.task_id_selector.as_ref(),
            config.context_id_selector.as_ref(),
        ),
        ContinuationMode::SingleShot => (none, none, none),
    };
    ActiveSelectors {
        prompt: &config.prompt_selector,
        context_key,
        task_id,
        context_id,
        metadata: config.metadata_selector.as_ref(),
    }
}

/// What the identifier of a message is derived from, besides its prompt: the name of the request,
/// or, where it has none, its path.
pub fn id_seed(request_id: Option<String>, path: String) -> (seed: String)
    ensures
        seed@ == match request_id {
            Some(request_id) => request_id@,
            None => path@,
        },
{
    match request_id {
        Some(request_id) => request_id,
        None => path,
    }
}

/// What the selectors of a request yield. A selector that is absent, and one that fails, yields
/// nothing.
#[derive(Debug)]
pub struct Evaluated {
    pub prompt: Option<ScriptValue>,
    pub context_key: Option<ScriptValue>,
    pub task_id: Option<ScriptValue>,
    pub context_id: Option<ScriptValue>,
    pub metadata: Option<Json>,
}

/// The contents of an `Evaluated`: the texts that the values stand for.
pub struct EvaluatedView {
    pub prompt: Option<Seq<char>>,
    pub context_key: Option<Seq<char>>,
    pub task_id: Option<Seq<char>>,
    pub context_id: Option<Seq<char>>,
    pub metadata: Option<JsonView>,
}

/// The text that an optional value stands for.
pub open spec fn optional_text(value: Option<ScriptValue>) -> Option<Seq<char>> {
    match value {
        Some(value) => scalar_text(value),
        None => None,
    }
}

impl View for Evaluated {
    type V = EvaluatedView;

    open spec fn view(&self) -> EvaluatedView {
        EvaluatedView {
            prompt: optional_text(self.prompt),
            context_key: optional_text(self.context_key),
            task_id: optional_text(self.task_id),
            context_id: optional_text(self.context_id),
            metadata: json_of(self.metadata),
        }
    }
}

/// The text that an optional value stands for.
fn text_yielded(value: Option<ScriptValue>) -> (text: Option<String>)
    ensures
        text_of(text) == optional_text(value),
{
    match value {
        Some(value) => value_to_string(value),
        None => None,
    }
}

/// A response that refuses a request. Its type is JSON.
#[derive(Debug)]
pub struct Rejection {
    pub status: u32,
    pub body: Vec<u8>,
}

impl Rejection {
    /// Whether this refuses a request with that message.
    pub open spec fn says(&self, config: PolicyConfig, message: Seq<char>) -> bool {
        &&& self.status == config.request_error_status
        &&& self.body@ == json_text(caller_error_view(message))
        &&& json_parsed(self.body@) == Some(caller_error_view(message))
    }
}

/// The refusal of a request whose body could not be replaced.
pub fn build_failure(config: &PolicyConfig) -> (rejection: Rejection)
    ensures
        rejection.says(*config, "failed to build A2A request"@),
{
    Rejection {
        status: config.request_error_status,
        body: caller_error_body("failed to build A2A request"),
    }
}

/// The identifier of a message: it depends on the seed and the prompt.
pub open spec fn message_id(seed: Seq<char>, prompt: Seq<char>) -> Seq<char> {
    message_id_view(sha256_digest(encode_utf8(seed) + encode_utf8(prompt)))
}

/// The operator's `configuration` of a send.
pub open spec fn send_configuration_view(configuration: Option<SendConfiguration>) -> Option<
    SendConfigurationView,
> {
    match configuration {
        Some(configuration) => Some(configuration@),
        None => None,
    }
}

/// The body that is sent for a prompt.
pub open spec fn send_view(
    config: PolicyConfig,
    seed: Seq<char>,
    prompt: Seq<char>,
    metadata: Option<JsonView>,
    continuation: ContinuationView,
) -> JsonView {
    let id = message_id(seed, prompt);
    config.binding.request_view(
        id,
        send_message_view(
            prompt,
            id,
            continuation,
            send_configuration_view(config.send_configuration),
            metadata,
        ),
    )
}

/// A request to forward: the body to send, and what to remember until the reply.
#[derive(Debug)]
pub struct Forward {
    pub body: Vec<u8>,
    pub context: RequestContext,
}

/// What is remembered from a request until its reply.
#[derive(Debug)]
pub struct RequestContext {
    pub continuation: RequestContinuation,
}

impl Default for RequestContext {
    fn default() -> (context: RequestContext)
        ensures
            context.continuation@ == RequestContinuationView::fresh(),
    {
        RequestContext { continuation: RequestContinuation::default() }
    }
}

impl Clone for RequestContext {
    fn clone(&self) -> (copy: RequestContext)
        ensures
            copy.continuation@ == self.continuation@,
    {
        RequestContext { continuation: self.continuation.clone() }
    }
}

impl Forward {
    /// Whether this forwards a prompt as a part of that conversation. The upstream agent reads
    /// from the body what was to be said, where the metadata holds no number but integers and is
    /// not nested too deeply.
    pub open spec fn says(
        &self,
        config: PolicyConfig,
        seed: Seq<char>,
        prompt: Seq<char>,
        metadata: Option<JsonView>,
        request: RequestContinuationView,
    ) -> bool {
        let sent = send_view(config, seed, prompt, metadata, request.continuation);
        &&& self.body@ == json_text(sent)
        &&& (metadata is None || is_plain(metadata->0, 124)) ==> json_parsed(self.body@) == Some(
            sent,
        )
        &&& self.context.continuation@ == request
    }
}

/// A request that waits for what the store holds of its conversation.
#[derive(Debug)]
pub struct PendingLookup {
    key: CacheKey,
    seed: String,
    prompt: String,
    conversation: String,
    metadata: Option<Json>,
}

/// The contents of a `PendingLookup`.
pub struct PendingLookupView {
    pub key: Seq<char>,
    pub seed: Seq<char>,
    pub prompt: Seq<char>,
    pub conversation: Seq<char>,
    pub metadata: Option<JsonView>,
}

impl View for PendingLookup {
    type V = PendingLookupView;

    closed spec fn view(&self) -> PendingLookupView {
        PendingLookupView {
            key: self.key@,
            seed: self.seed@,
            prompt: self.prompt@,
            conversation: self.conversation@,
            metadata: json_of(self.metadata),
        }
    }
}

/// What to do with a request.
#[derive(Debug)]
pub enum RequestStep {
    /// Refuse it; the upstream agent is not called.
    Reject(Rejection),
    /// Read its conversation's key from the store.
    Lookup(PendingLookup),
    /// Send it on.
    Forward(Forward),
}

/// Appends the bytes of a text.
fn append_bytes(bytes: &mut Vec<u8>, text: &str)
    ensures
        final(bytes)@ == old(bytes)@ + encode_utf8(text@),
{
    let more = text.as_bytes();
    let ghost before = bytes@;
    let mut i: usize = 0;
    while i < more.len()
        invariant
            i <= more@.len(),
            more@ == encode_utf8(text@),
            bytes@ == before + more@.take(i as int),
        decreases more@.len() - i,
    {
        bytes.push(more[i]);
        i = i + 1;
        assert(bytes@ =~= before + more@.take(i as int));
    }
    assert(more@.take(i as int) =~= more@);
}

/// Builds the request to forward.
fn forward(
    config: &PolicyConfig,
    seed: &str,
    prompt: &str,
    metadata: Option<Json>,
    request: RequestContinuation,
) -> (forward: Forward)
    ensures
        forward.says(*config, seed@, prompt@, json_of(metadata), request@),
{
    let mut bytes: Vec<u8> = Vec::new();
    append_bytes(&mut bytes, seed);
    append_bytes(&mut bytes, prompt);
    assert(bytes@ =~= encode_utf8(seed@) + encode_utf8(prompt@));
    let id = generate_message_id(bytes.as_slice());
    let params = build_send_message_with_metadata(
        prompt,
        id.as_str(),
        &request.continuation,
        config.send_configuration.as_ref(),
        metadata,
    );
    proof {
        if metadata is None || is_plain(metadata->0@, 124) {
            law_send_is_plain(
                config.binding,
                prompt@,
                id@,
                request@.continuation,
                send_configuration_view(config.send_configuration),
                json_of(metadata),
            );
        }
    }
    let body = config.binding.frame_request(id.as_str(), params);
    Forward { body, context: RequestContext { continuation: request } }
}

/// Whether a request has to wait for what the store holds.
pub open spec fn needs_lookup(
    config: PolicyConfig,
    evaluated: EvaluatedView,
    has_storage: bool,
) -> bool {
    &&& config.continuation_mode == ContinuationMode::Cache
    &&& has_storage
    &&& evaluated.context_key is Some
}

/// What a request continues that does not wait for the store.
pub open spec fn unaided_view(
    config: PolicyConfig,
    evaluated: EvaluatedView,
) -> RequestContinuationView {
    if config.continuation_mode == ContinuationMode::Explicit {
        explicit_view(evaluated.task_id, evaluated.context_id)
    } else {
        RequestContinuationView::fresh()
    }
}

/// Decides what becomes of a request. One without a prompt is refused, so that the upstream agent
/// never sees it.
pub fn begin_request(
    config: &PolicyConfig,
    seed: String,
    evaluated: Evaluated,
    has_storage: bool,
) -> (step: RequestStep)
    ensures
        match step {
            RequestStep::Reject(rejection) => {
                &&& evaluated@.prompt is None
                &&& rejection.says(*config, "missing or invalid prompt"@)
            },
            RequestStep::Lookup(pending) => {
                &&& evaluated@.prompt is Some
                &&& needs_lookup(*config, evaluated@, has_storage)
                &&& pending@ == (PendingLookupView {
                    key: key_of(evaluated@.context_key->0),
                    seed: seed@,
                    prompt: evaluated@.prompt->0,
                    conversation: evaluated@.context_key->0,
                    metadata: evaluated@.metadata,
                })
            },
            RequestStep::Forward(forward) => {
                &&& evaluated@.prompt is Some
                &&& !needs_lookup(*config, evaluated@, has_storage)
                &&& forward.says(
                    *config,
                    seed@,
                    evaluated@.prompt->0,
                    evaluated@.metadata,
                    unaided_view(*config, evaluated@),
                )
            },
        },
        step is Reject <==> evaluated.prompt is None || is_nameless(evaluated.prompt->0),
        step is Lookup <==> config.continuation_mode == ContinuationMode::Cache && has_storage
            && evaluated.prompt is Some && !is_nameless(evaluated.prompt->0)
            && evaluated.context_key is Some && !is_nameless(evaluated.context_key->0),
        step is Forward && config.continuation_mode != ContinuationMode::Explicit ==> ({
            let request = step->Forward_0.context.continuation;
            &&& request.continuation.task_id is None
            &&& request.continuation.context_id is None
            &&& request.cache_key is None
            &&& !request.had_continuation_id
        }),
        step is Forward && config.continuation_mode == ContinuationMode::Explicit ==> ({
            let request = step->Forward_0.context.continuation;
            &&& request.continuation.task_id is Some <==> evaluated.task_id is Some
                && !is_nameless(evaluated.task_id->0)
            &&& request.continuation.context_id is Some <==> evaluated.context_id is Some
                && !is_nameless(evaluated.context_id->0)
            &&& request.cache_key is None
        }),
{
    let prompt = match text_yielded(evaluated.prompt) {
        Some(prompt) => prompt,
        None => {
            return RequestStep::Reject(
                Rejection {
                    status: config.request_error_status,
                    body: caller_error_body("missing or invalid prompt"),
                },
            );
        },
    };
    let request = match config.continuation_mode {
        ContinuationMode::Cache => {
            let conversation = text_yielded(evaluated.context_key);
            if has_storage {
                let key = conversation_key(&conversation);
                if let (Some(key), Some(conversation)) = (key, conversation) {
                    return RequestStep::Lookup(
                        PendingLookup {
                            key,
                            seed,
                            prompt,
                            conversation,
                            metadata: evaluated.metadata,
                        },
                    );
                }
            }
            RequestContinuation::default()
        },
        ContinuationMode::Explicit => resolve_explicit(
            text_yielded(evaluated.task_id),
            text_yielded(evaluated.context_id),
        ),
        ContinuationMode::SingleShot => RequestContinuation::default(),
    };
    RequestStep::Forward(
        forward(config, seed.as_str(), prompt.as_str(), evaluated.metadata, request),
    )
}

impl PendingLookup {
    #[verifier::type_invariant]
    spec fn well_formed(self) -> bool {
        self.key@ == key_of(self.conversation@)
    }

    /// The key to read.
    pub fn key(&self) -> (key: &str)
        ensures
            key@ == self@.key,
            key@ == key_of(self@.conversation),
    {
        proof {
            use_type_invariant(self);
        }
        self.key.as_str()
    }

    /// Forwards the request as a part of the conversation that the store holds.
    pub fn finish(self, config: &PolicyConfig, reading: &Reading, now_millis: u64) -> (forwarded:
        Forward)
        ensures
            forwarded.says(
                *config,
                self@.seed,
                self@.prompt,
                self@.metadata,
                cached_view(Some(self@.conversation), reading_view(*reading), now_millis),
            ),
            forwarded.context.continuation@.cache_key == Some(key_of(self@.conversation)),
            match reading {
                Ok(Some((entry, _))) if entry.state == EntryState::Continuable && now_millis
                    < entry.expires_at_millis => {
                    forwarded.context.continuation@.continuation == entry@.continuation
                },
                _ => {
                    &&& forwarded.context.continuation@.continuation.task_id is None
                    &&& forwarded.context.continuation@.continuation.context_id is None
                },
            },
    {
        let store = ConversationStore::new(config.distributed, config.conversation_ttl_seconds);
        let request = resolve_cache(&store, Some(self.conversation), reading, now_millis);
        forward(config, self.seed.as_str(), self.prompt.as_str(), self.metadata, request)
    }
}

/// How a reply is handled, decided from its headers.
#[derive(Debug, Clone, Copy, PartialEq, Eq, Structural)]
pub enum ResponsePlan {
    /// A stream: it passes as it is, and nothing is read.
    Stream,
    /// It is read and passes as it is.
    Raw,
    /// It is read and shaped by the mapping.
    Mapping,
    /// It is read and shaped by the fields.
    Fields,
}

/// How a reply with that `content-type` is handled.
pub open spec fn plan_view(config: PolicyConfig, content_type: Option<Seq<char>>) -> ResponsePlan {
    if content_type is Some && occurs_in("text/event-stream"@, content_type->0) {
        ResponsePlan::Stream
    } else {
        match config.response_type {
            ResponseType::Raw => ResponsePlan::Raw,
            ResponseType::Mapping => ResponsePlan::Mapping,
            ResponseType::Fields => ResponsePlan::Fields,
        }
    }
}

/// Decides how a reply with that `content-type` is handled.
pub fn plan_response(config: &PolicyConfig, content_type: Option<String>) -> (plan: ResponsePlan)
    ensures
        plan == plan_view(*config, text_of(content_type)),
        plan == ResponsePlan::Stream <==> content_type is Some && occurs_in(
            "text/event-stream"@,
            content_type->0@,
        ),
        plan != ResponsePlan::Stream ==> {
            &&& plan == ResponsePlan::Raw <==> config.response_type == ResponseType::Raw
            &&& plan == ResponsePlan::Mapping <==> config.response_type == ResponseType::Mapping
            &&& plan == ResponsePlan::Fields <==> config.response_type == ResponseType::Fields
        },
{
    if let Some(content_type) = content_type {
        if contains_text(content_type.as_str(), "text/event-stream") {
            return ResponsePlan::Stream;
        }
    }
    if config.uses_raw_response() {
        ResponsePlan::Raw
    } else if config.uses_response_fields() {
        ResponsePlan::Fields
    } else {
        ResponsePlan::Mapping
    }
}

impl ResponsePlan {
    /// Whether the headers are changed: the type becomes JSON and the length goes. A body that
    /// passes as it is keeps its headers.
    pub fn rewrites_headers(&self) -> (yes: bool)
        ensures
            yes == (*self == ResponsePlan::Mapping || *self == ResponsePlan::Fields),
    {
        *self == ResponsePlan::Mapping || *self == ResponsePlan::Fields
    }
}

/// A response that is assembled from fields: its body, and what there is to be said of it.
#[derive(Debug)]
pub struct ShapedFields {
    pub body: Vec<u8>,
    /// The positions of the fields whose selector found nothing. They are `null`.
    pub missing: Vec<usize>,
    /// The names of the fields that an earlier one left no place for.
    pub collisions: Vec<String>,
}

/// The value that a field selects; `null` where its selector finds nothing.
pub open spec fn field_value(root: JsonView, selector: Seq<char>) -> JsonView {
    match select_view(root, selector) {
        Some(value) => value,
        None => JsonView::Null,
    }
}

/// The names and values of the fields.
pub open spec fn selected_view(fields: Seq<ResponseField>, root: JsonView) -> Seq<
    (Seq<char>, JsonView),
> {
    Seq::new(
        fields.len(),
        |i: int| (fields[i].name@, field_value(root, fields[i].selector@)),
    )
}

/// The positions, among the first `count`, of the fields whose selector finds nothing.
pub open spec fn missing_view(fields: Seq<ResponseField>, root: JsonView, count: nat) -> Seq<usize>
    decreases count,
{
    if count == 0 {
        Seq::empty()
    } else {
        let before = missing_view(fields, root, (count - 1) as nat);
        if select_view(root, fields[count - 1].selector@) is None {
            before.push((count - 1) as usize)
        } else {
            before
        }
    }
}

/// Assembles a response from what the fields select.
pub fn shape_fields(fields: &Vec<ResponseField>, root: &Json) -> (shaped: ShapedFields)
    ensures
        ({
            let assembly = assemble_view(selected_view(fields@, root@));
            &&& shaped.body@ == json_text(JsonView::Object(assembly.object))
            &&& is_plain(JsonView::Object(assembly.object), 127) ==> json_parsed(shaped.body@)
                == Some(JsonView::Object(assembly.object))
            &&& texts_of(shaped.collisions@) == assembly.collisions
            &&& shaped.missing@ == missing_view(fields@, root@, fields@.len())
        }),
{
    let mut built: Vec<BuiltField> = Vec::new();
    let mut missing: Vec<usize> = Vec::new();
    let mut i: usize = 0;
    while i < fields.len()
        invariant
            i <= fields@.len(),
            fields_of(built@) == selected_view(fields@, root@).take(i as int),
            missing@ == missing_view(fields@, root@, i as nat),
        decreases fields@.len() - i,
    {
        broadcast use lemma_json_view;
        let field = &fields[i];
        let ghost before = built@;
        let value = match select(root, field.selector.as_str()) {
            Some(value) => value.clone(),
            None => {
                missing.push(i);
                Json::Null
            },
        };
        assert(value@ == field_value(root@, field.selector@));
        built.push(BuiltField { name: field.name.clone(), value });
        i = i + 1;
        proof {
            let wanted = selected_view(fields@, root@);
            assert(fields_of(built@) =~= fields_of(before).push(wanted[i - 1]));
            assert(wanted.take(i as int) =~= wanted.take(i - 1).push(wanted[i - 1]));
        }
    }
    assert(selected_view(fields@, root@).take(i as int) =~= selected_view(fields@, root@));
    let assembled = assemble(built);
    ShapedFields { body: assembled.object.to_text(), missing, collisions: assembled.collisions }
}

/// What becomes of a reply's body.
#[derive(Debug)]
pub enum Shaping {
    /// It stays as it is.
    Keep,
    /// It is replaced.
    Replace(ShapedFields),
    /// The mapping is evaluated with that payload.
    Evaluate(Vec<u8>),
}

/// How a reply that has been read is handled.
#[derive(Debug)]
pub struct Handled {
    /// What the upstream agent reports as an error.
    pub error: Option<Json>,
    /// What is recorded of the conversation.
    pub record: Step,
    /// Whether the upstream agent wants to go on with a task that no later turn can pick up.
    pub unresumable: bool,
    pub shaping: Shaping,
}

/// What is recorded of a reply: nothing without a result or without a store.
pub open spec fn record_view(
    config: PolicyConfig,
    request: RequestContinuationView,
    result: Option<JsonView>,
    has_storage: bool,
    now_millis: u64,
) -> StepView {
    match result {
        Some(result) => if has_storage {
            persist_view(
                ConversationStore::of(config.distributed, config.conversation_ttl_seconds),
                request,
                parse_result_view(result).class(),
                parse_result_view(result).continuation,
                now_millis,
            )
        } else {
            StepView::Finished(Ok(()))
        },
        None => StepView::Finished(Ok(())),
    }
}

/// What the fields select from: the result, or, in a reply without one, the whole body; `null`
/// where that is not JSON.
pub open spec fn root_view(result: Option<JsonView>, body: Option<JsonView>) -> JsonView {
    match (result, body) {
        (Some(result), _) => result,
        (None, Some(body)) => body,
        (None, None) => JsonView::Null,
    }
}

impl Shaping {
    /// Whether a body is shaped as the configuration says. What is written out reads back as the
    /// value that it was written from, where that holds no number but integers and is not nested
    /// too deeply.
    pub open spec fn shapes(
        &self,
        config: PolicyConfig,
        result: Option<JsonView>,
        body: Option<JsonView>,
        raw: Seq<u8>,
    ) -> bool {
        match config.response_type {
            ResponseType::Raw => *self is Keep,
            ResponseType::Mapping => {
                &&& *self is Evaluate
                &&& self->Evaluate_0@ == match result {
                    Some(result) => json_text(result),
                    None => raw,
                }
                &&& result is Some && is_plain(result->0, 127) ==> json_parsed(
                    self->Evaluate_0@,
                ) == result
            },
            ResponseType::Fields => {
                let fields = config.response_fields@;
                let root = root_view(result, body);
                let assembly = assemble_view(selected_view(fields, root));
                &&& *self is Replace
                &&& self->Replace_0.body@ == json_text(JsonView::Object(assembly.object))
                &&& is_plain(JsonView::Object(assembly.object), 127) ==> json_parsed(
                    self->Replace_0.body@,
                ) == Some(JsonView::Object(assembly.object))
                &&& texts_of(self->Replace_0.collisions@) == assembly.collisions
                &&& self->Replace_0.missing@ == missing_view(fields, root, fields.len())
            },
        }
    }
}

impl Handled {
    /// Whether a reply is handled as the configuration says. `body` is what was read from `raw`.
    pub open spec fn handles(
        &self,
        config: PolicyConfig,
        request: RequestContinuationView,
        body: Option<JsonView>,
        raw: Seq<u8>,
        has_storage: bool,
        now_millis: u64,
    ) -> bool {
        let parts = config.binding.parts_view(body);
        &&& json_of(self.error) == parts.error
        &&& self.record@ == record_view(config, request, parts.result, has_storage, now_millis)
        &&& self.unresumable == match parts.result {
            Some(result) => parse_result_view(result).class() == StateClass::Continuable
                && !request.is_resumable(),
            None => false,
        }
        &&& self.shaping.shapes(config, parts.result, body, raw)
    }
}

/// Decides what becomes of a reply's body.
fn shape(
    config: &PolicyConfig,
    result: &Option<Json>,
    body: &Option<Json>,
    raw: &[u8],
) -> (shaping: Shaping)
    ensures
        shaping.shapes(*config, json_of(*result), json_of(*body), raw@),
{
    broadcast use lemma_json_view;
    match config.response_type {
        ResponseType::Raw => Shaping::Keep,
        ResponseType::Mapping => Shaping::Evaluate(
            match result {
                Some(result) => result.to_text(),
                None => slice_to_vec(raw),
            },
        ),
        ResponseType::Fields => {
            let null = Json::Null;
            let root = match (result, body) {
                (Some(result), _) => result,
                (None, Some(body)) => body,
                (None, None) => &null,
            };
            Shaping::Replace(shape_fields(&config.response_fields, root))
        },
    }
}

/// Whether an entry is written for a reply, with an expiry that is to be told: there is a result
/// and a store, the request has a key, and the task goes on or leaves a tombstone.
pub open spec fn sets_expiry(
    config: PolicyConfig,
    request: RequestContinuationView,
    result: Option<JsonView>,
    has_storage: bool,
) -> bool {
    match result {
        Some(result) => {
            let class = parse_result_view(result).class();
            &&& has_storage
            &&& request.cache_key is Some
            &&& class == StateClass::Continuable || (class == StateClass::Terminal
                && config.distributed)
        },
        None => false,
    }
}

/// Whether the expiry of an entry that is written now is within the range of the clock.
pub open spec fn expiry_fits(config: PolicyConfig, now_millis: u64) -> bool {
    now_millis + config.conversation_ttl_seconds * 1000 <= u64::MAX
}

/// Decides how a reply is handled that has been taken apart.
fn handle_parts(
    config: &PolicyConfig,
    context: &RequestContext,
    parts: ResponseParts,
    body: &Option<Json>,
    raw: &[u8],
    has_storage: bool,
    now_millis: u64,
) -> (handled: Handled)
    requires
        parts@ == config.binding.parts_view(json_of(*body)),
        sets_expiry(*config, context.continuation@, parts@.result, has_storage) ==> expiry_fits(
            *config,
            now_millis,
        ),
    ensures
        handled.handles(
            *config,
            context.continuation@,
            json_of(*body),
            raw@,
            has_storage,
            now_millis,
        ),
{
    let shaping = shape(config, &parts.result, body, raw);
    let (record, unresumable) = match &parts.result {
        Some(result) => {
            let parsed = parse_result(result);
            let class = parsed.class();
            let record = if has_storage {
                let store = ConversationStore::new(
                    config.distributed,
                    config.conversation_ttl_seconds,
                );
                persist_outcome(
                    &store,
                    &context.continuation,
                    class,
                    &parsed.continuation(),
                    now_millis,
                )
            } else {
                Step::Finished(Ok(()))
            };
            (record, is_unresumable_continuable(&context.continuation, class))
        },
        None => (Step::Finished(Ok(())), false),
    };
    Handled { error: parts.error, record, unresumable, shaping }
}

/// A copy of a body that has been read.
fn copy_body(body: &Option<Json>) -> (copy: Option<Json>)
    ensures
        json_of(copy) == json_of(*body),
{
    match body {
        Some(body) => Some(body.clone()),
        None => None,
    }
}

/// Decides how a reply is handled whose body has been read; `body` is `None` where it is not JSON.
pub fn handle_reply(
    config: &PolicyConfig,
    context: &RequestContext,
    body: Option<Json>,
    raw: &[u8],
    has_storage: bool,
    now_millis: u64,
) -> (handled: Handled)
    requires
        sets_expiry(
            *config,
            context.continuation@,
            config.binding.parts_view(json_of(body)).result,
            has_storage,
        ) ==> expiry_fits(*config, now_millis),
    ensures
        handled.handles(
            *config,
            context.continuation@,
            json_of(body),
            raw@,
            has_storage,
            now_millis,
        ),
{
    let parts = config.binding.split_response(copy_body(&body));
    handle_parts(config, context, parts, &body, raw, has_storage, now_millis)
}

/// Whether an entry is written for a reply, with an expiry that is to be told.
fn has_expiry(
    config: &PolicyConfig,
    context: &RequestContext,
    result: &Option<Json>,
    has_storage: bool,
) -> (yes: bool)
    ensures
        yes == sets_expiry(*config, context.continuation@, json_of(*result), has_storage),
{
    match result {
        Some(result) => {
            let class = parse_result(result).class();
            has_storage && context.continuation.cache_key.is_some() && (class
                == StateClass::Continuable || (class == StateClass::Terminal && config.distributed))
        },
        None => false,
    }
}

/// Reads a reply and decides how it is handled. There is no telling where an entry is to be written
/// whose expiry is beyond the range of the clock.
pub fn read_reply(
    config: &PolicyConfig,
    context: &RequestContext,
    raw: &[u8],
    has_storage: bool,
    now_millis: u64,
) -> (handled: Option<Handled>)
    ensures
        ({
            let body = json_parsed(raw@);
            let result = config.binding.parts_view(body).result;
            match handled {
                Some(handled) => {
                    &&& handled.handles(
                        *config,
                        context.continuation@,
                        body,
                        raw@,
                        has_storage,
                        now_millis,
                    )
                    &&& sets_expiry(*config, context.continuation@, result, has_storage)
                        ==> expiry_fits(*config, now_millis)
                },
                None => {
                    &&& sets_expiry(*config, context.continuation@, result, has_storage)
                    &&& !expiry_fits(*config, now_millis)
                },
            }
        }),
{
    let body = Json::parse(raw);
    let parts = config.binding.split_response(copy_body(&body));
    let ttl_millis: u64 = config.conversation_ttl_seconds as u64 * 1000;
    if has_expiry(config, context, &parts.result, has_storage) && now_millis > u64::MAX
        - ttl_millis {
        return None;
    }
    Some(handle_parts(config, context, parts, &body, raw, has_storage, now_millis))
}

/// The time at which the store's entries are judged. Where the clock cannot be read that is the end
/// of time, so that every entry has expired and the send is a fresh one.
pub fn time_of_lookup(clock: Option<u64>) -> (now_millis: u64)
    ensures
        now_millis == match clock {
            Some(time) => time,
            None => u64::MAX,
        },
{
    match clock {
        Some(time) => time,
        None => u64::MAX,
    }
}

/// The time at which an outcome is recorded. Where the clock cannot be read that is the beginning
/// of time, so that the entry has expired for every clock that can.
pub fn time_of_record(clock: Option<u64>) -> (now_millis: u64)
    ensures
        now_millis == match clock {
            Some(time) => time,
            None => 0,
        },
{
    match clock {
        Some(time) => time,
        None => 0,
    }
}

/// Without a clock no conversation is resumed, whatever the store holds.
pub proof fn law_nothing_is_resumed_without_a_clock(
    conversation: Option<Seq<char>>,
    reading: ReadingView,
)
    ensures
        cached_view(conversation, reading, u64::MAX).continuation == ContinuationView::none(),
        !cached_view(conversation, reading, u64::MAX).had_continuation_id,
{
}

/// The body of a response that is shaped by the mapping. Where the mapping yields nothing, because
/// it failed or there is none, the reply's body stays as it is.
pub fn mapped_body(value: Option<pdk::script::Value>) -> (body: Option<Vec<u8>>)
    ensures
        match (value, body) {
            (Some(value), Some(body)) => {
                &&& body@ == json_text(script_json(value))
                &&& is_plain(script_json(value), 127) ==> json_parsed(body@) == Some(
                    script_json(value),
                )
            },
            (None, None) => true,
            _ => false,
        },
{
    match value {
        Some(value) => Some(value_to_json(value).to_text()),
        None => None,
    }
}

/// Where conversations are not kept, the store is touched neither before a request nor after its
/// reply.
pub proof fn law_store_is_touched_only_where_conversations_are_kept(
    config: PolicyConfig,
    evaluated: EvaluatedView,
    result: Option<JsonView>,
    has_storage: bool,
    now: u64,
)
    requires
        config.continuation_mode != ContinuationMode::Cache,
    ensures
        !needs_lookup(config, evaluated, has_storage),
        record_view(config, unaided_view(config, evaluated), result, has_storage, now)
            == StepView::Finished(Ok::<(), CacheErrorView>(())),
{
}

/// The message in the body of a request.
pub open spec fn message_in(binding: UpstreamBinding, sent: JsonView) -> Option<JsonView> {
    let params = match binding {
        UpstreamBinding::JsonRpc => member(sent, "params"@),
        UpstreamBinding::HttpJson => Some(sent),
    };
    match params {
        Some(params) => member(params, "message"@),
        None => None,
    }
}

/// The body of a request holds the message of its prompt, in either binding.
proof fn lemma_message_in_send(
    config: PolicyConfig,
    seed: Seq<char>,
    prompt: Seq<char>,
    metadata: Option<JsonView>,
    continuation: ContinuationView,
)
    ensures
        message_in(config.binding, send_view(config, seed, prompt, metadata, continuation)) == Some(
            JsonView::Object(
                message_view(prompt, message_id(seed, prompt), continuation, metadata),
            ),
        ),
{
    reveal_strlit("message");
    reveal_strlit("configuration");
    assert("message"@.len() == 7 && "configuration"@.len() == 13);
}

/// The bridge over two turns of a conversation. The upstream agent answers the first with a task
/// that goes on; that is recorded. The request of the second turn, within the time to live, then
/// names that task, whatever it says else. What the store held before does not matter, as long as
/// the conversation was not over.
pub proof fn law_second_turn_names_the_task_of_the_first(
    config: PolicyConfig,
    backend: Backend,
    conversation: Seq<char>,
    result: JsonView,
    seed: Seq<char>,
    prompt: Seq<char>,
    metadata: Option<JsonView>,
    now: u64,
    later: u64,
    fresh: Seq<char>,
)
    requires
        now + config.conversation_ttl_seconds * 1000 <= u64::MAX,
        later < now + config.conversation_ttl_seconds * 1000,
        parse_result_view(result).class() == StateClass::Continuable,
        backend.dom().contains(key_of(conversation)) ==> backend[key_of(conversation)].0.state
            == EntryState::Continuable,
    ensures
        ({
            let first = cached_view(
                Some(conversation),
                found(backend, key_of(conversation)),
                now,
            );
            let (outcome, after) = carried_out(
                record_view(config, first, Some(result), true, now),
                backend,
                fresh,
            );
            let second = cached_view(
                Some(conversation),
                found(after, key_of(conversation)),
                later,
            );
            let sent = send_view(config, seed, prompt, metadata, second.continuation);
            let message = message_in(config.binding, sent);
            let task = parse_result_view(result).continuation;
            &&& outcome == Ok::<(), CacheErrorView>(())
            &&& message is Some
            &&& text_member(message->0, "taskId"@) == task.task_id
            &&& text_member(message->0, "contextId"@) == task.context_id
        }),
{
    let store = ConversationStore::of(config.distributed, config.conversation_ttl_seconds);
    let task = parse_result_view(result).continuation;
    ConversationStore::lemma_of(config.distributed, config.conversation_ttl_seconds);
    law_next_turn_resumes_the_task(store, backend, conversation, task, now, later, fresh);
    lemma_message_in_send(config, seed, prompt, metadata, task);
    law_message_says_what_it_was_given(prompt, message_id(seed, prompt), task, metadata);
}

/// The bridge over two turns of a conversation where the store is a local one that has only seen
/// what was recorded in it: the request of the second turn always names the task of the first,
/// within the time to live.
pub proof fn law_second_turn_names_the_task_in_a_local_store(
    config: PolicyConfig,
    records: Seq<RecordView>,
    conversation: Seq<char>,
    result: JsonView,
    seed: Seq<char>,
    prompt: Seq<char>,
    metadata: Option<JsonView>,
    now: u64,
    later: u64,
    fresh: Seq<char>,
)
    requires
        !config.distributed,
        now + config.conversation_ttl_seconds * 1000 <= u64::MAX,
        later < now + config.conversation_ttl_seconds * 1000,
        parse_result_view(result).class() == StateClass::Continuable,
    ensures
        ({
            let store = ConversationStore::of(config.distributed, config.conversation_ttl_seconds);
            let backend = built_up(store, records);
            let first = cached_view(
                Some(conversation),
                found(backend, key_of(conversation)),
                now,
            );
            let (outcome, after) = carried_out(
                record_view(config, first, Some(result), true, now),
                backend,
                fresh,
            );
            let second = cached_view(
                Some(conversation),
                found(after, key_of(conversation)),
                later,
            );
            let sent = send_view(config, seed, prompt, metadata, second.continuation);
            let message = message_in(config.binding, sent);
            let task = parse_result_view(result).continuation;
            &&& outcome == Ok::<(), CacheErrorView>(())
            &&& message is Some
            &&& text_member(message->0, "taskId"@) == task.task_id
            &&& text_member(message->0, "contextId"@) == task.context_id
        }),
{
    let store = ConversationStore::of(config.distributed, config.conversation_ttl_seconds);
    let backend = built_up(store, records);
    ConversationStore::lemma_of(config.distributed, config.conversation_ttl_seconds);
    law_built_up_local_store_holds_no_tombstone(store, records);
    law_second_turn_names_the_task_of_the_first(
        config,
        backend,
        conversation,
        result,
        seed,
        prompt,
        metadata,
        now,
        later,
        fresh,
    );
}

/// The bridge over two turns of a conversation, the first of which ends its task, or is answered
/// by a message without one: the request of the second turn names no task.
pub proof fn law_turn_after_the_end_names_no_task(
    config: PolicyConfig,
    backend: Backend,
    conversation: Seq<char>,
    result: JsonView,
    seed: Seq<char>,
    prompt: Seq<char>,
    metadata: Option<JsonView>,
    now: u64,
    later: u64,
    fresh: Seq<char>,
)
    requires
        parse_result_view(result).class() == StateClass::Terminal,
    ensures
        ({
            let first = cached_view(
                Some(conversation),
                found(backend, key_of(conversation)),
                now,
            );
            let (outcome, after) = carried_out(
                record_view(config, first, Some(result), true, now),
                backend,
                fresh,
            );
            let second = cached_view(
                Some(conversation),
                found(after, key_of(conversation)),
                later,
            );
            let sent = send_view(config, seed, prompt, metadata, second.continuation);
            let message = message_in(config.binding, sent);
            &&& outcome == Ok::<(), CacheErrorView>(())
            &&& message is Some
            &&& member(message->0, "taskId"@) is None
            &&& member(message->0, "contextId"@) is None
        }),
{
    let store = ConversationStore::of(config.distributed, config.conversation_ttl_seconds);
    let task = parse_result_view(result).continuation;
    let none = ContinuationView::none();
    law_turn_after_the_end_is_fresh(store, backend, conversation, task, now, later, fresh);
    lemma_message_in_send(config, seed, prompt, metadata, none);
    law_message_says_what_it_was_given(prompt, message_id(seed, prompt), none, metadata);
}

/// A field whose selector finds nothing is `null`, and does not touch the others: each of them has
/// the value that its own selector finds.
pub proof fn law_fields_are_selected_one_by_one(
    fields: Seq<ResponseField>,
    root: JsonView,
    i: int,
)
    requires
        0 <= i < fields.len(),
    ensures
        selected_view(fields, root).len() == fields.len(),
        selected_view(fields, root)[i].0 == fields[i].name@,
        select_view(root, fields[i].selector@) is Some ==> selected_view(fields, root)[i].1
            == select_view(root, fields[i].selector@)->0,
        select_view(root, fields[i].selector@) is None ==> selected_view(fields, root)[i].1
            == JsonView::Null,
{
}

} // verus!
