//! What holds of the two halves of the bridge: of each call of their functions, and over the turns
//! of a conversation.
use vstd::prelude::*;
use vstd::utf8::encode_utf8;

use crate::a2a::{
    class_of, law_message_id_begins_the_digest, law_send_carries_its_message,
    law_send_carries_the_configuration, parse_result_view, send_message_view, ContinuationView,
    StateClass,
};
use crate::binding::{
    caller_error_view, law_reply_is_taken_apart_as_it_stands, law_request_is_framed_for_its_binding,
    UpstreamBinding,
};
use crate::cache::{
    key_of, live_view, reading_view, CacheErrorView, ConversationStore, EntryState, Reading,
    StepView,
};
use crate::cache_laws::{
    built_up, carried_out, found, law_built_up_local_store_holds_no_tombstone, Backend, RecordView,
};
use crate::config::ResponseField;
use crate::config_map::{ContinuationMode, PolicyConfig, ResponseType};
use crate::continuation::{law_next_turn_resumes_the_task, law_turn_after_the_end_is_fresh};
use crate::dataweave::{is_nameless, scalar_text, ScriptValue};
use crate::digest::{hex_text, sha256_digest};
use crate::json::{element, is_plain, json_of, json_parsed, json_text, member, Json, JsonView};
use crate::policy::{
    active_selectors, begin_request, build_failure, handle_reply, id_seed, message_id, missing_view,
    plan_response, read_reply, selected_view, send_configuration_view, send_view, shape_fields,
    time_of_lookup, time_of_record, ActiveSelectors, Evaluated, Forward, Handled, PendingLookup,
    Rejection, RequestContext, RequestStep, ResponsePlan, ShapedFields, Shaping, APPLICATION_JSON,
    CONTENT_LENGTH, CONTENT_TYPE, REQUEST_ID,
};
use crate::response_build::{
    assemble_view, is_proper_name, law_field_that_clashes_with_none_is_in_the_object,
    law_skipped_fields_are_reported_in_order, lookup, names_clash, skipped_names,
};
use crate::select::select_view;
use crate::text::{law_text_occurs_where_it_stands, split_on, texts_of};

verus! {

/// A reply passes as a stream exactly where its type holds `text/event-stream` somewhere. Every
/// other reply, whatever its type, and one without a type, is read and handled as the configured
/// shape says.
pub proof fn law_only_streams_pass_unread(
    config: &PolicyConfig,
    content_type: Option<String>,
    plan: ResponsePlan,
)
    requires
        call_ensures(plan_response, (config, content_type), plan),
    ensures
        plan == ResponsePlan::Stream <==> content_type is Some && exists|
            before: Seq<char>,
            after: Seq<char>,
        |
            #[trigger] (before + "text/event-stream"@ + after) == content_type->0@,
        plan != ResponsePlan::Stream ==> {
            &&& plan == ResponsePlan::Raw <==> config.response_type == ResponseType::Raw
            &&& plan == ResponsePlan::Mapping <==> config.response_type == ResponseType::Mapping
            &&& plan == ResponsePlan::Fields <==> config.response_type == ResponseType::Fields
        },
{
    if let Some(text) = content_type {
        law_text_occurs_where_it_stands("text/event-stream"@, text@);
    }
}

/// A selector is evaluated exactly where it is set and the mode has a use for it; the prompt's
/// always is, and that of the metadata in every mode.
pub proof fn law_selectors_are_evaluated_by_mode(config: &PolicyConfig, active: ActiveSelectors<'_>)
    requires
        call_ensures(active_selectors, (config,), active),
    ensures
        *active.prompt == config.prompt_selector,
        active.metadata is Some <==> config.metadata_selector is Some,
        active.metadata is Some ==> *active.metadata->0 == config.metadata_selector->0,
        active.context_key is Some <==> config.continuation_mode == ContinuationMode::Cache
            && config.context_key_selector is Some,
        active.context_key is Some ==> *active.context_key->0 == config.context_key_selector->0,
        active.task_id is Some <==> config.continuation_mode == ContinuationMode::Explicit
            && config.task_id_selector is Some,
        active.task_id is Some ==> *active.task_id->0 == config.task_id_selector->0,
        active.context_id is Some <==> config.continuation_mode == ContinuationMode::Explicit
            && config.context_id_selector is Some,
        active.context_id is Some ==> *active.context_id->0 == config.context_id_selector->0,
{
}

/// Whether a selector names something.
pub open spec fn names_something(value: Option<ScriptValue>) -> bool {
    value is Some && !is_nameless(value->0)
}

/// Whether `text` is what a selector names; nothing where it names nothing.
pub open spec fn is_named(text: Option<Seq<char>>, value: Option<ScriptValue>) -> bool {
    if names_something(value) {
        text is Some && text == scalar_text(value->0)
    } else {
        text is None
    }
}

/// What becomes of a request. It is refused exactly where the prompt names nothing. In the cache
/// mode, where there is a store, it waits for a lookup exactly where it names a conversation: the
/// metadata, the seed and the other selectors have no say in it. What waits is the conversation's
/// own key, and the prompt, the seed and the metadata as they were given. In every other case it
/// is forwarded.
pub proof fn law_named_conversations_are_always_looked_up(
    config: &PolicyConfig,
    seed: String,
    evaluated: Evaluated,
    has_storage: bool,
    step: RequestStep,
)
    requires
        call_ensures(begin_request, (config, seed, evaluated, has_storage), step),
    ensures
        step is Reject <==> !names_something(evaluated.prompt),
        step is Lookup <==> names_something(evaluated.prompt) && config.continuation_mode
            == ContinuationMode::Cache && has_storage && names_something(evaluated.context_key),
        step matches RequestStep::Lookup(pending) ==> {
            &&& pending@.key == key_of(scalar_text(evaluated.context_key->0)->0)
            &&& is_named(Some(pending@.conversation), evaluated.context_key)
            &&& is_named(Some(pending@.prompt), evaluated.prompt)
            &&& pending@.seed == seed@
            &&& pending@.metadata == json_of(evaluated.metadata)
        },
        step matches RequestStep::Reject(rejection) ==> {
            &&& rejection.status == config.request_error_status
            &&& rejection.body@ == json_text(caller_error_view("missing or invalid prompt"@))
            &&& json_parsed(rejection.body@) == Some(
                caller_error_view("missing or invalid prompt"@),
            )
        },
{
}

/// A request that is forwarded at once carries, in the explicit mode, the identifiers that the
/// caller names, each of them, and in the other modes none. It has no key. What is sent is the
/// prompt that the request names, with the metadata and the seed as they were given.
pub proof fn law_request_forwarded_at_once(
    config: &PolicyConfig,
    seed: String,
    evaluated: Evaluated,
    has_storage: bool,
    step: RequestStep,
)
    requires
        call_ensures(begin_request, (config, seed, evaluated, has_storage), step),
        step is Forward,
    ensures
        ({
            let forward = step->Forward_0;
            let request = forward.context.continuation@;
            let explicit = config.continuation_mode == ContinuationMode::Explicit;
            &&& request.cache_key is None
            &&& explicit ==> is_named(request.continuation.task_id, evaluated.task_id)
            &&& explicit ==> is_named(request.continuation.context_id, evaluated.context_id)
            &&& !explicit ==> request.continuation.task_id is None
                && request.continuation.context_id is None
            &&& request.had_continuation_id <==> request.continuation.task_id is Some
                || request.continuation.context_id is Some
            &&& scalar_text(evaluated.prompt->0) is Some
            &&& forward.body@ == json_text(
                send_view(
                    *config,
                    seed@,
                    scalar_text(evaluated.prompt->0)->0,
                    json_of(evaluated.metadata),
                    request.continuation,
                ),
            )
        }),
{
}

/// A request that waited carries exactly the identifiers of the entry that was found, where that
/// is no tombstone and has not expired, and otherwise none; in every case it has the
/// conversation's key. What is sent is the prompt, with the metadata and the seed, that waited.
pub proof fn law_request_forwarded_after_the_lookup(
    pending: PendingLookup,
    config: &PolicyConfig,
    reading: &Reading,
    now: u64,
    forward: Forward,
)
    requires
        call_ensures(PendingLookup::finish, (pending, config, reading, now), forward),
    ensures
        ({
            let request = forward.context.continuation@;
            &&& request.cache_key == Some(key_of(pending@.conversation))
            &&& reading matches Ok(Some((entry, version))) ==> {
                let alive = entry.state == EntryState::Continuable && now < entry.expires_at_millis;
                &&& alive ==> request.continuation == entry@.continuation
                &&& !alive ==> request.continuation.task_id is None
                    && request.continuation.context_id is None
            }
            &&& !(reading is Ok && reading->Ok_0 is Some) ==> request.continuation.task_id is None
                && request.continuation.context_id is None
            &&& request.had_continuation_id <==> request.continuation.task_id is Some
                || request.continuation.context_id is Some
            &&& forward.body@ == json_text(
                send_view(
                    *config,
                    pending@.seed,
                    pending@.prompt,
                    pending@.metadata,
                    request.continuation,
                ),
            )
        }),
{
}

/// The message in the body of a request.
pub open spec fn message_sent(binding: UpstreamBinding, sent: JsonView) -> Option<JsonView> {
    match payload_sent(binding, sent) {
        Some(params) => member(params, "message"@),
        None => None,
    }
}

/// The payload in the body of a request.
pub open spec fn payload_sent(binding: UpstreamBinding, sent: JsonView) -> Option<JsonView> {
    match binding {
        UpstreamBinding::JsonRpc => member(sent, "params"@),
        UpstreamBinding::HttpJson => Some(sent),
    }
}

/// What is sent, in either binding, whatever the configuration: a message with the prompt as its
/// one part, the identifiers of the task, each where there is one, and metadata that is an object.
/// Its identifier begins the digest of the seed and the prompt, and is the identifier of the call
/// too. The operator's configuration goes along exactly where there is one.
pub proof fn law_request_sends_what_was_asked(
    config: PolicyConfig,
    seed: Seq<char>,
    prompt: Seq<char>,
    metadata: Option<JsonView>,
    continuation: ContinuationView,
)
    ensures
        ({
            let sent = send_view(config, seed, prompt, metadata, continuation);
            let payload = payload_sent(config.binding, sent);
            let message = message_sent(config.binding, sent);
            let parts = member(message->0, "parts"@)->0;
            let id = message_id(seed, prompt);
            let settings = member(payload->0, "configuration"@);
            &&& payload is Some
            &&& message is Some
            &&& config.binding == UpstreamBinding::JsonRpc ==> member(sent, "id"@) == Some(
                JsonView::String(id),
            ) && member(sent, "method"@) == Some(JsonView::String("SendMessage"@)) && member(
                sent,
                "jsonrpc"@,
            ) == Some(JsonView::String("2.0"@))
            &&& member(message->0, "messageId"@) == Some(JsonView::String(id))
            &&& member(message->0, "role"@) == Some(JsonView::String("ROLE_USER"@))
            &&& element(parts, 0) is Some && element(parts, 1) is None
            &&& member(element(parts, 0)->0, "text"@) == Some(JsonView::String(prompt))
            &&& continuation.task_id is None ==> member(message->0, "taskId"@) is None
            &&& continuation.task_id is Some ==> member(message->0, "taskId"@) == Some(
                JsonView::String(continuation.task_id->0),
            )
            &&& continuation.context_id is None ==> member(message->0, "contextId"@) is None
            &&& continuation.context_id is Some ==> member(message->0, "contextId"@) == Some(
                JsonView::String(continuation.context_id->0),
            )
            &&& metadata is Some && metadata->0 is Object ==> member(message->0, "metadata"@)
                == metadata
            &&& !(metadata is Some && metadata->0 is Object) ==> member(message->0, "metadata"@)
                is None
            &&& settings is Some <==> config.send_configuration is Some
            &&& config.send_configuration matches Some(set) ==> {
                let modes = member(settings->0, "acceptedOutputModes"@);
                &&& member(settings->0, "returnImmediately"@) == Some(JsonView::Bool(!set.blocking))
                &&& modes is Some <==> set.accepted_output_modes is Some
            }
        }),
        ({
            let digest = sha256_digest(encode_utf8(seed) + encode_utf8(prompt));
            digest.len() == 32 ==> message_id(seed, prompt) == hex_text(digest).take(32)
        }),
{
    let id = message_id(seed, prompt);
    let settings = send_configuration_view(config.send_configuration);
    let params = send_message_view(prompt, id, continuation, settings, metadata);
    law_request_is_framed_for_its_binding(id, params);
    law_send_carries_its_message(prompt, id, continuation, settings, metadata);
    law_send_carries_the_configuration(prompt, id, continuation, settings, metadata, 0);
    law_message_id_begins_the_digest(sha256_digest(encode_utf8(seed) + encode_utf8(prompt)));
}

/// The operator's output modes go along in their order, none added and none left out.
pub proof fn law_request_sends_the_output_modes(
    config: PolicyConfig,
    seed: Seq<char>,
    prompt: Seq<char>,
    metadata: Option<JsonView>,
    continuation: ContinuationView,
    i: nat,
)
    requires
        config.send_configuration is Some,
        config.send_configuration->0.accepted_output_modes is Some,
    ensures
        ({
            let sent = send_view(config, seed, prompt, metadata, continuation);
            let payload = payload_sent(config.binding, sent)->0;
            let listed = member(member(payload, "configuration"@)->0, "acceptedOutputModes"@)->0;
            let modes = config.send_configuration->0.accepted_output_modes->0@;
            &&& i < modes.len() ==> element(listed, i) == Some(
                JsonView::String(modes[i as int]@),
            )
            &&& i >= modes.len() ==> element(listed, i) is None
        }),
{
    let id = message_id(seed, prompt);
    let settings = send_configuration_view(config.send_configuration);
    let params = send_message_view(prompt, id, continuation, settings, metadata);
    law_request_is_framed_for_its_binding(id, params);
    law_send_carries_the_configuration(prompt, id, continuation, settings, metadata, i);
}

/// A request whose body cannot be replaced is refused with the configured status, and told so.
pub proof fn law_unbuilt_request_is_refused(config: &PolicyConfig, rejection: Rejection)
    requires
        call_ensures(build_failure, (config,), rejection),
    ensures
        rejection.status == config.request_error_status,
        rejection.body@ == json_text(caller_error_view("failed to build A2A request"@)),
        json_parsed(rejection.body@) == Some(caller_error_view("failed to build A2A request"@)),
{
}

/// The result in a reply: the body in the plain binding, and in JSON-RPC the member `result` of a
/// body without a member `error`.
pub open spec fn result_in(binding: UpstreamBinding, body: Option<JsonView>) -> Option<JsonView> {
    if binding == UpstreamBinding::HttpJson {
        body
    } else if body is Some && member(body->0, "error"@) is None {
        member(body->0, "result"@)
    } else {
        None
    }
}

/// The error in a reply: its member `error`, in JSON-RPC only where there is no member `result`.
pub open spec fn error_in(binding: UpstreamBinding, body: Option<JsonView>) -> Option<JsonView> {
    if body is None || (binding == UpstreamBinding::JsonRpc && member(body->0, "result"@) is Some) {
        None
    } else {
        member(body->0, "error"@)
    }
}

/// The result and the error of a reply are what is taken apart.
proof fn lemma_parts(binding: UpstreamBinding, body: Option<JsonView>)
    ensures
        binding.parts_view(body).result == result_in(binding, body),
        binding.parts_view(body).error == error_in(binding, body),
{
    if let Some(value) = body {
        law_reply_is_taken_apart_as_it_stands(value);
    }
}

/// Whether a reply's task goes on, and whether it is over: by the state that the reply tells. A
/// reply that tells none has no task to resume.
pub open spec fn class_told(result: JsonView) -> StateClass {
    match parse_result_view(result).state {
        Some(state) => class_of(state),
        None => StateClass::Terminal,
    }
}

/// How a reply is handled. Its error is handed on. The outcome is recorded under the request's key
/// where there is a result, a store and a key, in every shape of the response; otherwise nothing is
/// recorded. A task that goes on is noticed where the request has no key and carried no identifier.
pub proof fn law_reply_is_recorded(
    config: &PolicyConfig,
    context: &RequestContext,
    body: Option<Json>,
    raw: &[u8],
    has_storage: bool,
    now: u64,
    handled: Handled,
)
    requires
        call_ensures(handle_reply, (config, context, body, raw, has_storage, now), handled),
    ensures
        ({
            let result = result_in(config.binding, json_of(body));
            let request = context.continuation@;
            let store = ConversationStore::of(config.distributed, config.conversation_ttl_seconds);
            &&& json_of(handled.error) == error_in(config.binding, json_of(body))
            &&& result is Some && has_storage && request.cache_key is Some ==> handled.record@
                == store.record_view(
                request.cache_key->0,
                class_told(result->0),
                parse_result_view(result->0).continuation,
                now,
            )
            &&& result is None || !has_storage || request.cache_key is None ==> handled.record@
                == StepView::Finished(Ok::<(), CacheErrorView>(()))
            &&& handled.unresumable <==> result is Some && class_told(result->0)
                == StateClass::Continuable && request.cache_key is None
                && !request.had_continuation_id
        }),
{
    lemma_parts(config.binding, json_of(body));
}

/// What becomes of a reply's body, by the configured shape alone: it is kept; or the mapping runs
/// on the text of the result, or on the reply as it came where there is none; or it is replaced by
/// what the fields select from the result, or from the body where there is none.
pub proof fn law_reply_is_shaped(
    config: &PolicyConfig,
    context: &RequestContext,
    body: Option<Json>,
    raw: &[u8],
    has_storage: bool,
    now: u64,
    handled: Handled,
)
    requires
        call_ensures(handle_reply, (config, context, body, raw, has_storage, now), handled),
    ensures
        ({
            let result = result_in(config.binding, json_of(body));
            let root = if result is Some {
                result->0
            } else if json_of(body) is Some {
                json_of(body)->0
            } else {
                JsonView::Null
            };
            &&& handled.shaping is Keep <==> config.response_type == ResponseType::Raw
            &&& handled.shaping is Evaluate <==> config.response_type == ResponseType::Mapping
            &&& handled.shaping is Replace <==> config.response_type == ResponseType::Fields
            &&& handled.shaping matches Shaping::Evaluate(payload) ==> {
                &&& result is Some ==> payload@ == json_text(result->0)
                &&& result is None ==> payload@ == raw@
            }
            &&& handled.shaping matches Shaping::Replace(shaped) ==> {
                let object = JsonView::Object(
                    assemble_view(selected_view(config.response_fields@, root)).object,
                );
                &&& shaped.body@ == json_text(object)
                &&& is_plain(object, 127) ==> json_parsed(shaped.body@) == Some(object)
                &&& texts_of(shaped.collisions@) == assemble_view(
                    selected_view(config.response_fields@, root),
                ).collisions
                &&& shaped.missing@ == missing_view(
                    config.response_fields@,
                    root,
                    config.response_fields@.len(),
                )
            }
        }),
{
    lemma_parts(config.binding, json_of(body));
}

/// Reading a reply gives what handling it gives, on the value that was read; it gives nothing
/// exactly where an entry would be written whose expiry the clock cannot tell.
pub proof fn law_reply_is_read_and_handled(
    config: &PolicyConfig,
    context: &RequestContext,
    raw: &[u8],
    has_storage: bool,
    now: u64,
    handled: Option<Handled>,
)
    requires
        call_ensures(read_reply, (config, context, raw, has_storage, now), handled),
    ensures
        ({
            let body = json_parsed(raw@);
            let result = result_in(config.binding, body);
            let request = context.continuation@;
            let class = class_told(result->0);
            let written = result is Some && has_storage && request.cache_key is Some && (class
                == StateClass::Continuable || (class == StateClass::Terminal
                && config.distributed));
            let store = ConversationStore::of(config.distributed, config.conversation_ttl_seconds);
            &&& handled is None <==> written && now + config.conversation_ttl_seconds * 1000
                > u64::MAX
            &&& handled matches Some(handled) ==> {
                &&& json_of(handled.error) == error_in(config.binding, body)
                &&& result is Some && has_storage && request.cache_key is Some ==> handled.record@
                    == store.record_view(
                    request.cache_key->0,
                    class,
                    parse_result_view(result->0).continuation,
                    now,
                )
                &&& result is None || !has_storage || request.cache_key is None ==> handled.record@
                    == StepView::Finished(Ok::<(), CacheErrorView>(()))
                &&& handled.unresumable <==> result is Some && class == StateClass::Continuable
                    && request.cache_key is None && !request.had_continuation_id
                &&& handled.shaping is Keep <==> config.response_type == ResponseType::Raw
                &&& handled.shaping is Evaluate <==> config.response_type == ResponseType::Mapping
                &&& handled.shaping is Replace <==> config.response_type == ResponseType::Fields
                &&& handled.shaping matches Shaping::Evaluate(payload) ==> {
                    &&& result is Some ==> payload@ == json_text(result->0)
                    &&& result is None ==> payload@ == raw@
                }
                &&& handled.shaping matches Shaping::Replace(shaped) ==> {
                    let root = if result is Some {
                        result->0
                    } else if body is Some {
                        body->0
                    } else {
                        JsonView::Null
                    };
                    let assembly = assemble_view(selected_view(config.response_fields@, root));
                    &&& shaped.body@ == json_text(JsonView::Object(assembly.object))
                    &&& texts_of(shaped.collisions@) == assembly.collisions
                    &&& shaped.missing@ == missing_view(
                        config.response_fields@,
                        root,
                        config.response_fields@.len(),
                    )
                }
            }
        }),
{
    lemma_parts(config.binding, json_parsed(raw@));
}

/// The positions of the fields whose selectors find nothing: each of them, once, in order.
pub proof fn law_missing_fields_are_listed(
    fields: Seq<ResponseField>,
    root: JsonView,
    count: nat,
)
    requires
        count <= fields.len() <= usize::MAX,
    ensures
        forall|i: usize| #[trigger]
            missing_view(fields, root, count).contains(i) <==> i < count && select_view(
                root,
                fields[i as int].selector@,
            ) is None,
        forall|k: int, l: int|
            0 <= k < l < missing_view(fields, root, count).len() ==> missing_view(
                fields,
                root,
                count,
            )[k] < missing_view(fields, root, count)[l],
    decreases count,
{
    let all = missing_view(fields, root, count);
    if count > 0 {
        let before = missing_view(fields, root, (count - 1) as nat);
        let last = (count - 1) as usize;
        law_missing_fields_are_listed(fields, root, (count - 1) as nat);
        assert forall|i: usize| #[trigger] all.contains(i) <==> i < count && select_view(
            root,
            fields[i as int].selector@,
        ) is None by {
            assert(before.contains(i) <==> i < count - 1 && select_view(
                root,
                fields[i as int].selector@,
            ) is None);
            if all.contains(i) {
                let k = choose|k: int| 0 <= k < all.len() && all[k] == i;
                if k < before.len() {
                    assert(before[k] == i);
                }
            }
            if before.contains(i) {
                let k = choose|k: int| 0 <= k < before.len() && before[k] == i;
                assert(all[k] == i);
            }
            if i == last && select_view(root, fields[last as int].selector@) is None {
                assert(all[before.len() as int] == last);
            }
        }
        assert forall|k: int, l: int| 0 <= k < l < all.len() implies all[k] < all[l] by {
            if l == before.len() {
                assert(before.contains(before[k]));
            }
        }
    }
}

/// A response of fields. Under the name of each field that is proper, and clashes with none before
/// it, stands what its own selector finds, or `null`. The names that are left out are reported in
/// their order, and so are the positions of the fields whose selectors find nothing.
pub proof fn law_fields_stand_under_their_names(
    fields: &Vec<ResponseField>,
    root: &Json,
    shaped: ShapedFields,
    i: int,
)
    requires
        call_ensures(shape_fields, (fields, root), shaped),
        0 <= i < fields@.len() <= usize::MAX,
        is_proper_name(fields@[i].name@),
        forall|j: int|
            0 <= j < i ==> !names_clash(fields@[i].name@, (#[trigger] fields@[j]).name@),
    ensures
        exists|object: JsonView|
            shaped.body@ == #[trigger] json_text(object) && lookup(
                object,
                split_on(fields@[i].name@, '.'),
            ) == Some(
                match select_view(root@, fields@[i].selector@) {
                    Some(value) => value,
                    None => JsonView::Null,
                },
            ),
        shaped.missing@.contains(i as usize) <==> select_view(root@, fields@[i].selector@) is None,
{
    let selected = selected_view(fields@, root@);
    assert forall|j: int| 0 <= j < i implies !names_clash(
        selected[i].0,
        (#[trigger] selected[j]).0,
    ) by {
        let field = fields@[j];
    }
    law_field_that_clashes_with_none_is_in_the_object(selected, i);
    let object = JsonView::Object(assemble_view(selected).object);
    assert(shaped.body@ == json_text(object));
    law_missing_fields_are_listed(fields@, root@, fields@.len());
    assert(missing_view(fields@, root@, fields@.len()).contains(i as usize) <==> select_view(
        root@,
        fields@[i as usize as int].selector@,
    ) is None);
}

/// The fields that find no place are reported by name, in their order.
pub proof fn law_left_out_fields_are_reported(
    fields: &Vec<ResponseField>,
    root: &Json,
    shaped: ShapedFields,
)
    requires
        call_ensures(shape_fields, (fields, root), shaped),
    ensures
        ({
            let selected = selected_view(fields@, root@);
            &&& selected.len() == fields@.len()
            &&& forall|i: int|
                0 <= i < fields@.len() ==> (#[trigger] selected[i]).0 == fields@[i].name@
            &&& texts_of(shaped.collisions@) == skipped_names(selected, selected.len() as int)
        }),
{
    law_skipped_fields_are_reported_in_order(selected_view(fields@, root@));
}

/// Whether a body is the text of `sent`, and the message in it names exactly the task and the
/// context of `task`.
pub open spec fn names_the_task(
    body: Seq<u8>,
    binding: UpstreamBinding,
    sent: JsonView,
    task: ContinuationView,
) -> bool {
    let message = message_sent(binding, sent);
    &&& body == json_text(sent)
    &&& message is Some
    &&& task.task_id is None ==> member(message->0, "taskId"@) is None
    &&& task.task_id is Some ==> member(message->0, "taskId"@) == Some(
        JsonView::String(task.task_id->0),
    )
    &&& task.context_id is None ==> member(message->0, "contextId"@) is None
    &&& task.context_id is Some ==> member(message->0, "contextId"@) == Some(
        JsonView::String(task.context_id->0),
    )
}

/// Two turns of a conversation, from the first request to the body of the second. Both name the
/// same conversation; what they carry else does not matter. Both wait for the store. The reply to
/// the first tells of a task that goes on, which is recorded, and the body that the second sends,
/// within the time to live, names that task. What the store held before does not matter, as long
/// as the conversation was not over.
pub proof fn law_second_request_names_the_task_of_the_first(
    config: &PolicyConfig,
    backend: Backend,
    name: Seq<char>,
    seeds: (String, String),
    first: Evaluated,
    second: Evaluated,
    steps: (RequestStep, RequestStep),
    readings: (&Reading, &Reading),
    forwards: (Forward, Forward),
    raw: &[u8],
    handled: Option<Handled>,
    now: u64,
    later: u64,
    fresh: Seq<char>,
)
    requires
        config.continuation_mode == ContinuationMode::Cache,
        names_something(first.prompt),
        names_something(second.prompt),
        is_named(Some(name), first.context_key),
        is_named(Some(name), second.context_key),
        call_ensures(begin_request, (config, seeds.0, first, true), steps.0),
        reading_view(*readings.0) == found(backend, key_of(name)),
        call_ensures(
            PendingLookup::finish,
            (steps.0->Lookup_0, config, readings.0, now),
            forwards.0,
        ),
        call_ensures(read_reply, (config, &forwards.0.context, raw, true, now), handled),
        result_in(config.binding, json_parsed(raw@)) is Some,
        class_told(result_in(config.binding, json_parsed(raw@))->0) == StateClass::Continuable,
        now + config.conversation_ttl_seconds * 1000 <= u64::MAX,
        later < now + config.conversation_ttl_seconds * 1000,
        backend.dom().contains(key_of(name)) ==> backend[key_of(name)].0.state
            == EntryState::Continuable,
        call_ensures(begin_request, (config, seeds.1, second, true), steps.1),
        reading_view(*readings.1) == found(
            carried_out(handled->0.record@, backend, fresh).1,
            key_of(name),
        ),
        call_ensures(
            PendingLookup::finish,
            (steps.1->Lookup_0, config, readings.1, later),
            forwards.1,
        ),
    ensures
        steps.0 is Lookup,
        steps.1 is Lookup,
        handled is Some,
        carried_out(handled->0.record@, backend, fresh).0 == Ok::<(), CacheErrorView>(()),
        exists|sent: JsonView| #[trigger]
            names_the_task(
                forwards.1.body@,
                config.binding,
                sent,
                parse_result_view(result_in(config.binding, json_parsed(raw@))->0).continuation,
            ),
{
    let result = result_in(config.binding, json_parsed(raw@))->0;
    let task = parse_result_view(result).continuation;
    let store = ConversationStore::of(config.distributed, config.conversation_ttl_seconds);
    let pending = steps.1->Lookup_0;
    lemma_parts(config.binding, json_parsed(raw@));
    ConversationStore::lemma_of(config.distributed, config.conversation_ttl_seconds);
    law_next_turn_resumes_the_task(store, backend, name, task, now, later, fresh);
    law_request_sends_what_was_asked(
        *config,
        pending@.seed,
        pending@.prompt,
        pending@.metadata,
        task,
    );
    let sent = send_view(*config, pending@.seed, pending@.prompt, pending@.metadata, task);
    assert(names_the_task(forwards.1.body@, config.binding, sent, task));
}

/// Two turns of a conversation, from the first request to the body of the second, where the store
/// is a local one that has only seen what was recorded in it: the body that the second sends,
/// within the time to live, always names the task of the first.
pub proof fn law_second_request_names_the_task_in_a_local_store(
    config: &PolicyConfig,
    records: Seq<RecordView>,
    backend: Backend,
    name: Seq<char>,
    seeds: (String, String),
    first: Evaluated,
    second: Evaluated,
    steps: (RequestStep, RequestStep),
    readings: (&Reading, &Reading),
    forwards: (Forward, Forward),
    raw: &[u8],
    handled: Option<Handled>,
    now: u64,
    later: u64,
    fresh: Seq<char>,
)
    requires
        config.continuation_mode == ContinuationMode::Cache,
        names_something(first.prompt),
        names_something(second.prompt),
        is_named(Some(name), first.context_key),
        is_named(Some(name), second.context_key),
        call_ensures(begin_request, (config, seeds.0, first, true), steps.0),
        reading_view(*readings.0) == found(backend, key_of(name)),
        call_ensures(
            PendingLookup::finish,
            (steps.0->Lookup_0, config, readings.0, now),
            forwards.0,
        ),
        call_ensures(read_reply, (config, &forwards.0.context, raw, true, now), handled),
        result_in(config.binding, json_parsed(raw@)) is Some,
        class_told(result_in(config.binding, json_parsed(raw@))->0) == StateClass::Continuable,
        now + config.conversation_ttl_seconds * 1000 <= u64::MAX,
        later < now + config.conversation_ttl_seconds * 1000,
        !config.distributed,
        backend == built_up(
            ConversationStore::of(config.distributed, config.conversation_ttl_seconds),
            records,
        ),
        call_ensures(begin_request, (config, seeds.1, second, true), steps.1),
        reading_view(*readings.1) == found(
            carried_out(handled->0.record@, backend, fresh).1,
            key_of(name),
        ),
        call_ensures(
            PendingLookup::finish,
            (steps.1->Lookup_0, config, readings.1, later),
            forwards.1,
        ),
    ensures
        steps.0 is Lookup,
        steps.1 is Lookup,
        handled is Some,
        carried_out(handled->0.record@, backend, fresh).0 == Ok::<(), CacheErrorView>(()),
        exists|sent: JsonView| #[trigger]
            names_the_task(
                forwards.1.body@,
                config.binding,
                sent,
                parse_result_view(result_in(config.binding, json_parsed(raw@))->0).continuation,
            ),
{
    let store = ConversationStore::of(config.distributed, config.conversation_ttl_seconds);
    ConversationStore::lemma_of(config.distributed, config.conversation_ttl_seconds);
    law_built_up_local_store_holds_no_tombstone(store, records);
    law_second_request_names_the_task_of_the_first(
        config,
        backend,
        name,
        seeds,
        first,
        second,
        steps,
        readings,
        forwards,
        raw,
        handled,
        now,
        later,
        fresh,
    );
}

/// Two turns of a conversation, from the first request to the body of the second, where the reply
/// to the first tells that its task is over, or tells of none: the body that the second sends
/// names no task, at whatever time it comes.
pub proof fn law_request_after_the_end_names_no_task(
    config: &PolicyConfig,
    backend: Backend,
    name: Seq<char>,
    seeds: (String, String),
    first: Evaluated,
    second: Evaluated,
    steps: (RequestStep, RequestStep),
    readings: (&Reading, &Reading),
    forwards: (Forward, Forward),
    raw: &[u8],
    handled: Option<Handled>,
    now: u64,
    later: u64,
    fresh: Seq<char>,
)
    requires
        config.continuation_mode == ContinuationMode::Cache,
        names_something(first.prompt),
        names_something(second.prompt),
        is_named(Some(name), first.context_key),
        is_named(Some(name), second.context_key),
        call_ensures(begin_request, (config, seeds.0, first, true), steps.0),
        reading_view(*readings.0) == found(backend, key_of(name)),
        call_ensures(
            PendingLookup::finish,
            (steps.0->Lookup_0, config, readings.0, now),
            forwards.0,
        ),
        call_ensures(read_reply, (config, &forwards.0.context, raw, true, now), handled),
        result_in(config.binding, json_parsed(raw@)) is Some,
        class_told(result_in(config.binding, json_parsed(raw@))->0) == StateClass::Terminal,
        now + config.conversation_ttl_seconds * 1000 <= u64::MAX,
        call_ensures(begin_request, (config, seeds.1, second, true), steps.1),
        reading_view(*readings.1) == found(
            carried_out(handled->0.record@, backend, fresh).1,
            key_of(name),
        ),
        call_ensures(
            PendingLookup::finish,
            (steps.1->Lookup_0, config, readings.1, later),
            forwards.1,
        ),
    ensures
        steps.0 is Lookup,
        steps.1 is Lookup,
        handled is Some,
        carried_out(handled->0.record@, backend, fresh).0 == Ok::<(), CacheErrorView>(()),
        exists|sent: JsonView| #[trigger]
            names_the_task(
                forwards.1.body@,
                config.binding,
                sent,
                ContinuationView { task_id: None, context_id: None },
            ),
{
    let result = result_in(config.binding, json_parsed(raw@))->0;
    let task = parse_result_view(result).continuation;
    let none = ContinuationView { task_id: None, context_id: None };
    let store = ConversationStore::of(config.distributed, config.conversation_ttl_seconds);
    let pending = steps.1->Lookup_0;
    lemma_parts(config.binding, json_parsed(raw@));
    law_turn_after_the_end_is_fresh(store, backend, name, task, now, later, fresh);
    law_request_sends_what_was_asked(
        *config,
        pending@.seed,
        pending@.prompt,
        pending@.metadata,
        none,
    );
    let sent = send_view(*config, pending@.seed, pending@.prompt, pending@.metadata, none);
    assert(names_the_task(forwards.1.body@, config.binding, sent, none));
}

/// The names of the headers, and the type of a body.
pub proof fn law_headers_by_name()
    ensures
        CONTENT_TYPE@ == "content-type"@,
        CONTENT_LENGTH@ == "content-length"@,
        APPLICATION_JSON@ == "application/json"@,
        REQUEST_ID@ == "x-request-id"@,
{
}

/// Without a clock no request carries an identifier, whatever the store holds; with one, the time
/// is the clock's.
pub proof fn law_request_without_a_clock_is_fresh(
    clock: Option<u64>,
    now: u64,
    pending: PendingLookup,
    config: &PolicyConfig,
    reading: &Reading,
    forward: Forward,
)
    requires
        call_ensures(time_of_lookup, (clock,), now),
        call_ensures(PendingLookup::finish, (pending, config, reading, now), forward),
    ensures
        clock is None ==> {
            &&& forward.context.continuation@.continuation.task_id is None
            &&& forward.context.continuation@.continuation.context_id is None
            &&& !forward.context.continuation@.had_continuation_id
        },
        clock is Some ==> now == clock->0,
{
}

/// What is recorded without a clock has expired from the time to live on, counted from the
/// beginning of time; with one, the time is the clock's.
pub proof fn law_record_without_a_clock_has_expired(
    clock: Option<u64>,
    now: u64,
    store: ConversationStore,
    key: Seq<char>,
    continuation: ContinuationView,
    version: Seq<char>,
    later: u64,
)
    requires
        call_ensures(time_of_record, (clock,), now),
    ensures
        clock is None && later >= store.ttl() ==> ({
            let step = store.record_view(key, StateClass::Continuable, continuation, now);
            live_view(Ok(Some((step->Write_0.entry, version))), later) is None
        }),
        clock is Some ==> now == clock->0,
{
}

/// The identifier of a message is derived from the name of the request, and only where it has none
/// from its path.
pub proof fn law_named_request_is_its_own_seed(
    request_id: Option<String>,
    path: String,
    seed: String,
)
    requires
        call_ensures(id_seed, (request_id, path), seed),
    ensures
        request_id is Some ==> seed@ == request_id->0@,
        request_id is None ==> seed@ == path@,
{
}

/// The headers of a reply are changed exactly where its body is to be written anew: those of a
/// stream, and of a reply that passes as it is, stay.
pub proof fn law_headers_change_with_the_body(
    config: &PolicyConfig,
    content_type: Option<String>,
    plan: ResponsePlan,
    rewrites: bool,
)
    requires
        call_ensures(plan_response, (config, content_type), plan),
        call_ensures(ResponsePlan::rewrites_headers, (&plan,), rewrites),
    ensures
        rewrites <==> config.response_type != ResponseType::Raw && !(content_type is Some && exists|
            before: Seq<char>,
            after: Seq<char>,
        |
            #[trigger] (before + "text/event-stream"@ + after) == content_type->0@),
{
    law_only_streams_pass_unread(config, content_type, plan);
}

} // verus!
