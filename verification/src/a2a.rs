//! The slice of the A2A protocol, version 1.0, that the bridge speaks: the `SendMessage` request,
//! the classes of task states, and what a reply tells about its task.
//!
//! The wire forms are canonical proto-JSON: task states are `TASK_STATE_*`, the author of a
//! caller's message is `ROLE_USER`.
use vstd::prelude::*;

use crate::digest::{hex_text, sha256, sha256_digest, to_hex};
use crate::json::{element, lemma_json_view, member, string_of, Json, JsonObject, JsonView};
use crate::text::{same_text, text_of, texts_of};

verus! {

/// The name of a unary send in the JSON-RPC binding.
pub const SEND_MESSAGE_METHOD: &'static str = "SendMessage";

/// The author of a message that a caller sends.
pub const ROLE_USER: &'static str = "ROLE_USER";

/// The identifiers that carry a task from one turn to the next. A fresh conversation has none.
#[derive(Debug, PartialEq)]
pub struct Continuation {
    pub task_id: Option<String>,
    pub context_id: Option<String>,
}

/// The identifiers of a `Continuation`.
pub struct ContinuationView {
    pub task_id: Option<Seq<char>>,
    pub context_id: Option<Seq<char>>,
}

impl View for Continuation {
    type V = ContinuationView;

    open spec fn view(&self) -> ContinuationView {
        ContinuationView { task_id: text_of(self.task_id), context_id: text_of(self.context_id) }
    }
}

impl ContinuationView {
    /// No identifiers.
    pub open spec fn none() -> ContinuationView {
        ContinuationView { task_id: None, context_id: None }
    }
}

impl Default for Continuation {
    fn default() -> (continuation: Continuation)
        ensures
            continuation@ == ContinuationView::none(),
    {
        Continuation { task_id: None, context_id: None }
    }
}

impl Clone for Continuation {
    fn clone(&self) -> (copy: Continuation)
        ensures
            copy@ == self@,
    {
        Continuation { task_id: self.task_id.clone(), context_id: self.context_id.clone() }
    }
}

impl Continuation {
    /// Whether there is no task to resume.
    pub fn is_empty(&self) -> (empty: bool)
        ensures
            empty == (self@ == ContinuationView::none()),
    {
        self.task_id.is_none() && self.context_id.is_none()
    }
}

/// The operator's `configuration` of a send.
#[derive(Debug, Clone)]
pub struct SendConfiguration {
    pub accepted_output_modes: Option<Vec<String>>,
    /// Whether the upstream agent is to wait for a result. On the wire this is its inverse,
    /// `returnImmediately`.
    pub blocking: bool,
}

/// The contents of a `SendConfiguration`.
pub struct SendConfigurationView {
    pub accepted_output_modes: Option<Seq<Seq<char>>>,
    pub blocking: bool,
}

impl View for SendConfiguration {
    type V = SendConfigurationView;

    open spec fn view(&self) -> SendConfigurationView {
        SendConfigurationView {
            accepted_output_modes: match self.accepted_output_modes {
                Some(modes) => Some(texts_of(modes@)),
                None => None,
            },
            blocking: self.blocking,
        }
    }
}

impl Default for SendConfiguration {
    fn default() -> (configuration: SendConfiguration)
        ensures
            configuration@ == (SendConfigurationView {
                accepted_output_modes: None,
                blocking: false,
            }),
    {
        SendConfiguration { accepted_output_modes: None, blocking: false }
    }
}

/// The `message` of a send: its identifier, the caller's role, the prompt as its one part, the
/// identifiers of the task that it continues, and the metadata where that is an object.
pub open spec fn message_view(
    prompt: Seq<char>,
    message_id: Seq<char>,
    continuation: ContinuationView,
    metadata: Option<JsonView>,
) -> Map<Seq<char>, JsonView> {
    let part = JsonView::Object(Map::empty().insert("text"@, JsonView::String(prompt)));
    let fresh = Map::empty().insert("messageId"@, JsonView::String(message_id)).insert(
        "role"@,
        JsonView::String("ROLE_USER"@),
    ).insert("parts"@, JsonView::Array(seq![part]));
    let with_task = match continuation.task_id {
        Some(task_id) => fresh.insert("taskId"@, JsonView::String(task_id)),
        None => fresh,
    };
    let with_context = match continuation.context_id {
        Some(context_id) => with_task.insert("contextId"@, JsonView::String(context_id)),
        None => with_task,
    };
    match metadata {
        Some(JsonView::Object(members)) => with_context.insert(
            "metadata"@,
            JsonView::Object(members),
        ),
        _ => with_context,
    }
}

/// The `configuration` of a send.
pub open spec fn configuration_view(configuration: SendConfigurationView) -> Map<
    Seq<char>,
    JsonView,
> {
    let modes = match configuration.accepted_output_modes {
        Some(modes) => Map::empty().insert(
            "acceptedOutputModes"@,
            JsonView::Array(modes.map_values(|mode: Seq<char>| JsonView::String(mode))),
        ),
        None => Map::empty(),
    };
    modes.insert("returnImmediately"@, JsonView::Bool(!configuration.blocking))
}

/// The `params` of a send.
pub open spec fn send_message_view(
    prompt: Seq<char>,
    message_id: Seq<char>,
    continuation: ContinuationView,
    configuration: Option<SendConfigurationView>,
    metadata: Option<JsonView>,
) -> JsonView {
    let message = Map::empty().insert(
        "message"@,
        JsonView::Object(message_view(prompt, message_id, continuation, metadata)),
    );
    JsonView::Object(
        match configuration {
            Some(configuration) => message.insert(
                "configuration"@,
                JsonView::Object(configuration_view(configuration)),
            ),
            None => message,
        },
    )
}

/// The contents of an optional configuration.
pub open spec fn configuration_of(configuration: Option<&SendConfiguration>) -> Option<
    SendConfigurationView,
> {
    match configuration {
        Some(configuration) => Some(configuration@),
        None => None,
    }
}

/// Builds the `message` of a send.
fn build_message(
    prompt: &str,
    message_id: &str,
    continuation: &Continuation,
    metadata: Option<Json>,
) -> (message: JsonObject)
    ensures
        message@ == message_view(
            prompt@,
            message_id@,
            continuation@,
            crate::json::json_of(metadata),
        ),
{
    broadcast use lemma_json_view;
    let mut part = JsonObject::new();
    part.insert("text".to_owned(), Json::string(prompt));
    let mut parts: Vec<Json> = Vec::new();
    parts.push(Json::Object(part));
    let parts = Json::Array(parts);
    proof {
        let text = JsonView::Object(Map::empty().insert("text"@, JsonView::String(prompt@)));
        assert(parts@->Array_0 =~= seq![text]);
    }
    let mut message = JsonObject::new();
    message.insert("messageId".to_owned(), Json::string(message_id));
    message.insert("role".to_owned(), Json::string(ROLE_USER));
    message.insert("parts".to_owned(), parts);
    if let Some(task_id) = &continuation.task_id {
        message.insert("taskId".to_owned(), Json::string(task_id.as_str()));
    }
    if let Some(context_id) = &continuation.context_id {
        message.insert("contextId".to_owned(), Json::string(context_id.as_str()));
    }
    if let Some(Json::Object(members)) = metadata {
        message.insert("metadata".to_owned(), Json::Object(members));
    }
    message
}

/// Builds the `configuration` of a send.
fn build_configuration(configuration: &SendConfiguration) -> (object: JsonObject)
    ensures
        object@ == configuration_view(configuration@),
{
    broadcast use lemma_json_view;
    let mut object = JsonObject::new();
    if let Some(modes) = &configuration.accepted_output_modes {
        let mut items: Vec<Json> = Vec::new();
        let mut i: usize = 0;
        while i < modes.len()
            invariant
                i <= modes@.len(),
                items@.len() == i,
                forall|k: int| 0 <= k < i ==> items@[k]@ == JsonView::String(modes@[k]@),
            decreases modes@.len() - i,
        {
            items.push(Json::string(modes[i].as_str()));
            i = i + 1;
        }
        let items = Json::Array(items);
        proof {
            let expected = texts_of(modes@).map_values(|mode: Seq<char>| JsonView::String(mode));
            assert(items@->Array_0 =~= expected);
        }
        object.insert("acceptedOutputModes".to_owned(), items);
    }
    object.insert("returnImmediately".to_owned(), Json::Bool(!configuration.blocking));
    object
}

/// Builds the `params` of a send that carries metadata. Metadata that is no object is left out.
pub fn build_send_message_with_metadata(
    prompt: &str,
    message_id: &str,
    continuation: &Continuation,
    configuration: Option<&SendConfiguration>,
    metadata: Option<Json>,
) -> (params: Json)
    ensures
        params@ == send_message_view(
            prompt@,
            message_id@,
            continuation@,
            configuration_of(configuration),
            crate::json::json_of(metadata),
        ),
        member(params@, "message"@) is Some,
        member(params@, "configuration"@) is Some <==> configuration is Some,
        configuration is Some ==> member(
            member(params@, "configuration"@)->0,
            "returnImmediately"@,
        ) == Some(JsonView::Bool(!configuration->0.blocking)),
        configuration is Some ==> (member(
            member(params@, "configuration"@)->0,
            "acceptedOutputModes"@,
        ) is Some <==> configuration->0.accepted_output_modes is Some),
{
    broadcast use lemma_json_view;
    proof {
        let metadata = crate::json::json_of(metadata);
        let settings = configuration_of(configuration);
        law_send_carries_its_message(prompt@, message_id@, continuation@, settings, metadata);
        law_send_carries_the_configuration(
            prompt@,
            message_id@,
            continuation@,
            settings,
            metadata,
            0,
        );
    }
    let message = build_message(prompt, message_id, continuation, metadata);
    let mut params = JsonObject::new();
    params.insert("message".to_owned(), Json::Object(message));
    if let Some(configuration) = configuration {
        let object = build_configuration(configuration);
        params.insert("configuration".to_owned(), Json::Object(object));
    }
    Json::Object(params)
}

/// Builds the `params` of a send without metadata.
pub fn build_send_message(
    prompt: &str,
    message_id: &str,
    continuation: &Continuation,
    configuration: Option<&SendConfiguration>,
) -> (params: Json)
    ensures
        params@ == send_message_view(
            prompt@,
            message_id@,
            continuation@,
            configuration_of(configuration),
            None,
        ),
{
    build_send_message_with_metadata(prompt, message_id, continuation, configuration, None)
}

/// The message of a send says what it was given: the identifiers of the task that it continues,
/// where there are any and nothing else in their place, the prompt, and the metadata where that is
/// an object.
pub proof fn law_message_says_what_it_was_given(
    prompt: Seq<char>,
    message_id: Seq<char>,
    continuation: ContinuationView,
    metadata: Option<JsonView>,
)
    ensures
        ({
            let message = JsonView::Object(
                message_view(prompt, message_id, continuation, metadata),
            );
            &&& text_member(message, "taskId"@) == continuation.task_id
            &&& member(message, "taskId"@) is Some <==> continuation.task_id is Some
            &&& text_member(message, "contextId"@) == continuation.context_id
            &&& member(message, "contextId"@) is Some <==> continuation.context_id is Some
            &&& text_member(message, "messageId"@) == Some(message_id)
            &&& text_member(message, "role"@) == Some(ROLE_USER@)
            &&& member(message, "parts"@) == Some(
                JsonView::Array(
                    seq![JsonView::Object(Map::empty().insert("text"@, JsonView::String(prompt)))],
                ),
            )
            &&& member(message, "metadata"@) == match metadata {
                Some(JsonView::Object(members)) => Some(JsonView::Object(members)),
                _ => None,
            }
        }),
{
    reveal_strlit("taskId");
    reveal_strlit("contextId");
    reveal_strlit("messageId");
    reveal_strlit("role");
    reveal_strlit("parts");
    reveal_strlit("metadata");
    assert("taskId"@.len() == 6 && "contextId"@.len() == 9 && "messageId"@.len() == 9);
    assert("role"@.len() == 4 && "parts"@.len() == 5 && "metadata"@.len() == 8);
    assert("contextId"@[0] == 'c' && "messageId"@[0] == 'm');
}

/// On the wire the operator's `blocking` is its inverse.
pub proof fn law_blocking_is_sent_inverted(configuration: SendConfigurationView)
    ensures
        member(
            JsonView::Object(configuration_view(configuration)),
            "returnImmediately"@,
        ) == Some(JsonView::Bool(!configuration.blocking)),
{
}

/// What a task state means for the next turn.
#[derive(Debug, Clone, Copy, PartialEq, Eq, Structural)]
pub enum StateClass {
    /// The task is alive: its identifiers are worth keeping.
    Continuable,
    /// The task is done: what was kept of it goes.
    Terminal,
    /// A state that means neither; nothing is kept and nothing goes.
    Unknown,
}

/// The states of a task that is alive, in the canonical form and in the older one.
pub open spec fn is_continuable_state(state: Seq<char>) -> bool {
    ||| state == "TASK_STATE_SUBMITTED"@
    ||| state == "TASK_STATE_WORKING"@
    ||| state == "TASK_STATE_INPUT_REQUIRED"@
    ||| state == "TASK_STATE_AUTH_REQUIRED"@
    ||| state == "submitted"@
    ||| state == "working"@
    ||| state == "input-required"@
    ||| state == "auth-required"@
}

/// The states of a task that is done, in the canonical form and in the older one.
pub open spec fn is_terminal_state(state: Seq<char>) -> bool {
    ||| state == "TASK_STATE_COMPLETED"@
    ||| state == "TASK_STATE_FAILED"@
    ||| state == "TASK_STATE_CANCELED"@
    ||| state == "TASK_STATE_REJECTED"@
    ||| state == "completed"@
    ||| state == "failed"@
    ||| state == "canceled"@
    ||| state == "cancelled"@
    ||| state == "rejected"@
}

/// The class of a task state.
pub open spec fn class_of(state: Seq<char>) -> StateClass {
    if is_continuable_state(state) {
        StateClass::Continuable
    } else if is_terminal_state(state) {
        StateClass::Terminal
    } else {
        StateClass::Unknown
    }
}

/// Classifies a task state.
pub fn classify_state(state: &str) -> (class: StateClass)
    ensures
        class == class_of(state@),
{
    if same_text(state, "TASK_STATE_SUBMITTED") || same_text(state, "TASK_STATE_WORKING")
        || same_text(state, "TASK_STATE_INPUT_REQUIRED") || same_text(
        state,
        "TASK_STATE_AUTH_REQUIRED",
    ) || same_text(state, "submitted") || same_text(state, "working") || same_text(
        state,
        "input-required",
    ) || same_text(state, "auth-required") {
        StateClass::Continuable
    } else if same_text(state, "TASK_STATE_COMPLETED") || same_text(state, "TASK_STATE_FAILED")
        || same_text(state, "TASK_STATE_CANCELED") || same_text(state, "TASK_STATE_REJECTED")
        || same_text(state, "completed") || same_text(state, "failed") || same_text(
        state,
        "canceled",
    ) || same_text(state, "cancelled") || same_text(state, "rejected") {
        StateClass::Terminal
    } else {
        StateClass::Unknown
    }
}

/// No state is both alive and done.
pub proof fn law_no_state_is_alive_and_done(state: Seq<char>)
    ensures
        !(is_continuable_state(state) && is_terminal_state(state)),
{
    reveal_strlit("TASK_STATE_SUBMITTED");
    reveal_strlit("TASK_STATE_WORKING");
    reveal_strlit("TASK_STATE_INPUT_REQUIRED");
    reveal_strlit("TASK_STATE_AUTH_REQUIRED");
    reveal_strlit("submitted");
    reveal_strlit("working");
    reveal_strlit("input-required");
    reveal_strlit("auth-required");
    reveal_strlit("TASK_STATE_COMPLETED");
    reveal_strlit("TASK_STATE_FAILED");
    reveal_strlit("TASK_STATE_CANCELED");
    reveal_strlit("TASK_STATE_REJECTED");
    reveal_strlit("completed");
    reveal_strlit("failed");
    reveal_strlit("canceled");
    reveal_strlit("cancelled");
    reveal_strlit("rejected");
    if is_continuable_state(state) {
        // Two equal texts have the same first and twelfth characters.
        assert(state[0] == 'T' || state[0] == 's' || state[0] == 'w' || state[0] == 'i' || state[0]
            == 'a');
        assert(state[0] == 'T' ==> (state[11] == 'S' || state[11] == 'W' || state[11] == 'I'
            || state[11] == 'A'));
    }
    if is_terminal_state(state) {
        assert(state[0] == 'T' || state[0] == 'c' || state[0] == 'f' || state[0] == 'r');
        assert(state[0] == 'T' ==> (state[11] == 'C' || state[11] == 'F' || state[11] == 'R'));
    }
}

/// What a reply tells about its task.
#[derive(Debug, Clone, PartialEq)]
pub struct ParsedResult {
    /// The state of the task; a direct message has none.
    pub state: Option<String>,
    pub task_id: Option<String>,
    pub context_id: Option<String>,
}

/// The contents of a `ParsedResult`.
pub struct ParsedResultView {
    pub state: Option<Seq<char>>,
    pub continuation: ContinuationView,
}

impl View for ParsedResult {
    type V = ParsedResultView;

    open spec fn view(&self) -> ParsedResultView {
        ParsedResultView {
            state: text_of(self.state),
            continuation: ContinuationView {
                task_id: text_of(self.task_id),
                context_id: text_of(self.context_id),
            },
        }
    }
}

impl ParsedResultView {
    /// The class of the reply: a reply without a state has no task to resume.
    pub open spec fn class(self) -> StateClass {
        match self.state {
            Some(state) => class_of(state),
            None => StateClass::Terminal,
        }
    }
}

impl Default for ParsedResult {
    fn default() -> (parsed: ParsedResult)
        ensures
            parsed@ == (ParsedResultView { state: None, continuation: ContinuationView::none() }),
    {
        ParsedResult { state: None, task_id: None, context_id: None }
    }
}

impl ParsedResult {
    /// The class that the state implies.
    pub fn class(&self) -> (class: StateClass)
        ensures
            class == self@.class(),
    {
        match &self.state {
            Some(state) => classify_state(state.as_str()),
            None => StateClass::Terminal,
        }
    }

    /// The identifiers to keep for a task that is alive.
    pub fn continuation(&self) -> (continuation: Continuation)
        ensures
            continuation@ == self@.continuation,
    {
        Continuation { task_id: self.task_id.clone(), context_id: self.context_id.clone() }
    }
}

/// The string at the member `name` of an object.
pub open spec fn text_member(value: JsonView, name: Seq<char>) -> Option<Seq<char>> {
    match member(value, name) {
        Some(found) => string_of(found),
        None => None,
    }
}

/// The task in a reply: the member `task`, or the reply itself where it has a `status`.
pub open spec fn task_of(result: JsonView) -> Option<JsonView> {
    match member(result, "task"@) {
        Some(task) => Some(task),
        None => if member(result, "status"@) is Some {
            Some(result)
        } else {
            None
        },
    }
}

/// What a reply tells: a task its state and identifiers, a message its identifiers, anything else
/// nothing.
pub open spec fn parse_result_view(result: JsonView) -> ParsedResultView {
    match task_of(result) {
        Some(task) => ParsedResultView {
            state: match member(task, "status"@) {
                Some(status) => text_member(status, "state"@),
                None => None,
            },
            continuation: ContinuationView {
                task_id: text_member(task, "id"@),
                context_id: text_member(task, "contextId"@),
            },
        },
        None => ParsedResultView {
            state: None,
            continuation: match member(result, "message"@) {
                Some(message) => ContinuationView {
                    task_id: text_member(message, "taskId"@),
                    context_id: text_member(message, "contextId"@),
                },
                None => ContinuationView::none(),
            },
        },
    }
}

/// The string at the member `name` of an object.
fn text_at(value: &Json, name: &str) -> (text: Option<String>)
    ensures
        text_of(text) == text_member(value@, name@),
{
    match value.get(name) {
        Some(found) => match found.as_str() {
            Some(text) => Some(text.to_owned()),
            None => None,
        },
        None => None,
    }
}

/// Reads what a task tells.
fn parse_task(task: &Json) -> (parsed: ParsedResult)
    ensures
        parsed@ == (ParsedResultView {
            state: match member(task@, "status"@) {
                Some(status) => text_member(status, "state"@),
                None => None,
            },
            continuation: ContinuationView {
                task_id: text_member(task@, "id"@),
                context_id: text_member(task@, "contextId"@),
            },
        }),
{
    let state = match task.get("status") {
        Some(status) => text_at(status, "state"),
        None => None,
    };
    ParsedResult { state, task_id: text_at(task, "id"), context_id: text_at(task, "contextId") }
}

/// Reads what a reply tells about its task.
pub fn parse_result(result: &Json) -> (parsed: ParsedResult)
    ensures
        parsed@ == parse_result_view(result@),
{
    if let Some(task) = result.get("task") {
        return parse_task(task);
    }
    if result.get("status").is_some() {
        return parse_task(result);
    }
    if let Some(message) = result.get("message") {
        return ParsedResult {
            state: None,
            task_id: text_at(message, "taskId"),
            context_id: text_at(message, "contextId"),
        };
    }
    ParsedResult::default()
}

/// How much of a digest a message identifier shows.
pub const MESSAGE_ID_BYTES: usize = 16;

/// The message identifier that a digest stands for: the first half of a SHA-256 digest, in
/// hexadecimal.
pub open spec fn message_id_view(digest: Seq<u8>) -> Seq<char> {
    hex_text(
        if digest.len() <= MESSAGE_ID_BYTES {
            digest
        } else {
            digest.take(MESSAGE_ID_BYTES as int)
        },
    )
}

/// Writes out the message identifier that a digest stands for.
pub fn message_id_of(digest: &[u8]) -> (id: String)
    ensures
        id@ == message_id_view(digest@),
{
    let mut shown: Vec<u8> = Vec::new();
    let mut i: usize = 0;
    while i < digest.len() && i < MESSAGE_ID_BYTES
        invariant
            i <= digest@.len(),
            i <= MESSAGE_ID_BYTES,
            shown@ == digest@.take(i as int),
        decreases digest@.len() - i,
    {
        shown.push(digest[i]);
        i = i + 1;
    }
    assert(shown@ =~= (if digest@.len() <= MESSAGE_ID_BYTES {
        digest@
    } else {
        digest@.take(MESSAGE_ID_BYTES as int)
    }));
    to_hex(shown.as_slice())
}

/// Derives the identifier of a message from a seed: the same seed gives the same identifier, 32
/// hexadecimal digits that tell nothing of the seed but its digest.
pub fn generate_message_id(seed: &[u8]) -> (id: String)
    ensures
        id@ == message_id_view(sha256_digest(seed@)),
        id@.len() == 32,
{
    message_id_of(sha256(seed).as_slice())
}

/// The identifiers of a continuation, and the settings of a send, are seen as they are.
pub proof fn law_send_settings_are_seen_whole(
    continuation: Continuation,
    configuration: SendConfiguration,
)
    ensures
        continuation@.task_id is Some <==> continuation.task_id is Some,
        continuation.task_id is Some ==> continuation@.task_id->0 == continuation.task_id->0@,
        continuation@.context_id is Some <==> continuation.context_id is Some,
        continuation.context_id is Some ==> continuation@.context_id->0
            == continuation.context_id->0@,
        continuation@ == ContinuationView::none() <==> continuation.task_id is None
            && continuation.context_id is None,
        configuration@.blocking == configuration.blocking,
        configuration@.accepted_output_modes is Some
            <==> configuration.accepted_output_modes is Some,
        configuration.accepted_output_modes is Some ==> {
            let modes = configuration.accepted_output_modes->0@;
            let seen = configuration@.accepted_output_modes->0;
            &&& seen.len() == modes.len()
            &&& forall|i: int| 0 <= i < modes.len() ==> #[trigger] seen[i] == modes[i]@
        },
        configuration_of(None) is None,
        configuration_of(Some(&configuration)) == Some(configuration@),
{
}

/// A send carries the message, whatever else it carries: the identifier, the caller's role, the
/// prompt as the text of its one part, the identifiers of the task, each where there is one, and
/// metadata that is an object. Nothing else stands in the message.
pub proof fn law_send_carries_its_message(
    prompt: Seq<char>,
    message_id: Seq<char>,
    continuation: ContinuationView,
    configuration: Option<SendConfigurationView>,
    metadata: Option<JsonView>,
)
    ensures
        ({
            let params = send_message_view(
                prompt,
                message_id,
                continuation,
                configuration,
                metadata,
            );
            let message = member(params, "message"@)->0;
            let parts = member(message, "parts"@)->0;
            &&& member(params, "message"@) is Some
            &&& member(message, "messageId"@) == Some(JsonView::String(message_id))
            &&& member(message, "role"@) == Some(JsonView::String("ROLE_USER"@))
            &&& member(message, "parts"@) is Some
            &&& element(parts, 0) is Some
            &&& element(parts, 1) is None
            &&& member(element(parts, 0)->0, "text"@) == Some(JsonView::String(prompt))
            &&& forall|name: Seq<char>| #[trigger]
                member(element(parts, 0)->0, name) is Some ==> name == "text"@
            &&& continuation.task_id is None ==> member(message, "taskId"@) is None
            &&& continuation.task_id is Some ==> member(message, "taskId"@) == Some(
                JsonView::String(continuation.task_id->0),
            )
            &&& continuation.context_id is None ==> member(message, "contextId"@) is None
            &&& continuation.context_id is Some ==> member(message, "contextId"@) == Some(
                JsonView::String(continuation.context_id->0),
            )
            &&& metadata is Some && metadata->0 is Object ==> member(message, "metadata"@)
                == metadata
            &&& !(metadata is Some && metadata->0 is Object) ==> member(message, "metadata"@) is None
            &&& forall|name: Seq<char>| #[trigger]
                member(message, name) is Some ==> name == "messageId"@ || name == "role"@ || name
                    == "parts"@ || name == "taskId"@ || name == "contextId"@ || name == "metadata"@
        }),
{
    reveal_strlit("message");
    reveal_strlit("configuration");
    assert("message"@.len() == 7 && "configuration"@.len() == 13);
    let params = send_message_view(prompt, message_id, continuation, configuration, metadata);
    assert(member(params, "message"@) == Some(
        JsonView::Object(message_view(prompt, message_id, continuation, metadata)),
    ));
    law_message_says_what_it_was_given(prompt, message_id, continuation, metadata);
}

/// A send carries the operator's configuration exactly where there is one, whatever the prompt,
/// the task and the metadata are: `returnImmediately` is the inverse of `blocking`, and
/// `acceptedOutputModes` lists the modes in their order, where modes are set. Nothing else stands
/// in it, nor beside the message and it.
pub proof fn law_send_carries_the_configuration(
    prompt: Seq<char>,
    message_id: Seq<char>,
    continuation: ContinuationView,
    configuration: Option<SendConfigurationView>,
    metadata: Option<JsonView>,
    i: nat,
)
    ensures
        ({
            let params = send_message_view(
                prompt,
                message_id,
                continuation,
                configuration,
                metadata,
            );
            let sent = member(params, "configuration"@);
            let modes = member(sent->0, "acceptedOutputModes"@);
            &&& forall|name: Seq<char>| #[trigger]
                member(params, name) is Some ==> name == "message"@ || name == "configuration"@
            &&& sent is Some <==> configuration is Some
            &&& configuration is Some ==> {
                &&& member(sent->0, "returnImmediately"@) == Some(
                    JsonView::Bool(!configuration->0.blocking),
                )
                &&& modes is Some <==> configuration->0.accepted_output_modes is Some
                &&& modes is Some ==> {
                    let set = configuration->0.accepted_output_modes->0;
                    &&& i < set.len() ==> element(modes->0, i) == Some(
                        JsonView::String(set[i as int]),
                    )
                    &&& i >= set.len() ==> element(modes->0, i) is None
                    &&& modes->0 is Array
                }
                &&& forall|name: Seq<char>| #[trigger]
                    member(sent->0, name) is Some ==> name == "returnImmediately"@ || name
                        == "acceptedOutputModes"@
            }
        }),
{
    reveal_strlit("message");
    reveal_strlit("configuration");
    reveal_strlit("returnImmediately");
    reveal_strlit("acceptedOutputModes");
    assert("message"@.len() == 7 && "configuration"@.len() == 13);
    assert("returnImmediately"@.len() == 17 && "acceptedOutputModes"@.len() == 19);
}

/// Which states mean that a task goes on, and which that it is over, name by name. Every other
/// state means neither.
pub proof fn law_states_by_name(state: Seq<char>)
    ensures
        class_of(state) == StateClass::Continuable <==> {
            ||| state == "TASK_STATE_SUBMITTED"@ || state == "submitted"@
            ||| state == "TASK_STATE_WORKING"@ || state == "working"@
            ||| state == "TASK_STATE_INPUT_REQUIRED"@ || state == "input-required"@
            ||| state == "TASK_STATE_AUTH_REQUIRED"@ || state == "auth-required"@
        },
        class_of(state) == StateClass::Terminal <==> {
            ||| state == "TASK_STATE_COMPLETED"@ || state == "completed"@
            ||| state == "TASK_STATE_FAILED"@ || state == "failed"@
            ||| state == "TASK_STATE_CANCELED"@ || state == "canceled"@ || state == "cancelled"@
            ||| state == "TASK_STATE_REJECTED"@ || state == "rejected"@
        },
{
    law_no_state_is_alive_and_done(state);
}

/// What is read from a reply is seen as it is, and a reply without a state has no task to resume.
pub proof fn law_parsed_result_is_seen_whole(parsed: ParsedResult)
    ensures
        parsed@.state is Some <==> parsed.state is Some,
        parsed.state is Some ==> parsed@.state->0 == parsed.state->0@,
        parsed@.continuation.task_id is Some <==> parsed.task_id is Some,
        parsed.task_id is Some ==> parsed@.continuation.task_id->0 == parsed.task_id->0@,
        parsed@.continuation.context_id is Some <==> parsed.context_id is Some,
        parsed.context_id is Some ==> parsed@.continuation.context_id->0 == parsed.context_id->0@,
        parsed.state is None ==> parsed@.class() == StateClass::Terminal,
        parsed.state is Some ==> parsed@.class() == class_of(parsed.state->0@),
{
}

/// Whether a text is found at a member.
pub open spec fn says_at(value: JsonView, name: Seq<char>, text: Option<Seq<char>>) -> bool {
    match text {
        Some(text) => member(value, name) == Some(JsonView::String(text)),
        None => !(member(value, name) is Some && member(value, name)->0 is String),
    }
}

/// What a reply tells. A task, which is the member `task` or a reply that has a `status`, tells its
/// state and identifiers; a message, in a reply without a task, its identifiers and no state; any
/// other reply nothing. A member that is no string tells nothing.
pub proof fn law_reply_tells_its_task(result: JsonView)
    ensures
        ({
            let parsed = parse_result_view(result);
            let wrapped = member(result, "task"@);
            let bare = wrapped is None && member(result, "status"@) is Some;
            let task = if wrapped is Some {
                wrapped->0
            } else {
                result
            };
            let message = member(result, "message"@);
            &&& wrapped is Some || bare ==> {
                &&& says_at(task, "id"@, parsed.continuation.task_id)
                &&& says_at(task, "contextId"@, parsed.continuation.context_id)
                &&& member(task, "status"@) is None ==> parsed.state is None
                &&& member(task, "status"@) is Some ==> says_at(
                    member(task, "status"@)->0,
                    "state"@,
                    parsed.state,
                )
            }
            &&& wrapped is None && !bare ==> {
                &&& parsed.state is None
                &&& message is Some ==> says_at(
                    message->0,
                    "taskId"@,
                    parsed.continuation.task_id,
                )
                &&& message is Some ==> says_at(
                    message->0,
                    "contextId"@,
                    parsed.continuation.context_id,
                )
                &&& message is None ==> parsed.continuation.task_id is None
                    && parsed.continuation.context_id is None
            }
        }),
{
}

/// The identifier of a message is the first half of the hexadecimal form of a digest: the first 32
/// digits, or all of them where there are fewer.
pub proof fn law_message_id_begins_the_digest(digest: Seq<u8>)
    ensures
        2 * digest.len() >= 32 ==> message_id_view(digest) == hex_text(digest).take(32),
        2 * digest.len() < 32 ==> message_id_view(digest) == hex_text(digest),
{
    if digest.len() >= 16 {
        assert(message_id_view(digest) =~= hex_text(digest).take(32));
    }
}

} // verus!
